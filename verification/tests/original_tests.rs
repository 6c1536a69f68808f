use crowdfunding::Crowdfunding;

const NEAR: u128 = 1000000000000000000000000;

#[test]
fn set_then_donate() {
    // The hosting environment's caller identity and attached deposit are
    // injected as plain arguments; the clock has not advanced past zero.
    let mut contract = Crowdfunding::new("test_account".to_string(), 5 * NEAR, 1706897045);
    assert_eq!(contract.get_owner(), "test_account".to_string());
    assert_eq!(contract.get_target(), 5 * NEAR);
    assert_eq!(contract.get_deadline(), 1706897045);

    contract
        .donate(1, "donation_account_1".to_string(), 1 * NEAR, 0)
        .unwrap();
    assert_eq!(
        contract.get_donations(),
        vec![("donation_account_1".to_string(), 1 * NEAR)]
    );
    assert_eq!(contract.get_amount(), 1 * NEAR);

    contract
        .donate(1, "donation_account_2".to_string(), 2 * NEAR, 0)
        .unwrap();
    assert_eq!(
        contract.get_donations(),
        vec![
            ("donation_account_1".to_string(), 1 * NEAR),
            ("donation_account_2".to_string(), 2 * NEAR)
        ]
    );
    assert_eq!(contract.get_amount(), 3 * NEAR);
}

#[test]
fn test_create_and_get_project() {
    let mut contract = Crowdfunding::default();

    // Create project
    let deadline: u64 = 0;
    let name = "Test".to_string();
    let description = "Test description".to_string();
    let target = 100;
    let id = contract.create_project(
        "owner_account".to_string(),
        name.clone(),
        description.clone(),
        target,
        deadline,
    );

    // Get projects
    let projects = contract.get_projects();
    assert_eq!(projects.len(), 1);
    assert_eq!(id, 1);
    let project = contract.get_project(id).expect("No projects found");
    assert_eq!(project.name, name);
    assert_eq!(project.description, description);
    assert_eq!(project.target, target);
    assert_eq!(project.deadline, deadline);

    // First donation
    contract
        .donate(id, "donation_account_2".to_string(), 2 * NEAR, 0)
        .unwrap();
    let project = contract.get_project(id).expect("No projects found");
    let donations = project.donations.enumerate();
    let (donation_account_id, donation) = donations.first().expect("No donations found");
    assert_eq!(donation_account_id.to_string(), "donation_account_2");
    assert_eq!(*donation, 2 * NEAR);
    assert_eq!(project.amount, 2 * NEAR);
}
