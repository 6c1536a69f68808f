use crowdfunding::{Crowdfunding, Error};

fn open_campaign(owner: &str, target: u128, deadline: u64) -> Crowdfunding {
    Crowdfunding::new(owner.to_string(), target, deadline)
}

#[test]
fn donate_to_nonexistent_campaign_fails_not_found() {
    let mut c = open_campaign("alice", 100, 10);
    let before_amount = c.get_amount();
    let before_donations = c.get_donations();
    assert_eq!(c.donate(2, "bob".to_string(), 5, 0), Err(Error::NotFound));
    assert_eq!(c.donate(0, "bob".to_string(), 5, 0), Err(Error::NotFound));
    assert_eq!(c.get_amount(), before_amount);
    assert_eq!(c.get_donations(), before_donations);
}

#[test]
fn donate_after_deadline_fails_deadline_passed() {
    let mut c = open_campaign("alice", 100, 10);
    c.donate(1, "bob".to_string(), 5, 10).unwrap();
    assert_eq!(
        c.donate(1, "bob".to_string(), 5, 11),
        Err(Error::DeadlinePassed)
    );
    assert_eq!(c.get_amount(), 5);
    assert_eq!(c.get_donations(), vec![("bob".to_string(), 5)]);
}

#[test]
fn same_contributor_donations_accumulate() {
    let mut c = open_campaign("alice", 1000, 10);
    c.donate(1, "a".to_string(), 100, 0).unwrap();
    c.donate(1, "a".to_string(), 50, 0).unwrap();
    assert_eq!(c.get_donations(), vec![("a".to_string(), 150)]);
    assert_eq!(c.get_amount(), 150);
}

#[test]
fn distinct_contributors_keep_first_donation_order() {
    let mut c = open_campaign("alice", 1000, 10);
    c.donate(1, "b".to_string(), 1, 0).unwrap();
    c.donate(1, "c".to_string(), 2, 0).unwrap();
    c.donate(1, "b".to_string(), 3, 0).unwrap();
    assert_eq!(
        c.get_donations(),
        vec![("b".to_string(), 4), ("c".to_string(), 2)]
    );
    assert_eq!(c.get_amount(), 6);
}

#[test]
fn zero_amount_donation_still_enters_order_once() {
    let mut c = open_campaign("alice", 1000, 10);
    c.donate(1, "b".to_string(), 0, 0).unwrap();
    c.donate(1, "b".to_string(), 0, 0).unwrap();
    assert_eq!(c.get_donations(), vec![("b".to_string(), 0)]);
    assert_eq!(c.get_amount(), 0);
}

#[test]
fn donation_overflow_fails_and_mutates_nothing() {
    let mut c = open_campaign("alice", 1000, 10);
    c.donate(1, "b".to_string(), u128::MAX, 0).unwrap();
    assert_eq!(c.donate(1, "c".to_string(), 1, 0), Err(Error::Overflow));
    assert_eq!(c.get_amount(), u128::MAX);
    assert_eq!(c.get_donations(), vec![("b".to_string(), u128::MAX)]);
}

#[test]
fn claim_before_deadline_fails_claim_too_early() {
    let mut c = open_campaign("alice", 100, 10);
    c.donate(1, "b".to_string(), 7, 0).unwrap();
    let caller = "alice".to_string();
    // at the deadline itself the campaign is still open
    assert!(matches!(c.claim(1, &caller, 10), Err(Error::ClaimTooEarly)));
    assert!(matches!(c.claim(1, &caller, 0), Err(Error::ClaimTooEarly)));
}

#[test]
fn claim_by_non_owner_fails_unauthorized() {
    let mut c = open_campaign("alice", 100, 10);
    c.donate(1, "b".to_string(), 7, 0).unwrap();
    let caller = "mallory".to_string();
    assert!(matches!(c.claim(1, &caller, 11), Err(Error::Unauthorized)));
}

#[test]
fn claim_of_unknown_campaign_fails_not_found() {
    let c = open_campaign("alice", 100, 10);
    let caller = "alice".to_string();
    assert!(matches!(c.claim(2, &caller, 11), Err(Error::NotFound)));
}

#[test]
fn claim_by_owner_after_deadline_transfers_total() {
    let mut c = open_campaign("alice", 100, 10);
    c.donate(1, "b".to_string(), 7, 0).unwrap();
    c.donate(1, "c".to_string(), 5, 10).unwrap();
    let caller = "alice".to_string();
    let t = c.claim(1, &caller, 11).unwrap();
    assert_eq!(t.to, "alice".to_string());
    assert_eq!(t.amount, 12);
}

#[test]
fn create_assigns_sequential_identifiers() {
    let mut c = Crowdfunding::default();
    let mut expected: u64 = 1;
    while expected <= 20 {
        let id = c.create_project(
            "owner".to_string(),
            format!("campaign {}", expected),
            String::new(),
            100,
            10,
        );
        assert_eq!(id, expected);
        expected += 1;
    }
    assert_eq!(c.get_projects().len(), 20);
    assert!(c.get_project(0).is_none());
    assert!(c.get_project(21).is_none());
    assert_eq!(c.get_project(7).unwrap().name, "campaign 7".to_string());
}

#[test]
fn replay_of_identical_operations_gives_identical_outputs() {
    fn run() -> (Crowdfunding, Vec<(String, u128)>, u128, Result<(), Error>) {
        let mut c = Crowdfunding::default();
        c.create_project(
            "owner".to_string(),
            "n".to_string(),
            "d".to_string(),
            500,
            10,
        );
        c.donate(1, "b".to_string(), 3, 1).unwrap();
        c.donate(1, "c".to_string(), 4, 2).unwrap();
        let late = c.donate(1, "b".to_string(), 9, 11);
        let p = c.get_project(1).unwrap();
        let donations = p.donations.enumerate();
        let amount = p.amount;
        (c, donations, amount, late)
    }
    let (c1, d1, a1, l1) = run();
    let (c2, d2, a2, l2) = run();
    assert_eq!(d1, d2);
    assert_eq!(a1, a2);
    assert_eq!(l1, l2);
    let caller = "owner".to_string();
    let t1 = c1.claim(1, &caller, 11).unwrap();
    let t2 = c2.claim(1, &caller, 11).unwrap();
    assert_eq!(t1.to, t2.to);
    assert_eq!(t1.amount, t2.amount);
}

#[test]
fn error_messages_distinguish_failure_kinds() {
    assert_eq!(Error::NotFound.message(), "campaign not found");
    assert_eq!(
        Error::DeadlinePassed.message(),
        "the deadline for this campaign has passed"
    );
    assert_eq!(
        Error::ClaimTooEarly.message(),
        "the campaign can be claimed only after the deadline ends"
    );
    assert_eq!(
        Error::Unauthorized.message(),
        "only the campaign owner may claim"
    );
    assert_eq!(Error::Overflow.message(), "amount overflow");
}

#[test]
fn fresh_campaign_has_empty_ledger() {
    let c = open_campaign("alice", 100, 10);
    assert_eq!(c.get_amount(), 0);
    let empty: Vec<(String, u128)> = vec![];
    assert_eq!(c.get_donations(), empty);
    assert_eq!(c.get_owner(), "alice".to_string());
}

#[test]
fn ledger_enumerate_and_lookup() {
    let mut l = crowdfunding::Ledger::new();
    assert_eq!(l.len(), 0);
    l.record("x".to_string(), 2);
    l.record("y".to_string(), 3);
    l.record("x".to_string(), 5);
    assert_eq!(l.len(), 2);
    assert_eq!(l.amount_for(&"x".to_string()), 7);
    assert_eq!(l.amount_for(&"y".to_string()), 3);
    assert_eq!(l.amount_for(&"z".to_string()), 0);
    assert_eq!(l.index_of(&"x".to_string()), Some(0));
    assert_eq!(l.index_of(&"y".to_string()), Some(1));
    assert_eq!(l.index_of(&"z".to_string()), None);
    assert_eq!(
        l.enumerate(),
        vec![("x".to_string(), 7), ("y".to_string(), 3)]
    );
}
