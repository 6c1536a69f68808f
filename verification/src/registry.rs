use vstd::prelude::*;

use crate::campaign::{Project, ProjectView};
use crate::errors::Error;

verus! {

/// A payout authorized by a successful claim: the hosting environment must
/// transfer `amount` to the identity `to`.
pub struct Transfer {
    /// The destination of the payout: the campaign owner.
    pub to: String,
    /// The amount to transfer: the campaign's donated total.
    pub amount: u128,
}

/// The mathematical value of a payout.
pub ghost struct TransferView {
    pub to: Seq<char>,
    pub amount: u128,
}

impl View for Transfer {
    type V = TransferView;

    open spec fn view(&self) -> TransferView {
        TransferView { to: self.to@, amount: self.amount }
    }
}

/// The campaign registry: campaign with identifier `i` lives at position
/// `i - 1`, so identifiers are assigned sequentially starting at 1 and are
/// never reused (campaigns are never deleted).
pub struct Crowdfunding {
    /// All campaigns, in order of creation.
    pub projects: Vec<Project>,
}

impl View for Crowdfunding {
    type V = Seq<ProjectView>;

    open spec fn view(&self) -> Seq<ProjectView> {
        self.projects@.map_values(|p: Project| p@)
    }
}

/// The registry invariant: every campaign is well-formed.
pub open spec fn reg_wf(s: Seq<ProjectView>) -> bool {
    forall|i: int| 0 <= i < s.len() ==> s[i].wf()
}

/// Whether a campaign with identifier `id` exists.
pub open spec fn spec_has_campaign(s: Seq<ProjectView>, id: u64) -> bool {
    1 <= id && id <= s.len()
}

/// The campaign with identifier `id`.
pub open spec fn spec_campaign(s: Seq<ProjectView>, id: u64) -> ProjectView {
    s[id - 1]
}

/// The outcome of creating a campaign: the new campaign is appended and gets
/// the next sequential identifier, one more than the count so far.
pub open spec fn spec_create(
    s: Seq<ProjectView>,
    owner: Seq<char>,
    name: Seq<char>,
    description: Seq<char>,
    target: u128,
    deadline: u64,
) -> (Seq<ProjectView>, u64) {
    let p = ProjectView {
        owner: owner,
        name: name,
        description: description,
        target: target,
        deadline: deadline,
        amount: 0,
        donations: Seq::empty(),
    };
    (s.push(p), (s.len() + 1) as u64)
}

/// The outcome of a donation, as a function of the prior state and the
/// injected contributor identity, attached amount, and current time: the
/// resulting state and the caller-visible result.  A donation succeeds only
/// on an existing campaign, at or before its deadline, when the running
/// total cannot overflow; a failing donation leaves the state untouched.
pub open spec fn spec_donate(
    s: Seq<ProjectView>,
    id: u64,
    contributor: Seq<char>,
    amount: u128,
    now: u64,
) -> (Seq<ProjectView>, Result<(), Error>) {
    if !spec_has_campaign(s, id) {
        (s, Err(Error::NotFound))
    } else if now > spec_campaign(s, id).deadline {
        (s, Err(Error::DeadlinePassed))
    } else if spec_campaign(s, id).amount + amount > u128::MAX {
        (s, Err(Error::Overflow))
    } else {
        (s.update(id - 1, spec_campaign(s, id).donated(contributor, amount)), Ok(()))
    }
}

/// The outcome of a claim, as a function of the state and the injected
/// caller identity and current time.  A claim succeeds only on an existing
/// campaign, strictly after its deadline, by the campaign owner, and then
/// authorizes the payout of the donated total to the owner; it never mutates
/// the registry.
pub open spec fn spec_claim(
    s: Seq<ProjectView>,
    id: u64,
    caller: Seq<char>,
    now: u64,
) -> Result<TransferView, Error> {
    if !spec_has_campaign(s, id) {
        Err(Error::NotFound)
    } else if now <= spec_campaign(s, id).deadline {
        Err(Error::ClaimTooEarly)
    } else if caller != spec_campaign(s, id).owner {
        Err(Error::Unauthorized)
    } else {
        Ok(TransferView { to: spec_campaign(s, id).owner, amount: spec_campaign(s, id).amount })
    }
}

/// A claim result stripped to its mathematical value.
pub open spec fn claim_result_view(r: Result<Transfer, Error>) -> Result<TransferView, Error> {
    match r {
        Ok(t) => Ok(t@),
        Err(e) => Err(e),
    }
}

impl Default for Crowdfunding {
    /// An empty registry with no campaigns (multi-campaign mode).
    fn default() -> (r: Self)
        ensures
            r@ == Seq::<ProjectView>::empty(),
            r.wf(),
    {
        let c = Crowdfunding { projects: Vec::new() };
        proof {
            assert(c@ =~= Seq::<ProjectView>::empty());
        }
        c
    }
}

impl Crowdfunding {
    /// The registry invariant.
    pub open spec fn wf(&self) -> bool {
        reg_wf(self@)
    }

    /// Single-campaign mode: a registry holding exactly one campaign, with
    /// identifier 1, owned by the injected caller identity.
    pub fn new(owner: String, target: u128, deadline: u64) -> (r: Crowdfunding)
        ensures
            r.wf(),
            r@.len() == 1,
            r@[0].owner == owner@,
            r@[0].name == Seq::<char>::empty(),
            r@[0].description == Seq::<char>::empty(),
            r@[0].target == target,
            r@[0].deadline == deadline,
            r@[0].amount == 0,
            r@[0].donations == Seq::<(Seq<char>, u128)>::empty(),
    {
        let mut projects: Vec<Project> = Vec::new();
        projects.push(Project::new(owner, String::new(), String::new(), target, deadline));
        Crowdfunding { projects }
    }

    /// Create a campaign owned by the injected caller identity and return
    /// its identifier: one more than the number of campaigns so far, so
    /// identifiers run 1, 2, 3, … strictly increasing with no reuse.
    pub fn create_project(
        &mut self,
        owner: String,
        name: String,
        description: String,
        target: u128,
        deadline: u64,
    ) -> (r: u64)
        requires
            old(self)@.len() < u64::MAX,
        ensures
            (final(self)@, r) == spec_create(
                old(self)@,
                owner@,
                name@,
                description@,
                target,
                deadline,
            ),
            r == old(self)@.len() + 1,
            !spec_has_campaign(old(self)@, r),
            spec_has_campaign(final(self)@, r),
            final(self)@.len() == old(self)@.len() + 1,
            forall|i: int| 0 <= i < old(self)@.len() ==> final(self)@[i] == old(self)@[i],
            old(self).wf() ==> final(self).wf(),
    {
        let id = (self.projects.len() as u64) + 1;
        self.projects.push(Project::new(owner, name, description, target, deadline));
        proof {
            assert(self@ =~= old(self)@.push(self@[old(self)@.len() as int]));
            if old(self).wf() {
                assert forall|i: int| 0 <= i < self@.len() implies self@[i].wf() by {
                    if i < old(self)@.len() {
                        assert(self@[i] == old(self)@[i]);
                    }
                }
            }
        }
        id
    }

    /// Read-only lookup of the campaign with identifier `id`.
    pub fn get_project(&self, id: u64) -> (r: Option<&Project>)
        ensures
            match r {
                Some(p) => spec_has_campaign(self@, id) && p@ == spec_campaign(self@, id),
                None => !spec_has_campaign(self@, id),
            },
    {
        if id < 1 || id > (self.projects.len() as u64) {
            None
        } else {
            let idx: usize = (id - 1) as usize;
            Some(&self.projects[idx])
        }
    }

    /// All campaigns, in creation order: the campaign with identifier `i`
    /// is at position `i - 1`.
    pub fn get_projects(&self) -> (r: &Vec<Project>)
        ensures
            r@.len() == self@.len(),
            forall|i: int| 0 <= i < r@.len() ==> r@[i]@ == self@[i],
    {
        &self.projects
    }

    /// Donate `amount` to campaign `id`; the contributor identity, the
    /// attached amount, and the current time are injected by the hosting
    /// environment.  Fails with `NotFound` on an unknown identifier, with
    /// `DeadlinePassed` strictly after the deadline, and with `Overflow`
    /// when the running total cannot take the amount; every failure leaves
    /// the registry exactly as it was.
    pub fn donate(&mut self, id: u64, contributor: String, amount: u128, now: u64) -> (r: Result<
        (),
        Error,
    >)
        requires
            old(self).wf(),
        ensures
            final(self).wf(),
            (final(self)@, r) == spec_donate(old(self)@, id, contributor@, amount, now),
            r is Err ==> final(self)@ == old(self)@,
            (r == Err::<(), Error>(Error::NotFound)) <==> !spec_has_campaign(old(self)@, id),
            (r == Err::<(), Error>(Error::DeadlinePassed)) <==> (spec_has_campaign(old(self)@, id)
                && now > spec_campaign(old(self)@, id).deadline),
            (r == Err::<(), Error>(Error::Overflow)) <==> (spec_has_campaign(old(self)@, id)
                && now <= spec_campaign(old(self)@, id).deadline
                && spec_campaign(old(self)@, id).amount + amount > u128::MAX),
            r is Ok <==> (spec_has_campaign(old(self)@, id)
                && now <= spec_campaign(old(self)@, id).deadline
                && spec_campaign(old(self)@, id).amount + amount <= u128::MAX),
            r is Ok ==> final(self)@ == old(self)@.update(
                id - 1,
                spec_campaign(old(self)@, id).donated(contributor@, amount),
            ),
    {
        if id < 1 || id > (self.projects.len() as u64) {
            return Err(Error::NotFound);
        }
        let idx: usize = (id - 1) as usize;
        let p = &self.projects[idx];
        if now > p.deadline {
            return Err(Error::DeadlinePassed);
        }
        if amount > u128::MAX - p.amount {
            return Err(Error::Overflow);
        }
        proof {
            assert(old(self)@[idx as int].wf());
            assert(self.projects@[idx as int]@ == old(self)@[idx as int]);
        }
        let pm = &mut self.projects[idx];
        pm.record_donation(contributor, amount);
        proof {
            assert(self@ =~= old(self)@.update(
                id - 1,
                spec_campaign(old(self)@, id).donated(contributor@, amount),
            ));
            assert forall|i: int| 0 <= i < self@.len() implies self@[i].wf() by {
                if i != idx as int {
                    assert(self@[i] == old(self)@[i]);
                }
            }
        }
        Ok(())
    }

    /// Validate a claim of campaign `id` and authorize the payout; the
    /// caller identity and the current time are injected by the hosting
    /// environment.  Checked in order: the campaign must exist
    /// (`NotFound`), the deadline must have passed (`ClaimTooEarly`), and
    /// the caller must be the owner (`Unauthorized`).  On success the
    /// returned transfer pays exactly the donated total to the owner.
    pub fn claim(&self, id: u64, caller: &String, now: u64) -> (r: Result<Transfer, Error>)
        ensures
            claim_result_view(r) == spec_claim(self@, id, caller@, now),
            (r == Err::<Transfer, Error>(Error::NotFound)) <==> !spec_has_campaign(self@, id),
            (r == Err::<Transfer, Error>(Error::ClaimTooEarly)) <==> (spec_has_campaign(self@, id)
                && now <= spec_campaign(self@, id).deadline),
            (r == Err::<Transfer, Error>(Error::Unauthorized)) <==> (spec_has_campaign(self@, id)
                && now > spec_campaign(self@, id).deadline
                && caller@ != spec_campaign(self@, id).owner),
            r is Ok <==> (spec_has_campaign(self@, id)
                && now > spec_campaign(self@, id).deadline
                && caller@ == spec_campaign(self@, id).owner),
            r matches Ok(t) ==> t@.to == spec_campaign(self@, id).owner
                && t@.amount == spec_campaign(self@, id).amount,
    {
        if id < 1 || id > (self.projects.len() as u64) {
            return Err(Error::NotFound);
        }
        let idx: usize = (id - 1) as usize;
        let p = &self.projects[idx];
        if now <= p.deadline {
            return Err(Error::ClaimTooEarly);
        }
        if !(*caller == p.owner) {
            return Err(Error::Unauthorized);
        }
        Ok(Transfer { to: p.owner.clone(), amount: p.amount })
    }

    /// Owner of campaign 1 (single-campaign mode).
    pub fn get_owner(&self) -> (r: String)
        requires
            self@.len() >= 1,
        ensures
            r@ == self@[0].owner,
    {
        let p = &self.projects[0];
        p.owner.clone()
    }

    /// Funding target of campaign 1 (single-campaign mode).
    pub fn get_target(&self) -> (r: u128)
        requires
            self@.len() >= 1,
        ensures
            r == self@[0].target,
    {
        let p = &self.projects[0];
        p.target
    }

    /// Deadline of campaign 1 (single-campaign mode).
    pub fn get_deadline(&self) -> (r: u64)
        requires
            self@.len() >= 1,
        ensures
            r == self@[0].deadline,
    {
        let p = &self.projects[0];
        p.deadline
    }

    /// Donated total of campaign 1 (single-campaign mode).
    pub fn get_amount(&self) -> (r: u128)
        requires
            self@.len() >= 1,
        ensures
            r == self@[0].amount,
    {
        let p = &self.projects[0];
        p.amount
    }

    /// The donations of campaign 1 (single-campaign mode): every contributor
    /// exactly once, in first-donation order, with their cumulative amount.
    pub fn get_donations(&self) -> (r: Vec<(String, u128)>)
        requires
            self@.len() >= 1,
        ensures
            r@.len() == self@[0].donations.len(),
            forall|i: int| 0 <= i < r@.len() ==> (r@[i].0@, r@[i].1) == self@[0].donations[i],
    {
        let p = &self.projects[0];
        p.donations.enumerate()
    }
}

} // verus!
