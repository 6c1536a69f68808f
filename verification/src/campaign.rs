use vstd::prelude::*;

use crate::ledger::{Ledger, lemma_record, no_dup_keys, spec_record, sum_of};

verus! {

/// One funding campaign: its owner, an informational target, a deadline, the
/// running total of donations, and the per-contributor ledger.
pub struct Project {
    /// The identity that created the campaign; the only one allowed to claim.
    pub owner: String,
    /// Display name of the campaign.
    pub name: String,
    /// Display description of the campaign.
    pub description: String,
    /// The funding goal; informational only, never enforced as a cap.
    pub target: u128,
    /// Logical time up to which (inclusive) donations are accepted.
    pub deadline: u64,
    /// Running total of all donations; always the sum of the ledger.
    pub amount: u128,
    /// The per-contributor donation ledger.
    pub donations: Ledger,
}

/// The mathematical value of a campaign.
pub ghost struct ProjectView {
    pub owner: Seq<char>,
    pub name: Seq<char>,
    pub description: Seq<char>,
    pub target: u128,
    pub deadline: u64,
    pub amount: u128,
    pub donations: Seq<(Seq<char>, u128)>,
}

impl View for Project {
    type V = ProjectView;

    open spec fn view(&self) -> ProjectView {
        ProjectView {
            owner: self.owner@,
            name: self.name@,
            description: self.description@,
            target: self.target,
            deadline: self.deadline,
            amount: self.amount,
            donations: self.donations@,
        }
    }
}

impl ProjectView {
    /// The campaign invariant: the ledger holds one entry per contributor and
    /// the running total equals the sum of all ledger entries.
    pub open spec fn wf(self) -> bool {
        &&& no_dup_keys(self.donations)
        &&& self.amount as int == sum_of(self.donations)
    }

    /// The campaign after a donation of `amount` from `contributor`.
    pub open spec fn donated(self, contributor: Seq<char>, amount: u128) -> ProjectView {
        ProjectView {
            owner: self.owner,
            name: self.name,
            description: self.description,
            target: self.target,
            deadline: self.deadline,
            amount: (self.amount + amount) as u128,
            donations: spec_record(self.donations, contributor, amount),
        }
    }
}

impl Project {
    /// A fresh campaign: fixed owner, target and deadline, no donations yet.
    pub fn new(
        owner: String,
        name: String,
        description: String,
        target: u128,
        deadline: u64,
    ) -> (r: Project)
        ensures
            r@.owner == owner@,
            r@.name == name@,
            r@.description == description@,
            r@.target == target,
            r@.deadline == deadline,
            r@.amount == 0,
            r@.donations == Seq::<(Seq<char>, u128)>::empty(),
            r@.wf(),
    {
        Project { owner, name, description, target, deadline, amount: 0, donations: Ledger::new() }
    }

    /// Apply a donation to this campaign: grow the running total and record
    /// the contribution in the ledger, atomically.
    pub fn record_donation(&mut self, contributor: String, amount: u128)
        requires
            old(self)@.wf(),
            old(self)@.amount + amount <= u128::MAX,
        ensures
            final(self)@ == old(self)@.donated(contributor@, amount),
            final(self)@.wf(),
    {
        proof {
            lemma_record(self.donations@, contributor@, amount);
        }
        let total = self.amount + amount;
        self.amount = total;
        self.donations.record(contributor, amount);
    }
}

} // verus!
