use vstd::prelude::*;

use crate::campaign::ProjectView;
use crate::ledger::{
    amount_of, has_key, lemma_order_matches_keys, lemma_record, map_of, order_of, sum_of,
};
use crate::registry::{
    reg_wf, spec_campaign, spec_claim, spec_create, spec_donate, spec_has_campaign,
};

verus! {

/// Law: for every campaign, at all times, the running total equals the sum
/// of the values in its ledger.
pub proof fn lemma_total_is_ledger_sum(s: Seq<ProjectView>, id: u64)
    requires
        reg_wf(s),
        spec_has_campaign(s, id),
    ensures
        spec_campaign(s, id).amount as int == sum_of(spec_campaign(s, id).donations),
{
}

/// Law: for every campaign, the contributor enumeration order contains no
/// duplicates and its set equals the set of the ledger's keys.
pub proof fn lemma_order_lists_each_contributor_once(s: Seq<ProjectView>, id: u64)
    requires
        reg_wf(s),
        spec_has_campaign(s, id),
    ensures
        order_of(spec_campaign(s, id).donations).no_duplicates(),
        order_of(spec_campaign(s, id).donations).to_set() == map_of(
            spec_campaign(s, id).donations,
        ).dom(),
{
    lemma_order_matches_keys(spec_campaign(s, id).donations);
}

/// Law: a donation preserves the registry invariant, whether it succeeds or
/// fails.
pub proof fn lemma_donate_preserves_wf(
    s: Seq<ProjectView>,
    id: u64,
    contributor: Seq<char>,
    amount: u128,
    now: u64,
)
    requires
        reg_wf(s),
    ensures
        reg_wf(spec_donate(s, id, contributor, amount, now).0),
{
    let t = spec_donate(s, id, contributor, amount, now).0;
    if spec_donate(s, id, contributor, amount, now).1 is Ok {
        let p = spec_campaign(s, id);
        assert(p.wf());
        lemma_record(p.donations, contributor, amount);
        assert forall|i: int| 0 <= i < t.len() implies t[i].wf() by {
            if i == id - 1 {
                assert(t[i] == p.donated(contributor, amount));
            } else {
                assert(t[i] == s[i]);
            }
        }
    }
}

/// Law: two sequential successful donations from the same contributor
/// accumulate: the contributor's ledger entry and the campaign total both
/// grow by the sum of the two amounts, and the contributor appears in the
/// enumeration order exactly as often as before the pair (once, appended at
/// the end, if they were new).
pub proof fn lemma_donations_accumulate(
    s: Seq<ProjectView>,
    id: u64,
    contributor: Seq<char>,
    a1: u128,
    a2: u128,
    n1: u64,
    n2: u64,
)
    requires
        reg_wf(s),
        spec_donate(s, id, contributor, a1, n1).1 is Ok,
        spec_donate(spec_donate(s, id, contributor, a1, n1).0, id, contributor, a2, n2).1 is Ok,
    ensures
        ({
            let mid = spec_donate(s, id, contributor, a1, n1).0;
            let t = spec_donate(mid, id, contributor, a2, n2).0;
            let before = spec_campaign(s, id).donations;
            let after = spec_campaign(t, id).donations;
            &&& amount_of(after, contributor) == amount_of(before, contributor) + a1 + a2
            &&& spec_campaign(t, id).amount == spec_campaign(s, id).amount + a1 + a2
            &&& order_of(after) == (if has_key(before, contributor) {
                order_of(before)
            } else {
                order_of(before).push(contributor)
            })
        }),
{
    let p = spec_campaign(s, id);
    assert(p.wf());
    lemma_record(p.donations, contributor, a1);
    let mid = spec_donate(s, id, contributor, a1, n1).0;
    let p1 = p.donated(contributor, a1);
    assert(spec_campaign(mid, id) == p1);
    lemma_record(p1.donations, contributor, a2);
}

/// Law: donations preserve first-donation order: a successful donation
/// leaves the enumeration order unchanged for a repeat contributor and
/// appends a first-time contributor at the end, and it never changes any
/// other contributor's recorded amount.
pub proof fn lemma_first_donation_order(
    s: Seq<ProjectView>,
    id: u64,
    contributor: Seq<char>,
    amount: u128,
    now: u64,
)
    requires
        reg_wf(s),
        spec_donate(s, id, contributor, amount, now).1 is Ok,
    ensures
        ({
            let t = spec_donate(s, id, contributor, amount, now).0;
            let before = spec_campaign(s, id).donations;
            let after = spec_campaign(t, id).donations;
            &&& order_of(after) == (if has_key(before, contributor) {
                order_of(before)
            } else {
                order_of(before).push(contributor)
            })
            &&& forall|k: Seq<char>|
                k != contributor ==> amount_of(after, k) == amount_of(before, k)
        }),
{
    lemma_record(spec_campaign(s, id).donations, contributor, amount);
}

/// Law: creation assigns the next sequential identifier: one more than the
/// number of existing campaigns, never the identifier of an existing
/// campaign, and larger than every identifier assigned before it.
pub proof fn lemma_create_assigns_fresh_id(
    s: Seq<ProjectView>,
    owner: Seq<char>,
    name: Seq<char>,
    description: Seq<char>,
    target: u128,
    deadline: u64,
)
    requires
        s.len() < u64::MAX,
    ensures
        ({
            let (t, id) = spec_create(s, owner, name, description, target, deadline);
            &&& id == s.len() + 1
            &&& !spec_has_campaign(s, id)
            &&& spec_has_campaign(t, id)
            &&& forall|i: u64| spec_has_campaign(s, i) ==> spec_has_campaign(t, i) && i < id
        }),
{
}

/// Law: identifiers strictly increase across successive creations: the
/// second of two creations returns exactly one more than the first, so
/// identifiers run 1, 2, 3, … with no reuse.
pub proof fn lemma_identifiers_strictly_increase(
    s: Seq<ProjectView>,
    owner1: Seq<char>,
    name1: Seq<char>,
    description1: Seq<char>,
    target1: u128,
    deadline1: u64,
    owner2: Seq<char>,
    name2: Seq<char>,
    description2: Seq<char>,
    target2: u128,
    deadline2: u64,
)
    requires
        s.len() + 1 < u64::MAX,
    ensures
        ({
            let (s1, id1) = spec_create(s, owner1, name1, description1, target1, deadline1);
            let (s2, id2) = spec_create(s1, owner2, name2, description2, target2, deadline2);
            &&& 1 <= id1
            &&& id2 == id1 + 1
        }),
{
}

/// Law: replay determinism.  Each operation's outcome — the next registry
/// state and the caller-visible result — is a function of the prior state
/// and the injected caller identity, time, and amount alone, so an identical
/// operation sequence applied to equal states yields equal states and equal
/// results.
pub proof fn lemma_replay_deterministic(
    s1: Seq<ProjectView>,
    s2: Seq<ProjectView>,
    id: u64,
    actor: Seq<char>,
    amount: u128,
    now: u64,
    name: Seq<char>,
    description: Seq<char>,
    target: u128,
    deadline: u64,
)
    requires
        s1 == s2,
    ensures
        spec_create(s1, actor, name, description, target, deadline) == spec_create(
            s2,
            actor,
            name,
            description,
            target,
            deadline,
        ),
        spec_donate(s1, id, actor, amount, now) == spec_donate(s2, id, actor, amount, now),
        spec_claim(s1, id, actor, now) == spec_claim(s2, id, actor, now),
{
}

} // verus!
