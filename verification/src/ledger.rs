use vstd::prelude::*;

verus! {

// A donation ledger is a sequence of entries, one per contributor, in
// first-donation order.  At the specification level an entry is the
// contributor's identity (a sequence of characters) paired with the
// cumulative amount donated so far.

/// Whether some entry of `s` belongs to contributor `k`.
pub open spec fn has_key(s: Seq<(Seq<char>, u128)>, k: Seq<char>) -> bool {
    exists|i: int| 0 <= i < s.len() && s[i].0 == k
}

/// The position of contributor `k`'s entry (unique when keys are distinct).
pub open spec fn key_index(s: Seq<(Seq<char>, u128)>, k: Seq<char>) -> int {
    choose|i: int| 0 <= i < s.len() && s[i].0 == k
}

/// The cumulative amount recorded for `k`, or zero if `k` has no entry.
pub open spec fn amount_of(s: Seq<(Seq<char>, u128)>, k: Seq<char>) -> int {
    if has_key(s, k) {
        s[key_index(s, k)].1 as int
    } else {
        0
    }
}

/// The contributors in first-donation order.
pub open spec fn order_of(s: Seq<(Seq<char>, u128)>) -> Seq<Seq<char>> {
    s.map_values(|e: (Seq<char>, u128)| e.0)
}

/// The ledger read as a map from contributor to cumulative amount.
pub open spec fn map_of(s: Seq<(Seq<char>, u128)>) -> Map<Seq<char>, u128>
    decreases s.len(),
{
    if s.len() == 0 {
        Map::empty()
    } else {
        map_of(s.drop_last()).insert(s.last().0, s.last().1)
    }
}

/// No two entries belong to the same contributor.
pub open spec fn no_dup_keys(s: Seq<(Seq<char>, u128)>) -> bool {
    forall|i: int, j: int| 0 <= i < j < s.len() ==> s[i].0 != s[j].0
}

/// The sum of all recorded amounts.
pub open spec fn sum_of(s: Seq<(Seq<char>, u128)>) -> int
    decreases s.len(),
{
    if s.len() == 0 {
        0
    } else {
        sum_of(s.drop_last()) + s.last().1
    }
}

/// The ledger after recording a donation of `amount` from `k`: a first
/// donation appends a fresh entry, a repeat donation adds to the existing
/// entry in place.
pub open spec fn spec_record(
    s: Seq<(Seq<char>, u128)>,
    k: Seq<char>,
    amount: u128,
) -> Seq<(Seq<char>, u128)> {
    if has_key(s, k) {
        let i = key_index(s, k);
        s.update(i, (k, (s[i].1 + amount) as u128))
    } else {
        s.push((k, amount))
    }
}

pub proof fn lemma_sum_nonneg(s: Seq<(Seq<char>, u128)>)
    ensures
        sum_of(s) >= 0,
    decreases s.len(),
{
    if s.len() > 0 {
        lemma_sum_nonneg(s.drop_last());
    }
}

pub proof fn lemma_sum_push(s: Seq<(Seq<char>, u128)>, e: (Seq<char>, u128))
    ensures
        sum_of(s.push(e)) == sum_of(s) + e.1,
{
    assert(s.push(e).drop_last() =~= s);
    assert(s.push(e).last() == e);
}

pub proof fn lemma_sum_update(s: Seq<(Seq<char>, u128)>, i: int, e: (Seq<char>, u128))
    requires
        0 <= i < s.len(),
    ensures
        sum_of(s.update(i, e)) == sum_of(s) - s[i].1 + e.1,
    decreases s.len(),
{
    let t = s.update(i, e);
    if i == s.len() - 1 {
        assert(t.drop_last() =~= s.drop_last());
        assert(t.last() == e);
    } else {
        assert(t.drop_last() =~= s.drop_last().update(i, e));
        lemma_sum_update(s.drop_last(), i, e);
        assert(t.last() == s.last());
    }
}

/// Each single entry is bounded by the ledger sum.
pub proof fn lemma_entry_le_sum(s: Seq<(Seq<char>, u128)>, i: int)
    requires
        0 <= i < s.len(),
    ensures
        s[i].1 <= sum_of(s),
    decreases s.len(),
{
    lemma_sum_nonneg(s.drop_last());
    if i < s.len() - 1 {
        lemma_entry_le_sum(s.drop_last(), i);
        assert(s.drop_last()[i] == s[i]);
    } else {
        assert(s.last() == s[i]);
    }
}

/// What recording one donation does to a well-formed ledger: keys stay
/// distinct, the sum grows by exactly the donated amount, the enumeration
/// order is unchanged for a repeat contributor and gains the newcomer at the
/// end for a first donation, the contributor's own amount grows by the
/// donation, and every other contributor's amount is untouched.
pub proof fn lemma_record(s: Seq<(Seq<char>, u128)>, k: Seq<char>, amount: u128)
    requires
        no_dup_keys(s),
        sum_of(s) + amount <= u128::MAX,
    ensures
        no_dup_keys(spec_record(s, k, amount)),
        sum_of(spec_record(s, k, amount)) == sum_of(s) + amount,
        order_of(spec_record(s, k, amount)) == if has_key(s, k) {
            order_of(s)
        } else {
            order_of(s).push(k)
        },
        amount_of(spec_record(s, k, amount), k) == amount_of(s, k) + amount,
        forall|k2: Seq<char>|
            k2 != k ==> amount_of(spec_record(s, k, amount), k2) == amount_of(s, k2),
        forall|k2: Seq<char>|
            has_key(spec_record(s, k, amount), k2) <==> (has_key(s, k2) || k2 == k),
{
    let t = spec_record(s, k, amount);
    if has_key(s, k) {
        let i = key_index(s, k);
        assert(0 <= i < s.len() && s[i].0 == k);
        lemma_entry_le_sum(s, i);
        assert(t == s.update(i, (k, (s[i].1 + amount) as u128)));
        lemma_sum_update(s, i, (k, (s[i].1 + amount) as u128));
        assert(order_of(t) =~= order_of(s));
        assert forall|a: int, b: int| 0 <= a < b < t.len() implies t[a].0 != t[b].0 by {
            assert(t[a].0 == s[a].0);
            assert(t[b].0 == s[b].0);
        }
        assert(has_key(t, k)) by {
            assert(t[i].0 == k);
        }
        let j = key_index(t, k);
        assert(0 <= j < t.len() && t[j].0 == k);
        if j != i {
            assert(t[j].0 == s[j].0);
            assert(false);
        }
        assert(amount_of(t, k) == amount_of(s, k) + amount);
        assert forall|k2: Seq<char>| k2 != k implies amount_of(t, k2) == amount_of(s, k2) by {
            lemma_record_other_key_update(s, k, amount, k2);
        }
        assert forall|k2: Seq<char>|
            has_key(t, k2) <==> (has_key(s, k2) || k2 == k) by {
            if has_key(t, k2) {
                let a = key_index(t, k2);
                if a == i {
                    assert(k2 == k);
                } else {
                    assert(s[a].0 == k2);
                }
            }
            if has_key(s, k2) {
                let a = key_index(s, k2);
                if a == i {
                    assert(k2 == k);
                    assert(t[i].0 == k2);
                } else {
                    assert(t[a].0 == k2);
                }
            }
            if k2 == k {
                assert(t[i].0 == k2);
            }
        }
    } else {
        assert(t == s.push((k, amount)));
        lemma_sum_push(s, (k, amount));
        assert(order_of(t) =~= order_of(s).push(k));
        let n = s.len() as int;
        assert forall|a: int, b: int| 0 <= a < b < t.len() implies t[a].0 != t[b].0 by {
            if b < n {
                assert(t[a].0 == s[a].0);
                assert(t[b].0 == s[b].0);
            } else {
                assert(t[b].0 == k);
                assert(t[a].0 == s[a].0);
                if s[a].0 == k {
                    assert(has_key(s, k));
                }
            }
        }
        assert(has_key(t, k)) by {
            assert(t[n].0 == k);
        }
        let j = key_index(t, k);
        assert(0 <= j < t.len() && t[j].0 == k);
        if j != n {
            assert(s[j].0 == k);
            assert(has_key(s, k));
        }
        assert(amount_of(t, k) == amount_of(s, k) + amount);
        assert forall|k2: Seq<char>| k2 != k implies amount_of(t, k2) == amount_of(s, k2) by {
            lemma_record_other_key_push(s, k, amount, k2);
        }
        assert forall|k2: Seq<char>|
            has_key(t, k2) <==> (has_key(s, k2) || k2 == k) by {
            if has_key(t, k2) {
                let a = key_index(t, k2);
                if a == n {
                    assert(k2 == k);
                } else {
                    assert(s[a].0 == k2);
                }
            }
            if has_key(s, k2) {
                let a = key_index(s, k2);
                assert(t[a].0 == k2);
            }
            if k2 == k {
                assert(t[n].0 == k2);
            }
        }
    }
}

proof fn lemma_record_other_key_update(
    s: Seq<(Seq<char>, u128)>,
    k: Seq<char>,
    amount: u128,
    k2: Seq<char>,
)
    requires
        no_dup_keys(s),
        has_key(s, k),
        k2 != k,
    ensures
        amount_of(s.update(key_index(s, k), (k, (s[key_index(s, k)].1 + amount) as u128)), k2)
            == amount_of(s, k2),
{
    let i = key_index(s, k);
    assert(0 <= i < s.len() && s[i].0 == k);
    let t = s.update(i, (k, (s[i].1 + amount) as u128));
    if has_key(t, k2) {
        let a = key_index(t, k2);
        assert(0 <= a < t.len() && t[a].0 == k2);
        assert(a != i);
        assert(s[a].0 == k2);
        assert(has_key(s, k2));
        let b = key_index(s, k2);
        assert(0 <= b < s.len() && s[b].0 == k2);
        assert(b != i);
        if a != b {
            assert(s[a].0 == s[b].0);
            assert(false);
        }
        assert(t[a].1 == s[b].1);
    } else {
        if has_key(s, k2) {
            let b = key_index(s, k2);
            assert(0 <= b < s.len() && s[b].0 == k2);
            assert(b != i);
            assert(t[b].0 == k2);
            assert(has_key(t, k2));
        }
    }
}

proof fn lemma_record_other_key_push(
    s: Seq<(Seq<char>, u128)>,
    k: Seq<char>,
    amount: u128,
    k2: Seq<char>,
)
    requires
        no_dup_keys(s),
        !has_key(s, k),
        k2 != k,
    ensures
        amount_of(s.push((k, amount)), k2) == amount_of(s, k2),
{
    let t = s.push((k, amount));
    let n = s.len() as int;
    if has_key(t, k2) {
        let a = key_index(t, k2);
        assert(0 <= a < t.len() && t[a].0 == k2);
        assert(a != n);
        assert(s[a].0 == k2);
        assert(has_key(s, k2));
        let b = key_index(s, k2);
        assert(0 <= b < s.len() && s[b].0 == k2);
        if a != b {
            assert(s[a].0 == s[b].0);
            assert(false);
        }
        assert(t[a].1 == s[b].1);
    } else {
        if has_key(s, k2) {
            let b = key_index(s, k2);
            assert(t[b].0 == k2);
            assert(has_key(t, k2));
        }
    }
}

/// Law: the enumeration order lists each contributor with a ledger entry
/// exactly once — it contains no duplicates, and its set equals the set of
/// the ledger's keys.
pub proof fn lemma_order_matches_keys(s: Seq<(Seq<char>, u128)>)
    requires
        no_dup_keys(s),
    ensures
        order_of(s).no_duplicates(),
        order_of(s).to_set() == map_of(s).dom(),
    decreases s.len(),
{
    assert forall|i: int, j: int|
        0 <= i < order_of(s).len() && 0 <= j < order_of(s).len() && i != j
        implies order_of(s)[i] != order_of(s)[j] by {
        assert(order_of(s)[i] == s[i].0);
        assert(order_of(s)[j] == s[j].0);
    }
    if s.len() == 0 {
        assert(order_of(s).to_set() =~= map_of(s).dom());
    } else {
        let d = s.drop_last();
        assert(no_dup_keys(d)) by {
            assert(forall|i: int| 0 <= i < d.len() ==> d[i] == s[i]);
        }
        lemma_order_matches_keys(d);
        assert(order_of(s) =~= order_of(d).push(s.last().0));
        assert(order_of(s).to_set() =~= order_of(d).to_set().insert(s.last().0)) by {
            assert forall|k: Seq<char>| order_of(s).to_set().contains(k)
                implies order_of(d).to_set().insert(s.last().0).contains(k) by {
                let i = choose|i: int| 0 <= i < order_of(s).len() && order_of(s)[i] == k;
                if i < d.len() {
                    assert(order_of(d)[i] == k);
                    assert(order_of(d).to_set().contains(k));
                }
            }
            assert forall|k: Seq<char>| order_of(d).to_set().insert(s.last().0).contains(k)
                implies order_of(s).to_set().contains(k) by {
                if order_of(d).to_set().contains(k) {
                    let i = choose|i: int| 0 <= i < order_of(d).len() && order_of(d)[i] == k;
                    assert(order_of(s)[i] == k);
                } else {
                    assert(order_of(s)[d.len() as int] == k);
                }
            }
        }
        assert(map_of(s).dom() =~= map_of(d).dom().insert(s.last().0));
        assert(order_of(s).to_set() == map_of(s).dom());
    }
}

/// A per-campaign donation ledger: one entry per contributor, kept in
/// first-donation order, each holding the contributor's cumulative amount.
pub struct Ledger {
    entries: Vec<(String, u128)>,
}

impl View for Ledger {
    type V = Seq<(Seq<char>, u128)>;

    closed spec fn view(&self) -> Seq<(Seq<char>, u128)> {
        self.entries@.map_values(|e: (String, u128)| (e.0@, e.1))
    }
}

impl Ledger {
    /// The ledger invariant: one entry per contributor.
    pub open spec fn wf(&self) -> bool {
        no_dup_keys(self@)
    }

    /// An empty ledger with no contributors.
    pub fn new() -> (r: Ledger)
        ensures
            r@ == Seq::<(Seq<char>, u128)>::empty(),
            r.wf(),
    {
        let l = Ledger { entries: Vec::new() };
        proof {
            assert(l@ =~= Seq::<(Seq<char>, u128)>::empty());
        }
        l
    }

    /// How many contributors have an entry.
    pub fn len(&self) -> (r: usize)
        ensures
            r == self@.len(),
    {
        self.entries.len()
    }

    /// The position of `contributor`'s entry, if one exists.
    pub fn index_of(&self, contributor: &String) -> (r: Option<usize>)
        ensures
            match r {
                Some(i) => 0 <= i < self@.len() && self@[i as int].0 == contributor@,
                None => !has_key(self@, contributor@),
            },
    {
        let n = self.entries.len();
        let mut i: usize = 0;
        while i < n
            invariant
                n == self@.len(),
                i <= n,
                forall|j: int| 0 <= j < i ==> self@[j].0 != contributor@,
            decreases n - i,
        {
            let e = &self.entries[i];
            if e.0 == *contributor {
                return Some(i);
            }
            i = i + 1;
        }
        proof {
            if has_key(self@, contributor@) {
                let j = key_index(self@, contributor@);
                assert(self@[j].0 == contributor@);
            }
        }
        None
    }

    /// The cumulative amount donated by `contributor`, zero if they have no
    /// entry.
    pub fn amount_for(&self, contributor: &String) -> (r: u128)
        requires
            self.wf(),
        ensures
            r as int == amount_of(self@, contributor@),
    {
        match self.index_of(contributor) {
            Some(i) => {
                proof {
                    assert(has_key(self@, contributor@));
                    let j = key_index(self@, contributor@);
                    assert(self@[j].0 == contributor@);
                    if i as int != j {
                        assert(false);
                    }
                }
                let e = &self.entries[i];
                e.1
            },
            None => 0,
        }
    }

    /// Record a donation: a first-time contributor gets a fresh entry and is
    /// appended to the enumeration order; a repeat donation adds to the
    /// existing entry.
    pub fn record(&mut self, contributor: String, amount: u128)
        requires
            old(self).wf(),
            sum_of(old(self)@) + amount <= u128::MAX,
        ensures
            final(self).wf(),
            final(self)@ == spec_record(old(self)@, contributor@, amount),
            sum_of(final(self)@) == sum_of(old(self)@) + amount,
    {
        proof {
            lemma_record(self@, contributor@, amount);
        }
        match self.index_of(&contributor) {
            Some(i) => {
                proof {
                    assert(has_key(self@, contributor@));
                    let j = key_index(self@, contributor@);
                    if i as int != j {
                        assert(false);
                    }
                    lemma_entry_le_sum(self@, i as int);
                }
                let mut e = self.entries.remove(i);
                let updated = e.1 + amount;
                e.1 = updated;
                self.entries.insert(i, e);
                proof {
                    assert(self@ =~= spec_record(old(self)@, contributor@, amount));
                }
            },
            None => {
                self.entries.push((contributor, amount));
                proof {
                    assert(self@ =~= spec_record(old(self)@, contributor@, amount));
                }
            },
        }
    }

    /// Every contributor exactly once, in first-donation order, each with
    /// their current cumulative amount.
    pub fn enumerate(&self) -> (r: Vec<(String, u128)>)
        ensures
            r@.len() == self@.len(),
            forall|i: int| 0 <= i < r@.len() ==> (r@[i].0@, r@[i].1) == self@[i],
    {
        let n = self.entries.len();
        let mut r: Vec<(String, u128)> = Vec::new();
        let mut i: usize = 0;
        while i < n
            invariant
                n == self@.len(),
                i <= n,
                r@.len() == i,
                forall|j: int| 0 <= j < i ==> (r@[j].0@, r@[j].1) == self@[j],
            decreases n - i,
        {
            let e = &self.entries[i];
            r.push((e.0.clone(), e.1));
            i = i + 1;
        }
        r
    }
}

} // verus!
