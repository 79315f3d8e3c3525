use vstd::prelude::*;
use crate::account::{AccountId, Balance};

verus! {

/// The balances mapping, stored as an association list whose keys are
/// pairwise distinct. A key that is absent reads as zero, so accounts
/// never have to be pre-populated with zero entries.
pub struct BalanceTable {
    pub entries: Vec<(AccountId, Balance)>,
}

/// No account appears in two entries.
pub open spec fn bal_keys_unique(s: Seq<(AccountId, Balance)>) -> bool {
    forall|i: int, j: int| 0 <= i < j < s.len() ==> s[i].0 != s[j].0
}

/// The balance recorded for `k`: the first entry carrying `k`, or zero
/// where none exists.
pub open spec fn bal_get(s: Seq<(AccountId, Balance)>, k: AccountId) -> Balance
    decreases s.len(),
{
    if s.len() == 0 {
        0
    } else if s[0].0 == k {
        s[0].1
    } else {
        bal_get(s.drop_first(), k)
    }
}

/// The sum of all recorded balances, as a mathematical integer.
pub open spec fn bal_sum(s: Seq<(AccountId, Balance)>) -> int
    decreases s.len(),
{
    if s.len() == 0 {
        0
    } else {
        s[0].1 + bal_sum(s.drop_first())
    }
}

pub proof fn lemma_bal_sum_nonneg(s: Seq<(AccountId, Balance)>)
    ensures
        bal_sum(s) >= 0,
    decreases s.len(),
{
    if s.len() > 0 {
        lemma_bal_sum_nonneg(s.drop_first());
    }
}

/// A single balance never exceeds the sum of all balances.
pub proof fn lemma_bal_get_le_sum(s: Seq<(AccountId, Balance)>, k: AccountId)
    ensures
        bal_get(s, k) <= bal_sum(s),
    decreases s.len(),
{
    if s.len() == 0 {
    } else if s[0].0 == k {
        lemma_bal_sum_nonneg(s.drop_first());
    } else {
        lemma_bal_get_le_sum(s.drop_first(), k);
        lemma_bal_sum_nonneg(s.drop_first());
    }
}

pub proof fn lemma_bal_unique_drop_first(s: Seq<(AccountId, Balance)>)
    requires
        s.len() > 0,
        bal_keys_unique(s),
    ensures
        bal_keys_unique(s.drop_first()),
{
    assert forall|i: int, j: int|
        0 <= i < j < s.drop_first().len() implies s.drop_first()[i].0 != s.drop_first()[j].0 by {
        assert(s.drop_first()[i] == s[i + 1]);
        assert(s.drop_first()[j] == s[j + 1]);
    }
}

/// With distinct keys, the entry at any index is the one `bal_get`
/// reads for its key.
pub proof fn lemma_bal_get_at_index(s: Seq<(AccountId, Balance)>, i: int)
    requires
        0 <= i < s.len(),
        bal_keys_unique(s),
    ensures
        bal_get(s, s[i].0) == s[i].1,
    decreases s.len(),
{
    if i > 0 {
        assert(s[0].0 != s[i].0);
        lemma_bal_unique_drop_first(s);
        lemma_bal_get_at_index(s.drop_first(), i - 1);
        assert(s.drop_first()[i - 1] == s[i]);
    }
}

/// Overwriting the entry that carries `k` changes the reading of `k`
/// and of no other key.
pub proof fn lemma_bal_get_update(
    s: Seq<(AccountId, Balance)>,
    i: int,
    k: AccountId,
    v: Balance,
    q: AccountId,
)
    requires
        0 <= i < s.len(),
        s[i].0 == k,
        bal_keys_unique(s),
    ensures
        bal_get(s.update(i, (k, v)), q) == if q == k {
            v
        } else {
            bal_get(s, q)
        },
    decreases s.len(),
{
    let t = s.update(i, (k, v));
    if i == 0 {
        assert(t[0] == (k, v));
        assert(t.drop_first() =~= s.drop_first());
    } else {
        assert(t[0] == s[0]);
        assert(s[0].0 != k);
        assert(t.drop_first() =~= s.drop_first().update(i - 1, (k, v)));
        lemma_bal_unique_drop_first(s);
        lemma_bal_get_update(s.drop_first(), i - 1, k, v, q);
    }
}

/// Overwriting one entry moves the sum by the difference at that entry.
pub proof fn lemma_bal_sum_update(s: Seq<(AccountId, Balance)>, i: int, e: (AccountId, Balance))
    requires
        0 <= i < s.len(),
    ensures
        bal_sum(s.update(i, e)) == bal_sum(s) - s[i].1 + e.1,
    decreases s.len(),
{
    let t = s.update(i, e);
    if i == 0 {
        assert(t.drop_first() =~= s.drop_first());
    } else {
        assert(t[0] == s[0]);
        assert(t.drop_first() =~= s.drop_first().update(i - 1, e));
        lemma_bal_sum_update(s.drop_first(), i - 1, e);
        assert(s.drop_first()[i - 1] == s[i]);
    }
}

pub proof fn lemma_bal_sum_push(s: Seq<(AccountId, Balance)>, e: (AccountId, Balance))
    ensures
        bal_sum(s.push(e)) == bal_sum(s) + e.1,
    decreases s.len(),
{
    let t = s.push(e);
    assert(t.len() == s.len() + 1);
    if s.len() == 0 {
        assert(t[0] == e);
        assert(t.drop_first() =~= Seq::<(AccountId, Balance)>::empty());
        assert(bal_sum(t) == e.1 + bal_sum(t.drop_first()));
    } else {
        assert(t[0] == s[0]);
        assert(t.drop_first() =~= s.drop_first().push(e));
        lemma_bal_sum_push(s.drop_first(), e);
        assert(bal_sum(t) == t[0].1 + bal_sum(t.drop_first()));
        assert(bal_sum(s) == s[0].1 + bal_sum(s.drop_first()));
    }
}

/// Appending an entry whose key was absent changes the reading of that
/// key and of no other key.
pub proof fn lemma_bal_get_push(
    s: Seq<(AccountId, Balance)>,
    e: (AccountId, Balance),
    q: AccountId,
)
    requires
        forall|j: int| 0 <= j < s.len() ==> s[j].0 != e.0,
    ensures
        bal_get(s.push(e), q) == if q == e.0 {
            e.1
        } else {
            bal_get(s, q)
        },
    decreases s.len(),
{
    let t = s.push(e);
    assert(t.len() == s.len() + 1);
    if s.len() == 0 {
        assert(t[0] == e);
        assert(t.drop_first() =~= Seq::<(AccountId, Balance)>::empty());
        assert(bal_get(t.drop_first(), q) == 0);
    } else {
        assert(t[0] == s[0]);
        assert(t.drop_first() =~= s.drop_first().push(e));
        assert forall|j: int| 0 <= j < s.drop_first().len() implies s.drop_first()[j].0 != e.0 by {
            assert(s.drop_first()[j] == s[j + 1]);
        }
        lemma_bal_get_push(s.drop_first(), e, q);
        assert(s[0].0 != e.0);
        if q == s[0].0 {
            assert(bal_get(t, q) == t[0].1);
            assert(bal_get(s, q) == s[0].1);
        } else {
            assert(bal_get(t, q) == bal_get(t.drop_first(), q));
            assert(bal_get(s, q) == bal_get(s.drop_first(), q));
        }
    }
}

/// A key no entry carries reads as zero.
pub proof fn lemma_bal_get_absent(s: Seq<(AccountId, Balance)>, k: AccountId)
    requires
        forall|j: int| 0 <= j < s.len() ==> s[j].0 != k,
    ensures
        bal_get(s, k) == 0,
    decreases s.len(),
{
    if s.len() > 0 {
        assert forall|j: int| 0 <= j < s.drop_first().len() implies s.drop_first()[j].0 != k by {
            assert(s.drop_first()[j] == s[j + 1]);
        }
        lemma_bal_get_absent(s.drop_first(), k);
    }
}

pub proof fn lemma_bal_get_skip_miss(s: Seq<(AccountId, Balance)>, k: AccountId, i: int)
    requires
        0 <= i < s.len(),
        s[i].0 != k,
    ensures
        bal_get(s.skip(i), k) == bal_get(s.skip(i + 1), k),
{
    assert(s.skip(i)[0] == s[i]);
    assert(s.skip(i).drop_first() =~= s.skip(i + 1));
}

impl BalanceTable {
    pub fn new() -> (r: BalanceTable)
        ensures
            r.entries@ =~= Seq::<(AccountId, Balance)>::empty(),
    {
        BalanceTable { entries: Vec::new() }
    }

    /// The balance of `k`, with an absent key reading as zero.
    pub fn get(&self, k: AccountId) -> (r: Balance)
        ensures
            r == bal_get(self.entries@, k),
    {
        proof {
            assert(self.entries@.skip(0) =~= self.entries@);
        }
        let n = self.entries.len();
        let mut i: usize = 0;
        while i < n
            invariant
                i <= n,
                n == self.entries@.len(),
                bal_get(self.entries@, k) == bal_get(self.entries@.skip(i as int), k),
            decreases n - i,
        {
            if self.entries[i].0 == k {
                proof {
                    assert(self.entries@.skip(i as int)[0] == self.entries@[i as int]);
                }
                return self.entries[i].1;
            }
            proof {
                lemma_bal_get_skip_miss(self.entries@, k, i as int);
            }
            i = i + 1;
        }
        proof {
            assert(self.entries@.skip(n as int) =~= Seq::<(AccountId, Balance)>::empty());
        }
        0
    }

    /// Records `v` as the balance of `k`, leaving every other account's
    /// reading unchanged and moving the sum by exactly the difference.
    pub fn set(&mut self, k: AccountId, v: Balance)
        requires
            bal_keys_unique(old(self).entries@),
        ensures
            bal_keys_unique(final(self).entries@),
            bal_get(final(self).entries@, k) == v,
            forall|q: AccountId|
                q != k ==> bal_get(final(self).entries@, q) == bal_get(old(self).entries@, q),
            bal_sum(final(self).entries@) == bal_sum(old(self).entries@) - bal_get(
                old(self).entries@,
                k,
            ) + v,
    {
        let n = self.entries.len();
        let mut i: usize = 0;
        while i < n
            invariant
                i <= n,
                n == self.entries@.len(),
                self.entries@ == old(self).entries@,
                bal_keys_unique(self.entries@),
                forall|j: int| 0 <= j < i ==> self.entries@[j].0 != k,
            decreases n - i,
        {
            if self.entries[i].0 == k {
                let ghost s = self.entries@;
                let ghost ii = i as int;
                self.entries[i] = (k, v);
                proof {
                    assert(self.entries@ == s.update(ii, (k, v)));
                    lemma_bal_get_at_index(s, ii);
                    lemma_bal_sum_update(s, ii, (k, v));
                    assert forall|q: AccountId|
                        q != k implies bal_get(self.entries@, q) == bal_get(s, q) by {
                        lemma_bal_get_update(s, ii, k, v, q);
                    }
                    lemma_bal_get_update(s, ii, k, v, k);
                    assert forall|a: int, b: int|
                        0 <= a < b < self.entries@.len() implies self.entries@[a].0
                        != self.entries@[b].0 by {
                        assert(self.entries@[a].0 == s[a].0);
                        assert(self.entries@[b].0 == s[b].0);
                    }
                }
                return;
            }
            i = i + 1;
        }
        let ghost s = self.entries@;
        self.entries.push((k, v));
        proof {
            assert(self.entries@ == s.push((k, v)));
            lemma_bal_get_absent(s, k);
            lemma_bal_sum_push(s, (k, v));
            assert forall|q: AccountId|
                q != k implies bal_get(self.entries@, q) == bal_get(s, q) by {
                lemma_bal_get_push(s, (k, v), q);
            }
            lemma_bal_get_push(s, (k, v), k);
            assert forall|a: int, b: int|
                0 <= a < b < self.entries@.len() implies self.entries@[a].0
                != self.entries@[b].0 by {
                assert(self.entries@[a] == s.push((k, v))[a]);
                if b < s.len() {
                    assert(self.entries@[a].0 == s[a].0);
                    assert(self.entries@[b].0 == s[b].0);
                } else {
                    assert(self.entries@[b] == (k, v));
                    assert(self.entries@[a].0 == s[a].0);
                }
            }
        }
    }
}

} // verus!
