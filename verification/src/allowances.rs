use vstd::prelude::*;
use crate::account::{AccountId, Balance};

verus! {

/// The allowances mapping: each entry `(owner, spender, value)` says
/// that `spender` may move up to `value` units out of `owner`'s
/// balance. Stored as an association list whose `(owner, spender)`
/// pairs are pairwise distinct; an absent pair reads as zero.
pub struct AllowanceTable {
    pub entries: Vec<(AccountId, AccountId, Balance)>,
}

/// No `(owner, spender)` pair appears in two entries.
pub open spec fn alw_keys_unique(s: Seq<(AccountId, AccountId, Balance)>) -> bool {
    forall|i: int, j: int|
        0 <= i < j < s.len() ==> !(s[i].0 == s[j].0 && s[i].1 == s[j].1)
}

/// The allowance recorded for `(o, p)`: the first entry carrying that
/// pair, or zero where none exists.
pub open spec fn alw_get(
    s: Seq<(AccountId, AccountId, Balance)>,
    o: AccountId,
    p: AccountId,
) -> Balance
    decreases s.len(),
{
    if s.len() == 0 {
        0
    } else if s[0].0 == o && s[0].1 == p {
        s[0].2
    } else {
        alw_get(s.drop_first(), o, p)
    }
}

pub proof fn lemma_alw_unique_drop_first(s: Seq<(AccountId, AccountId, Balance)>)
    requires
        s.len() > 0,
        alw_keys_unique(s),
    ensures
        alw_keys_unique(s.drop_first()),
{
    assert forall|i: int, j: int|
        0 <= i < j < s.drop_first().len() implies !(s.drop_first()[i].0 == s.drop_first()[j].0
        && s.drop_first()[i].1 == s.drop_first()[j].1) by {
        assert(s.drop_first()[i] == s[i + 1]);
        assert(s.drop_first()[j] == s[j + 1]);
    }
}

/// Overwriting the entry that carries `(o, p)` changes the reading of
/// that pair and of no other pair.
pub proof fn lemma_alw_get_update(
    s: Seq<(AccountId, AccountId, Balance)>,
    i: int,
    o: AccountId,
    p: AccountId,
    v: Balance,
    qo: AccountId,
    qp: AccountId,
)
    requires
        0 <= i < s.len(),
        s[i].0 == o,
        s[i].1 == p,
        alw_keys_unique(s),
    ensures
        alw_get(s.update(i, (o, p, v)), qo, qp) == if qo == o && qp == p {
            v
        } else {
            alw_get(s, qo, qp)
        },
    decreases s.len(),
{
    let t = s.update(i, (o, p, v));
    if i == 0 {
        assert(t[0] == (o, p, v));
        assert(t.drop_first() =~= s.drop_first());
    } else {
        assert(t[0] == s[0]);
        assert(!(s[0].0 == o && s[0].1 == p));
        assert(t.drop_first() =~= s.drop_first().update(i - 1, (o, p, v)));
        lemma_alw_unique_drop_first(s);
        lemma_alw_get_update(s.drop_first(), i - 1, o, p, v, qo, qp);
    }
}

/// Appending an entry whose pair was absent changes the reading of
/// that pair and of no other pair.
pub proof fn lemma_alw_get_push(
    s: Seq<(AccountId, AccountId, Balance)>,
    e: (AccountId, AccountId, Balance),
    qo: AccountId,
    qp: AccountId,
)
    requires
        forall|j: int| 0 <= j < s.len() ==> !(s[j].0 == e.0 && s[j].1 == e.1),
    ensures
        alw_get(s.push(e), qo, qp) == if qo == e.0 && qp == e.1 {
            e.2
        } else {
            alw_get(s, qo, qp)
        },
    decreases s.len(),
{
    let t = s.push(e);
    assert(t.len() == s.len() + 1);
    if s.len() == 0 {
        assert(t[0] == e);
        assert(t.drop_first() =~= Seq::<(AccountId, AccountId, Balance)>::empty());
        assert(alw_get(t.drop_first(), qo, qp) == 0);
    } else {
        assert(t[0] == s[0]);
        assert(t.drop_first() =~= s.drop_first().push(e));
        assert forall|j: int|
            0 <= j < s.drop_first().len() implies !(s.drop_first()[j].0 == e.0
            && s.drop_first()[j].1 == e.1) by {
            assert(s.drop_first()[j] == s[j + 1]);
        }
        lemma_alw_get_push(s.drop_first(), e, qo, qp);
        assert(!(s[0].0 == e.0 && s[0].1 == e.1));
        if qo == s[0].0 && qp == s[0].1 {
            assert(alw_get(t, qo, qp) == t[0].2);
            assert(alw_get(s, qo, qp) == s[0].2);
        } else {
            assert(alw_get(t, qo, qp) == alw_get(t.drop_first(), qo, qp));
            assert(alw_get(s, qo, qp) == alw_get(s.drop_first(), qo, qp));
        }
    }
}

/// A pair no entry carries reads as zero.
pub proof fn lemma_alw_get_absent(
    s: Seq<(AccountId, AccountId, Balance)>,
    o: AccountId,
    p: AccountId,
)
    requires
        forall|j: int| 0 <= j < s.len() ==> !(s[j].0 == o && s[j].1 == p),
    ensures
        alw_get(s, o, p) == 0,
    decreases s.len(),
{
    if s.len() > 0 {
        assert forall|j: int|
            0 <= j < s.drop_first().len() implies !(s.drop_first()[j].0 == o
            && s.drop_first()[j].1 == p) by {
            assert(s.drop_first()[j] == s[j + 1]);
        }
        lemma_alw_get_absent(s.drop_first(), o, p);
    }
}

pub proof fn lemma_alw_get_skip_miss(
    s: Seq<(AccountId, AccountId, Balance)>,
    o: AccountId,
    p: AccountId,
    i: int,
)
    requires
        0 <= i < s.len(),
        !(s[i].0 == o && s[i].1 == p),
    ensures
        alw_get(s.skip(i), o, p) == alw_get(s.skip(i + 1), o, p),
{
    assert(s.skip(i)[0] == s[i]);
    assert(s.skip(i).drop_first() =~= s.skip(i + 1));
}

impl AllowanceTable {
    pub fn new() -> (r: AllowanceTable)
        ensures
            r.entries@ =~= Seq::<(AccountId, AccountId, Balance)>::empty(),
    {
        AllowanceTable { entries: Vec::new() }
    }

    /// The allowance of `(o, p)`, with an absent pair reading as zero.
    pub fn get(&self, o: AccountId, p: AccountId) -> (r: Balance)
        ensures
            r == alw_get(self.entries@, o, p),
    {
        proof {
            assert(self.entries@.skip(0) =~= self.entries@);
        }
        let n = self.entries.len();
        let mut i: usize = 0;
        while i < n
            invariant
                i <= n,
                n == self.entries@.len(),
                alw_get(self.entries@, o, p) == alw_get(self.entries@.skip(i as int), o, p),
            decreases n - i,
        {
            if self.entries[i].0 == o && self.entries[i].1 == p {
                proof {
                    assert(self.entries@.skip(i as int)[0] == self.entries@[i as int]);
                }
                return self.entries[i].2;
            }
            proof {
                lemma_alw_get_skip_miss(self.entries@, o, p, i as int);
            }
            i = i + 1;
        }
        proof {
            assert(self.entries@.skip(n as int) =~= Seq::<(AccountId, AccountId, Balance)>::empty());
        }
        0
    }

    /// Records `v` as the allowance of `(o, p)`, leaving every other
    /// pair's reading unchanged.
    pub fn set(&mut self, o: AccountId, p: AccountId, v: Balance)
        requires
            alw_keys_unique(old(self).entries@),
        ensures
            alw_keys_unique(final(self).entries@),
            alw_get(final(self).entries@, o, p) == v,
            forall|qo: AccountId, qp: AccountId|
                !(qo == o && qp == p) ==> alw_get(final(self).entries@, qo, qp) == alw_get(
                    old(self).entries@,
                    qo,
                    qp,
                ),
    {
        let n = self.entries.len();
        let mut i: usize = 0;
        while i < n
            invariant
                i <= n,
                n == self.entries@.len(),
                self.entries@ == old(self).entries@,
                alw_keys_unique(self.entries@),
                forall|j: int| 0 <= j < i ==> !(self.entries@[j].0 == o && self.entries@[j].1 == p),
            decreases n - i,
        {
            if self.entries[i].0 == o && self.entries[i].1 == p {
                let ghost s = self.entries@;
                let ghost ii = i as int;
                self.entries[i] = (o, p, v);
                proof {
                    assert(self.entries@ == s.update(ii, (o, p, v)));
                    assert forall|qo: AccountId, qp: AccountId|
                        !(qo == o && qp == p) implies alw_get(self.entries@, qo, qp) == alw_get(
                        s,
                        qo,
                        qp,
                    ) by {
                        lemma_alw_get_update(s, ii, o, p, v, qo, qp);
                    }
                    lemma_alw_get_update(s, ii, o, p, v, o, p);
                    assert forall|a: int, b: int|
                        0 <= a < b < self.entries@.len() implies !(self.entries@[a].0
                        == self.entries@[b].0 && self.entries@[a].1 == self.entries@[b].1) by {
                        assert(self.entries@[a].0 == s[a].0 && self.entries@[a].1 == s[a].1);
                        assert(self.entries@[b].0 == s[b].0 && self.entries@[b].1 == s[b].1);
                    }
                }
                return;
            }
            i = i + 1;
        }
        let ghost s = self.entries@;
        self.entries.push((o, p, v));
        proof {
            assert(self.entries@ == s.push((o, p, v)));
            lemma_alw_get_absent(s, o, p);
            assert forall|qo: AccountId, qp: AccountId|
                !(qo == o && qp == p) implies alw_get(self.entries@, qo, qp) == alw_get(
                s,
                qo,
                qp,
            ) by {
                lemma_alw_get_push(s, (o, p, v), qo, qp);
            }
            lemma_alw_get_push(s, (o, p, v), o, p);
            assert forall|a: int, b: int|
                0 <= a < b < self.entries@.len() implies !(self.entries@[a].0
                == self.entries@[b].0 && self.entries@[a].1 == self.entries@[b].1) by {
                if b < s.len() {
                    assert(self.entries@[a] == s[a]);
                    assert(self.entries@[b] == s[b]);
                } else {
                    assert(self.entries@[b] == (o, p, v));
                    assert(self.entries@[a] == s[a]);
                }
            }
        }
    }
}

} // verus!
