use vstd::prelude::*;
use crate::account::{AccountId, Balance};
use crate::allowances::{alw_get, alw_keys_unique, AllowanceTable};
use crate::balances::{
    bal_get, bal_keys_unique, bal_sum, lemma_bal_get_le_sum, BalanceTable,
};
use crate::errors::Error;
use crate::events::{Approval, Event, Transfer};

verus! {

/// The ledger: a fixed total supply, the balances and allowances
/// mappings, and the log of emitted notifications. Caller identity is
/// supplied by the hosting environment as an explicit argument to each
/// mutating operation.
pub struct Erc20 {
    pub total_supply: Balance,
    pub balances: BalanceTable,
    pub allowances: AllowanceTable,
    pub events: Vec<Event>,
}

impl Erc20 {
    /// Well-formedness: both mappings have distinct keys, and the
    /// balances sum to the fixed total supply (conservation).
    pub open spec fn wf(self) -> bool {
        &&& bal_keys_unique(self.balances.entries@)
        &&& alw_keys_unique(self.allowances.entries@)
        &&& bal_sum(self.balances.entries@) == self.total_supply as int
    }

    /// The balance recorded for `a`, an absent account reading as zero.
    pub open spec fn spec_balance_of(self, a: AccountId) -> Balance {
        bal_get(self.balances.entries@, a)
    }

    /// The allowance `spender` may still move out of `owner`'s balance.
    pub open spec fn spec_allowance(self, owner: AccountId, spender: AccountId) -> Balance {
        alw_get(self.allowances.entries@, owner, spender)
    }
}

/// How a successful value movement changes the balances: `value` units
/// leave `from` and reach `to`, every other account is untouched, and a
/// self-transfer is a net no-op.
pub open spec fn balances_moved(
    pre: Erc20,
    post: Erc20,
    from: AccountId,
    to: AccountId,
    value: Balance,
) -> bool {
    &&& post.spec_balance_of(from) as int == if from == to {
        pre.spec_balance_of(from) as int
    } else {
        pre.spec_balance_of(from) - value
    }
    &&& post.spec_balance_of(to) as int == if from == to {
        pre.spec_balance_of(to) as int
    } else {
        pre.spec_balance_of(to) + value
    }
    &&& forall|a: AccountId|
        a != from && a != to ==> post.spec_balance_of(a) == pre.spec_balance_of(a)
}

/// The transition a direct transfer (and the internal transfer
/// primitive) makes: with sufficient balance it moves `value` from
/// `from` to `to` and records a `Transfer` notification; otherwise it
/// fails with `BalanceTooLow` and changes nothing. Allowances and the
/// total supply are never touched.
pub open spec fn transfer_rel(
    pre: Erc20,
    post: Erc20,
    from: AccountId,
    to: AccountId,
    value: Balance,
    r: Result<(), Error>,
) -> bool {
    &&& post.total_supply == pre.total_supply
    &&& post.allowances.entries@ == pre.allowances.entries@
    &&& if pre.spec_balance_of(from) < value {
        &&& r == Err::<(), Error>(Error::BalanceTooLow)
        &&& post.balances.entries@ == pre.balances.entries@
        &&& post.events@ == pre.events@
    } else {
        &&& r == Ok::<(), Error>(())
        &&& balances_moved(pre, post, from, to, value)
        &&& post.events@ == pre.events@.push(
            Event::Transfer(Transfer { from: Some(from), to: Some(to), value }),
        )
    }
}

/// The transition a delegated transfer makes: it needs both sufficient
/// allowance and sufficient balance before it mutates anything (the
/// allowance decrement and the balance move apply together or not at
/// all), decreases exactly the `(from, spender)` allowance by `value`,
/// moves the balance as a direct transfer would, and records a
/// `Transfer` notification.
pub open spec fn transfer_from_rel(
    pre: Erc20,
    post: Erc20,
    spender: AccountId,
    from: AccountId,
    to: AccountId,
    value: Balance,
    r: Result<(), Error>,
) -> bool {
    if pre.spec_allowance(from, spender) < value {
        &&& r == Err::<(), Error>(Error::AllowanceTooLow)
        &&& post == pre
    } else if pre.spec_balance_of(from) < value {
        &&& r == Err::<(), Error>(Error::BalanceTooLow)
        &&& post == pre
    } else {
        &&& r == Ok::<(), Error>(())
        &&& post.total_supply == pre.total_supply
        &&& post.spec_allowance(from, spender) as int == pre.spec_allowance(from, spender)
            - value
        &&& forall|qo: AccountId, qp: AccountId|
            !(qo == from && qp == spender) ==> post.spec_allowance(qo, qp)
                == pre.spec_allowance(qo, qp)
        &&& balances_moved(pre, post, from, to, value)
        &&& post.events@ == pre.events@.push(
            Event::Transfer(Transfer { from: Some(from), to: Some(to), value }),
        )
    }
}

/// The transition an allowance grant makes: it overwrites exactly the
/// `(owner, spender)` allowance with `value` (a ceiling, not a
/// reservation, so no error condition exists), touches no balance, and
/// records an `Approval` notification.
pub open spec fn approve_rel(
    pre: Erc20,
    post: Erc20,
    owner: AccountId,
    spender: AccountId,
    value: Balance,
) -> bool {
    &&& post.total_supply == pre.total_supply
    &&& post.balances.entries@ == pre.balances.entries@
    &&& post.spec_allowance(owner, spender) == value
    &&& forall|qo: AccountId, qp: AccountId|
        !(qo == owner && qp == spender) ==> post.spec_allowance(qo, qp) == pre.spec_allowance(
            qo,
            qp,
        )
    &&& post.events@ == pre.events@.push(
        Event::Approval(Approval { from: Some(owner), to: Some(spender), value }),
    )
}

impl Erc20 {
    /// Creates the ledger, crediting the entire supply to the minter.
    /// Construction is silent: no notification is recorded.
    pub fn new(total_supply: Balance, minter: AccountId) -> (r: Erc20)
        ensures
            r.wf(),
            r.total_supply == total_supply,
            r.spec_balance_of(minter) == total_supply,
            forall|a: AccountId| a != minter ==> r.spec_balance_of(a) == 0,
            forall|o: AccountId, p: AccountId| r.spec_allowance(o, p) == 0,
            r.events@ == Seq::<Event>::empty(),
    {
        let mut balances = BalanceTable::new();
        balances.set(minter, total_supply);
        let allowances = AllowanceTable::new();
        proof {
            assert forall|o: AccountId, p: AccountId|
                alw_get(allowances.entries@, o, p) == 0 by {
                assert(alw_get(allowances.entries@, o, p) == 0);
            }
        }
        Erc20 { total_supply, balances, allowances, events: Vec::new() }
    }

    /// The fixed total supply.
    pub fn total_supply(&self) -> (r: Balance)
        ensures
            r == self.total_supply,
    {
        self.total_supply
    }

    /// The balance of `owner`; in a well-formed ledger it never exceeds
    /// the total supply.
    pub fn balance_of(&self, owner: AccountId) -> (r: Balance)
        ensures
            r == self.spec_balance_of(owner),
            self.wf() ==> r <= self.total_supply,
    {
        proof {
            if self.wf() {
                lemma_bal_get_le_sum(self.balances.entries@, owner);
            }
        }
        self.balances.get(owner)
    }

    /// The allowance `spender` may still move out of `owner`'s balance.
    pub fn allowance(&self, owner: AccountId, spender: AccountId) -> (r: Balance)
        ensures
            r == self.spec_allowance(owner, spender),
    {
        self.allowances.get(owner, spender)
    }

    /// The internal transfer primitive: the single place where balance
    /// moves and where the conservation invariant is enforced. Every
    /// public operation that moves value routes through it.
    pub fn transfer_helper(&mut self, from: &AccountId, to: &AccountId, value: Balance) -> (r:
        Result<(), Error>)
        requires
            old(self).wf(),
        ensures
            final(self).wf(),
            transfer_rel(*old(self), *final(self), *from, *to, value, r),
    {
        let balance_from = self.balances.get(*from);
        if balance_from < value {
            return Err(Error::BalanceTooLow);
        }
        self.balances.set(*from, balance_from - value);
        let balance_to = self.balances.get(*to);
        proof {
            lemma_bal_get_le_sum(self.balances.entries@, *to);
            assert(balance_to + value <= old(self).total_supply);
        }
        self.balances.set(*to, balance_to + value);
        self.events.push(
            Event::Transfer(Transfer { from: Some(*from), to: Some(*to), value }),
        );
        Ok(())
    }

    /// Direct transfer: moves `value` from the caller to `to`.
    pub fn transfer(&mut self, caller: AccountId, to: AccountId, value: Balance) -> (r: Result<
        (),
        Error,
    >)
        requires
            old(self).wf(),
        ensures
            final(self).wf(),
            transfer_rel(*old(self), *final(self), caller, to, value, r),
    {
        self.transfer_helper(&caller, &to, value)
    }

    /// Delegated transfer: the caller spends part of the allowance
    /// `from` granted it. Both checks precede both writes, so a failed
    /// attempt consumes no allowance.
    pub fn transfer_from(
        &mut self,
        caller: AccountId,
        from: AccountId,
        to: AccountId,
        value: Balance,
    ) -> (r: Result<(), Error>)
        requires
            old(self).wf(),
        ensures
            final(self).wf(),
            transfer_from_rel(*old(self), *final(self), caller, from, to, value, r),
    {
        let allowed = self.allowances.get(from, caller);
        if allowed < value {
            return Err(Error::AllowanceTooLow);
        }
        let balance_from = self.balances.get(from);
        if balance_from < value {
            return Err(Error::BalanceTooLow);
        }
        self.allowances.set(from, caller, allowed - value);
        self.transfer_helper(&from, &to, value)
    }

    /// Allowance grant: overwrites the caller's allowance for `to` with
    /// `value`. Always succeeds, including for zero and for values above
    /// the caller's balance.
    pub fn approve(&mut self, caller: AccountId, to: AccountId, value: Balance) -> (r: Result<
        (),
        Error,
    >)
        requires
            old(self).wf(),
        ensures
            final(self).wf(),
            r == Ok::<(), Error>(()),
            approve_rel(*old(self), *final(self), caller, to, value),
    {
        self.allowances.set(caller, to, value);
        self.events.push(
            Event::Approval(Approval { from: Some(caller), to: Some(to), value }),
        );
        Ok(())
    }
}

} // verus!
