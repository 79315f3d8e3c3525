use vstd::prelude::*;
use crate::account::{AccountId, Balance};
use crate::balances::{bal_sum, lemma_bal_get_le_sum};
use crate::errors::Error;
use crate::ledger::{approve_rel, transfer_from_rel, transfer_rel, Erc20};

verus! {

/// Conservation: in every well-formed ledger the balances sum to the
/// total supply fixed at construction. `new` establishes
/// well-formedness and every operation's contract preserves it while
/// keeping `total_supply` unchanged, so the sum is invariant under any
/// sequence of successful or failed transfers.
pub proof fn lemma_conservation(l: Erc20)
    requires
        l.wf(),
    ensures
        bal_sum(l.balances.entries@) == l.total_supply as int,
{
}

/// Non-negativity and range: a balance is never negative and, in a
/// well-formed ledger, never exceeds the total supply. (Allowances are
/// likewise non-negative by their unsigned domain, and equal exactly
/// the value the last grant or delegated spend left, by the operation
/// contracts.)
pub proof fn lemma_balance_in_range(l: Erc20, a: AccountId)
    requires
        l.wf(),
    ensures
        0 <= l.spec_balance_of(a) <= l.total_supply,
{
    lemma_bal_get_le_sum(l.balances.entries@, a);
}

/// Approve is an idempotent overwrite: after granting `v1` and then
/// `v2` to the same spender, the allowance reads `v2`, whatever `v1`
/// was; and no other pair's allowance moved across the two grants.
pub proof fn lemma_approve_overwrites(
    s0: Erc20,
    s1: Erc20,
    s2: Erc20,
    owner: AccountId,
    spender: AccountId,
    v1: Balance,
    v2: Balance,
)
    requires
        approve_rel(s0, s1, owner, spender, v1),
        approve_rel(s1, s2, owner, spender, v2),
    ensures
        s2.spec_allowance(owner, spender) == v2,
        forall|qo: AccountId, qp: AccountId|
            !(qo == owner && qp == spender) ==> s2.spec_allowance(qo, qp) == s0.spec_allowance(
                qo,
                qp,
            ),
{
}

/// Transfer boundary, first half: transferring one's entire balance to
/// another account succeeds and leaves the sender's balance at zero.
pub proof fn lemma_transfer_whole_balance(
    pre: Erc20,
    post: Erc20,
    sender: AccountId,
    to: AccountId,
    r: Result<(), Error>,
)
    requires
        sender != to,
        transfer_rel(pre, post, sender, to, pre.spec_balance_of(sender), r),
    ensures
        r == Ok::<(), Error>(()),
        post.spec_balance_of(sender) == 0,
{
}

/// Transfer boundary, second half: asking for more than the sender
/// holds fails with `BalanceTooLow` and moves no balance at all.
pub proof fn lemma_transfer_over_balance_fails(
    pre: Erc20,
    post: Erc20,
    sender: AccountId,
    to: AccountId,
    value: Balance,
    r: Result<(), Error>,
)
    requires
        transfer_rel(pre, post, sender, to, value, r),
        value > pre.spec_balance_of(sender),
    ensures
        r == Err::<(), Error>(Error::BalanceTooLow),
        post.balances.entries@ == pre.balances.entries@,
        post.spec_balance_of(sender) == pre.spec_balance_of(sender),
        post.spec_balance_of(to) == pre.spec_balance_of(to),
{
}

/// Delegated spend decrements correctly: after a grant of `limit` and a
/// delegated transfer of `value` within both the limit and the owner's
/// balance, the transfer succeeded, the remaining allowance is exactly
/// `limit - value`, and `value` units moved from the owner to the
/// recipient.
pub proof fn lemma_delegated_spend(
    pre: Erc20,
    mid: Erc20,
    post: Erc20,
    owner: AccountId,
    spender: AccountId,
    to: AccountId,
    limit: Balance,
    value: Balance,
    r: Result<(), Error>,
)
    requires
        approve_rel(pre, mid, owner, spender, limit),
        transfer_from_rel(mid, post, spender, owner, to, value, r),
        value <= limit,
        value <= mid.spec_balance_of(owner),
    ensures
        r == Ok::<(), Error>(()),
        post.spec_allowance(owner, spender) as int == limit - value,
        owner != to ==> post.spec_balance_of(owner) as int == mid.spec_balance_of(owner) - value
            && post.spec_balance_of(to) as int == mid.spec_balance_of(to) + value,
{
}

} // verus!
