use vstd::prelude::*;
use crate::account::{AccountId, Balance};

verus! {

/// Notification of a completed value movement, recorded when a
/// transfer succeeds. `from` and `to` are `None` only in designs with
/// minting or burning, which this ledger does not perform; they are
/// kept optional so the host's event log sees the conventional shape.
#[derive(Clone, Copy, PartialEq, Eq, Debug)]
pub struct Transfer {
    pub from: Option<AccountId>,
    pub to: Option<AccountId>,
    pub value: Balance,
}

/// Notification of an allowance grant, recorded by every `approve`.
#[derive(Clone, Copy, PartialEq, Eq, Debug)]
pub struct Approval {
    pub from: Option<AccountId>,
    pub to: Option<AccountId>,
    pub value: Balance,
}

/// One entry of the ledger's event log, consumed by the hosting
/// environment as its out-of-band notification channel.
#[derive(Clone, Copy, PartialEq, Eq, Debug)]
pub enum Event {
    Transfer(Transfer),
    Approval(Approval),
}

} // verus!
