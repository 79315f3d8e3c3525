use vstd::prelude::*;

verus! {

/// The two ways a mutating ledger operation can fail. A failed
/// operation leaves the ledger unchanged.
#[derive(Clone, Copy, PartialEq, Eq, Structural, Debug)]
pub enum Error {
    /// The transfer's source account lacks sufficient balance.
    BalanceTooLow,
    /// The delegated transfer's spender lacks sufficient allowance.
    AllowanceTooLow,
}

} // verus!
