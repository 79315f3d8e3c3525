use vstd::prelude::*;

verus! {

/// An opaque, comparable key naming a ledger participant. The ledger
/// never interprets its internal structure; it only compares keys.
#[derive(Clone, Copy, PartialEq, Eq, Structural, Hash, Debug)]
pub struct AccountId(pub u64);

/// An unsigned quantity of token units.
pub type Balance = u128;

} // verus!
