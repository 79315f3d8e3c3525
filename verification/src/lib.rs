//! Accounting core of a fungible-token ledger.
//!
//! The ledger maps account identifiers to balances, records spending
//! allowances delegated between accounts, and offers the three state
//! transitions (direct transfer, delegated transfer, allowance grant)
//! that mutate them. Every transition preserves conservation of the
//! total supply, and every mutation is pinned down by a contract.
//!
//! Caller identity and event delivery belong to the hosting
//! environment: each mutating operation takes the caller as an explicit
//! argument, and emitted notifications are appended to an event log
//! that the host consumes.

pub mod account;
pub mod allowances;
pub mod balances;
pub mod errors;
pub mod events;
pub mod laws;
pub mod ledger;
