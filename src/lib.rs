//! A keyless authority vault for a fungible token type: deterministic
//! program-address derivation, the persisted vault record, validation of the
//! four privileged operations, and an in-memory ledger that executes them.

pub mod address;
pub mod error;
pub mod vault;
pub mod instructions;
pub mod ledger;
