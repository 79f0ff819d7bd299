use vstd::prelude::*;

verus! {

/// The ways an operation can fail.
#[derive(Clone, Copy, Debug, PartialEq, Eq, Structural)]
pub enum VaultError {
    /// Initialize was called where a vault already exists.
    AlreadyInitialized,
    /// A supplied address differs from the one its seeds and bump derive.
    DerivationMismatch,
    /// The signer is not the vault's recorded authority.
    Unauthorized,
    /// No bump from 255 down to 0 gives an off-curve address.
    NoValidBumpFound,
    /// The source holder account holds less than the amount moved.
    InsufficientBalance,
    /// A holder account that the operation touches is frozen.
    AccountFrozen,
    /// The ledger has no account of the expected kind at an address, or it
    /// belongs to another owner or token type.
    InvalidAccount,
    /// The proof does not authorize the authority that the ledger requires.
    InvalidAuthority,
    /// A balance or the supply would exceed the largest amount.
    Overflow,
}

} // verus!
