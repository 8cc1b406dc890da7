//! Why an operation of the protocol was refused.

use vstd::prelude::*;

verus! {

/// Why the token or metadata service declined a call that the protocol's
/// own checks had let through.
#[derive(Clone, Copy, Debug, PartialEq, Eq, Structural)]
pub enum Rejection {
    /// The address named as the asset holds no mint.
    NotAMint,
    /// The address named as the destination holds no token account.
    NotATokenAccount,
    /// The destination token account belongs to another asset.
    WrongAsset,
    /// The destination token account belongs to another owner.
    WrongOwner,
    /// The issuance would carry the supply or a balance past `u64::MAX`.
    Overflow,
}

/// The failures of the protocol. Every one aborts the whole operation: the
/// ledger is left as it was.
#[derive(Clone, Copy, Debug, PartialEq, Eq, Structural)]
pub enum AirdropError {
    /// No proof token in the byte range makes the seeds a valid derived
    /// address. A defect of the protocol's constants, not a runtime
    /// condition.
    DerivationDefect,
    /// An account was to be created at an address that is already in use.
    Collision,
    /// A presented address or signing capability does not match the one
    /// recomputed from the seeds, or the one recorded for the asset.
    AuthorizationMismatch,
    /// The funding party cannot pay the storage cost.
    ResourceExhaustion,
    /// The external service declined the call.
    Rejected(Rejection),
}

} // verus!
