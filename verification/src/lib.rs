//! Program-controlled issuance of a fungible token.
//!
//! A program, not a key holder, owns the minting rights of one asset. The
//! owner is an address derived from a fixed seed and the program's
//! identity; nobody holds a private key for it, and only the deriving
//! program can sign as it. This crate holds the rules of that protocol:
//! how the authority is derived, how it is bound to the asset when the
//! asset is created, how it is resolved again at every issuance, how the
//! recipient's token account is bound, and what an issuance changes.

pub mod address;
pub mod authority;
pub mod error;
pub mod laws;
pub mod ledger;
pub mod program;
pub mod units;

pub use program::{
    airdrop, bind, create_mint, issue, plan_airdrop, plan_creation, Airdrop, CreateMint,
    CreationPlan, IssuancePlan,
};
