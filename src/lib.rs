//! An m-of-n multisignature wallet: a wallet holds a fixed set of signer
//! identities and an approval threshold; a transfer request executes exactly
//! once, when enough distinct signers have approved it.
pub mod error;
pub mod instruction;
pub mod lifecycle;
pub mod processor;
pub mod record;
pub mod state;
