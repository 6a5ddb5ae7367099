use vstd::prelude::*;

verus! {

/// Every way an operation of the wallet can fail. A failed operation
/// changes no state.
#[derive(Debug, Clone, Copy, PartialEq, Eq, Structural)]
pub enum MultisigWalletError {
    /// The command buffer has an unknown tag or a short payload.
    InvalidInstruction,
    /// The wallet or request storage was already initialized.
    AlreadyInitialized,
    /// The referenced wallet has not been initialized.
    WalletNotInitialized,
    /// The referenced request has not been created.
    UninitializedRequest,
    /// The request has already executed its transfer.
    RequestAlreadyFulfilled,
    /// The request belongs to another wallet.
    RequestWalletMismatch,
    /// The identity is not authenticated, or is not a signer of the wallet.
    UnauthorizedSigner,
    /// A storage account is not owned by this program.
    OwnershipMismatch,
    /// Fewer accounts were passed than the command needs.
    NotEnoughAccountKeys,
    /// A storage account does not hold a well-formed record.
    InvalidAccountData,
    /// The account credited by a transfer is not the request's receiver.
    ReceiverMismatch,
    /// The wallet's balance is smaller than the amount to transfer.
    InsufficientFunds,
    /// Crediting the receiver would overflow its balance.
    BalanceOverflow,
}

} // verus!
