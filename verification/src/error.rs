use vstd::prelude::*;

verus! {

/// The ways an operation can fail. Every failure is terminal for the attempted
/// operation: the ledger is left exactly as it was before the call.
#[derive(Debug, Clone, PartialEq, Eq)]
pub enum ContractError {
    /// The global record does not exist yet.
    NotInitialized,
    /// The global record already exists; re-initialization is rejected.
    AlreadyInitialized,
    /// The caller is not the owner recorded at initialization.
    Unauthorized,
    /// The declared stake amount is zero.
    InvalidAmount,
    /// The funds attached to a stake do not cover the declared amount.
    InsufficientFunds,
    /// The unstake amount exceeds the caller's current balance.
    InsufficientBalance,
    /// The queried account identity is not syntactically valid.
    InvalidAddress,
}

} // verus!
