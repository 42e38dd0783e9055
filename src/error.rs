use vstd::prelude::*;
use vstd::string::StringExecFns;

verus! {

/// The failures an engine operation can report. Every one of them is
/// returned before any state changes.
#[derive(Debug, Clone, PartialEq, Eq)]
pub enum HKDError {
    WalletNotFound,
    InsufficientBalance,
    InvalidAmount,
    AmountExceedsLimit,
    WalletFrozen,
    InsufficientKyc,
    InsufficientReserveBacking,
    ComplianceCheckFailed,
    TransactionNotFound,
    DuplicateTransactionId,
    SerializationError(String),
}

impl HKDError {
    /// The human-readable message for this error.
    pub fn message(&self) -> String {
        match self {
            HKDError::WalletNotFound => "Wallet not found".to_owned(),
            HKDError::InsufficientBalance => "Insufficient balance".to_owned(),
            HKDError::InvalidAmount => "Invalid amount".to_owned(),
            HKDError::AmountExceedsLimit => "Amount exceeds transaction limit".to_owned(),
            HKDError::WalletFrozen => "Wallet is frozen".to_owned(),
            HKDError::InsufficientKyc => "Insufficient KYC level".to_owned(),
            HKDError::InsufficientReserveBacking => "Insufficient reserve backing".to_owned(),
            HKDError::ComplianceCheckFailed => "Regulatory compliance check failed".to_owned(),
            HKDError::TransactionNotFound => "Transaction not found".to_owned(),
            HKDError::DuplicateTransactionId => "Transaction id already recorded".to_owned(),
            HKDError::SerializationError(detail) => {
                "Serialization error: ".to_owned().concat(detail.as_str())
            },
        }
    }
}

} // verus!
