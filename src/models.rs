use vstd::prelude::*;
use crate::compliance::SuspiciousActivity;

verus! {

/// A verification tier. `Pending < Verified < EnhancedVerified`;
/// `Rejected` stands outside that order and satisfies no requirement.
#[derive(Debug, Clone, Copy, PartialEq, Eq, Structural)]
pub enum KycStatus {
    Pending,
    Verified,
    Rejected,
    EnhancedVerified,
}

/// The position of a tier in the verification order; `None` for `Rejected`.
pub open spec fn kyc_rank(s: KycStatus) -> Option<nat> {
    match s {
        KycStatus::Pending => Some(0),
        KycStatus::Verified => Some(1),
        KycStatus::EnhancedVerified => Some(2),
        KycStatus::Rejected => None,
    }
}

/// Whether a wallet at tier `have` may take part in an operation that asks for `need`.
pub open spec fn kyc_meets(have: KycStatus, need: KycStatus) -> bool {
    match (kyc_rank(have), kyc_rank(need)) {
        (Some(h), Some(n)) => h >= n,
        _ => false,
    }
}

impl KycStatus {
    fn rank(&self) -> (r: Option<u8>)
        ensures
            r matches Some(k) ==> kyc_rank(*self) == Some(k as nat),
            r is None <==> kyc_rank(*self) is None,
    {
        match self {
            KycStatus::Pending => Some(0),
            KycStatus::Verified => Some(1),
            KycStatus::EnhancedVerified => Some(2),
            KycStatus::Rejected => None,
        }
    }

    /// Whether this tier satisfies the required tier.
    pub fn meets(&self, need: &KycStatus) -> (r: bool)
        ensures
            r == kyc_meets(*self, *need),
    {
        match (self.rank(), need.rank()) {
            (Some(h), Some(n)) => h >= n,
            _ => false,
        }
    }
}

/// A wallet as the ledger holds it. Balances are never negative.
#[derive(Debug, Clone)]
pub struct Wallet {
    pub address: String,
    pub balance: u64,
    pub frozen: bool,
    pub kyc_status: KycStatus,
    pub created_at: i64,
}

impl Wallet {
    /// A field-for-field copy.
    pub fn snapshot(&self) -> (r: Wallet)
        ensures
            r == *self,
    {
        Wallet {
            address: self.address.clone(),
            balance: self.balance,
            frozen: self.frozen,
            kyc_status: self.kyc_status,
            created_at: self.created_at,
        }
    }
}

#[derive(Debug, Clone, Copy, PartialEq, Eq, Structural)]
pub enum TransactionType {
    Transfer,
    Mint,
    Burn,
    Freeze,
    Unfreeze,
}

/// Set once when a transaction is recorded; it never changes afterwards.
#[derive(Debug, Clone, Copy, PartialEq, Eq, Structural)]
pub enum TransactionStatus {
    Pending,
    Completed,
    Failed,
    Frozen,
}

/// Caller-supplied details of a transfer. A transfer that carries an
/// idempotency key already seen in the log is not executed again.
#[derive(Debug, Clone)]
pub struct TransactionMetadata {
    pub reference: Option<String>,
    pub purpose: Option<String>,
    pub regulatory_approval_id: Option<String>,
    pub idempotency_key: Option<String>,
}

/// A finalised record of the log.
#[derive(Debug, Clone)]
pub struct Transaction {
    pub id: String,
    pub from_address: String,
    pub to_address: String,
    pub amount: u64,
    pub transaction_type: TransactionType,
    pub status: TransactionStatus,
    pub created_at: i64,
    pub metadata: Option<TransactionMetadata>,
}

/// One kind of backing asset and how much of it the reserve holds.
#[derive(Debug, Clone)]
pub struct AssetHolding {
    pub asset: String,
    pub amount: u64,
}

/// The reserve ratio as an exact fraction, backing value over issued units.
#[derive(Debug, Clone, Copy, PartialEq, Eq, Structural)]
pub struct Ratio {
    pub numerator: u64,
    pub denominator: u64,
}

impl Ratio {
    pub open spec fn at_least_one(self) -> bool {
        self.numerator >= self.denominator
    }
}

/// The reserve account: units issued and the assets that back them.
#[derive(Debug, Clone)]
pub struct Reserve {
    pub hkd_balance: u64,
    pub assets: Vec<AssetHolding>,
    pub last_audit: i64,
}

#[derive(Debug, Clone, Copy, PartialEq, Eq, Structural)]
pub enum ReportType {
    DailyTransaction,
    ReserveAudit,
    SuspiciousActivity,
    MonthlyCompliance,
}

/// A bundle of suspicious-activity records for the regulators named in it.
#[derive(Debug, Clone)]
pub struct RegulatoryReport {
    pub id: String,
    pub report_type: ReportType,
    pub activities: Vec<SuspiciousActivity>,
    pub generated_at: i64,
    pub submitted_to: Vec<String>,
}

} // verus!
