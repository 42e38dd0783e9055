use hkd_coin::compliance::{
    ComplianceEngine, Decision, SeverityLevel, SuspiciousActivityType, TransactionMonitor,
};
use hkd_coin::engine::{EngineConfig, HKDEngine, RESERVE_BURN, RESERVE_MINT};
use hkd_coin::error::HKDError;
use hkd_coin::ledger::WalletLedger;
use hkd_coin::models::{
    AssetHolding, KycStatus, Ratio, Transaction, TransactionMetadata, TransactionStatus,
    TransactionType, Wallet,
};

const HKD: u64 = 100;

fn default_monitor() -> TransactionMonitor {
    TransactionMonitor {
        daily_limit: 500_000 * HKD,
        transaction_threshold: 80_000 * HKD,
        window_ms: 86_400_000,
        rapid_window_ms: 300_000,
        rapid_count: 10,
        reject_structuring: false,
        history_cap: 10_000,
    }
}

fn engine_with(monitor: TransactionMonitor) -> HKDEngine {
    let mut e = HKDEngine::new(EngineConfig {
        max_transaction_amount: 1_000_000 * HKD,
        min_kyc_level: KycStatus::Verified,
        regulatory_authorities: vec!["HKMA".to_string(), "SFC".to_string()],
        monitor,
    });
    assert!(e.register_wallet("corp_abc123", KycStatus::EnhancedVerified));
    assert!(e.register_wallet("user_xyz789", KycStatus::Verified));
    e
}

fn engine() -> HKDEngine {
    engine_with(default_monitor())
}

fn cash(amount: u64) -> Vec<AssetHolding> {
    vec![AssetHolding { asset: "HKD_Cash".to_string(), amount }]
}

fn balance(e: &HKDEngine, a: &str) -> u64 {
    e.get_wallet(a).unwrap().balance
}

fn total_balances(e: &HKDEngine) -> u64 {
    balance(e, "corp_abc123") + balance(e, "user_xyz789")
}

fn last(e: &HKDEngine) -> &Transaction {
    e.transaction_at(e.transaction_count() - 1)
}

fn meta(key: Option<&str>) -> Option<TransactionMetadata> {
    Some(TransactionMetadata {
        reference: Some("salary_payment".to_string()),
        purpose: Some("salary".to_string()),
        regulatory_approval_id: None,
        idempotency_key: key.map(|k| k.to_string()),
    })
}

#[test]
fn end_to_end_mint_transfer_burn() {
    let mut e = engine();
    let id = e.mint("corp_abc123", 1_000_000 * HKD, cash(1_000_000 * HKD)).unwrap();
    assert_eq!(id.len(), 36);
    assert_eq!(e.get_reserve().hkd_balance, 1_000_000 * HKD);
    assert_eq!(e.reserve_ratio(), Ratio { numerator: 1_000_000 * HKD, denominator: 1_000_000 * HKD });
    e.transfer("corp_abc123", "user_xyz789", 50_000 * HKD, meta(None)).unwrap();
    assert_eq!(balance(&e, "corp_abc123"), 950_000 * HKD);
    assert_eq!(balance(&e, "user_xyz789"), 50_000 * HKD);
    e.burn("corp_abc123", 50_000 * HKD).unwrap();
    assert_eq!(balance(&e, "corp_abc123"), 900_000 * HKD);
    assert_eq!(e.get_reserve().hkd_balance, 950_000 * HKD);
    assert_eq!(e.transaction_count(), 3);
    let burn = last(&e);
    assert_eq!(burn.to_address, RESERVE_BURN);
    assert_eq!(burn.transaction_type, TransactionType::Burn);
    assert_eq!(burn.status, TransactionStatus::Completed);
}

#[test]
fn mint_with_short_backing_changes_nothing() {
    let mut e = engine();
    let before_ratio = e.reserve_ratio();
    let r = e.mint("corp_abc123", 1_000_000 * HKD, cash(900_000 * HKD));
    assert_eq!(r, Err(HKDError::InsufficientReserveBacking));
    assert_eq!(e.reserve_ratio(), before_ratio);
    assert_eq!(e.get_reserve().hkd_balance, 0);
    assert!(e.get_reserve().assets.is_empty());
    assert_eq!(balance(&e, "corp_abc123"), 0);
    assert_eq!(e.transaction_count(), 0);
}

#[test]
fn mint_after_earlier_mint_keeps_prior_state_on_failure() {
    let mut e = engine();
    e.mint("corp_abc123", 100 * HKD, cash(150 * HKD)).unwrap();
    let r = e.mint("corp_abc123", 1_000_000 * HKD, cash(900_000 * HKD));
    assert_eq!(r, Err(HKDError::InsufficientReserveBacking));
    assert_eq!(e.reserve_ratio(), Ratio { numerator: 150 * HKD, denominator: 100 * HKD });
    assert_eq!(balance(&e, "corp_abc123"), 100 * HKD);
}

#[test]
fn mint_records_reserve_source_and_merges_assets() {
    let mut e = engine();
    let backing = vec![
        AssetHolding { asset: "HKD_Cash".to_string(), amount: 600 },
        AssetHolding { asset: "T_Bills".to_string(), amount: 300 },
        AssetHolding { asset: "HKD_Cash".to_string(), amount: 100 },
    ];
    e.mint("user_xyz789", 1000, backing).unwrap();
    e.mint("user_xyz789", 50, cash(50)).unwrap();
    let reserve = e.get_reserve();
    assert_eq!(reserve.assets.len(), 2);
    assert_eq!(reserve.assets[0].asset, "HKD_Cash");
    assert_eq!(reserve.assets[0].amount, 750);
    assert_eq!(reserve.assets[1].asset, "T_Bills");
    assert_eq!(reserve.assets[1].amount, 300);
    assert_eq!(reserve.hkd_balance, 1050);
    let rec = last(&e);
    assert_eq!(rec.from_address, RESERVE_MINT);
    assert_eq!(rec.to_address, "user_xyz789");
    assert_eq!(rec.transaction_type, TransactionType::Mint);
}

#[test]
fn mint_rejects_zero_and_unknown_wallet() {
    let mut e = engine();
    assert_eq!(e.mint("corp_abc123", 0, cash(10)), Err(HKDError::InvalidAmount));
    assert_eq!(e.mint("nobody", 10, cash(10)), Err(HKDError::WalletNotFound));
    assert_eq!(e.get_reserve().hkd_balance, 0);
}

#[test]
fn mint_rejects_backing_beyond_capacity() {
    let mut e = engine();
    e.mint("corp_abc123", 10, cash(u64::MAX - 5)).unwrap();
    assert_eq!(e.mint("corp_abc123", 10, cash(10)), Err(HKDError::InvalidAmount));
    assert_eq!(e.get_reserve().hkd_balance, 10);
}

#[test]
fn transfer_conserves_and_mint_burn_shift_total() {
    let mut e = engine();
    e.mint("corp_abc123", 5000, cash(5000)).unwrap();
    assert_eq!(total_balances(&e), 5000);
    e.transfer("corp_abc123", "user_xyz789", 1234, None).unwrap();
    assert_eq!(total_balances(&e), 5000);
    e.burn("user_xyz789", 234).unwrap();
    assert_eq!(total_balances(&e), 4766);
    assert_eq!(e.get_reserve().hkd_balance, 4766);
}

#[test]
fn transfer_with_frozen_endpoint_fails() {
    let mut e = engine();
    e.mint("corp_abc123", 5000, cash(5000)).unwrap();
    e.set_frozen("user_xyz789", true).unwrap();
    assert_eq!(e.transfer("corp_abc123", "user_xyz789", 100, None), Err(HKDError::WalletFrozen));
    assert_eq!(e.transfer("user_xyz789", "corp_abc123", 100, None), Err(HKDError::WalletFrozen));
    assert_eq!(balance(&e, "corp_abc123"), 5000);
    assert_eq!(balance(&e, "user_xyz789"), 0);
    e.set_frozen("user_xyz789", false).unwrap();
    e.transfer("corp_abc123", "user_xyz789", 100, None).unwrap();
    assert_eq!(balance(&e, "user_xyz789"), 100);
    assert_eq!(e.set_frozen("nobody", true), Err(HKDError::WalletNotFound));
}

#[test]
fn transfer_kyc_checked_before_balance() {
    let mut e = engine();
    assert!(e.register_wallet("pending_1", KycStatus::Pending));
    assert!(e.register_wallet("rejected_1", KycStatus::Rejected));
    e.mint("corp_abc123", 5000, cash(5000)).unwrap();
    assert_eq!(e.transfer("corp_abc123", "pending_1", 100, None), Err(HKDError::InsufficientKyc));
    assert_eq!(e.transfer("pending_1", "corp_abc123", 100, None), Err(HKDError::InsufficientKyc));
    assert_eq!(e.transfer("corp_abc123", "rejected_1", 100, None), Err(HKDError::InsufficientKyc));
    assert_eq!(balance(&e, "corp_abc123"), 5000);
}

#[test]
fn transfer_validation_errors() {
    let mut e = engine();
    e.mint("corp_abc123", 5000, cash(5000)).unwrap();
    assert_eq!(e.transfer("corp_abc123", "user_xyz789", 0, None), Err(HKDError::InvalidAmount));
    assert_eq!(
        e.transfer("corp_abc123", "user_xyz789", 1_000_000 * HKD + 1, None),
        Err(HKDError::AmountExceedsLimit)
    );
    assert_eq!(e.transfer("corp_abc123", "nobody", 10, None), Err(HKDError::WalletNotFound));
    assert_eq!(e.transfer("nobody", "corp_abc123", 10, None), Err(HKDError::WalletNotFound));
    assert_eq!(
        e.transfer("user_xyz789", "corp_abc123", 10, None),
        Err(HKDError::InsufficientBalance)
    );
    assert_eq!(e.transaction_count(), 1);
}

#[test]
fn burn_errors_leave_reserve_alone() {
    let mut e = engine();
    e.mint("corp_abc123", 500, cash(500)).unwrap();
    assert_eq!(e.burn("corp_abc123", 501), Err(HKDError::InsufficientBalance));
    assert_eq!(e.burn("nobody", 1), Err(HKDError::WalletNotFound));
    assert_eq!(e.burn("corp_abc123", 0), Err(HKDError::InvalidAmount));
    assert_eq!(e.get_reserve().hkd_balance, 500);
    e.burn("corp_abc123", 500).unwrap();
    assert_eq!(e.reserve_ratio(), Ratio { numerator: 1, denominator: 1 });
}

#[test]
fn repeated_idempotency_key_replays_result() {
    let mut e = engine();
    e.mint("corp_abc123", 5000, cash(5000)).unwrap();
    let first = e.transfer("corp_abc123", "user_xyz789", 100, meta(Some("k-1"))).unwrap();
    let again = e.transfer("corp_abc123", "user_xyz789", 100, meta(Some("k-1"))).unwrap();
    assert_eq!(first, again);
    assert_eq!(balance(&e, "user_xyz789"), 100);
    assert_eq!(e.transaction_count(), 2);
    let other = e.transfer("corp_abc123", "user_xyz789", 100, meta(Some("k-2"))).unwrap();
    assert_ne!(first, other);
    assert_eq!(balance(&e, "user_xyz789"), 200);
}

#[test]
fn structuring_reject_policy_records_frozen_transfer() {
    let mut policy = default_monitor();
    policy.daily_limit = 250;
    policy.transaction_threshold = 200;
    policy.reject_structuring = true;
    let mut e = engine_with(policy);
    e.mint("corp_abc123", 5000, cash(5000)).unwrap();
    e.transfer("corp_abc123", "user_xyz789", 150, meta(Some("a"))).unwrap();
    let r = e.transfer("corp_abc123", "user_xyz789", 150, meta(Some("b")));
    assert_eq!(r, Err(HKDError::ComplianceCheckFailed));
    assert_eq!(balance(&e, "user_xyz789"), 150);
    assert_eq!(last(&e).status, TransactionStatus::Frozen);
    let again = e.transfer("corp_abc123", "user_xyz789", 150, meta(Some("b")));
    assert_eq!(again, Err(HKDError::ComplianceCheckFailed));
    let report = e.generate_sar().unwrap();
    assert_eq!(report.activities.len(), 1);
    assert_eq!(report.activities[0].activity_type, SuspiciousActivityType::Structuring);
    assert_eq!(report.activities[0].severity, SeverityLevel::Medium);
    assert_eq!(report.submitted_to, vec!["HKMA".to_string(), "SFC".to_string()]);
    assert!(e.generate_sar().is_none());
}

#[test]
fn large_transfer_is_flagged_and_completes() {
    let mut e = engine();
    e.mint("corp_abc123", 100_000 * HKD, cash(100_000 * HKD)).unwrap();
    e.transfer("corp_abc123", "user_xyz789", 80_000 * HKD, None).unwrap();
    assert_eq!(balance(&e, "user_xyz789"), 80_000 * HKD);
    let report = e.generate_sar().unwrap();
    assert_eq!(report.activities.len(), 1);
    assert_eq!(report.activities[0].activity_type, SuspiciousActivityType::UnusualPattern);
    assert_eq!(report.activities[0].wallet_address, "corp_abc123");
}

fn tx(from: &str, amount: u64, at: i64) -> Transaction {
    Transaction {
        id: "t".to_string(),
        from_address: from.to_string(),
        to_address: "x".to_string(),
        amount,
        transaction_type: TransactionType::Transfer,
        status: TransactionStatus::Pending,
        created_at: at,
        metadata: None,
    }
}

#[test]
fn monitor_decisions_follow_rolling_window() {
    let mut policy = default_monitor();
    policy.daily_limit = 1000;
    policy.transaction_threshold = 800;
    policy.window_ms = 1000;
    policy.rapid_window_ms = 100;
    policy.rapid_count = 2;
    let mut m = ComplianceEngine::with_policy(policy, vec!["HKMA".to_string()]);
    assert_eq!(m.monitor_transaction(&tx("w", 500, 0)), Decision::Allow);
    assert_eq!(m.monitor_transaction(&tx("v", 700, 10)), Decision::Allow);
    assert_eq!(
        m.monitor_transaction(&tx("w", 600, 20)),
        Decision::Flag(SuspiciousActivityType::Structuring, SeverityLevel::Medium)
    );
    assert_eq!(
        m.monitor_transaction(&tx("w", 10, 30)),
        Decision::Flag(SuspiciousActivityType::Structuring, SeverityLevel::Medium)
    );
    assert_eq!(m.pending_findings(), 3);
    assert_eq!(m.monitor_transaction(&tx("w", 10, 5000)), Decision::Allow);
    assert_eq!(
        m.monitor_transaction(&tx("w", 900, 5010)),
        Decision::Flag(SuspiciousActivityType::UnusualPattern, SeverityLevel::Low)
    );
    assert_eq!(
        m.monitor_transaction(&tx("w", 1, 5020)),
        Decision::Flag(SuspiciousActivityType::RapidTransactions, SeverityLevel::Low)
    );
    let report = m.drain_report("r-1".to_string(), 7).unwrap();
    assert_eq!(report.id, "r-1");
    assert_eq!(report.generated_at, 7);
    assert_eq!(report.activities.len(), 5);
    assert!(m.drain_report("r-2".to_string(), 8).is_none());
}

#[test]
fn default_monitor_has_two_authorities() {
    let mut m = ComplianceEngine::new();
    assert_eq!(m.monitor_transaction(&tx("w", 8_000_000, 0)),
        Decision::Flag(SuspiciousActivityType::UnusualPattern, SeverityLevel::Low));
    let report = m.generate_sar().unwrap();
    assert_eq!(report.id.len(), 36);
    assert_eq!(report.submitted_to, vec!["HKMA".to_string(), "SFC".to_string()]);
}

#[test]
fn debits_beyond_balance_fail() {
    let mut l = WalletLedger::new();
    let a = "w1".to_string();
    assert!(l.register(Wallet {
        address: a.clone(),
        balance: 0,
        frozen: false,
        kyc_status: KycStatus::Verified,
        created_at: 0,
    }));
    l.credit(&a, 250).unwrap();
    let mut ok = 0;
    for _ in 0..10 {
        match l.debit(&a, 30) {
            Ok(()) => ok += 1,
            Err(e) => assert_eq!(e, HKDError::InsufficientBalance),
        }
    }
    assert_eq!(ok, 8);
    assert_eq!(l.get(&a).unwrap().balance, 10);
    assert_eq!(l.debit(&"none".to_string(), 1), Err(HKDError::WalletNotFound));
    assert_eq!(l.credit(&"none".to_string(), 1), Err(HKDError::WalletNotFound));
}

#[test]
fn register_keeps_existing_wallet() {
    let mut e = engine();
    e.mint("corp_abc123", 10, cash(10)).unwrap();
    assert!(!e.register_wallet("corp_abc123", KycStatus::Pending));
    let w = e.get_wallet("corp_abc123").unwrap();
    assert_eq!(w.balance, 10);
    assert_eq!(w.kyc_status, KycStatus::EnhancedVerified);
    assert!(e.get_wallet("nobody").is_none());
}

#[test]
fn kyc_order_and_rejected() {
    assert!(KycStatus::EnhancedVerified.meets(&KycStatus::Verified));
    assert!(KycStatus::Verified.meets(&KycStatus::Verified));
    assert!(!KycStatus::Pending.meets(&KycStatus::Verified));
    assert!(KycStatus::Pending.meets(&KycStatus::Pending));
    assert!(!KycStatus::Rejected.meets(&KycStatus::Pending));
    assert!(!KycStatus::Verified.meets(&KycStatus::Rejected));
}

#[test]
fn error_messages() {
    assert_eq!(HKDError::WalletNotFound.message(), "Wallet not found");
    assert_eq!(
        HKDError::SerializationError("bad".to_string()).message(),
        "Serialization error: bad"
    );
}

#[test]
fn rejected_wallet_cannot_be_minted_to_or_burned_from() {
    let mut e = engine();
    assert!(e.register_wallet("rejected_2", KycStatus::Rejected));
    assert_eq!(e.mint("rejected_2", 10, cash(10)), Err(HKDError::InsufficientKyc));
    assert_eq!(e.burn("rejected_2", 10), Err(HKDError::InsufficientKyc));
    assert_eq!(e.get_reserve().hkd_balance, 0);
    assert_eq!(e.transaction_count(), 0);
}

#[test]
fn taken_transaction_id_is_refused() {
    let mut e = engine();
    let id = e.mint_with("corp_abc123", 100, cash(100), "id-1".to_string(), 5).unwrap();
    assert_eq!(id, "id-1");
    assert_eq!(
        e.mint_with("corp_abc123", 100, cash(100), "id-1".to_string(), 6),
        Err(HKDError::DuplicateTransactionId)
    );
    assert_eq!(e.burn_with("corp_abc123", 10, "id-1".to_string(), 7), Err(HKDError::DuplicateTransactionId));
    assert_eq!(
        e.transfer_with("corp_abc123", "user_xyz789", 10, None, "id-1".to_string(), 8),
        Err(HKDError::DuplicateTransactionId)
    );
    assert_eq!(balance(&e, "corp_abc123"), 100);
    assert_eq!(e.get_reserve().hkd_balance, 100);
    assert_eq!(e.transaction_count(), 1);
    assert_eq!(last(&e).created_at, 5);
}

#[test]
fn retry_of_failed_keyed_transfer_gives_first_outcome() {
    let mut e = engine();
    let r = e.transfer("corp_abc123", "user_xyz789", 100, meta(Some("k-9")));
    assert_eq!(r, Err(HKDError::InsufficientBalance));
    e.mint("corp_abc123", 500, cash(500)).unwrap();
    let again = e.transfer("corp_abc123", "user_xyz789", 100, meta(Some("k-9")));
    assert_eq!(again, Err(HKDError::InsufficientBalance));
    assert_eq!(balance(&e, "corp_abc123"), 500);
    assert_eq!(balance(&e, "user_xyz789"), 0);
    e.transfer("corp_abc123", "user_xyz789", 100, meta(Some("k-10"))).unwrap();
    assert_eq!(balance(&e, "user_xyz789"), 100);
}

#[test]
fn history_cap_bounds_what_the_rules_see() {
    let mut policy = default_monitor();
    policy.rapid_window_ms = 1_000_000;
    policy.rapid_count = 2;
    let mut wide = ComplianceEngine::with_policy(policy, vec![]);
    policy.history_cap = 1;
    let mut narrow = ComplianceEngine::with_policy(policy, vec![]);
    for at in 0..2 {
        assert_eq!(wide.monitor_transaction(&tx("w", 1, at)), Decision::Allow);
        assert_eq!(narrow.monitor_transaction(&tx("w", 1, at)), Decision::Allow);
    }
    assert_eq!(
        wide.monitor_transaction(&tx("w", 1, 2)),
        Decision::Flag(SuspiciousActivityType::RapidTransactions, SeverityLevel::Low)
    );
    assert_eq!(narrow.monitor_transaction(&tx("w", 1, 2)), Decision::Allow);
}
