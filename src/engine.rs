use vstd::prelude::*;
use crate::compliance::{
    copy_strings, decision_for, findings, queued_after, ComplianceEngine, Decision,
    TransactionMonitor,
};
use crate::error::HKDError;
use crate::ledger::{
    addresses_unique, adjusted, has_wallet, ledger_total, lemma_adjusted, lemma_balance_le_total,
    wallet_of, balances, WalletLedger,
};
use crate::models::{
    kyc_meets, AssetHolding, KycStatus, Ratio, RegulatoryReport, ReportType, Reserve, Transaction,
    TransactionMetadata, TransactionStatus, TransactionType, Wallet,
};
use crate::reserve::{asset_value, calculate_asset_value, mint_applied, ratio_of};
use crate::system::{fresh_id, now_millis};
use crate::totals::lemma_total_push;
use crate::replies::{key_known, keys_unique, reply_for, copy_result, Reply, ReplyBook};
use crate::txlog::{id_taken, ids_unique, TransactionLog};

verus! {

/// The source address of every mint record.
pub const RESERVE_MINT: &'static str = "RESERVE_MINT";

/// The destination address of every burn record.
pub const RESERVE_BURN: &'static str = "RESERVE_BURN";

/// What the engine is configured with. Amounts are minor units.
pub struct EngineConfig {
    pub max_transaction_amount: u64,
    pub min_kyc_level: KycStatus,
    pub regulatory_authorities: Vec<String>,
    pub monitor: TransactionMonitor,
}

/// The idempotency key carried by transfer metadata, if any.
pub open spec fn meta_key(m: Option<TransactionMetadata>) -> Option<Seq<char>> {
    match m {
        Some(md) => match md.idempotency_key {
            Some(k) => Some(k@),
            None => None,
        },
        None => None,
    }
}

/// The first failing check of a transfer, in the order they are made:
/// amount, limit, existence, freeze, KYC tier, balance.
pub open spec fn transfer_error(
    wallets: Seq<Wallet>,
    max_amount: u64,
    min_kyc: KycStatus,
    from: Seq<char>,
    to: Seq<char>,
    amount: u64,
) -> Option<HKDError> {
    if amount == 0 {
        Some(HKDError::InvalidAmount)
    } else if amount > max_amount {
        Some(HKDError::AmountExceedsLimit)
    } else if !has_wallet(wallets, from) || !has_wallet(wallets, to) {
        Some(HKDError::WalletNotFound)
    } else if wallet_of(wallets, from).frozen || wallet_of(wallets, to).frozen {
        Some(HKDError::WalletFrozen)
    } else if !kyc_meets(wallet_of(wallets, from).kyc_status, min_kyc) || !kyc_meets(
        wallet_of(wallets, to).kyc_status,
        min_kyc,
    ) {
        Some(HKDError::InsufficientKyc)
    } else if wallet_of(wallets, from).balance < amount {
        Some(HKDError::InsufficientBalance)
    } else {
        None
    }
}

/// The wallets after `amount` moves from `from` to `to`.
pub open spec fn moved(wallets: Seq<Wallet>, from: Seq<char>, to: Seq<char>, amount: u64) -> Seq<Wallet> {
    adjusted(adjusted(wallets, from, -(amount as int)), to, amount as int)
}

/// A record with the given fields (the metadata aside).
pub open spec fn record_is(
    t: Transaction,
    id: Seq<char>,
    from: Seq<char>,
    to: Seq<char>,
    amount: u64,
    kind: TransactionType,
    status: TransactionStatus,
    at: i64,
) -> bool {
    &&& t.id@ == id
    &&& t.from_address@ == from
    &&& t.to_address@ == to
    &&& t.amount == amount
    &&& t.transaction_type == kind
    &&& t.status == status
    &&& t.created_at == at
}

/// The transfer carries an idempotency key whose outcome is remembered.
pub open spec fn replayed(replies: Seq<Reply>, metadata: Option<TransactionMetadata>) -> bool {
    match meta_key(metadata) {
        Some(k) => key_known(replies, k),
        None => false,
    }
}

/// The first failing check of a mint: amount, recipient, its tier,
/// backing, capacity, the record id.
pub open spec fn mint_error(
    wallets: Seq<Wallet>,
    reserve: Reserve,
    log: Seq<Transaction>,
    to: Seq<char>,
    amount: u64,
    backing: Seq<AssetHolding>,
    id: Seq<char>,
) -> Option<HKDError> {
    if amount == 0 {
        Some(HKDError::InvalidAmount)
    } else if !has_wallet(wallets, to) {
        Some(HKDError::WalletNotFound)
    } else if wallet_of(wallets, to).kyc_status == KycStatus::Rejected {
        Some(HKDError::InsufficientKyc)
    } else if asset_value(backing) < amount {
        Some(HKDError::InsufficientReserveBacking)
    } else if asset_value(reserve.assets@) + asset_value(backing) > u64::MAX {
        Some(HKDError::InvalidAmount)
    } else if id_taken(log, id) {
        Some(HKDError::DuplicateTransactionId)
    } else {
        None
    }
}

/// The first failing check of a burn: amount, wallet, its tier, balance,
/// the record id.
pub open spec fn burn_error(
    wallets: Seq<Wallet>,
    log: Seq<Transaction>,
    from: Seq<char>,
    amount: u64,
    id: Seq<char>,
) -> Option<HKDError> {
    if amount == 0 {
        Some(HKDError::InvalidAmount)
    } else if !has_wallet(wallets, from) {
        Some(HKDError::WalletNotFound)
    } else if wallet_of(wallets, from).kyc_status == KycStatus::Rejected {
        Some(HKDError::InsufficientKyc)
    } else if wallet_of(wallets, from).balance < amount {
        Some(HKDError::InsufficientBalance)
    } else if id_taken(log, id) {
        Some(HKDError::DuplicateTransactionId)
    } else {
        None
    }
}

/// Nothing that the engine holds has changed.
pub open spec fn unchanged(pre: HKDEngine, post: HKDEngine) -> bool {
    &&& holdings_unchanged(pre, post)
    &&& post.replies() == pre.replies()
}

/// Wallets, reserve, log, monitor and configuration have not changed.
pub open spec fn holdings_unchanged(pre: HKDEngine, post: HKDEngine) -> bool {
    &&& post.wallets() == pre.wallets()
    &&& post.reserve() == pre.reserve()
    &&& post.log() == pre.log()
    &&& post.monitor() == pre.monitor()
    &&& post.max_amount() == pre.max_amount()
    &&& post.min_kyc() == pre.min_kyc()
}

/// `post` is `pre` with one record appended.
pub open spec fn appended(pre: HKDEngine, post: HKDEngine) -> bool {
    post.log() == pre.log().push(post.log().last())
}

/// What `mint` does, with the record's id and time given.
pub open spec fn mint_post(
    pre: HKDEngine,
    post: HKDEngine,
    to: Seq<char>,
    amount: u64,
    backing: Seq<AssetHolding>,
    id: Seq<char>,
    now: i64,
    r: Result<String, HKDError>,
) -> bool {
    match mint_error(pre.wallets(), pre.reserve(), pre.log(), to, amount, backing, id) {
        Some(e) => r == Err::<String, HKDError>(e) && unchanged(pre, post),
        None => {
            &&& r matches Ok(s) && s@ == id
            &&& !id_taken(pre.log(), id)
            &&& post.wallets() == adjusted(pre.wallets(), to, amount as int)
            &&& mint_applied(pre.reserve(), post.reserve(), backing, amount)
            &&& appended(pre, post)
            &&& record_is(post.log().last(), id, RESERVE_MINT@, to, amount, TransactionType::Mint, TransactionStatus::Completed, now)
            &&& post.log().last().metadata is None
            &&& post.monitor() == pre.monitor()
            &&& post.replies() == pre.replies()
        },
    }
}

/// What `burn` does, with the record's id and time given.
pub open spec fn burn_post(
    pre: HKDEngine,
    post: HKDEngine,
    from: Seq<char>,
    amount: u64,
    id: Seq<char>,
    now: i64,
    r: Result<String, HKDError>,
) -> bool {
    match burn_error(pre.wallets(), pre.log(), from, amount, id) {
        Some(e) => r == Err::<String, HKDError>(e) && unchanged(pre, post),
        None => {
            &&& r matches Ok(s) && s@ == id
            &&& !id_taken(pre.log(), id)
            &&& post.wallets() == adjusted(pre.wallets(), from, -(amount as int))
            &&& post.reserve() == (Reserve { hkd_balance: (pre.reserve().hkd_balance - amount) as u64, ..pre.reserve() })
            &&& appended(pre, post)
            &&& record_is(post.log().last(), id, from, RESERVE_BURN@, amount, TransactionType::Burn, TransactionStatus::Completed, now)
            &&& post.log().last().metadata is None
            &&& post.monitor() == pre.monitor()
            &&& post.replies() == pre.replies()
        },
    }
}

/// What the first run of a transfer does to everything but the remembered
/// outcomes, with the record's id and time given. A failed check changes
/// nothing; otherwise the transfer is screened, recorded, and completed
/// unless the screening rejects it.
pub open spec fn transfer_effect(
    pre: HKDEngine,
    post: HKDEngine,
    from: Seq<char>,
    to: Seq<char>,
    amount: u64,
    metadata: Option<TransactionMetadata>,
    id: Seq<char>,
    now: i64,
    r: Result<String, HKDError>,
) -> bool {
    match transfer_error(pre.wallets(), pre.max_amount(), pre.min_kyc(), from, to, amount) {
        Some(e) => r == Err::<String, HKDError>(e) && holdings_unchanged(pre, post),
        None => if id_taken(pre.log(), id) {
            r == Err::<String, HKDError>(HKDError::DuplicateTransactionId) && holdings_unchanged(pre, post)
        } else {
            let h = pre.monitor().history();
            let m = pre.monitor().policy();
            let rejected = decision_for(h, m, from, amount, now) is Reject;
            &&& queued_after(pre.monitor().queue(), post.monitor().queue(), from, now, findings(h, m, from, amount, now))
            &&& post.monitor().policy() == m
            &&& post.reserve() == pre.reserve()
            &&& post.max_amount() == pre.max_amount()
            &&& post.min_kyc() == pre.min_kyc()
            &&& appended(pre, post)
            &&& post.log().last().metadata == metadata
            &&& rejected ==> {
                &&& r == Err::<String, HKDError>(HKDError::ComplianceCheckFailed)
                &&& post.wallets() == pre.wallets()
                &&& record_is(post.log().last(), id, from, to, amount, TransactionType::Transfer, TransactionStatus::Frozen, now)
            }
            &&& !rejected ==> {
                &&& r matches Ok(s) && s@ == id
                &&& post.wallets() == moved(pre.wallets(), from, to, amount)
                &&& record_is(post.log().last(), id, from, to, amount, TransactionType::Transfer, TransactionStatus::Completed, now)
            }
        },
    }
}

/// What `transfer` does, with the record's id and time given. A key whose
/// outcome is remembered gives that outcome back and changes nothing;
/// otherwise the transfer runs once, and a key it carries is remembered
/// with the outcome, whether success or failure.
pub open spec fn transfer_post(
    pre: HKDEngine,
    post: HKDEngine,
    from: Seq<char>,
    to: Seq<char>,
    amount: u64,
    metadata: Option<TransactionMetadata>,
    id: Seq<char>,
    now: i64,
    r: Result<String, HKDError>,
) -> bool {
    match meta_key(metadata) {
        Some(k) => if key_known(pre.replies(), k) {
            unchanged(pre, post) && r == reply_for(pre.replies(), k)
        } else {
            &&& transfer_effect(pre, post, from, to, amount, metadata, id, now, r)
            &&& post.replies().len() == pre.replies().len() + 1
            &&& post.replies().drop_last() == pre.replies()
            &&& post.replies().last().key@ == k
            &&& post.replies().last().result == r
        },
        None => {
            &&& transfer_effect(pre, post, from, to, amount, metadata, id, now, r)
            &&& post.replies() == pre.replies()
        },
    }
}

/// The orchestrator: it owns the wallets, the reserve, the compliance
/// monitor and the log, and applies each operation to them as one step.
pub struct HKDEngine {
    wallets: WalletLedger,
    transactions: TransactionLog,
    replies: ReplyBook,
    reserve: Reserve,
    compliance: ComplianceEngine,
    config: EngineConfig,
}

fn copy_assets(v: &Vec<AssetHolding>) -> (r: Vec<AssetHolding>)
    ensures
        r@ == v@,
{
    let mut out: Vec<AssetHolding> = Vec::new();
    let mut i: usize = 0;
    while i < v.len()
        invariant
            i <= v@.len(),
            out@ == v@.subrange(0, i as int),
        decreases v@.len() - i,
    {
        out.push(AssetHolding { asset: v[i].asset.clone(), amount: v[i].amount });
        i += 1;
        assert(out@ =~= v@.subrange(0, i as int));
    }
    assert(v@.subrange(0, i as int) =~= v@);
    out
}

impl HKDEngine {
    pub closed spec fn wallets(&self) -> Seq<Wallet> {
        self.wallets@
    }

    pub closed spec fn log(&self) -> Seq<Transaction> {
        self.transactions@
    }

    /// The remembered outcomes of keyed transfers.
    pub closed spec fn replies(&self) -> Seq<Reply> {
        self.replies@
    }

    pub closed spec fn reserve(&self) -> Reserve {
        self.reserve
    }

    pub closed spec fn monitor(&self) -> ComplianceEngine {
        self.compliance
    }

    pub closed spec fn max_amount(&self) -> u64 {
        self.config.max_transaction_amount
    }

    pub closed spec fn min_kyc(&self) -> KycStatus {
        self.config.min_kyc_level
    }

    /// Addresses, record ids and remembered keys are unique, the reserve is
    /// well formed (and so fully backed), and the wallet balances add up to
    /// the units issued.
    pub open spec fn wf(&self) -> bool {
        &&& addresses_unique(self.wallets())
        &&& ids_unique(self.log())
        &&& keys_unique(self.replies())
        &&& self.reserve().wf()
        &&& ledger_total(self.wallets()) == self.reserve().hkd_balance
    }

    proof fn lemma_ledger_wf(&self)
        requires
            self.wf(),
        ensures
            self.wallets.wf(),
            self.transactions.wf(),
            self.replies.wf(),
    {
        self.wallets.lemma_wf();
        self.transactions.lemma_wf();
        self.replies.lemma_wf();
    }

    /// The newest record's id is taken (when there is one).
    proof fn lemma_last_id_taken(&self)
        ensures
            self.log().len() > 0 ==> id_taken(self.log(), self.log().last().id@),
    {
        if self.log().len() > 0 {
            let n = self.log().len() - 1;
            assert(self.log()[n].id@ == self.log().last().id@);
        }
    }

    proof fn lemma_parts_wf(&self)
        requires
            self.wallets.wf(),
            self.transactions.wf(),
            self.replies.wf(),
        ensures
            addresses_unique(self.wallets()),
            ids_unique(self.log()),
            keys_unique(self.replies()),
    {
        self.wallets.lemma_wf();
        self.transactions.lemma_wf();
        self.replies.lemma_wf();
    }

    /// An engine with no wallets, an empty reserve and an empty log.
    pub fn new(config: EngineConfig) -> (r: HKDEngine)
        ensures
            r.wf(),
            r.wallets().len() == 0,
            r.log().len() == 0,
            r.reserve().hkd_balance == 0,
            r.reserve().assets@.len() == 0,
            r.monitor().queue().len() == 0,
            r.monitor().history().len() == 0,
            r.monitor().policy() == config.monitor,
            r.monitor().authorities() == config.regulatory_authorities@,
            r.replies().len() == 0,
            r.max_amount() == config.max_transaction_amount,
            r.min_kyc() == config.min_kyc_level,
    {
        let now = now_millis();
        let compliance = ComplianceEngine::with_policy(
            config.monitor,
            copy_strings(&config.regulatory_authorities),
        );
        let wallets = WalletLedger::new();
        let transactions = TransactionLog::new();
        let replies = ReplyBook::new();
        proof {
            wallets.lemma_wf();
            transactions.lemma_wf();
            replies.lemma_wf();
            assert(balances(wallets@) =~= Seq::<int>::empty());
        }
        HKDEngine {
            wallets,
            transactions,
            replies,
            reserve: Reserve::new(now),
            compliance,
            config,
        }
    }

    /// Adds a wallet with a zero balance, as provisioning decided it; an
    /// address already known is left as it is and `false` returned.
    pub fn register_wallet(&mut self, address: &str, kyc_status: KycStatus) -> (added: bool)
        requires
            old(self).wf(),
        ensures
            final(self).wf(),
            added == !has_wallet(old(self).wallets(), address@),
            added ==> final(self).wallets() == old(self).wallets().push(final(self).wallets().last()),
            added ==> final(self).wallets().last().address@ == address@,
            added ==> final(self).wallets().last().balance == 0,
            added ==> final(self).wallets().last().kyc_status == kyc_status,
            added ==> !final(self).wallets().last().frozen,
            !added ==> final(self).wallets() == old(self).wallets(),
            final(self).reserve() == old(self).reserve(),
            final(self).log() == old(self).log(),
            final(self).monitor() == old(self).monitor(),
            final(self).replies() == old(self).replies(),
            final(self).max_amount() == old(self).max_amount(),
            final(self).min_kyc() == old(self).min_kyc(),
    {
        proof {
            self.lemma_ledger_wf();
        }
        let w = Wallet {
            address: address.to_owned(),
            balance: 0,
            frozen: false,
            kyc_status,
            created_at: now_millis(),
        };
        let ghost before = self.wallets@;
        let added = self.wallets.register(w);
        proof {
            self.wallets.lemma_wf();
            if added {
                assert(balances(self.wallets@) =~= balances(before).push(0));
                lemma_total_push(balances(before), 0);
                assert(self.wallets@ =~= before.push(self.wallets@.last()));
            }
        }
        added
    }

    /// Freezes or unfreezes a wallet.
    pub fn set_frozen(&mut self, address: &str, frozen: bool) -> (r: Result<(), HKDError>)
        requires
            old(self).wf(),
        ensures
            final(self).wf(),
            r is Err <==> !has_wallet(old(self).wallets(), address@),
            r is Err ==> r == Err::<(), HKDError>(HKDError::WalletNotFound) && final(self).wallets()
                == old(self).wallets(),
            r is Ok ==> final(self).wallets() == old(self).wallets().update(
                crate::ledger::wallet_index(old(self).wallets(), address@),
                (Wallet { frozen: frozen, ..wallet_of(old(self).wallets(), address@) }),
            ),
            final(self).reserve() == old(self).reserve(),
            final(self).log() == old(self).log(),
            final(self).monitor() == old(self).monitor(),
            final(self).replies() == old(self).replies(),
            final(self).max_amount() == old(self).max_amount(),
            final(self).min_kyc() == old(self).min_kyc(),
    {
        proof {
            self.lemma_ledger_wf();
        }
        let a = address.to_owned();
        let r = self.wallets.set_frozen(&a, frozen);
        proof {
            self.wallets.lemma_wf();
        }
        r
    }


    /// Issues `amount` units to `to_address` against `asset_backing`,
    /// recording the mint under `id` at time `now`.
    pub fn mint_with(
        &mut self,
        to_address: &str,
        amount: u64,
        asset_backing: Vec<AssetHolding>,
        id: String,
        now: i64,
    ) -> (r: Result<String, HKDError>)
        requires
            old(self).wf(),
        ensures
            final(self).wf(),
            mint_post(*old(self), *final(self), to_address@, amount, asset_backing@, id@, now, r),
            r is Ok ==> ledger_total(final(self).wallets()) == ledger_total(old(self).wallets()) + amount,
            r is Ok ==> ratio_of(final(self).reserve()).at_least_one(),
    {
        proof {
            self.lemma_ledger_wf();
        }
        if amount == 0 {
            return Err(HKDError::InvalidAmount);
        }
        let to = to_address.to_owned();
        match self.wallets.get(&to) {
            None => {
                return Err(HKDError::WalletNotFound);
            },
            Some(w) => {
                if w.kyc_status == KycStatus::Rejected {
                    return Err(HKDError::InsufficientKyc);
                }
            },
        }
        let value = match calculate_asset_value(&asset_backing, u64::MAX) {
            Some(v) => v,
            None => {
                return Err(HKDError::InvalidAmount);
            },
        };
        if value < amount {
            return Err(HKDError::InsufficientReserveBacking);
        }
        if value > u64::MAX - self.reserve.backing_value() {
            return Err(HKDError::InvalidAmount);
        }
        if self.transactions.contains_id(&id) {
            return Err(HKDError::DuplicateTransactionId);
        }
        let ghost w0 = self.wallets@;
        let _ = self.reserve.mint_backing(&asset_backing, amount);
        proof {
            lemma_balance_le_total(w0, to@);
            lemma_adjusted(w0, to@, amount as int);
        }
        let _ = self.wallets.credit(&to, amount);
        proof {
            self.wallets.lemma_wf();
        }
        let rid = id.clone();
        let tx = Transaction {
            id,
            from_address: RESERVE_MINT.to_owned(),
            to_address: to,
            amount,
            transaction_type: TransactionType::Mint,
            status: TransactionStatus::Completed,
            created_at: now,
            metadata: None,
        };
        let _ = self.transactions.append(tx);
        proof {
            self.lemma_parts_wf();
        }
        Ok(rid)
    }

    /// Issues `amount` units to `to_address` against `asset_backing`. The
    /// backing is checked and applied before the wallet is credited, and a
    /// failure leaves everything as it was.
    pub fn mint(&mut self, to_address: &str, amount: u64, asset_backing: Vec<AssetHolding>) -> (r: Result<String, HKDError>)
        requires
            old(self).wf(),
        ensures
            final(self).wf(),
            mint_post(
                *old(self),
                *final(self),
                to_address@,
                amount,
                asset_backing@,
                final(self).log().last().id@,
                final(self).log().last().created_at,
                r,
            ),
            r is Ok ==> ledger_total(final(self).wallets()) == ledger_total(old(self).wallets()) + amount,
            r is Ok ==> ratio_of(final(self).reserve()).at_least_one(),
    {
        let id = fresh_id();
        let now = now_millis();
        let r = self.mint_with(to_address, amount, asset_backing, id, now);
        proof {
            self.lemma_last_id_taken();
        }
        r
    }

    /// Redeems `amount` units from `from_address`, recording the burn
    /// under `id` at time `now`.
    pub fn burn_with(&mut self, from_address: &str, amount: u64, id: String, now: i64) -> (r: Result<String, HKDError>)
        requires
            old(self).wf(),
        ensures
            final(self).wf(),
            burn_post(*old(self), *final(self), from_address@, amount, id@, now, r),
            r is Ok ==> ledger_total(final(self).wallets()) == ledger_total(old(self).wallets()) - amount,
    {
        proof {
            self.lemma_ledger_wf();
        }
        if amount == 0 {
            return Err(HKDError::InvalidAmount);
        }
        let from = from_address.to_owned();
        match self.wallets.get(&from) {
            None => {
                return Err(HKDError::WalletNotFound);
            },
            Some(w) => {
                if w.kyc_status == KycStatus::Rejected {
                    return Err(HKDError::InsufficientKyc);
                }
                if w.balance < amount {
                    return Err(HKDError::InsufficientBalance);
                }
            },
        }
        if self.transactions.contains_id(&id) {
            return Err(HKDError::DuplicateTransactionId);
        }
        let ghost w0 = self.wallets@;
        let _ = self.wallets.debit(&from, amount);
        proof {
            lemma_balance_le_total(w0, from@);
            lemma_adjusted(w0, from@, -(amount as int));
            self.wallets.lemma_wf();
        }
        let _ = self.reserve.release_backing(amount);
        let rid = id.clone();
        let tx = Transaction {
            id,
            from_address: from,
            to_address: RESERVE_BURN.to_owned(),
            amount,
            transaction_type: TransactionType::Burn,
            status: TransactionStatus::Completed,
            created_at: now,
            metadata: None,
        };
        let _ = self.transactions.append(tx);
        proof {
            self.lemma_parts_wf();
        }
        Ok(rid)
    }

    /// Redeems `amount` units from `from_address`: the wallet is debited
    /// first, and only then is the reserve's issued balance reduced.
    pub fn burn(&mut self, from_address: &str, amount: u64) -> (r: Result<String, HKDError>)
        requires
            old(self).wf(),
        ensures
            final(self).wf(),
            burn_post(
                *old(self),
                *final(self),
                from_address@,
                amount,
                final(self).log().last().id@,
                final(self).log().last().created_at,
                r,
            ),
            r is Ok ==> ledger_total(final(self).wallets()) == ledger_total(old(self).wallets()) - amount,
    {
        let id = fresh_id();
        let now = now_millis();
        let r = self.burn_with(from_address, amount, id, now);
        proof {
            self.lemma_last_id_taken();
        }
        r
    }


    /// Moves `amount` from `from_address` to `to_address`, recording the
    /// transfer under `id` at time `now`.
    pub fn transfer_with(
        &mut self,
        from_address: &str,
        to_address: &str,
        amount: u64,
        metadata: Option<TransactionMetadata>,
        id: String,
        now: i64,
    ) -> (r: Result<String, HKDError>)
        requires
            old(self).wf(),
        ensures
            final(self).wf(),
            transfer_post(*old(self), *final(self), from_address@, to_address@, amount, metadata, id@, now, r),
            r is Ok ==> ledger_total(final(self).wallets()) == ledger_total(old(self).wallets()),
    {
        proof {
            self.lemma_ledger_wf();
        }
        let key: Option<String> = match &metadata {
            Some(m) => match &m.idempotency_key {
                Some(k) => Some(k.clone()),
                None => None,
            },
            None => None,
        };
        if let Some(k) = &key {
            if let Some(prior) = self.replies.lookup(k) {
                return prior;
            }
        }
        let r = self.transfer_once(from_address, to_address, amount, metadata, id, now);
        if let Some(k) = key {
            proof {
                self.lemma_ledger_wf();
            }
            let ghost before = self.replies@;
            self.replies.remember(k, copy_result(&r));
            proof {
                self.lemma_parts_wf();
                assert(self.replies@.drop_last() =~= before);
            }
        }
        r
    }

    /// One run of a transfer, screening included.
    fn transfer_once(
        &mut self,
        from_address: &str,
        to_address: &str,
        amount: u64,
        metadata: Option<TransactionMetadata>,
        id: String,
        now: i64,
    ) -> (r: Result<String, HKDError>)
        requires
            old(self).wf(),
        ensures
            final(self).wf(),
            transfer_effect(*old(self), *final(self), from_address@, to_address@, amount, metadata, id@, now, r),
            final(self).replies() == old(self).replies(),
            r is Ok ==> ledger_total(final(self).wallets()) == ledger_total(old(self).wallets()),
    {
        proof {
            self.lemma_ledger_wf();
        }
        self.validate_transfer(from_address, to_address, amount)?;
        if self.transactions.contains_id(&id) {
            return Err(HKDError::DuplicateTransactionId);
        }
        let from = from_address.to_owned();
        let to = to_address.to_owned();
        let rid = id.clone();
        let mut tx = Transaction {
            id,
            from_address: from.clone(),
            to_address: to.clone(),
            amount,
            transaction_type: TransactionType::Transfer,
            status: TransactionStatus::Pending,
            created_at: now,
            metadata,
        };
        let decision = self.compliance.monitor_transaction(&tx);
        if let Decision::Reject(_) = decision {
            tx.status = TransactionStatus::Frozen;
            let _ = self.transactions.append(tx);
            proof {
                self.lemma_parts_wf();
            }
            return Err(HKDError::ComplianceCheckFailed);
        }
        let ghost w0 = self.wallets@;
        proof {
            lemma_adjusted(w0, from@, -(amount as int));
        }
        let _ = self.wallets.debit(&from, amount);
        let ghost w1 = self.wallets@;
        proof {
            lemma_balance_le_total(w1, to@);
            lemma_adjusted(w1, to@, amount as int);
        }
        let _ = self.wallets.credit(&to, amount);
        proof {
            self.wallets.lemma_wf();
        }
        tx.status = TransactionStatus::Completed;
        let _ = self.transactions.append(tx);
        proof {
            self.lemma_parts_wf();
        }
        Ok(rid)
    }

    /// Moves `amount` between two wallets. Every check is made before
    /// anything changes; a transfer the compliance screening rejects is
    /// recorded as `Frozen` and moves nothing.
    pub fn transfer(
        &mut self,
        from_address: &str,
        to_address: &str,
        amount: u64,
        metadata: Option<TransactionMetadata>,
    ) -> (r: Result<String, HKDError>)
        requires
            old(self).wf(),
        ensures
            final(self).wf(),
            transfer_post(
                *old(self),
                *final(self),
                from_address@,
                to_address@,
                amount,
                metadata,
                final(self).log().last().id@,
                final(self).log().last().created_at,
                r,
            ),
            r is Ok ==> ledger_total(final(self).wallets()) == ledger_total(old(self).wallets()),
    {
        let id = fresh_id();
        let now = now_millis();
        let r = self.transfer_with(from_address, to_address, amount, metadata, id, now);
        proof {
            self.lemma_last_id_taken();
        }
        r
    }

    fn validate_transfer(&self, from: &str, to: &str, amount: u64) -> (r: Result<(), HKDError>)
        requires
            self.wf(),
        ensures
            match transfer_error(self.wallets(), self.max_amount(), self.min_kyc(), from@, to@, amount) {
                Some(e) => r == Err::<(), HKDError>(e),
                None => r is Ok,
            },
    {
        proof {
            self.lemma_ledger_wf();
        }
        if amount == 0 {
            return Err(HKDError::InvalidAmount);
        }
        if amount > self.config.max_transaction_amount {
            return Err(HKDError::AmountExceedsLimit);
        }
        let from_wallet = match self.wallets.get(&from.to_owned()) {
            Some(w) => w,
            None => {
                return Err(HKDError::WalletNotFound);
            },
        };
        let to_wallet = match self.wallets.get(&to.to_owned()) {
            Some(w) => w,
            None => {
                return Err(HKDError::WalletNotFound);
            },
        };
        if from_wallet.frozen || to_wallet.frozen {
            return Err(HKDError::WalletFrozen);
        }
        if !from_wallet.kyc_status.meets(&self.config.min_kyc_level) || !to_wallet.kyc_status.meets(
            &self.config.min_kyc_level,
        ) {
            return Err(HKDError::InsufficientKyc);
        }
        if from_wallet.balance < amount {
            return Err(HKDError::InsufficientBalance);
        }
        Ok(())
    }

    /// A copy of the wallet at `address`, or `None`.
    pub fn get_wallet(&self, address: &str) -> (r: Option<Wallet>)
        requires
            self.wf(),
        ensures
            r == (if has_wallet(self.wallets(), address@) {
                Some(wallet_of(self.wallets(), address@))
            } else {
                None
            }),
    {
        proof {
            self.lemma_ledger_wf();
        }
        let a = address.to_owned();
        self.wallets.get(&a)
    }

    /// A copy of the reserve account.
    pub fn get_reserve(&self) -> (r: Reserve)
        ensures
            r.hkd_balance == self.reserve().hkd_balance,
            r.assets@ == self.reserve().assets@,
            r.last_audit == self.reserve().last_audit,
    {
        Reserve {
            hkd_balance: self.reserve.hkd_balance,
            assets: copy_assets(&self.reserve.assets),
            last_audit: self.reserve.last_audit,
        }
    }

    /// The reserve ratio: backing value over issued units, one when
    /// nothing is issued. It is never below one.
    pub fn reserve_ratio(&self) -> (r: Ratio)
        requires
            self.wf(),
        ensures
            r == ratio_of(self.reserve()),
            r.at_least_one(),
    {
        self.reserve.ratio()
    }

    pub fn transaction_count(&self) -> (r: usize)
        ensures
            r == self.log().len(),
    {
        self.transactions.len()
    }

    /// The record at position `i` of the log, oldest first.
    pub fn transaction_at(&self, i: usize) -> (r: &Transaction)
        requires
            i < self.log().len(),
        ensures
            *r == self.log()[i as int],
    {
        self.transactions.get(i)
    }

    /// Drains the queued compliance findings into a report.
    pub fn generate_sar(&mut self) -> (r: Option<RegulatoryReport>)
        requires
            old(self).wf(),
        ensures
            final(self).wf(),
            old(self).monitor().queue().len() == 0 <==> r is None,
            r matches Some(rep) ==> (rep.activities@ == old(self).monitor().queue() && rep.report_type
                == ReportType::SuspiciousActivity && rep.submitted_to@ == old(self).monitor().authorities()),
            final(self).monitor().queue().len() == 0,
            final(self).monitor().history() == old(self).monitor().history(),
            final(self).monitor().policy() == old(self).monitor().policy(),
            final(self).monitor().authorities() == old(self).monitor().authorities(),
            final(self).wallets() == old(self).wallets(),
            final(self).reserve() == old(self).reserve(),
            final(self).log() == old(self).log(),
            final(self).replies() == old(self).replies(),
            final(self).max_amount() == old(self).max_amount(),
            final(self).min_kyc() == old(self).min_kyc(),
    {
        self.compliance.generate_sar()
    }
}

} // verus!
