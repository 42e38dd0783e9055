use vstd::prelude::*;
use vstd::arithmetic::div_mod::{lemma_fundamental_div_mod, lemma_div_pos_is_pos};
use crate::engine::{replayed, transfer_post, HKDEngine};
use crate::error::HKDError;
use crate::ledger::{
    addresses_unique, adjusted, debit_step, has_wallet, lemma_adjusted, lemma_balance_le_total,
    lemma_wallet_index, wallet_index, wallet_of,
};
use crate::models::{kyc_meets, TransactionMetadata, Wallet};
use crate::reserve::ratio_of;

verus! {

/// Every wallet balance of a consistent engine is at least zero and at
/// most the number of units issued.
pub proof fn law_balances_nonnegative(e: HKDEngine, a: Seq<char>)
    requires
        e.wf(),
        has_wallet(e.wallets(), a),
    ensures
        0 <= wallet_of(e.wallets(), a).balance <= e.reserve().hkd_balance,
{
    lemma_balance_le_total(e.wallets(), a);
}

/// A consistent engine's reserve ratio is never below one, so in
/// particular not after a mint.
pub proof fn law_reserve_backed(e: HKDEngine)
    requires
        e.wf(),
    ensures
        ratio_of(e.reserve()).at_least_one(),
{
}

/// A transfer with a frozen endpoint fails with `WalletFrozen` and moves
/// nothing, whatever the balances, once the amount is valid and both
/// wallets exist.
pub proof fn law_frozen_blocks_transfer(
    pre: HKDEngine,
    post: HKDEngine,
    from: Seq<char>,
    to: Seq<char>,
    amount: u64,
    metadata: Option<TransactionMetadata>,
    id: Seq<char>,
    now: i64,
    r: Result<String, HKDError>,
)
    requires
        pre.wf(),
        transfer_post(pre, post, from, to, amount, metadata, id, now, r),
        !replayed(pre.replies(), metadata),
        0 < amount <= pre.max_amount(),
        has_wallet(pre.wallets(), from),
        has_wallet(pre.wallets(), to),
        wallet_of(pre.wallets(), from).frozen || wallet_of(pre.wallets(), to).frozen,
    ensures
        r == Err::<String, HKDError>(HKDError::WalletFrozen),
        post.wallets() == pre.wallets(),
{
}

/// A transfer with an endpoint below the required tier fails with
/// `InsufficientKyc` before the balance is looked at: the outcome is the
/// same whether or not the source could pay.
pub proof fn law_kyc_before_balance(
    pre: HKDEngine,
    post: HKDEngine,
    from: Seq<char>,
    to: Seq<char>,
    amount: u64,
    metadata: Option<TransactionMetadata>,
    id: Seq<char>,
    now: i64,
    r: Result<String, HKDError>,
)
    requires
        pre.wf(),
        transfer_post(pre, post, from, to, amount, metadata, id, now, r),
        !replayed(pre.replies(), metadata),
        0 < amount <= pre.max_amount(),
        has_wallet(pre.wallets(), from),
        has_wallet(pre.wallets(), to),
        !wallet_of(pre.wallets(), from).frozen,
        !wallet_of(pre.wallets(), to).frozen,
        !kyc_meets(wallet_of(pre.wallets(), from).kyc_status, pre.min_kyc()) || !kyc_meets(
            wallet_of(pre.wallets(), to).kyc_status,
            pre.min_kyc(),
        ),
    ensures
        r == Err::<String, HKDError>(HKDError::InsufficientKyc),
        post.wallets() == pre.wallets(),
{
}

/// How many of the results are successes.
pub open spec fn successes(results: Seq<Result<(), HKDError>>) -> nat
    decreases results.len(),
{
    if results.len() == 0 {
        0
    } else {
        successes(results.drop_last()) + if results.last() is Ok {
            1nat
        } else {
            0nat
        }
    }
}

/// A run of debit attempts: `states[i + 1]` and `results[i]` are what the
/// `i`-th attempt of `amount` on wallet `a` left and returned.
pub open spec fn debit_run(
    states: Seq<Seq<Wallet>>,
    results: Seq<Result<(), HKDError>>,
    a: Seq<char>,
    amount: u64,
) -> bool {
    &&& states.len() == results.len() + 1
    &&& forall|i: int|
        0 <= i < results.len() ==> debit_step(#[trigger] states[i], states[i + 1], a, amount, results[i])
}

proof fn lemma_adjusted_wallet(s: Seq<Wallet>, a: Seq<char>, delta: int)
    requires
        addresses_unique(s),
        has_wallet(s, a),
        0 <= wallet_of(s, a).balance + delta <= u64::MAX,
    ensures
        addresses_unique(adjusted(s, a, delta)),
        has_wallet(adjusted(s, a, delta), a),
        wallet_of(adjusted(s, a, delta), a).balance == wallet_of(s, a).balance + delta,
{
    lemma_adjusted(s, a, delta);
    let i = wallet_index(s, a);
    let t = adjusted(s, a, delta);
    assert(t[i].address@ == a);
    lemma_wallet_index(t, i);
}

/// Debit attempts on one wallet take effect one after another. Of `n`
/// attempts of `amount` each against a balance `b`, exactly
/// `min(n, b / amount)` succeed, every other one fails with
/// `InsufficientBalance`, and the balance ends at `b` less what the
/// successes took, never below zero.
pub proof fn law_debits_affordable(
    states: Seq<Seq<Wallet>>,
    results: Seq<Result<(), HKDError>>,
    a: Seq<char>,
    amount: u64,
)
    requires
        amount > 0,
        addresses_unique(states[0]),
        has_wallet(states[0], a),
        debit_run(states, results, a, amount),
    ensures
        successes(results) == vstd::math::min(
            results.len() as int,
            (wallet_of(states[0], a).balance as int) / (amount as int),
        ),
        forall|i: int|
            0 <= i < results.len() ==> #[trigger] results[i] is Ok || results[i] == Err::<
                (),
                HKDError,
            >(HKDError::InsufficientBalance),
        wallet_of(states.last(), a).balance == wallet_of(states[0], a).balance - successes(results)
            * amount,
        wallet_of(states.last(), a).balance >= 0,
    decreases results.len(),
{
    let b0 = wallet_of(states[0], a).balance as int;
    let n = results.len() as int;
    if n == 0 {
        lemma_div_pos_is_pos(b0, amount as int);
    } else {
        let sp = states.drop_last();
        let rp = results.drop_last();
        assert forall|i: int| 0 <= i < rp.len() implies debit_step(
            #[trigger] sp[i],
            sp[i + 1],
            a,
            amount,
            rp[i],
        ) by {
            assert(debit_step(states[i], states[i + 1], a, amount, results[i]));
        }
        law_debits_affordable(sp, rp, a, amount);
        lemma_unique_along(states, results, a, amount, n - 1);
        let k = successes(rp) as int;
        let bk = wallet_of(states[n - 1], a).balance as int;
        assert(debit_step(states[n - 1], states[n], a, amount, results[n - 1]));
        lemma_fundamental_div_mod(b0, amount as int);
        let q = b0 / (amount as int);
        if bk >= amount {
            lemma_adjusted_wallet(states[n - 1], a, -(amount as int));
            assert(k < q) by (nonlinear_arith)
                requires
                    bk == b0 - k * amount,
                    bk >= amount,
                    b0 == amount * q + b0 % (amount as int),
                    0 <= b0 % (amount as int) < amount,
                    k <= q,
                    amount > 0,
            ;
            assert(bk - amount == b0 - (k + 1) * amount) by (nonlinear_arith)
                requires
                    bk == b0 - k * amount,
            ;
        } else {
            assert(k >= q) by (nonlinear_arith)
                requires
                    bk == b0 - k * amount,
                    bk < amount,
                    b0 == amount * q + b0 % (amount as int),
                    0 <= b0 % (amount as int) < amount,
                    amount > 0,
            ;
        }
        assert forall|i: int|
            0 <= i < results.len() implies #[trigger] results[i] is Ok || results[i] == Err::<
                (),
                HKDError,
            >(HKDError::InsufficientBalance) by {
            if i < n - 1 {
                assert(rp[i] == results[i]);
            }
        }
    }
}

/// Along a debit run the wallet stays present and addresses stay unique.
proof fn lemma_unique_along(
    states: Seq<Seq<Wallet>>,
    results: Seq<Result<(), HKDError>>,
    a: Seq<char>,
    amount: u64,
    k: int,
)
    requires
        0 <= k <= results.len(),
        addresses_unique(states[0]),
        has_wallet(states[0], a),
        debit_run(states, results, a, amount),
    ensures
        addresses_unique(states[k]),
        has_wallet(states[k], a),
    decreases k,
{
    if k > 0 {
        lemma_unique_along(states, results, a, amount, k - 1);
        assert(debit_step(states[k - 1], states[k], a, amount, results[k - 1]));
        if wallet_of(states[k - 1], a).balance >= amount {
            lemma_adjusted_wallet(states[k - 1], a, -(amount as int));
        }
    }
}

} // verus!
