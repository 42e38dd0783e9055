use vstd::prelude::*;
use crate::error::HKDError;
use crate::models::Wallet;
use crate::totals::{total, lemma_total_update, lemma_term_le_total};

verus! {

/// No two wallets share an address.
pub open spec fn addresses_unique(s: Seq<Wallet>) -> bool {
    forall|i: int, j: int|
        0 <= i < s.len() && 0 <= j < s.len() && #[trigger] s[i].address@ == #[trigger] s[j].address@
            ==> i == j
}

pub open spec fn has_wallet(s: Seq<Wallet>, a: Seq<char>) -> bool {
    exists|i: int| 0 <= i < s.len() && #[trigger] s[i].address@ == a
}

/// Where the wallet with address `a` stands (meaningful when it exists).
pub open spec fn wallet_index(s: Seq<Wallet>, a: Seq<char>) -> int {
    choose|i: int| 0 <= i < s.len() && #[trigger] s[i].address@ == a
}

/// The wallet with address `a` (meaningful when it exists).
pub open spec fn wallet_of(s: Seq<Wallet>, a: Seq<char>) -> Wallet {
    s[wallet_index(s, a)]
}

pub open spec fn balances(s: Seq<Wallet>) -> Seq<int> {
    s.map_values(|w: Wallet| w.balance as int)
}

/// The sum of all wallet balances.
pub open spec fn ledger_total(s: Seq<Wallet>) -> int {
    total(balances(s))
}

pub open spec fn with_balance(w: Wallet, b: int) -> Wallet {
    Wallet { balance: b as u64, ..w }
}

/// The wallets after the balance at `a` changes by `delta`.
pub open spec fn adjusted(s: Seq<Wallet>, a: Seq<char>, delta: int) -> Seq<Wallet> {
    s.update(wallet_index(s, a), with_balance(wallet_of(s, a), wallet_of(s, a).balance + delta))
}

pub proof fn lemma_wallet_index(s: Seq<Wallet>, i: int)
    requires
        addresses_unique(s),
        0 <= i < s.len(),
    ensures
        has_wallet(s, s[i].address@),
        wallet_index(s, s[i].address@) == i,
{
    let a = s[i].address@;
    assert(s[i].address@ == a);
    let j = wallet_index(s, a);
    assert(s[j].address@ == s[i].address@);
}

pub proof fn lemma_adjusted(s: Seq<Wallet>, a: Seq<char>, delta: int)
    requires
        addresses_unique(s),
        has_wallet(s, a),
        0 <= wallet_of(s, a).balance + delta <= u64::MAX,
    ensures
        addresses_unique(adjusted(s, a, delta)),
        ledger_total(adjusted(s, a, delta)) == ledger_total(s) + delta,
        adjusted(s, a, delta).len() == s.len(),
        forall|b: Seq<char>| #[trigger] has_wallet(adjusted(s, a, delta), b) == has_wallet(s, b),
{
    let i = wallet_index(s, a);
    let t = adjusted(s, a, delta);
    assert(balances(t) =~= balances(s).update(i, wallet_of(s, a).balance + delta));
    lemma_total_update(balances(s), i, wallet_of(s, a).balance + delta);
    assert forall|b: Seq<char>| #[trigger] has_wallet(t, b) == has_wallet(s, b) by {
        if has_wallet(s, b) {
            let k = choose|k: int| 0 <= k < s.len() && #[trigger] s[k].address@ == b;
            assert(t[k].address@ == b);
        }
        if has_wallet(t, b) {
            let k = choose|k: int| 0 <= k < t.len() && #[trigger] t[k].address@ == b;
            assert(s[k].address@ == b);
        }
    }
}

pub proof fn lemma_balance_le_total(s: Seq<Wallet>, a: Seq<char>)
    requires
        has_wallet(s, a),
    ensures
        wallet_of(s, a).balance <= ledger_total(s),
{
    let i = wallet_index(s, a);
    assert(balances(s)[i] == s[i].balance as int);
    lemma_term_le_total(balances(s), i);
}

/// What one debit attempt does: it fails with `WalletNotFound` or
/// `InsufficientBalance` and changes nothing, or takes `amount` from the
/// wallet's balance.
pub open spec fn debit_step(pre: Seq<Wallet>, post: Seq<Wallet>, a: Seq<char>, amount: u64, r: Result<(), HKDError>) -> bool {
    if !has_wallet(pre, a) {
        r == Err::<(), HKDError>(HKDError::WalletNotFound) && post == pre
    } else if wallet_of(pre, a).balance < amount {
        r == Err::<(), HKDError>(HKDError::InsufficientBalance) && post == pre
    } else {
        r is Ok && post == adjusted(pre, a, -(amount as int))
    }
}

/// The address-to-wallet store. Wallets are added by provisioning and never removed.
pub struct WalletLedger {
    wallets: Vec<Wallet>,
}

impl WalletLedger {
    pub closed spec fn view(&self) -> Seq<Wallet> {
        self.wallets@
    }

    pub closed spec fn wf(&self) -> bool {
        addresses_unique(self.wallets@)
    }

    pub proof fn lemma_wf(&self)
        ensures
            self.wf() <==> addresses_unique(self@),
    {
    }

    pub fn new() -> (r: WalletLedger)
        ensures
            r.wf(),
            r@ == Seq::<Wallet>::empty(),
    {
        WalletLedger { wallets: Vec::new() }
    }

    /// The position of the wallet with this address, if any.
    pub fn find(&self, address: &String) -> (r: Option<usize>)
        requires
            self.wf(),
        ensures
            r is None <==> !has_wallet(self@, address@),
            r matches Some(i) ==> i == wallet_index(self@, address@) && i < self@.len(),
    {
        let mut i: usize = 0;
        while i < self.wallets.len()
            invariant
                i <= self.wallets@.len(),
                addresses_unique(self.wallets@),
                forall|k: int| 0 <= k < i ==> #[trigger] self.wallets@[k].address@ != address@,
            decreases self.wallets@.len() - i,
        {
            if self.wallets[i].address.eq(address) {
                proof {
                    lemma_wallet_index(self.wallets@, i as int);
                }
                return Some(i);
            }
            i += 1;
        }
        None
    }

    /// A copy of the wallet with this address, if any.
    pub fn get(&self, address: &String) -> (r: Option<Wallet>)
        requires
            self.wf(),
        ensures
            r == (if has_wallet(self@, address@) {
                Some(wallet_of(self@, address@))
            } else {
                None
            }),
    {
        match self.find(address) {
            Some(i) => Some(self.wallets[i].snapshot()),
            None => None,
        }
    }

    /// Adds a wallet whose address is new; a known address is left as it is.
    pub fn register(&mut self, wallet: Wallet) -> (added: bool)
        requires
            old(self).wf(),
        ensures
            final(self).wf(),
            added == !has_wallet(old(self)@, wallet.address@),
            added ==> final(self)@ == old(self)@.push(wallet),
            !added ==> final(self)@ == old(self)@,
    {
        if self.find(&wallet.address).is_some() {
            return false;
        }
        let ghost a = wallet.address@;
        self.wallets.push(wallet);
        proof {
            let s = self.wallets@;
            assert forall|i: int, j: int|
                0 <= i < s.len() && 0 <= j < s.len() && #[trigger] s[i].address@
                    == #[trigger] s[j].address@ implies i == j by {
                if i == s.len() - 1 && j < s.len() - 1 {
                    assert(old(self)@[j].address@ == a);
                } else if j == s.len() - 1 && i < s.len() - 1 {
                    assert(old(self)@[i].address@ == a);
                }
            }
        }
        true
    }

    /// Adds `amount` to the balance at `address`.
    pub fn credit(&mut self, address: &String, amount: u64) -> (r: Result<(), HKDError>)
        requires
            old(self).wf(),
            ledger_total(old(self)@) + amount <= u64::MAX,
        ensures
            final(self).wf(),
            !has_wallet(old(self)@, address@) ==> r == Err::<(), HKDError>(HKDError::WalletNotFound)
                && final(self)@ == old(self)@,
            has_wallet(old(self)@, address@) ==> r is Ok && final(self)@ == adjusted(
                old(self)@,
                address@,
                amount as int,
            ),
    {
        match self.find(address) {
            None => Err(HKDError::WalletNotFound),
            Some(i) => {
                proof {
                    lemma_balance_le_total(self.wallets@, address@);
                    lemma_adjusted(self.wallets@, address@, amount as int);
                }
                let mut w = self.wallets[i].snapshot();
                w.balance = w.balance + amount;
                self.wallets.set(i, w);
                proof {
                    assert(self.wallets@ =~= adjusted(old(self)@, address@, amount as int));
                }
                Ok(())
            },
        }
    }

    /// Takes `amount` from the balance at `address`; the check and the change are one step.
    pub fn debit(&mut self, address: &String, amount: u64) -> (r: Result<(), HKDError>)
        requires
            old(self).wf(),
        ensures
            final(self).wf(),
            debit_step(old(self)@, final(self)@, address@, amount, r),
    {
        match self.find(address) {
            None => Err(HKDError::WalletNotFound),
            Some(i) => {
                if self.wallets[i].balance < amount {
                    return Err(HKDError::InsufficientBalance);
                }
                proof {
                    lemma_adjusted(self.wallets@, address@, -(amount as int));
                }
                let mut w = self.wallets[i].snapshot();
                w.balance = w.balance - amount;
                self.wallets.set(i, w);
                proof {
                    assert(self.wallets@ =~= adjusted(old(self)@, address@, -(amount as int)));
                }
                Ok(())
            },
        }
    }

    /// Freezes or unfreezes the wallet at `address`.
    pub fn set_frozen(&mut self, address: &String, frozen: bool) -> (r: Result<(), HKDError>)
        requires
            old(self).wf(),
        ensures
            final(self).wf(),
            ledger_total(final(self)@) == ledger_total(old(self)@),
            !has_wallet(old(self)@, address@) ==> r == Err::<(), HKDError>(HKDError::WalletNotFound)
                && final(self)@ == old(self)@,
            has_wallet(old(self)@, address@) ==> r is Ok && final(self)@ == old(self)@.update(
                wallet_index(old(self)@, address@),
                (Wallet { frozen: frozen, ..wallet_of(old(self)@, address@) }),
            ),
    {
        match self.find(address) {
            None => Err(HKDError::WalletNotFound),
            Some(i) => {
                let mut w = self.wallets[i].snapshot();
                w.frozen = frozen;
                self.wallets.set(i, w);
                proof {
                    let s = old(self)@;
                    let t = self.wallets@;
                    assert(balances(t) =~= balances(s));
                    assert forall|x: int, y: int|
                        0 <= x < t.len() && 0 <= y < t.len() && #[trigger] t[x].address@
                            == #[trigger] t[y].address@ implies x == y by {
                        assert(s[x].address@ == s[y].address@);
                    }
                }
                Ok(())
            },
        }
    }
}

} // verus!
