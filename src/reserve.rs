use vstd::prelude::*;
use crate::error::HKDError;
use crate::models::{AssetHolding, Ratio, Reserve};
use crate::totals::{
    total, all_nonneg, lemma_total_nonneg, lemma_total_update, lemma_total_push, lemma_total_prefix_step, lemma_term_le_total,
    lemma_prefix_le_total,
};

verus! {

pub open spec fn asset_amounts(s: Seq<AssetHolding>) -> Seq<int> {
    s.map_values(|h: AssetHolding| h.amount as int)
}

/// The priced value of a set of holdings: each unit of any asset counts as one unit.
pub open spec fn asset_value(s: Seq<AssetHolding>) -> int {
    total(asset_amounts(s))
}

pub open spec fn holdings_for(s: Seq<AssetHolding>, k: Seq<char>) -> Seq<int> {
    s.map_values(|h: AssetHolding| if h.asset@ == k { h.amount as int } else { 0 })
}

/// How much of asset `k` the holdings name, over all entries for it.
pub open spec fn holding_of(s: Seq<AssetHolding>, k: Seq<char>) -> int {
    total(holdings_for(s, k))
}

/// No asset kind appears twice.
pub open spec fn assets_unique(s: Seq<AssetHolding>) -> bool {
    forall|i: int, j: int|
        0 <= i < s.len() && 0 <= j < s.len() && #[trigger] s[i].asset@ == #[trigger] s[j].asset@
            ==> i == j
}

/// The reserve ratio of a reserve, as a fraction.
pub open spec fn ratio_of(r: Reserve) -> Ratio {
    if r.hkd_balance == 0 {
        Ratio { numerator: 1, denominator: 1 }
    } else {
        Ratio { numerator: asset_value(r.assets@) as u64, denominator: r.hkd_balance }
    }
}

proof fn lemma_amounts_nonneg(s: Seq<AssetHolding>)
    ensures
        all_nonneg(asset_amounts(s)),
        asset_value(s) >= 0,
{
    assert forall|i: int| 0 <= i < s.len() implies 0 <= #[trigger] asset_amounts(s)[i] by {
        assert(asset_amounts(s)[i] == s[i].amount as int);
    }
    lemma_total_nonneg(asset_amounts(s));
}

proof fn lemma_prefix_holdings(s: Seq<AssetHolding>, i: int, k: Seq<char>)
    requires
        0 <= i < s.len(),
    ensures
        holding_of(s.subrange(0, i + 1), k) == holding_of(s.subrange(0, i), k) + (if s[i].asset@
            == k {
            s[i].amount as int
        } else {
            0
        }),
        asset_value(s.subrange(0, i + 1)) == asset_value(s.subrange(0, i)) + s[i].amount,
{
    assert(holdings_for(s.subrange(0, i + 1), k) =~= holdings_for(s, k).subrange(0, i + 1));
    assert(holdings_for(s.subrange(0, i), k) =~= holdings_for(s, k).subrange(0, i));
    lemma_total_prefix_step(holdings_for(s, k), i);
    assert(asset_amounts(s.subrange(0, i + 1)) =~= asset_amounts(s).subrange(0, i + 1));
    assert(asset_amounts(s.subrange(0, i)) =~= asset_amounts(s).subrange(0, i));
    lemma_total_prefix_step(asset_amounts(s), i);
}

/// The value of `assets`, or `None` where it exceeds `cap`.
pub fn calculate_asset_value(assets: &Vec<AssetHolding>, cap: u64) -> (r: Option<u64>)
    ensures
        r matches Some(v) ==> v as int == asset_value(assets@),
        r == (if asset_value(assets@) <= cap {
            Some(asset_value(assets@) as u64)
        } else {
            None
        }),
{
    proof {
        lemma_amounts_nonneg(assets@);
    }
    let mut acc: u64 = 0;
    let mut i: usize = 0;
    while i < assets.len()
        invariant
            i <= assets@.len(),
            acc == asset_value(assets@.subrange(0, i as int)),
            acc <= cap,
        decreases assets@.len() - i,
    {
        proof {
            lemma_prefix_holdings(assets@, i as int, Seq::empty());
        }
        if assets[i].amount > cap - acc {
            proof {
                lemma_prefix_le_total(asset_amounts(assets@), i + 1);
                assert(asset_amounts(assets@.subrange(0, i + 1)) =~= asset_amounts(assets@).subrange(
                    0,
                    i + 1,
                ));
            }
            return None;
        }
        acc = acc + assets[i].amount;
        i += 1;
    }
    assert(assets@.subrange(0, i as int) =~= assets@);
    Some(acc)
}

/// Adds `amount` of `asset` to the holdings, merging with an existing entry.
fn merge_holding(assets: &mut Vec<AssetHolding>, asset: &String, amount: u64)
    requires
        assets_unique(old(assets)@),
        asset_value(old(assets)@) + amount <= u64::MAX,
    ensures
        assets_unique(final(assets)@),
        asset_value(final(assets)@) == asset_value(old(assets)@) + amount,
        forall|k: Seq<char>|
            #[trigger] holding_of(final(assets)@, k) == holding_of(old(assets)@, k) + (if k
                == asset@ {
                amount as int
            } else {
                0
            }),
{
    let mut j: usize = 0;
    while j < assets.len()
        invariant
            j <= assets@.len(),
            assets@ == old(assets)@,
            assets_unique(old(assets)@),
            asset_value(old(assets)@) + amount <= u64::MAX,
            forall|k: int| 0 <= k < j ==> #[trigger] assets@[k].asset@ != asset@,
        decreases assets@.len() - j,
    {
        if assets[j].asset.eq(asset) {
            let ghost s = assets@;
            proof {
                assert(asset_amounts(s)[j as int] == s[j as int].amount as int);
                lemma_amounts_nonneg(s);
                lemma_term_le_total(asset_amounts(s), j as int);
            }
            let h = AssetHolding { asset: asset.clone(), amount: assets[j].amount + amount };
            assets.set(j, h);
            proof {
                let t = assets@;
                assert(asset_amounts(t) =~= asset_amounts(s).update(j as int, h.amount as int));
                lemma_total_update(asset_amounts(s), j as int, h.amount as int);
                assert forall|k: Seq<char>| #[trigger]
                    holding_of(t, k) == holding_of(s, k) + (if k == asset@ {
                        amount as int
                    } else {
                        0
                    }) by {
                    let v = if k == asset@ { h.amount as int } else { 0 };
                    assert(holdings_for(t, k) =~= holdings_for(s, k).update(j as int, v));
                    lemma_total_update(holdings_for(s, k), j as int, v);
                }
                assert forall|x: int| 0 <= x < t.len() implies #[trigger] t[x].asset@ == s[x].asset@ by {
                    if x == j as int {
                        assert(h.asset@ == asset@);
                    }
                }
                assert forall|x: int, y: int|
                    0 <= x < t.len() && 0 <= y < t.len() && #[trigger] t[x].asset@
                        == #[trigger] t[y].asset@ implies x == y by {
                    assert(t[x].asset@ == s[x].asset@);
                    assert(t[y].asset@ == s[y].asset@);
                }
            }
            return;
        }
        j += 1;
    }
    let ghost s = assets@;
    let h = AssetHolding { asset: asset.clone(), amount };
    assets.push(h);
    proof {
        let t = assets@;
        assert(asset_amounts(t) =~= asset_amounts(s).push(amount as int));
        lemma_total_push(asset_amounts(s), amount as int);
        assert forall|k: Seq<char>| #[trigger]
            holding_of(t, k) == holding_of(s, k) + (if k == asset@ {
                amount as int
            } else {
                0
            }) by {
            let v = if k == asset@ { amount as int } else { 0 };
            assert(holdings_for(t, k) =~= holdings_for(s, k).push(v));
            lemma_total_push(holdings_for(s, k), v);
        }
        assert forall|x: int, y: int|
            0 <= x < t.len() && 0 <= y < t.len() && #[trigger] t[x].asset@
                == #[trigger] t[y].asset@ implies x == y by {
            if x == t.len() - 1 && y < t.len() - 1 {
                assert(s[y].asset@ == asset@);
            } else if y == t.len() - 1 && x < t.len() - 1 {
                assert(s[x].asset@ == asset@);
            }
        }
    }
}

impl Reserve {
    /// Asset kinds are unique, the total value fits in a `u64`, and every
    /// issued unit is backed (the reserve ratio is at least one).
    pub open spec fn wf(&self) -> bool {
        &&& assets_unique(self.assets@)
        &&& asset_value(self.assets@) <= u64::MAX
        &&& self.hkd_balance <= asset_value(self.assets@)
    }

    /// An empty reserve: nothing issued, nothing held, ratio one.
    pub fn new(last_audit: i64) -> (r: Reserve)
        ensures
            r.wf(),
            r.hkd_balance == 0,
            r.assets@.len() == 0,
            r.last_audit == last_audit,
    {
        let r = Reserve { hkd_balance: 0, assets: Vec::new(), last_audit };
        assert(asset_amounts(r.assets@) =~= Seq::<int>::empty());
        r
    }

    /// The priced value of everything the reserve holds.
    pub fn backing_value(&self) -> (r: u64)
        requires
            self.wf(),
        ensures
            r == asset_value(self.assets@),
    {
        calculate_asset_value(&self.assets, u64::MAX).unwrap()
    }

    /// Backing value over issued units, or one where nothing is issued.
    pub fn ratio(&self) -> (r: Ratio)
        requires
            self.wf(),
        ensures
            r == ratio_of(*self),
            r.at_least_one(),
    {
        if self.hkd_balance == 0 {
            Ratio { numerator: 1, denominator: 1 }
        } else {
            Ratio { numerator: self.backing_value(), denominator: self.hkd_balance }
        }
    }

    /// Issues `amount` units against `assets`. Fails with
    /// `InsufficientReserveBacking` when the assets are worth less than
    /// `amount`, and with `InvalidAmount` when the reserve's holdings would
    /// exceed what a `u64` holds. On failure nothing changes.
    pub fn mint_backing(&mut self, assets: &Vec<AssetHolding>, amount: u64) -> (r: Result<(), HKDError>)
        requires
            old(self).wf(),
        ensures
            final(self).wf(),
            asset_value(assets@) < amount ==> r == Err::<(), HKDError>(
                HKDError::InsufficientReserveBacking,
            ),
            asset_value(assets@) >= amount && asset_value(old(self).assets@) + asset_value(assets@)
                > u64::MAX ==> r == Err::<(), HKDError>(HKDError::InvalidAmount),
            r is Err ==> *final(self) == *old(self),
            r is Ok ==> mint_applied(*old(self), *final(self), assets@, amount),
            r is Ok <==> asset_value(assets@) >= amount && asset_value(old(self).assets@)
                + asset_value(assets@) <= u64::MAX,
    {
        let value = match calculate_asset_value(assets, u64::MAX) {
            Some(v) => v,
            None => {
                assert(asset_value(assets@) > u64::MAX);
                return Err(HKDError::InvalidAmount);
            },
        };
        if value < amount {
            return Err(HKDError::InsufficientReserveBacking);
        }
        let held = self.backing_value();
        if value > u64::MAX - held {
            return Err(HKDError::InvalidAmount);
        }
        let ghost before = self.assets@;
        let mut i: usize = 0;
        while i < assets.len()
            invariant
                i <= assets@.len(),
                self.hkd_balance == old(self).hkd_balance,
                self.last_audit == old(self).last_audit,
                before == old(self).assets@,
                old(self).wf(),
                value == asset_value(assets@),
                amount <= value,
                assets_unique(self.assets@),
                asset_value(before) + asset_value(assets@) <= u64::MAX,
                asset_value(self.assets@) == asset_value(before) + asset_value(
                    assets@.subrange(0, i as int),
                ),
                forall|k: Seq<char>|
                    #[trigger] holding_of(self.assets@, k) == holding_of(before, k) + holding_of(
                        assets@.subrange(0, i as int),
                        k,
                    ),
            decreases assets@.len() - i,
        {
            proof {
                lemma_prefix_holdings(assets@, i as int, Seq::empty());
                lemma_prefix_le_total(asset_amounts(assets@), i + 1);
                assert(asset_amounts(assets@.subrange(0, i + 1)) =~= asset_amounts(assets@).subrange(
                    0,
                    i + 1,
                ));
            }
            merge_holding(&mut self.assets, &assets[i].asset, assets[i].amount);
            proof {
                assert forall|k: Seq<char>| #[trigger]
                    holding_of(self.assets@, k) == holding_of(before, k) + holding_of(
                        assets@.subrange(0, i + 1),
                        k,
                    ) by {
                    lemma_prefix_holdings(assets@, i as int, k);
                }
            }
            i += 1;
        }
        assert(assets@.subrange(0, i as int) =~= assets@);
        self.hkd_balance = self.hkd_balance + amount;
        Ok(())
    }

    /// Retires `amount` issued units. Fails with `InvalidAmount`, changing
    /// nothing, when fewer units are outstanding.
    pub fn release_backing(&mut self, amount: u64) -> (r: Result<(), HKDError>)
        requires
            old(self).wf(),
        ensures
            final(self).wf(),
            amount > old(self).hkd_balance ==> r == Err::<(), HKDError>(HKDError::InvalidAmount)
                && *final(self) == *old(self),
            amount <= old(self).hkd_balance ==> r is Ok && *final(self) == (Reserve {
                hkd_balance: (old(self).hkd_balance - amount) as u64,
                ..*old(self)
            }),
    {
        if amount > self.hkd_balance {
            return Err(HKDError::InvalidAmount);
        }
        self.hkd_balance = self.hkd_balance - amount;
        Ok(())
    }
}

/// The effect of a successful mint on the reserve: `amount` more units
/// issued, each asset kind holding what it held plus what was brought.
pub open spec fn mint_applied(pre: Reserve, post: Reserve, brought: Seq<AssetHolding>, amount: u64) -> bool {
    &&& post.hkd_balance == pre.hkd_balance + amount
    &&& post.last_audit == pre.last_audit
    &&& asset_value(post.assets@) == asset_value(pre.assets@) + asset_value(brought)
    &&& forall|k: Seq<char>|
        #[trigger] holding_of(post.assets@, k) == holding_of(pre.assets@, k) + holding_of(brought, k)
}

} // verus!
