use vstd::prelude::*;
use crate::models::{RegulatoryReport, ReportType, Transaction};
use crate::totals::{total, all_nonneg, lemma_total_prefix_step, lemma_prefix_le_total};
use crate::system::{fresh_id, now_millis};

verus! {

#[derive(Debug, Clone, Copy, PartialEq, Eq, Structural)]
pub enum SuspiciousActivityType {
    RapidTransactions,
    Structuring,
    HighRiskCounterparty,
    UnusualPattern,
}

#[derive(Debug, Clone, Copy, PartialEq, Eq, Structural)]
pub enum SeverityLevel {
    Low,
    Medium,
    High,
    Critical,
}

/// A queued finding. Records are never changed after they are queued.
#[derive(Debug, Clone)]
pub struct SuspiciousActivity {
    pub wallet_address: String,
    pub activity_type: SuspiciousActivityType,
    pub description: String,
    pub detected_at: i64,
    pub severity: SeverityLevel,
}

/// The outcome of screening one transaction.
#[derive(Debug, Clone, Copy, PartialEq, Eq, Structural)]
pub enum Decision {
    Allow,
    Flag(SuspiciousActivityType, SeverityLevel),
    Reject(SuspiciousActivityType),
}

/// Screening policy. Amounts are minor units, windows are milliseconds.
/// `daily_limit` is the aggregate cap for sub-threshold outgoing amounts in
/// the rolling window; `transaction_threshold` is the reporting threshold;
/// more than `rapid_count` transactions inside `rapid_window_ms` count as
/// rapid; `reject_structuring` chooses reject over flag-and-allow; at most
/// `history_cap` observations are remembered, the newest ones.
#[derive(Debug, Clone, Copy, PartialEq, Eq, Structural)]
pub struct TransactionMonitor {
    pub daily_limit: u64,
    pub transaction_threshold: u64,
    pub window_ms: u64,
    pub rapid_window_ms: u64,
    pub rapid_count: u64,
    pub reject_structuring: bool,
    pub history_cap: u64,
}

/// One outgoing transaction remembered for the rolling window.
#[derive(Debug, Clone)]
pub struct Observation {
    pub wallet: String,
    pub amount: u64,
    pub at: i64,
}

/// Sub-threshold amounts of `w` seen after `cutoff`; zero for the rest.
pub open spec fn small_amounts(h: Seq<Observation>, w: Seq<char>, cutoff: int, threshold: u64) -> Seq<int> {
    h.map_values(
        |o: Observation|
            if o.wallet@ == w && o.at > cutoff && o.amount < threshold {
                o.amount as int
            } else {
                0
            },
    )
}

/// One for each transaction of `w` seen after `cutoff`; zero for the rest.
pub open spec fn recent_marks(h: Seq<Observation>, w: Seq<char>, cutoff: int) -> Seq<int> {
    h.map_values(|o: Observation| if o.wallet@ == w && o.at > cutoff { 1int } else { 0int })
}

/// The sub-threshold amounts of `w` in the window, the new one included,
/// add up to more than the daily limit.
pub open spec fn structuring_seen(h: Seq<Observation>, m: TransactionMonitor, w: Seq<char>, amount: u64, now: i64) -> bool {
    total(small_amounts(h, w, now - m.window_ms, m.transaction_threshold)) + (if amount
        < m.transaction_threshold {
        amount as int
    } else {
        0
    }) > m.daily_limit
}

/// More than `rapid_count` transactions of `w`, the new one included, in the short window.
pub open spec fn rapid_seen(h: Seq<Observation>, m: TransactionMonitor, w: Seq<char>, now: i64) -> bool {
    total(recent_marks(h, w, now - m.rapid_window_ms)) + 1 > m.rapid_count
}

pub open spec fn large_seen(m: TransactionMonitor, amount: u64) -> bool {
    amount >= m.transaction_threshold
}

/// The findings of one screening, in the order the rules are applied.
pub open spec fn findings(h: Seq<Observation>, m: TransactionMonitor, w: Seq<char>, amount: u64, now: i64) -> Seq<(SuspiciousActivityType, SeverityLevel)> {
    let s1 = if structuring_seen(h, m, w, amount, now) {
        seq![(SuspiciousActivityType::Structuring, SeverityLevel::Medium)]
    } else {
        Seq::empty()
    };
    let s2 = if rapid_seen(h, m, w, now) {
        s1.push((SuspiciousActivityType::RapidTransactions, SeverityLevel::Low))
    } else {
        s1
    };
    if large_seen(m, amount) {
        s2.push((SuspiciousActivityType::UnusualPattern, SeverityLevel::Low))
    } else {
        s2
    }
}

/// The decision for one screening: structuring first, then rapid
/// activity, then a large single amount.
pub open spec fn decision_for(h: Seq<Observation>, m: TransactionMonitor, w: Seq<char>, amount: u64, now: i64) -> Decision {
    if structuring_seen(h, m, w, amount, now) {
        if m.reject_structuring {
            Decision::Reject(SuspiciousActivityType::Structuring)
        } else {
            Decision::Flag(SuspiciousActivityType::Structuring, SeverityLevel::Medium)
        }
    } else if rapid_seen(h, m, w, now) {
        Decision::Flag(SuspiciousActivityType::RapidTransactions, SeverityLevel::Low)
    } else if large_seen(m, amount) {
        Decision::Flag(SuspiciousActivityType::UnusualPattern, SeverityLevel::Low)
    } else {
        Decision::Allow
    }
}

/// The observations still inside a window that starts after `cutoff`.
pub open spec fn kept(h: Seq<Observation>, cutoff: int) -> Seq<Observation>
    decreases h.len(),
{
    if h.len() == 0 {
        h
    } else if h.last().at > cutoff {
        kept(h.drop_last(), cutoff).push(h.last())
    } else {
        kept(h.drop_last(), cutoff)
    }
}

/// The newest `cap` observations.
pub open spec fn capped(h: Seq<Observation>, cap: u64) -> Seq<Observation> {
    if h.len() > cap {
        h.subrange(h.len() - cap, h.len() as int)
    } else {
        h
    }
}

/// The queue after `found` is appended for wallet `w` at time `now`.
pub open spec fn queued_after(q: Seq<SuspiciousActivity>, post: Seq<SuspiciousActivity>, w: Seq<char>, now: i64, found: Seq<(SuspiciousActivityType, SeverityLevel)>) -> bool {
    &&& post.len() == q.len() + found.len()
    &&& post.subrange(0, q.len() as int) == q
    &&& forall|i: int|
        0 <= i < found.len() ==> {
            &&& (#[trigger] post[q.len() + i]).wallet_address@ == w
            &&& post[q.len() + i].activity_type == found[i].0
            &&& post[q.len() + i].severity == found[i].1
            &&& post[q.len() + i].detected_at == now
        }
}

pub struct ComplianceEngine {
    suspicious_activities: Vec<SuspiciousActivity>,
    transaction_monitor: TransactionMonitor,
    history: Vec<Observation>,
    authorities: Vec<String>,
}

/// An element-for-element copy.
pub(crate) fn copy_strings(v: &Vec<String>) -> (r: Vec<String>)
    ensures
        r@ == v@,
{
    let mut out: Vec<String> = Vec::new();
    let mut i: usize = 0;
    while i < v.len()
        invariant
            i <= v@.len(),
            out@ == v@.subrange(0, i as int),
        decreases v@.len() - i,
    {
        out.push(v[i].clone());
        i += 1;
        assert(out@ =~= v@.subrange(0, i as int));
    }
    assert(v@.subrange(0, i as int) =~= v@);
    out
}

impl ComplianceEngine {
    pub closed spec fn queue(&self) -> Seq<SuspiciousActivity> {
        self.suspicious_activities@
    }

    pub closed spec fn history(&self) -> Seq<Observation> {
        self.history@
    }

    pub closed spec fn policy(&self) -> TransactionMonitor {
        self.transaction_monitor
    }

    pub closed spec fn authorities(&self) -> Seq<String> {
        self.authorities@
    }

    /// A monitor with the customary thresholds (an 80,000.00 reporting
    /// threshold, a 500,000.00 daily aggregate) reporting to HKMA and SFC.
    pub fn new() -> (r: ComplianceEngine)
        ensures
            r.queue().len() == 0,
            r.history().len() == 0,
            r.policy() == (TransactionMonitor {
                daily_limit: 50_000_000,
                transaction_threshold: 8_000_000,
                window_ms: 86_400_000,
                rapid_window_ms: 300_000,
                rapid_count: 10,
                reject_structuring: false,
                history_cap: 10_000,
            }),
            r.authorities().len() == 2,
            r.authorities()[0]@ == "HKMA"@,
            r.authorities()[1]@ == "SFC"@,
    {
        let mut authorities: Vec<String> = Vec::new();
        authorities.push("HKMA".to_owned());
        authorities.push("SFC".to_owned());
        ComplianceEngine::with_policy(
            TransactionMonitor {
                daily_limit: 50_000_000,
                transaction_threshold: 8_000_000,
                window_ms: 86_400_000,
                rapid_window_ms: 300_000,
                rapid_count: 10,
                reject_structuring: false,
                history_cap: 10_000,
            },
            authorities,
        )
    }

    /// A monitor with the given policy, reporting to `authorities`.
    pub fn with_policy(policy: TransactionMonitor, authorities: Vec<String>) -> (r: ComplianceEngine)
        ensures
            r.queue().len() == 0,
            r.history().len() == 0,
            r.policy() == policy,
            r.authorities() == authorities@,
    {
        ComplianceEngine {
            suspicious_activities: Vec::new(),
            transaction_monitor: policy,
            history: Vec::new(),
            authorities,
        }
    }

    pub fn pending_findings(&self) -> (r: usize)
        ensures
            r == self.queue().len(),
    {
        self.suspicious_activities.len()
    }

    fn detect_structured_transactions(&self, wallet: &String, amount: u64, now: i64) -> (r: bool)
        ensures
            r == structuring_seen(self.history@, self.transaction_monitor, wallet@, amount, now),
    {
        let m = self.transaction_monitor;
        let cutoff: i128 = now as i128 - m.window_ms as i128;
        let ghost terms = small_amounts(self.history@, wallet@, cutoff as int, m.transaction_threshold);
        proof {
            assert(all_nonneg(terms));
        }
        let mut acc: u64 = 0;
        let mut i: usize = 0;
        while i < self.history.len()
            invariant
                i <= self.history@.len(),
                terms == small_amounts(self.history@, wallet@, cutoff as int, m.transaction_threshold),
                terms.len() == self.history@.len(),
                all_nonneg(terms),
                acc == total(terms.subrange(0, i as int)),
                acc <= m.daily_limit,
                cutoff as int == now - m.window_ms,
                m == self.transaction_monitor,
            decreases self.history@.len() - i,
        {
            let o = &self.history[i];
            let term: u64 = if o.wallet.eq(wallet) && (o.at as i128) > cutoff && o.amount
                < m.transaction_threshold {
                o.amount
            } else {
                0
            };
            proof {
                assert(terms[i as int] == term);
                lemma_total_prefix_step(terms, i as int);
            }
            if term > m.daily_limit - acc {
                proof {
                    lemma_prefix_le_total(terms, i + 1);
                }
                return true;
            }
            acc = acc + term;
            i += 1;
        }
        proof {
            assert(terms.subrange(0, i as int) =~= terms);
        }
        let extra: u64 = if amount < m.transaction_threshold {
            amount
        } else {
            0
        };
        extra > m.daily_limit - acc
    }

    fn detect_rapid_transactions(&self, wallet: &String, now: i64) -> (r: bool)
        ensures
            r == rapid_seen(self.history@, self.transaction_monitor, wallet@, now),
    {
        let m = self.transaction_monitor;
        let cutoff: i128 = now as i128 - m.rapid_window_ms as i128;
        let ghost terms = recent_marks(self.history@, wallet@, cutoff as int);
        proof {
            assert(all_nonneg(terms));
        }
        if m.rapid_count == 0 {
            proof {
                lemma_prefix_le_total(terms, 0);
                assert(terms.subrange(0, 0) =~= Seq::<int>::empty());
            }
            return true;
        }
        let mut acc: u64 = 0;
        let mut i: usize = 0;
        while i < self.history.len()
            invariant
                i <= self.history@.len(),
                terms == recent_marks(self.history@, wallet@, cutoff as int),
                terms.len() == self.history@.len(),
                all_nonneg(terms),
                acc == total(terms.subrange(0, i as int)),
                acc + 1 <= m.rapid_count,
                cutoff as int == now - m.rapid_window_ms,
                m == self.transaction_monitor,
            decreases self.history@.len() - i,
        {
            let o = &self.history[i];
            let term: u64 = if o.wallet.eq(wallet) && (o.at as i128) > cutoff {
                1
            } else {
                0
            };
            proof {
                assert(terms[i as int] == term);
                lemma_total_prefix_step(terms, i as int);
            }
            if term > m.rapid_count - 1 - acc {
                proof {
                    lemma_prefix_le_total(terms, i + 1);
                }
                return true;
            }
            acc = acc + term;
            i += 1;
        }
        proof {
            assert(terms.subrange(0, i as int) =~= terms);
        }
        false
    }

    fn flag_suspicious_activity(
        &mut self,
        wallet_address: &String,
        activity_type: SuspiciousActivityType,
        description: &str,
        severity: SeverityLevel,
        now: i64,
    )
        ensures
            final(self).suspicious_activities@ == old(self).suspicious_activities@.push(
                SuspiciousActivity {
                    wallet_address: *wallet_address,
                    activity_type,
                    description: final(self).suspicious_activities@.last().description,
                    detected_at: now,
                    severity,
                },
            ),
            final(self).suspicious_activities@.last().description@ == description@,
            final(self).history@ == old(self).history@,
            final(self).transaction_monitor == old(self).transaction_monitor,
            final(self).authorities@ == old(self).authorities@,
    {
        let activity = SuspiciousActivity {
            wallet_address: wallet_address.clone(),
            activity_type,
            description: description.to_owned(),
            detected_at: now,
            severity,
        };
        self.suspicious_activities.push(activity);
    }

    /// Drops the observations that fell out of the rolling window and
    /// remembers a new one.
    fn remember(&mut self, wallet: &String, amount: u64, now: i64)
        ensures
            final(self).history@ == capped(
                kept(old(self).history@, now - old(self).transaction_monitor.window_ms).push(
                    Observation { wallet: *wallet, amount, at: now },
                ),
                old(self).transaction_monitor.history_cap,
            ),
            final(self).suspicious_activities@ == old(self).suspicious_activities@,
            final(self).transaction_monitor == old(self).transaction_monitor,
            final(self).authorities@ == old(self).authorities@,
    {
        let cutoff: i128 = now as i128 - self.transaction_monitor.window_ms as i128;
        let mut out: Vec<Observation> = Vec::new();
        let mut i: usize = 0;
        while i < self.history.len()
            invariant
                i <= self.history@.len(),
                out@ == kept(self.history@.subrange(0, i as int), cutoff as int),
            decreases self.history@.len() - i,
        {
            proof {
                assert(self.history@.subrange(0, i + 1).drop_last() =~= self.history@.subrange(0, i as int));
            }
            if (self.history[i].at as i128) > cutoff {
                let o = Observation {
                    wallet: self.history[i].wallet.clone(),
                    amount: self.history[i].amount,
                    at: self.history[i].at,
                };
                out.push(o);
            }
            i += 1;
        }
        proof {
            assert(self.history@.subrange(0, i as int) =~= self.history@);
        }
        out.push(Observation { wallet: wallet.clone(), amount, at: now });
        let cap = self.transaction_monitor.history_cap;
        if (out.len() as u64) <= cap {
            self.history = out;
            return;
        }
        let start: usize = out.len() - cap as usize;
        let mut newest: Vec<Observation> = Vec::new();
        let mut j: usize = start;
        while j < out.len()
            invariant
                start <= j <= out@.len(),
                newest@ == out@.subrange(start as int, j as int),
            decreases out@.len() - j,
        {
            newest.push(
                Observation { wallet: out[j].wallet.clone(), amount: out[j].amount, at: out[j].at },
            );
            j += 1;
            assert(newest@ =~= out@.subrange(start as int, j as int));
        }
        self.history = newest;
    }

    /// Screens `transaction` as an outgoing transaction of its source
    /// wallet at its creation time. Every rule that matches queues a
    /// finding, whatever the decision; a transaction that is not rejected
    /// joins the wallet's rolling history.
    pub fn monitor_transaction(&mut self, transaction: &Transaction) -> (r: Decision)
        ensures
            r == decision_for(
                old(self).history(),
                old(self).policy(),
                transaction.from_address@,
                transaction.amount,
                transaction.created_at,
            ),
            queued_after(
                old(self).queue(),
                final(self).queue(),
                transaction.from_address@,
                transaction.created_at,
                findings(
                    old(self).history(),
                    old(self).policy(),
                    transaction.from_address@,
                    transaction.amount,
                    transaction.created_at,
                ),
            ),
            r is Reject ==> final(self).history() == old(self).history(),
            !(r is Reject) ==> final(self).history() == capped(
                kept(old(self).history(), transaction.created_at - old(self).policy().window_ms).push(
                    Observation {
                        wallet: transaction.from_address,
                        amount: transaction.amount,
                        at: transaction.created_at,
                    },
                ),
                old(self).policy().history_cap,
            ),
            final(self).policy() == old(self).policy(),
            final(self).authorities() == old(self).authorities(),
    {
        let w = &transaction.from_address;
        let amount = transaction.amount;
        let now = transaction.created_at;
        let m = self.transaction_monitor;
        let structuring = self.detect_structured_transactions(w, amount, now);
        let rapid = self.detect_rapid_transactions(w, now);
        let large = amount >= m.transaction_threshold;
        let ghost q0 = self.suspicious_activities@;
        let ghost found = findings(self.history@, m, w@, amount, now);
        if structuring {
            self.flag_suspicious_activity(
                w,
                SuspiciousActivityType::Structuring,
                "Possible transaction structuring detected",
                SeverityLevel::Medium,
                now,
            );
        }
        if rapid {
            self.flag_suspicious_activity(
                w,
                SuspiciousActivityType::RapidTransactions,
                "Unusually high transaction frequency",
                SeverityLevel::Low,
                now,
            );
        }
        if large {
            self.flag_suspicious_activity(
                w,
                SuspiciousActivityType::UnusualPattern,
                "Single transaction at or above the reporting threshold",
                SeverityLevel::Low,
                now,
            );
        }
        proof {
            let q = self.suspicious_activities@;
            assert(q.subrange(0, q0.len() as int) =~= q0);
        }
        let d = if structuring {
            if m.reject_structuring {
                Decision::Reject(SuspiciousActivityType::Structuring)
            } else {
                Decision::Flag(SuspiciousActivityType::Structuring, SeverityLevel::Medium)
            }
        } else if rapid {
            Decision::Flag(SuspiciousActivityType::RapidTransactions, SeverityLevel::Low)
        } else if large {
            Decision::Flag(SuspiciousActivityType::UnusualPattern, SeverityLevel::Low)
        } else {
            Decision::Allow
        };
        if !matches!(d, Decision::Reject(_)) {
            self.remember(w, amount, now);
        }
        d
    }

    /// Bundles every queued finding into a report with the given id and
    /// time, and empties the queue; `None`, with nothing changed, when the
    /// queue is empty.
    pub fn drain_report(&mut self, id: String, now: i64) -> (r: Option<RegulatoryReport>)
        ensures
            old(self).queue().len() == 0 ==> r is None && final(self).queue() == old(self).queue(),
            old(self).queue().len() > 0 ==> (r matches Some(rep) && rep.id == id && rep.report_type
                == ReportType::SuspiciousActivity && rep.activities@ == old(self).queue()
                && rep.generated_at == now && rep.submitted_to@ == old(self).authorities()
                && final(self).queue().len() == 0),
            final(self).history() == old(self).history(),
            final(self).policy() == old(self).policy(),
            final(self).authorities() == old(self).authorities(),
    {
        if self.suspicious_activities.len() == 0 {
            return None;
        }
        let mut drained: Vec<SuspiciousActivity> = Vec::new();
        core::mem::swap(&mut self.suspicious_activities, &mut drained);
        Some(
            RegulatoryReport {
                id,
                report_type: ReportType::SuspiciousActivity,
                activities: drained,
                generated_at: now,
                submitted_to: copy_strings(&self.authorities),
            },
        )
    }

    /// Drains the queue into a suspicious-activity report with a fresh id,
    /// stamped with the current time; `None` when nothing is queued.
    pub fn generate_sar(&mut self) -> (r: Option<RegulatoryReport>)
        ensures
            old(self).queue().len() == 0 <==> r is None,
            r matches Some(rep) ==> (rep.activities@ == old(self).queue() && rep.report_type
                == ReportType::SuspiciousActivity && rep.submitted_to@ == old(self).authorities()),
            final(self).queue().len() == 0,
            final(self).history() == old(self).history(),
            final(self).policy() == old(self).policy(),
            final(self).authorities() == old(self).authorities(),
    {
        let id = fresh_id();
        let now = now_millis();
        self.drain_report(id, now)
    }
}

} // verus!
