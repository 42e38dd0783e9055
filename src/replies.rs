use vstd::prelude::*;
use crate::error::HKDError;

verus! {

/// The outcome of a transfer that carried an idempotency key.
pub struct Reply {
    pub key: String,
    pub result: Result<String, HKDError>,
}

/// No key is remembered twice.
pub open spec fn keys_unique(s: Seq<Reply>) -> bool {
    forall|i: int, j: int|
        0 <= i < s.len() && 0 <= j < s.len() && #[trigger] s[i].key@ == #[trigger] s[j].key@ ==> i == j
}

pub open spec fn key_known(s: Seq<Reply>, k: Seq<char>) -> bool {
    exists|i: int| 0 <= i < s.len() && #[trigger] s[i].key@ == k
}

/// The outcome remembered under key `k` (meaningful when it is known).
pub open spec fn reply_for(s: Seq<Reply>, k: Seq<char>) -> Result<String, HKDError> {
    s[choose|i: int| 0 <= i < s.len() && #[trigger] s[i].key@ == k].result
}

/// A copy equal to `e`.
pub fn copy_error(e: &HKDError) -> (r: HKDError)
    ensures
        r == *e,
{
    match e {
        HKDError::WalletNotFound => HKDError::WalletNotFound,
        HKDError::InsufficientBalance => HKDError::InsufficientBalance,
        HKDError::InvalidAmount => HKDError::InvalidAmount,
        HKDError::AmountExceedsLimit => HKDError::AmountExceedsLimit,
        HKDError::WalletFrozen => HKDError::WalletFrozen,
        HKDError::InsufficientKyc => HKDError::InsufficientKyc,
        HKDError::InsufficientReserveBacking => HKDError::InsufficientReserveBacking,
        HKDError::ComplianceCheckFailed => HKDError::ComplianceCheckFailed,
        HKDError::TransactionNotFound => HKDError::TransactionNotFound,
        HKDError::DuplicateTransactionId => HKDError::DuplicateTransactionId,
        HKDError::SerializationError(d) => HKDError::SerializationError(d.clone()),
    }
}

/// A copy equal to `r`.
pub fn copy_result(r: &Result<String, HKDError>) -> (c: Result<String, HKDError>)
    ensures
        c == *r,
{
    match r {
        Ok(s) => Ok(s.clone()),
        Err(e) => Err(copy_error(e)),
    }
}

/// Remembered outcomes of keyed transfers, so that a retry gives back the
/// first outcome instead of running again.
pub struct ReplyBook {
    entries: Vec<Reply>,
}

impl ReplyBook {
    pub closed spec fn view(&self) -> Seq<Reply> {
        self.entries@
    }

    pub closed spec fn wf(&self) -> bool {
        keys_unique(self.entries@)
    }

    pub proof fn lemma_wf(&self)
        ensures
            self.wf() <==> keys_unique(self@),
    {
    }

    pub fn new() -> (r: ReplyBook)
        ensures
            r.wf(),
            r@ == Seq::<Reply>::empty(),
    {
        ReplyBook { entries: Vec::new() }
    }

    /// The outcome remembered under `key`, if any.
    pub fn lookup(&self, key: &String) -> (r: Option<Result<String, HKDError>>)
        requires
            self.wf(),
        ensures
            r == (if key_known(self@, key@) {
                Some(reply_for(self@, key@))
            } else {
                None
            }),
    {
        let mut i: usize = 0;
        while i < self.entries.len()
            invariant
                i <= self.entries@.len(),
                keys_unique(self.entries@),
                forall|k: int| 0 <= k < i ==> #[trigger] self.entries@[k].key@ != key@,
            decreases self.entries@.len() - i,
        {
            if self.entries[i].key.eq(key) {
                proof {
                    let s = self.entries@;
                    assert(s[i as int].key@ == key@);
                    let j = choose|j: int| 0 <= j < s.len() && #[trigger] s[j].key@ == key@;
                    assert(s[j].key@ == s[i as int].key@);
                }
                return Some(copy_result(&self.entries[i].result));
            }
            i += 1;
        }
        None
    }

    /// Remembers `result` under a key not yet known.
    pub fn remember(&mut self, key: String, result: Result<String, HKDError>)
        requires
            old(self).wf(),
            !key_known(old(self)@, key@),
        ensures
            final(self).wf(),
            final(self)@ == old(self)@.push(Reply { key, result }),
    {
        let ghost k = key@;
        self.entries.push(Reply { key, result });
        proof {
            let s = self.entries@;
            assert forall|i: int, j: int|
                0 <= i < s.len() && 0 <= j < s.len() && #[trigger] s[i].key@ == #[trigger] s[j].key@
                    implies i == j by {
                if i == s.len() - 1 && j < s.len() - 1 {
                    assert(old(self)@[j].key@ == k);
                } else if j == s.len() - 1 && i < s.len() - 1 {
                    assert(old(self)@[i].key@ == k);
                }
            }
        }
    }
}

} // verus!
