use vstd::prelude::*;
use crate::models::Transaction;

verus! {

/// No two records share an id.
pub open spec fn ids_unique(s: Seq<Transaction>) -> bool {
    forall|i: int, j: int|
        0 <= i < s.len() && 0 <= j < s.len() && #[trigger] s[i].id@ == #[trigger] s[j].id@ ==> i == j
}

/// Some record carries id `id`.
pub open spec fn id_taken(s: Seq<Transaction>, id: Seq<char>) -> bool {
    exists|i: int| 0 <= i < s.len() && #[trigger] s[i].id@ == id
}

/// The append-only record of finalised transactions, keyed by id. Records
/// are never changed or removed once appended.
pub struct TransactionLog {
    records: Vec<Transaction>,
}

impl TransactionLog {
    pub closed spec fn view(&self) -> Seq<Transaction> {
        self.records@
    }

    pub closed spec fn wf(&self) -> bool {
        ids_unique(self.records@)
    }

    pub proof fn lemma_wf(&self)
        ensures
            self.wf() <==> ids_unique(self@),
    {
    }

    pub fn new() -> (r: TransactionLog)
        ensures
            r.wf(),
            r@ == Seq::<Transaction>::empty(),
    {
        TransactionLog { records: Vec::new() }
    }

    pub fn len(&self) -> (r: usize)
        ensures
            r == self@.len(),
    {
        self.records.len()
    }

    pub fn get(&self, i: usize) -> (r: &Transaction)
        requires
            i < self@.len(),
        ensures
            *r == self@[i as int],
    {
        &self.records[i]
    }

    /// Whether a record with this id is already held.
    pub fn contains_id(&self, id: &String) -> (r: bool)
        ensures
            r == id_taken(self@, id@),
    {
        let mut i: usize = 0;
        while i < self.records.len()
            invariant
                i <= self.records@.len(),
                forall|k: int| 0 <= k < i ==> #[trigger] self.records@[k].id@ != id@,
            decreases self.records@.len() - i,
        {
            if self.records[i].id.eq(id) {
                return true;
            }
            i += 1;
        }
        false
    }

    /// Appends `tx` unless its id is already held; a held id leaves the log
    /// as it is and gives `false`.
    pub fn append(&mut self, tx: Transaction) -> (added: bool)
        requires
            old(self).wf(),
        ensures
            final(self).wf(),
            added == !id_taken(old(self)@, tx.id@),
            added ==> final(self)@ == old(self)@.push(tx),
            !added ==> final(self)@ == old(self)@,
    {
        if self.contains_id(&tx.id) {
            return false;
        }
        let ghost id = tx.id@;
        self.records.push(tx);
        proof {
            let s = self.records@;
            assert forall|i: int, j: int|
                0 <= i < s.len() && 0 <= j < s.len() && #[trigger] s[i].id@ == #[trigger] s[j].id@
                    implies i == j by {
                if i == s.len() - 1 && j < s.len() - 1 {
                    assert(old(self)@[j].id@ == id);
                } else if j == s.len() - 1 && i < s.len() - 1 {
                    assert(old(self)@[i].id@ == id);
                }
            }
        }
        true
    }
}

} // verus!
