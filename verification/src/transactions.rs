//! The transaction ledger: the accepted deposits and withdrawals, in the order
//! in which they were recorded. Entries are never removed.

use vstd::prelude::*;
use crate::models::{Transaction, TransactionView};

verus! {

/// Why the ledger refuses a request.
#[derive(Clone, Copy, Debug, PartialEq, Eq)]
pub enum TransactionError {
    /// No entry is recorded under the identifier.
    TransactionNotFound,
    /// An entry is recorded under the identifier already.
    DuplicateTransaction,
}

/// `i` is the first place in `entries` that holds an entry under `tx`.
pub open spec fn is_transaction_position(entries: Seq<TransactionView>, tx: u32, i: int) -> bool {
    &&& 0 <= i < entries.len()
    &&& entries[i].tx == tx
    &&& forall|j: int| 0 <= j < i ==> (#[trigger] entries[j]).tx != tx
}

/// The place of the entry recorded under `tx`, if there is one.
pub open spec fn transaction_position(entries: Seq<TransactionView>, tx: u32) -> Option<int> {
    if exists|i: int| is_transaction_position(entries, tx, i) {
        Some(choose|i: int| is_transaction_position(entries, tx, i))
    } else {
        None
    }
}

/// What the ledger's requests report.
pub type TransactionResponse<T> = Result<T, TransactionError>;

/// No identifier is recorded twice.
pub open spec fn ledger_wf(entries: Seq<TransactionView>) -> bool {
    forall|i: int, j: int|
        0 <= i < j < entries.len() ==> (#[trigger] entries[i]).tx != (#[trigger] entries[j]).tx
}

/// A first place is the only first place.
pub proof fn lemma_transaction_position_is(entries: Seq<TransactionView>, tx: u32, i: int)
    requires
        is_transaction_position(entries, tx, i),
    ensures
        transaction_position(entries, tx) == Some(i),
{
    let k = choose|k: int| is_transaction_position(entries, tx, k);
    assert(is_transaction_position(entries, tx, k));
    if k < i {
        assert(entries[k].tx != tx);
    }
    if i < k {
        assert(entries[i].tx != tx);
    }
}

/// Where no entry is under `tx`, it has no place.
pub proof fn lemma_transaction_position_none(entries: Seq<TransactionView>, tx: u32)
    requires
        forall|j: int| 0 <= j < entries.len() ==> (#[trigger] entries[j]).tx != tx,
    ensures
        transaction_position(entries, tx) is None,
{
}

/// An entry under `tx` anywhere in the ledger gives `tx` a place.
pub proof fn lemma_transaction_recorded(entries: Seq<TransactionView>, tx: u32, i: int)
    requires
        0 <= i < entries.len(),
        entries[i].tx == tx,
    ensures
        transaction_position(entries, tx) is Some,
    decreases i,
{
    if exists|j: int| 0 <= j < i && (#[trigger] entries[j]).tx == tx {
        let j = choose|j: int| 0 <= j < i && (#[trigger] entries[j]).tx == tx;
        lemma_transaction_recorded(entries, tx, j);
    } else {
        assert(is_transaction_position(entries, tx, i));
    }
}

/// The ledger after `entry` is offered to it, and what the offer reports: a
/// new entry goes to the end, undisputed whatever marker it is offered with;
/// one under a recorded identifier is refused.
pub open spec fn recorded(entries: Seq<TransactionView>, entry: TransactionView) -> (
    Seq<TransactionView>,
    Result<(), TransactionError>,
) {
    if transaction_position(entries, entry.tx) is Some {
        (entries, Err(TransactionError::DuplicateTransaction))
    } else {
        (entries.push(TransactionView { disputed: false, ..entry }), Ok(()))
    }
}

/// The ledger after the entry under `tx` has its marker set to `disputed`, and
/// what the request reports.
pub open spec fn marked(entries: Seq<TransactionView>, tx: u32, disputed: bool) -> (
    Seq<TransactionView>,
    Result<(), TransactionError>,
) {
    match transaction_position(entries, tx) {
        Some(i) => (entries.update(i, TransactionView { disputed, ..entries[i] }), Ok(())),
        None => (entries, Err(TransactionError::TransactionNotFound)),
    }
}

/// The recorded deposits and withdrawals, oldest first.
#[derive(Debug)]
pub struct TransactionStorage {
    pub transactions: Vec<Transaction>,
}

impl View for TransactionStorage {
    type V = Seq<TransactionView>;

    open spec fn view(&self) -> Seq<TransactionView> {
        self.transactions@.map_values(|t: Transaction| t@)
    }
}

impl TransactionStorage {
    /// No identifier is recorded twice.
    pub open spec fn wf(&self) -> bool {
        ledger_wf(self@)
    }

    /// A ledger that holds no entry.
    pub fn new() -> (storage: TransactionStorage)
        ensures
            storage@ == Seq::<TransactionView>::empty(),
            storage.wf(),
    {
        TransactionStorage { transactions: Vec::new() }
    }

    /// Whether an entry is recorded under `tx`.
    pub fn exists_transaction(&self, tx: u32) -> (found: bool)
        ensures
            found == transaction_position(self@, tx).is_some(),
    {
        let mut i: usize = 0;
        while i < self.transactions.len()
            invariant
                i <= self.transactions.len(),
                forall|j: int| 0 <= j < i ==> (#[trigger] self@[j]).tx != tx,
            decreases self.transactions.len() - i,
        {
            if self.transactions[i].tx == tx {
                proof {
                    lemma_transaction_position_is(self@, tx, i as int);
                }
                return true;
            }
            i = i + 1;
        }
        proof {
            lemma_transaction_position_none(self@, tx);
        }
        false
    }

    /// Records `entry` at the end of the ledger, unless its identifier is
    /// recorded already. A new entry starts undisputed.
    pub fn add_transaction(&mut self, entry: Transaction) -> (done: TransactionResponse<()>)
        ensures
            (final(self)@, done) == recorded(old(self)@, entry@),
            old(self).wf() ==> final(self).wf(),
    {
        if self.exists_transaction(entry.tx) {
            return Err(TransactionError::DuplicateTransaction);
        }
        self.transactions.push(Transaction { tx: entry.tx, amount: entry.amount, disputed: false });
        proof {
            assert(self@ =~= old(self)@.push(TransactionView { disputed: false, ..entry@ }));
            if old(self).wf() {
                lemma_recorded_wf(old(self)@, entry@);
            }
        }
        Ok(())
    }

    /// Hands out the entry recorded under `tx`, if there is one. The lookup
    /// writes nothing: the ledger afterwards is the ledger before, with that one
    /// entry as the caller left it.
    pub fn get_transaction(&mut self, tx: u32) -> (found: Option<&mut Transaction>)
        ensures
            match found {
                Some(entry) => {
                    &&& transaction_position(old(self)@, tx) matches Some(i)
                    &&& entry@ == old(self)@[i]
                    &&& final(self)@ == old(self)@.update(i, final(entry)@)
                    &&& final(entry)@ == entry@ ==> final(self)@ == old(self)@
                },
                None => transaction_position(old(self)@, tx) is None && final(self)@ == old(self)@,
            },
    {
        let mut i: usize = 0;
        while i < self.transactions.len()
            invariant
                i <= self.transactions.len(),
                self.transactions@ == old(self).transactions@,
                forall|j: int| 0 <= j < i ==> (#[trigger] self@[j]).tx != tx,
            decreases self.transactions.len() - i,
        {
            if self.transactions[i].tx == tx {
                proof {
                    lemma_transaction_position_is(self@, tx, i as int);
                }
                return Some(&mut self.transactions[i]);
            }
            i = i + 1;
        }
        proof {
            lemma_transaction_position_none(self@, tx);
        }
        None
    }

    /// Sets the marker of the entry recorded under `tx`, and nothing else.
    pub fn set_disputed(&mut self, tx: u32, disputed: bool) -> (done: TransactionResponse<()>)
        ensures
            (final(self)@, done) == marked(old(self)@, tx, disputed),
            old(self).wf() ==> final(self).wf(),
    {
        match self.get_transaction(tx) {
            Some(entry) => {
                entry.disputed = disputed;
            },
            None => {
                return Err(TransactionError::TransactionNotFound);
            },
        }
        proof {
            if old(self).wf() {
                lemma_marked_wf(old(self)@, tx, disputed);
            }
        }
        Ok(())
    }
}

/// Offering an entry keeps the ledger well formed.
pub proof fn lemma_recorded_wf(entries: Seq<TransactionView>, entry: TransactionView)
    requires
        ledger_wf(entries),
    ensures
        ledger_wf(recorded(entries, entry).0),
{
    if transaction_position(entries, entry.tx) is None {
        let after = entries.push(TransactionView { disputed: false, ..entry });
        assert forall|i: int, j: int| 0 <= i < j < after.len() implies (#[trigger] after[i]).tx != (
        #[trigger] after[j]).tx by {
            if j == entries.len() {
                if entries[i].tx == entry.tx {
                    lemma_transaction_recorded(entries, entry.tx, i);
                }
            }
        }
    }
}

/// Setting a marker keeps the ledger well formed.
pub proof fn lemma_marked_wf(entries: Seq<TransactionView>, tx: u32, disputed: bool)
    requires
        ledger_wf(entries),
    ensures
        ledger_wf(marked(entries, tx, disputed).0),
{
}

} // verus!
