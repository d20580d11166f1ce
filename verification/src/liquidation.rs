//! The liquidation schedule: one record per loan, released once the chain
//! has reached the record's locktime.

use vstd::prelude::*;
use crate::hexcode::{from_hex, hex_text, is_hex_text, to_hex, unhex};

verus! {

/// One row of the schedule: the loan it belongs to, the liquidation
/// transaction as hexadecimal text, and the height from which it is valid.
#[derive(Clone, Debug)]
pub struct LiquidationForm {
    pub id: String,
    pub tx_hex: String,
    pub locktime: i64,
}

/// Why the schedule refused a request.
#[derive(Clone, Copy, Debug, PartialEq, Eq, Structural)]
pub enum LiquidationError {
    /// The loan already has a record.
    DuplicateLoan,
    /// A record that is due holds text that is not hexadecimal.
    CorruptTransaction,
}

/// The records in the order in which they were inserted.
pub struct LiquidationBook {
    pub records: Vec<LiquidationForm>,
}

/// Whether a record is released at the given height.
pub open spec fn is_due(form: LiquidationForm, height: int) -> bool {
    form.locktime <= height
}

/// The records released at the given height, in insertion order.
pub open spec fn due_records(records: Seq<LiquidationForm>, height: int) -> Seq<LiquidationForm>
    decreases records.len(),
{
    if records.len() == 0 {
        Seq::empty()
    } else if is_due(records.last(), height) {
        due_records(records.drop_last(), height).push(records.last())
    } else {
        due_records(records.drop_last(), height)
    }
}

/// The byte strings that the vectors hold.
pub open spec fn contents(txs: Seq<Vec<u8>>) -> Seq<Seq<u8>> {
    txs.map_values(|tx: Vec<u8>| tx@)
}

/// Whether some record belongs to the loan.
pub open spec fn has_loan(records: Seq<LiquidationForm>, id: Seq<char>) -> bool {
    exists|i: int| 0 <= i < records.len() && (#[trigger] records[i]).id@ == id
}

/// No two records belong to one loan.
pub open spec fn distinct_loans(records: Seq<LiquidationForm>) -> bool {
    forall|i: int, j: int|
        0 <= i < j < records.len() ==> (#[trigger] records[i]).id@ != (#[trigger] records[j]).id@
}

/// Every record holds hexadecimal text.
pub open spec fn all_readable(records: Seq<LiquidationForm>) -> bool {
    forall|i: int| 0 <= i < records.len() ==> is_hex_text((#[trigger] records[i]).tx_hex@)
}

/// The transactions that the records hold, as bytes.
pub open spec fn transactions_of(records: Seq<LiquidationForm>) -> Seq<Seq<u8>> {
    records.map_values(|form: LiquidationForm| unhex(form.tx_hex@))
}

impl LiquidationForm {
    /// The record of a loan: its identifier, the serialized liquidation
    /// transaction written as hexadecimal text, and the locktime.
    pub fn new(loan_txid: String, liquidation_tx: &Vec<u8>, locktime: u32) -> (form: Self)
        ensures
            form.id@ == loan_txid@,
            form.tx_hex@ == hex_text(liquidation_tx@),
            form.locktime == locktime as int,
            is_hex_text(form.tx_hex@),
            unhex(form.tx_hex@) == liquidation_tx@,
    {
        let tx_hex = to_hex(liquidation_tx);
        LiquidationForm { id: loan_txid, tx_hex, locktime: locktime as i64 }
    }

    /// Adds the record to the schedule, unless its loan already has one.
    pub fn insert(self, book: &mut LiquidationBook) -> (done: Result<(), LiquidationError>)
        requires
            old(book).wf(),
        ensures
            final(book).wf(),
            has_loan(old(book).records@, self.id@) ==> done == Err::<(), LiquidationError>(
                LiquidationError::DuplicateLoan,
            ) && final(book).records@ == old(book).records@,
            !has_loan(old(book).records@, self.id@) ==> done.is_ok() && final(book).records@
                == old(book).records@.push(self),
    {
        if book.holds(&self.id) {
            return Err(LiquidationError::DuplicateLoan);
        }
        book.records.push(self);
        Ok(())
    }
}

impl LiquidationBook {
    /// The schedule keeps at most one record per loan.
    pub open spec fn wf(&self) -> bool {
        distinct_loans(self.records@)
    }

    /// A schedule without records.
    pub fn new() -> (book: Self)
        ensures
            book.wf(),
            book.records@.len() == 0,
    {
        LiquidationBook { records: Vec::new() }
    }

    /// Whether the loan has a record.
    pub fn holds(&self, id: &String) -> (found: bool)
        ensures
            found == has_loan(self.records@, id@),
    {
        let mut i: usize = 0;
        while i < self.records.len()
            invariant
                i <= self.records.len(),
                forall|k: int| 0 <= k < i ==> (#[trigger] self.records@[k]).id@ != id@,
            decreases self.records.len() - i,
        {
            if self.records[i].id == *id {
                return true;
            }
            i += 1;
        }
        false
    }

    /// Records a loan's liquidation transaction under its locktime.
    pub fn record(&mut self, loan_id: String, liquidation_tx: &Vec<u8>, locktime: u32) -> (done: Result<(), LiquidationError>)
        requires
            old(self).wf(),
        ensures
            final(self).wf(),
            has_loan(old(self).records@, loan_id@) ==> done == Err::<(), LiquidationError>(
                LiquidationError::DuplicateLoan,
            ) && final(self).records@ == old(self).records@,
            !has_loan(old(self).records@, loan_id@) ==> {
                &&& done.is_ok()
                &&& final(self).records@.len() == old(self).records@.len() + 1
                &&& final(self).records@.drop_last() == old(self).records@
                &&& final(self).records@.last().id@ == loan_id@
                &&& final(self).records@.last().tx_hex@ == hex_text(liquidation_tx@)
                &&& final(self).records@.last().locktime == locktime as int
            },
    {
        let form = LiquidationForm::new(loan_id, liquidation_tx, locktime);
        let done = form.insert(self);
        proof {
            if done.is_ok() {
                assert(self.records@.drop_last() =~= old(self).records@);
            }
        }
        done
    }

    /// The liquidation transactions whose locktime the chain has reached.
    pub fn due(&self, current_block_height: u32) -> (txs: Result<Vec<Vec<u8>>, LiquidationError>)
        ensures
            all_readable(due_records(self.records@, current_block_height as int)) ==> txs.is_ok()
                && contents(txs.unwrap()@) == transactions_of(
                due_records(self.records@, current_block_height as int),
            ),
            !all_readable(due_records(self.records@, current_block_height as int)) ==> txs
                == Err::<Vec<Vec<u8>>, LiquidationError>(LiquidationError::CorruptTransaction),
    {
        get_publishable_liquidations_txs(self, current_block_height)
    }
}

/// The transactions of all records with `locktime <= blockcount`, decoded
/// from their hexadecimal text, in insertion order.
pub fn get_publishable_liquidations_txs(book: &LiquidationBook, blockcount: u32) -> (txs: Result<Vec<Vec<u8>>, LiquidationError>)
    ensures
        all_readable(due_records(book.records@, blockcount as int)) ==> txs.is_ok()
            && contents(txs.unwrap()@) == transactions_of(due_records(book.records@, blockcount as int)),
        !all_readable(due_records(book.records@, blockcount as int)) ==> txs
            == Err::<Vec<Vec<u8>>, LiquidationError>(LiquidationError::CorruptTransaction),
{
    let ghost height = blockcount as int;
    let limit: i64 = blockcount as i64;
    let mut txs: Vec<Vec<u8>> = Vec::new();
    let mut i: usize = 0;
    assert(book.records@.take(0) =~= Seq::<LiquidationForm>::empty());
    while i < book.records.len()
        invariant
            i <= book.records.len(),
            limit == height,
            height == blockcount as int,
            all_readable(due_records(book.records@.take(i as int), height)),
            contents(txs@) =~= transactions_of(due_records(book.records@.take(i as int), height)),
        decreases book.records.len() - i,
    {
        let ghost before = book.records@.take(i as int);
        let ghost after = book.records@.take(i as int + 1);
        proof {
            assert(after.drop_last() =~= before);
            assert(after.last() == book.records@[i as int]);
            assert(due_records(after, height) == if is_due(after.last(), height) {
                due_records(before, height).push(after.last())
            } else {
                due_records(before, height)
            });
        }
        if book.records[i].locktime <= limit {
            match from_hex(book.records[i].tx_hex.as_str()) {
                Some(bytes) => {
                    let ghost earlier = txs@;
                    txs.push(bytes);
                    proof {
                        assert(txs@ == earlier.push(bytes));
                        assert(contents(txs@) =~= contents(earlier).push(bytes@));
                        assert(transactions_of(due_records(after, height)) =~= transactions_of(
                            due_records(before, height),
                        ).push(unhex(after.last().tx_hex@)));
                    }
                },
                None => {
                    proof {
                        let whole = due_records(book.records@, height);
                        lemma_due_prefix(book.records@, i as int + 1, height);
                        let k = due_records(after, height).len() - 1;
                        assert(due_records(after, height)[k] == after.last());
                        assert(0 <= k < whole.len());
                        assert(whole[k] == due_records(after, height)[k]);
                        assert(!is_hex_text(whole[k].tx_hex@));
                        assert(!all_readable(whole));
                    }
                    return Err(LiquidationError::CorruptTransaction);
                },
            }
        }
        i += 1;
    }
    proof {
        assert(book.records@.take(i as int) =~= book.records@);
    }
    Ok(txs)
}

/// The due records of a prefix open the due records of the whole.
pub proof fn lemma_due_prefix(records: Seq<LiquidationForm>, n: int, height: int)
    requires
        0 <= n <= records.len(),
    ensures
        due_records(records.take(n), height).len() <= due_records(records, height).len(),
        forall|k: int|
            0 <= k < due_records(records.take(n), height).len() ==> due_records(records, height)[k]
                == #[trigger] due_records(records.take(n), height)[k],
    decreases records.len() - n,
{
    if n == records.len() {
        assert(records.take(n) =~= records);
    } else {
        lemma_due_prefix(records, n + 1, height);
        let before = records.take(n);
        let after = records.take(n + 1);
        assert(after.drop_last() =~= before);
        assert(due_records(after, height) == if is_due(after.last(), height) {
            due_records(before, height).push(after.last())
        } else {
            due_records(before, height)
        });
        assert forall|k: int| 0 <= k < due_records(before, height).len() implies due_records(
            records,
            height,
        )[k] == #[trigger] due_records(before, height)[k] by {
            assert(due_records(after, height)[k] == due_records(before, height)[k]);
        }
    }
}

/// A record is released at a height exactly when its locktime is not above
/// it: every such record of the schedule is among the due ones, and no
/// other is.
pub proof fn lemma_due_exact(records: Seq<LiquidationForm>, height: int, form: LiquidationForm)
    ensures
        due_records(records, height).contains(form) <==> records.contains(form) && form.locktime
            <= height,
    decreases records.len(),
{
    if records.len() > 0 {
        let rest = records.drop_last();
        let last = records.last();
        lemma_due_exact(rest, height, form);
        let due_rest = due_records(rest, height);
        let due = due_records(records, height);
        if records.contains(form) {
            let i = choose|i: int| 0 <= i < records.len() && records[i] == form;
            if i < rest.len() {
                assert(rest[i] == form);
            }
        }
        if rest.contains(form) {
            let i = choose|i: int| 0 <= i < rest.len() && rest[i] == form;
            assert(records[i] == form);
        }
        if due.contains(form) {
            let i = choose|i: int| 0 <= i < due.len() && due[i] == form;
            if i < due_rest.len() {
                assert(due_rest[i] == form);
            }
        }
        if due_rest.contains(form) {
            let i = choose|i: int| 0 <= i < due_rest.len() && due_rest[i] == form;
            assert(due[i] == form);
        }
        if is_due(last, height) {
            assert(due[due.len() - 1] == last);
        }
        assert(records[records.len() - 1] == last);
    }
}

/// There are never more due records than records; where every locktime is
/// reached all records are due, and where none is reached none is due.
pub proof fn lemma_due_bounds(records: Seq<LiquidationForm>, height: int)
    ensures
        due_records(records, height).len() <= records.len(),
        (forall|i: int| 0 <= i < records.len() ==> (#[trigger] records[i]).locktime <= height)
            ==> due_records(records, height) == records,
        (forall|i: int| 0 <= i < records.len() ==> (#[trigger] records[i]).locktime > height)
            ==> due_records(records, height).len() == 0,
    decreases records.len(),
{
    if records.len() > 0 {
        let rest = records.drop_last();
        lemma_due_bounds(rest, height);
        assert(forall|i: int| 0 <= i < rest.len() ==> rest[i] == records[i]);
        if forall|i: int| 0 <= i < records.len() ==> (#[trigger] records[i]).locktime <= height {
            assert(due_records(records, height) =~= records);
        }
    } else {
        assert(due_records(records, height) =~= records);
    }
}

/// How a liquidation pass went: every due transaction was tried, and
/// these are the places of those whose broadcast failed.
#[derive(Clone, Debug, PartialEq, Eq)]
pub struct BatchReport {
    pub attempted: usize,
    pub failed: Vec<usize>,
}

/// The places at which a broadcast failed, in ascending order.
pub open spec fn failed_places(sent: Seq<bool>) -> Seq<usize>
    decreases sent.len(),
{
    if sent.len() == 0 {
        Seq::empty()
    } else if sent.last() {
        failed_places(sent.drop_last())
    } else {
        failed_places(sent.drop_last()).push((sent.len() - 1) as usize)
    }
}

/// Sums up a liquidation pass from the outcome of each broadcast. A
/// failure is reported and does not end the pass.
pub fn liquidate_loans(sent: &Vec<bool>) -> (report: BatchReport)
    ensures
        report.attempted == sent@.len(),
        report.failed@ == failed_places(sent@),
{
    let mut failed: Vec<usize> = Vec::new();
    let mut i: usize = 0;
    assert(sent@.take(0) =~= Seq::<bool>::empty());
    while i < sent.len()
        invariant
            i <= sent.len(),
            failed@ == failed_places(sent@.take(i as int)),
        decreases sent.len() - i,
    {
        proof {
            assert(sent@.take(i as int + 1).drop_last() =~= sent@.take(i as int));
            assert(sent@.take(i as int + 1).last() == sent@[i as int]);
        }
        if !sent[i] {
            failed.push(i);
        }
        i += 1;
    }
    proof {
        assert(sent@.take(i as int) =~= sent@);
    }
    BatchReport { attempted: sent.len(), failed }
}

} // verus!
