//! Backups of open loans: what a borrower needs to restore a loan.

use vstd::prelude::*;
use vstd::string::*;
use crate::assets::{same_bytes, AssetAmount, Txid};
use crate::hexcode::hex_text;
use crate::loan::loan_id;
use crate::wallet::StorageEntry;

verus! {

/// What the wallet remembers of an open loan.
#[derive(Clone, Copy, Debug, PartialEq, Eq)]
pub struct LoanDetails {
    pub txid: Txid,
    pub collateral: AssetAmount,
    pub principal: AssetAmount,
    pub principal_repayment: u64,
    pub term: u32,
}

/// A loan that can be backed up: its details and the borrower's state,
/// as the text under which it is stored.
#[derive(Clone, Debug, PartialEq, Eq)]
pub struct BackupDetails {
    pub loan_details: LoanDetails,
    pub borrower: String,
}

/// Why no backup was made.
#[derive(Clone, Copy, Debug, PartialEq, Eq, Structural)]
pub enum BackupError {
    /// No open loan has the transaction.
    LoanNotFound,
    /// Nothing is stored of the borrower's state.
    EmptyState,
}

/// Some open loan has the transaction.
pub open spec fn has_open_loan(loans: Seq<LoanDetails>, txid: Txid) -> bool {
    exists|i: int| 0 <= i < loans.len() && (#[trigger] loans[i]).txid == txid
}

/// The place is that of the first open loan with the transaction.
pub open spec fn is_first_loan(loans: Seq<LoanDetails>, txid: Txid, place: int) -> bool {
    &&& 0 <= place < loans.len()
    &&& loans[place].txid == txid
    &&& forall|i: int| 0 <= i < place ==> (#[trigger] loans[i]).txid != txid
}

/// The key under which the borrower's state of a loan is stored.
pub open spec fn state_key(txid: Txid) -> Seq<char> {
    "loan_state:"@ + hex_text(txid.bytes@)
}

/// The key under which the borrower's state of a loan is stored.
pub fn loan_state_key(txid: &Txid) -> (key: String)
    ensures
        key@ == state_key(*txid),
{
    let mut key = String::from_str("loan_state:");
    let name = loan_id(txid);
    key.append(name.as_str());
    key
}

/// The backup of the open loan with the transaction: the first such loan
/// and the borrower's state that was stored for it.
pub fn create_loan_backup(open_loans: &Vec<LoanDetails>, borrower_state: Option<String>, txid: &Txid) -> (backup: Result<BackupDetails, BackupError>)
    ensures
        match backup {
            Ok(made) => exists|place: int|
                is_first_loan(open_loans@, *txid, place) && made.loan_details == open_loans@[place]
                    && borrower_state == Some(made.borrower),
            Err(BackupError::LoanNotFound) => !has_open_loan(open_loans@, *txid),
            Err(BackupError::EmptyState) => has_open_loan(open_loans@, *txid)
                && borrower_state.is_none(),
        },
{
    let mut i: usize = 0;
    while i < open_loans.len()
        invariant
            i <= open_loans.len(),
            forall|k: int| 0 <= k < i ==> (#[trigger] open_loans@[k]).txid != *txid,
        decreases open_loans.len() - i,
    {
        if same_bytes(&open_loans[i].txid.bytes, &txid.bytes) {
            assert(is_first_loan(open_loans@, *txid, i as int));
            return match borrower_state {
                Some(borrower) => Ok(BackupDetails { loan_details: open_loans[i], borrower }),
                None => Err(BackupError::EmptyState),
            };
        }
        i += 1;
    }
    Err(BackupError::LoanNotFound)
}

/// Restores a backup: the loan joins the open loans, and the borrower's
/// state is to be stored under the loan's key.
pub fn load_loan_backup(backup_details: BackupDetails, open_loans: &mut Vec<LoanDetails>) -> (entry: StorageEntry)
    ensures
        final(open_loans)@ == old(open_loans)@.push(backup_details.loan_details),
        entry.key@ == state_key(backup_details.loan_details.txid),
        entry.value == backup_details.borrower,
{
    let key = loan_state_key(&backup_details.loan_details.txid);
    open_loans.push(backup_details.loan_details);
    StorageEntry { key, value: backup_details.borrower }
}

} // verus!
