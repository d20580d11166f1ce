use bobtimus::hexcode::{from_hex, to_hex};
use bobtimus::liquidation::{
    get_publishable_liquidations_txs, liquidate_loans, LiquidationBook, LiquidationError,
    LiquidationForm,
};

fn book_at(locktimes: &[u32]) -> LiquidationBook {
    let mut book = LiquidationBook::new();
    for (i, locktime) in locktimes.iter().enumerate() {
        let tx = vec![i as u8, 0xab, 0x0f];
        assert_eq!(book.record(format!("loan-{}", i), &tx, *locktime), Ok(()));
    }
    book
}

#[test]
fn due_returns_the_records_whose_locktime_is_reached() {
    let book = book_at(&[100, 150, 200]);
    assert_eq!(book.due(150), Ok(vec![vec![0, 0xab, 0x0f], vec![1, 0xab, 0x0f]]));
}

#[test]
fn due_at_height_zero_and_at_the_last_locktime() {
    let book = book_at(&[100, 0, 200]);
    assert_eq!(book.due(0), Ok(vec![vec![1, 0xab, 0x0f]]));
    assert_eq!(book.due(99), Ok(vec![vec![1, 0xab, 0x0f]]));
    assert_eq!(
        book.due(200),
        Ok(vec![vec![0, 0xab, 0x0f], vec![1, 0xab, 0x0f], vec![2, 0xab, 0x0f]])
    );
    assert_eq!(book.due(u32::MAX).unwrap().len(), 3);
    assert_eq!(LiquidationBook::new().due(u32::MAX), Ok(vec![]));
}

#[test]
fn reading_does_not_change_the_schedule() {
    let book = book_at(&[100, 150, 200]);
    assert_eq!(book.due(150), book.due(150));
    assert_eq!(book.records.len(), 3);
    assert_eq!(get_publishable_liquidations_txs(&book, 150), book.due(150));
}

#[test]
fn a_form_holds_the_transaction_as_lower_case_hex() {
    let form = LiquidationForm::new("abc".to_string(), &vec![1, 2, 3, 15, 16, 255], 7);
    assert_eq!(form.id, "abc");
    assert_eq!(form.tx_hex, "0102030f10ff");
    assert_eq!(form.locktime, 7);
    let top = LiquidationForm::new("abc".to_string(), &vec![], u32::MAX);
    assert_eq!(top.tx_hex, "");
    assert_eq!(top.locktime, 4294967295i64);
}

#[test]
fn a_loan_has_at_most_one_record() {
    let mut book = book_at(&[100]);
    assert_eq!(book.record("loan-0".to_string(), &vec![9], 5), Err(LiquidationError::DuplicateLoan));
    assert_eq!(book.records.len(), 1);
    assert!(book.holds(&"loan-0".to_string()));
    assert!(!book.holds(&"loan-1".to_string()));
    let form = LiquidationForm::new("loan-0".to_string(), &vec![9], 5);
    assert_eq!(form.insert(&mut book), Err(LiquidationError::DuplicateLoan));
    let form = LiquidationForm::new("loan-1".to_string(), &vec![9], 5);
    assert_eq!(form.insert(&mut book), Ok(()));
    assert_eq!(book.due(5), Ok(vec![vec![9]]));
}

#[test]
fn a_due_record_that_is_not_hex_is_an_error() {
    let mut book = book_at(&[100]);
    book.records.push(LiquidationForm {
        id: "odd".to_string(),
        tx_hex: "0g".to_string(),
        locktime: 120,
    });
    assert_eq!(book.due(119), Ok(vec![vec![0, 0xab, 0x0f]]));
    assert_eq!(book.due(120), Err(LiquidationError::CorruptTransaction));
}

#[test]
fn upper_case_and_mixed_case_hex_is_read() {
    let mut book = LiquidationBook::new();
    book.records.push(LiquidationForm {
        id: "x".to_string(),
        tx_hex: "DeadBEEF00".to_string(),
        locktime: 1,
    });
    assert_eq!(book.due(1), Ok(vec![vec![0xde, 0xad, 0xbe, 0xef, 0x00]]));
}

#[test]
fn hex_round_trip() {
    let bytes: Vec<u8> = (0..=255).collect();
    let text = to_hex(&bytes);
    assert_eq!(text.len(), 512);
    assert_eq!(&text[..8], "00010203");
    assert_eq!(from_hex(&text), Some(bytes));
    assert_eq!(from_hex("abc"), None);
    assert_eq!(from_hex("zz"), None);
    assert_eq!(from_hex(""), Some(vec![]));
    assert_eq!(from_hex("0A"), Some(vec![10]));
}

#[test]
fn a_failed_broadcast_does_not_end_the_pass() {
    let report = liquidate_loans(&vec![true, false, true, false]);
    assert_eq!(report.attempted, 4);
    assert_eq!(report.failed, vec![1, 3]);
    let clean = liquidate_loans(&vec![]);
    assert_eq!(clean.attempted, 0);
    assert!(clean.failed.is_empty());
}
