use bobtimus::assets::Txid;
use bobtimus::liquidation::LiquidationBook;
use bobtimus::loan::{
    covers, loan_id, value_at, LoanEngine, LoanError, LoanEvent, LoanFault, LoanFinalized,
    LoanOffer, LoanRequest, LoanState, LoanTerms, SignedLoan,
};
use bobtimus::rate::{Quote, RateService};

fn rates(ask: u64, bid: u64, at: u64) -> RateService {
    let mut service = RateService::new();
    assert_eq!(service.publish(Quote { ask, bid, observed_at: at }), Ok(()));
    service
}

fn txid(tag: u8) -> Txid {
    Txid { bytes: [tag; 32] }
}

#[test]
fn principal_is_held_to_collateral_over_ratio() {
    assert!(!covers(100, 2, 51));
    assert!(covers(100, 2, 50));
    assert!(covers(101, 2, 50));
    assert!(!covers(0, 1, 1));
    assert!(covers(0, 1, 0));
}

#[test]
fn collateral_is_valued_at_the_asking_price() {
    let par = Quote { ask: 100_000_000, bid: 100_000_000, observed_at: 0 };
    assert_eq!(value_at(100, &par), 100);
    let dear = Quote { ask: 3, bid: 1, observed_at: 0 };
    assert_eq!(value_at(10, &dear), 333_333_333);
    assert_eq!(value_at(u64::MAX, &Quote { ask: 1, bid: 1, observed_at: 0 }),
        u64::MAX as u128 * 100_000_000);
}

#[test]
fn a_request_beyond_the_collateral_is_rejected() {
    let engine = LoanEngine::new(2, 10, 60).unwrap();
    let service = rates(100_000_000, 100_000_000, 1000);
    let over = LoanRequest { collateral: 100, principal: 51 };
    assert_eq!(
        engine.handle_loan_request(&service, 1000, &over, 500),
        Err(LoanError::InsufficientCollateral)
    );
    let fine = LoanRequest { collateral: 100, principal: 50 };
    assert_eq!(
        engine.handle_loan_request(&service, 1000, &fine, 500),
        Ok(LoanTerms { collateral: 100, principal: 50, locktime: 510 })
    );
}

#[test]
fn no_loan_without_a_fresh_rate() {
    let engine = LoanEngine::new(2, 10, 60).unwrap();
    let request = LoanRequest { collateral: 100, principal: 50 };
    let empty = RateService::new();
    assert_eq!(engine.handle_loan_offer_request(&empty, 0), Err(LoanError::StaleOrMissingRate));
    assert_eq!(
        engine.handle_loan_request(&empty, 0, &request, 1),
        Err(LoanError::StaleOrMissingRate)
    );
    let service = rates(100_000_000, 90_000_000, 1000);
    assert_eq!(
        engine.handle_loan_offer_request(&service, 1060),
        Ok(LoanOffer {
            term: 10,
            collateralization_ratio: 2,
            rate: Quote { ask: 100_000_000, bid: 90_000_000, observed_at: 1000 },
        })
    );
    assert_eq!(
        engine.handle_loan_offer_request(&service, 1061),
        Err(LoanError::StaleOrMissingRate)
    );
    assert_eq!(
        engine.handle_loan_request(&service, 1061, &request, 1),
        Err(LoanError::StaleOrMissingRate)
    );
}

#[test]
fn a_locktime_beyond_the_last_height_is_refused() {
    let engine = LoanEngine::new(1, 10, 60).unwrap();
    let service = rates(100_000_000, 100_000_000, 0);
    let request = LoanRequest { collateral: 100, principal: 100 };
    assert_eq!(
        engine.handle_loan_request(&service, 0, &request, u32::MAX - 10),
        Ok(LoanTerms { collateral: 100, principal: 100, locktime: u32::MAX })
    );
    assert_eq!(
        engine.handle_loan_request(&service, 0, &request, u32::MAX - 9),
        Err(LoanError::Internal)
    );
    assert!(LoanEngine::new(0, 10, 60).is_none());
}

#[test]
fn finalizing_records_the_liquidation_and_closes_the_negotiation() {
    let mut engine = LoanEngine::new(2, 10, 60).unwrap();
    let mut book = LiquidationBook::new();
    let terms = LoanTerms { collateral: 100, principal: 50, locktime: 510 };
    assert_eq!(engine.open_negotiation(txid(7), terms, vec![0xde, 0xad]), Ok(()));
    assert_eq!(engine.open_negotiation(txid(8), terms, vec![0xbe, 0xef]), Ok(()));
    assert_eq!(engine.open_negotiation(txid(7), terms, vec![1]), Err(LoanError::Internal));
    let signed = SignedLoan { id: txid(7), collateral: 100, principal: 50, signature_valid: true };
    assert_eq!(
        engine.finalize_loan(&signed, &mut book),
        Ok(LoanFinalized { id: txid(7), terms })
    );
    assert_eq!(engine.negotiations.len(), 1);
    assert_eq!(engine.negotiations[0].id, txid(8));
    assert_eq!(book.records.len(), 1);
    assert_eq!(book.records[0].id, "07".repeat(32));
    assert_eq!(book.records[0].tx_hex, "dead");
    assert_eq!(book.records[0].locktime, 510);
    assert_eq!(book.due(509), Ok(vec![]));
    assert_eq!(book.due(510), Ok(vec![vec![0xde, 0xad]]));
    assert_eq!(
        engine.finalize_loan(&signed, &mut book),
        Err(LoanError::LoanValidationError(LoanFault::UnknownNegotiation))
    );
}

#[test]
fn a_transaction_that_does_not_match_is_refused_and_nothing_changes() {
    let mut engine = LoanEngine::new(2, 10, 60).unwrap();
    let mut book = LiquidationBook::new();
    let terms = LoanTerms { collateral: 100, principal: 50, locktime: 510 };
    assert_eq!(engine.open_negotiation(txid(7), terms, vec![0xde, 0xad]), Ok(()));
    let good = SignedLoan { id: txid(7), collateral: 100, principal: 50, signature_valid: true };
    let cases = [
        (SignedLoan { id: txid(9), ..good }, LoanFault::UnknownNegotiation),
        (SignedLoan { signature_valid: false, ..good }, LoanFault::InvalidSignature),
        (SignedLoan { collateral: 99, ..good }, LoanFault::AmountsDiffer),
        (SignedLoan { principal: 51, ..good }, LoanFault::AmountsDiffer),
    ];
    for (signed, fault) in cases.iter() {
        assert_eq!(
            engine.finalize_loan(signed, &mut book),
            Err(LoanError::LoanValidationError(*fault))
        );
        assert_eq!(engine.negotiations.len(), 1);
        assert_eq!(book.records.len(), 0);
    }
    assert_eq!(book.record(loan_id(&txid(7)), &vec![1], 1), Ok(()));
    assert_eq!(engine.finalize_loan(&good, &mut book), Err(LoanError::Internal));
    assert_eq!(engine.negotiations.len(), 1);
    assert_eq!(book.records.len(), 1);
}

#[test]
fn abandoning_closes_a_negotiation() {
    let mut engine = LoanEngine::new(2, 10, 60).unwrap();
    let terms = LoanTerms { collateral: 100, principal: 50, locktime: 510 };
    assert_eq!(engine.open_negotiation(txid(7), terms, vec![]), Ok(()));
    assert_eq!(engine.find(&txid(7)), Some(0));
    assert!(!engine.abandon(&txid(8)));
    assert!(engine.abandon(&txid(7)));
    assert!(!engine.abandon(&txid(7)));
    assert_eq!(engine.find(&txid(7)), None);
}

#[test]
fn a_loan_moves_from_offer_to_a_terminal_state() {
    assert_eq!(LoanState::Offered.step(LoanEvent::Request), Some(LoanState::Requested));
    assert_eq!(LoanState::Requested.step(LoanEvent::Accept), Some(LoanState::Negotiating));
    assert_eq!(LoanState::Negotiating.step(LoanEvent::Finalize), Some(LoanState::Finalized));
    assert_eq!(LoanState::Negotiating.step(LoanEvent::Abandon), Some(LoanState::Abandoned));
    assert_eq!(LoanState::Offered.step(LoanEvent::Finalize), None);
    assert_eq!(LoanState::Requested.step(LoanEvent::Abandon), None);
    for event in [LoanEvent::Request, LoanEvent::Accept, LoanEvent::Finalize, LoanEvent::Abandon] {
        assert_eq!(LoanState::Finalized.step(event), None);
        assert_eq!(LoanState::Abandoned.step(event), None);
    }
}

#[test]
fn a_loan_is_named_by_its_transaction_in_hex() {
    let mut bytes = [0u8; 32];
    bytes[0] = 0x1f;
    bytes[31] = 0xa0;
    assert_eq!(loan_id(&Txid { bytes }), format!("1f{}a0", "00".repeat(30)));
}
