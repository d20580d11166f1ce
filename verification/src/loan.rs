//! The loan engine: the terms on offer, the check of a request against its
//! collateral, and the table of negotiations between request and
//! finalization.

use vstd::prelude::*;
use crate::assets::{same_bytes, Txid};
use crate::hexcode::{hex_text, to_hex};
use crate::liquidation::{has_loan, LiquidationBook, LiquidationForm};
use crate::rate::{Quote, RateService};
use crate::swap::SCALE;

verus! {

/// Where a loan stands between offer and settlement.
#[derive(Clone, Copy, Debug, PartialEq, Eq, Structural)]
pub enum LoanState {
    Offered,
    Requested,
    Negotiating,
    Finalized,
    Abandoned,
}

/// What happens to a loan.
#[derive(Clone, Copy, Debug, PartialEq, Eq, Structural)]
pub enum LoanEvent {
    /// The borrower asks for the loan on offer.
    Request,
    /// The engine accepts the request and hands out the transaction to sign.
    Accept,
    /// The borrower's signed transaction is accepted.
    Finalize,
    /// The negotiation times out or fails.
    Abandon,
}

/// The state that follows, where the event is allowed in the state.
pub open spec fn transition(state: LoanState, event: LoanEvent) -> Option<LoanState> {
    match (state, event) {
        (LoanState::Offered, LoanEvent::Request) => Some(LoanState::Requested),
        (LoanState::Requested, LoanEvent::Accept) => Some(LoanState::Negotiating),
        (LoanState::Negotiating, LoanEvent::Finalize) => Some(LoanState::Finalized),
        (LoanState::Negotiating, LoanEvent::Abandon) => Some(LoanState::Abandoned),
        _ => None,
    }
}

impl LoanState {
    /// Whether nothing can follow the state.
    pub open spec fn is_terminal(self) -> bool {
        self == LoanState::Finalized || self == LoanState::Abandoned
    }

    /// Applies an event; nothing where the state does not allow it.
    pub fn step(self, event: LoanEvent) -> (next: Option<LoanState>)
        ensures
            next == transition(self, event),
            self.is_terminal() ==> next.is_none(),
    {
        match (self, event) {
            (LoanState::Offered, LoanEvent::Request) => Some(LoanState::Requested),
            (LoanState::Requested, LoanEvent::Accept) => Some(LoanState::Negotiating),
            (LoanState::Negotiating, LoanEvent::Finalize) => Some(LoanState::Finalized),
            (LoanState::Negotiating, LoanEvent::Abandon) => Some(LoanState::Abandoned),
            _ => None,
        }
    }
}

/// Why the signed transaction of a loan was not accepted.
#[derive(Clone, Copy, Debug, PartialEq, Eq, Structural)]
pub enum LoanFault {
    /// No negotiation is stored for the transaction.
    UnknownNegotiation,
    /// The borrower's signature does not verify.
    InvalidSignature,
    /// Collateral or principal differ from what was negotiated.
    AmountsDiffer,
}

/// Why the loan engine refused a request.
#[derive(Clone, Copy, Debug, PartialEq, Eq, Structural)]
pub enum LoanError {
    /// No quote has arrived yet, or the latest one is too old.
    StaleOrMissingRate,
    /// The principal exceeds what the collateral allows.
    InsufficientCollateral,
    /// The signed transaction does not match a negotiation.
    LoanValidationError(LoanFault),
    /// The negotiation or the record could not be stored.
    Internal,
}

/// The terms on which the desk lends.
#[derive(Clone, Copy, Debug, PartialEq, Eq, Structural)]
pub struct LoanOffer {
    /// The number of blocks after which the collateral can be liquidated.
    pub term: u32,
    pub collateralization_ratio: u64,
    pub rate: Quote,
}

/// What a borrower asks for: collateral in the base asset against a
/// principal in the synthetic asset.
#[derive(Clone, Copy, Debug, PartialEq, Eq, Structural)]
pub struct LoanRequest {
    pub collateral: u64,
    pub principal: u64,
}

/// An accepted request, with the height from which the collateral can
/// be liquidated.
#[derive(Clone, Copy, Debug, PartialEq, Eq, Structural)]
pub struct LoanTerms {
    pub collateral: u64,
    pub principal: u64,
    pub locktime: u32,
}

/// What the engine keeps of a loan between request and finalization.
#[derive(Clone, Debug, PartialEq, Eq)]
pub struct LoanNegotiation {
    /// The identifier of the loan transaction.
    pub id: Txid,
    pub terms: LoanTerms,
    /// The liquidation transaction, signed by the desk.
    pub liquidation_tx: Vec<u8>,
}

/// What the engine reads off the transaction that the borrower signed.
#[derive(Clone, Copy, Debug, PartialEq, Eq)]
pub struct SignedLoan {
    pub id: Txid,
    pub collateral: u64,
    pub principal: u64,
    pub signature_valid: bool,
}

/// A loan that was finalized and recorded for liquidation.
#[derive(Clone, Copy, Debug, PartialEq, Eq)]
pub struct LoanFinalized {
    pub id: Txid,
    pub terms: LoanTerms,
}

/// What an amount of the base asset is worth in the synthetic asset at
/// the asking price, rounded down.
pub open spec fn collateral_value(collateral: u64, quote: Quote) -> int
    recommends
        quote.ask > 0,
{
    (collateral as int * SCALE as int) / (quote.ask as int)
}

/// The most that can be lent against collateral of the given value.
pub open spec fn max_principal(value: int, ratio: u64) -> int
    recommends
        ratio > 0,
{
    value / (ratio as int)
}

/// Whether collateral of the given value covers the principal at the ratio.
pub fn covers(value: u128, ratio: u64, principal: u64) -> (covered: bool)
    requires
        ratio > 0,
    ensures
        covered == (principal as int <= max_principal(value as int, ratio)),
{
    principal as u128 <= value / (ratio as u128)
}

/// The value of collateral at a quote.
pub fn value_at(collateral: u64, quote: &Quote) -> (value: u128)
    requires
        quote.ask > 0,
    ensures
        value == collateral_value(collateral, *quote),
{
    (collateral as u128) * (SCALE as u128) / (quote.ask as u128)
}

/// Some negotiation has the identifier.
pub open spec fn has_negotiation(table: Seq<LoanNegotiation>, id: Txid) -> bool {
    exists|i: int| 0 <= i < table.len() && (#[trigger] table[i]).id == id
}

/// No two negotiations share an identifier.
pub open spec fn distinct_negotiations(table: Seq<LoanNegotiation>) -> bool {
    forall|i: int, j: int|
        0 <= i < j < table.len() ==> (#[trigger] table[i]).id != (#[trigger] table[j]).id
}

/// The loan engine: its terms and the negotiations under way.
pub struct LoanEngine {
    pub collateralization_ratio: u64,
    pub term: u32,
    pub max_quote_age: u64,
    pub negotiations: Vec<LoanNegotiation>,
}

impl LoanEngine {
    /// The ratio is at least one, and every negotiation has its own identifier.
    pub open spec fn wf(&self) -> bool {
        &&& self.collateralization_ratio > 0
        &&& distinct_negotiations(self.negotiations@)
    }

    /// The quote that the engine lends on at `now`: the latest one, unless
    /// there is none or it is older than the engine allows.
    pub open spec fn lending_quote(&self, rates: &RateService, now: u64) -> Option<Quote> {
        if rates.history@.len() == 0 || rates.history@.last().age(now) > self.max_quote_age {
            None
        } else {
            Some(rates.history@.last())
        }
    }

    /// An engine without negotiations; nothing where the ratio is zero.
    pub fn new(collateralization_ratio: u64, term: u32, max_quote_age: u64) -> (engine: Option<Self>)
        ensures
            engine.is_some() == (collateralization_ratio > 0),
            engine.is_some() ==> {
                &&& engine.unwrap().wf()
                &&& engine.unwrap().collateralization_ratio == collateralization_ratio
                &&& engine.unwrap().term == term
                &&& engine.unwrap().max_quote_age == max_quote_age
                &&& engine.unwrap().negotiations@.len() == 0
            },
    {
        if collateralization_ratio == 0 {
            return None;
        }
        Some(LoanEngine { collateralization_ratio, term, max_quote_age, negotiations: Vec::new() })
    }

    /// The current terms, from the latest quote.
    pub fn handle_loan_offer_request(&self, rates: &RateService, now: u64) -> (offer: Result<LoanOffer, LoanError>)
        requires
            rates.wf(),
        ensures
            offer == match self.lending_quote(rates, now) {
                Some(rate) => Ok(
                    LoanOffer {
                        term: self.term,
                        collateralization_ratio: self.collateralization_ratio,
                        rate,
                    },
                ),
                None => Err(LoanError::StaleOrMissingRate),
            },
    {
        match rates.fresh(now, self.max_quote_age) {
            Ok(rate) => Ok(
                LoanOffer {
                    term: self.term,
                    collateralization_ratio: self.collateralization_ratio,
                    rate,
                },
            ),
            Err(_) => Err(LoanError::StaleOrMissingRate),
        }
    }

    /// What the engine answers to a request at the given height.
    pub open spec fn request_outcome(
        &self,
        quote: Option<Quote>,
        request: LoanRequest,
        height: u32,
    ) -> Result<LoanTerms, LoanError> {
        match quote {
            None => Err(LoanError::StaleOrMissingRate),
            Some(rate) => if request.principal > max_principal(
                collateral_value(request.collateral, rate),
                self.collateralization_ratio,
            ) {
                Err(LoanError::InsufficientCollateral)
            } else if height + self.term > u32::MAX {
                Err(LoanError::Internal)
            } else {
                Ok(
                    LoanTerms {
                        collateral: request.collateral,
                        principal: request.principal,
                        locktime: (height + self.term) as u32,
                    },
                )
            },
        }
    }

    /// Holds a request against the collateral it offers at the latest
    /// quote. An accepted request never asks for more than the value of
    /// its collateral divided by the ratio.
    pub fn handle_loan_request(
        &self,
        rates: &RateService,
        now: u64,
        request: &LoanRequest,
        current_block_height: u32,
    ) -> (terms: Result<LoanTerms, LoanError>)
        requires
            rates.wf(),
            self.wf(),
        ensures
            terms == self.request_outcome(
                self.lending_quote(rates, now),
                *request,
                current_block_height,
            ),
            terms.is_ok() ==> request.principal <= max_principal(
                collateral_value(request.collateral, rates.history@.last()),
                self.collateralization_ratio,
            ),
            self.lending_quote(rates, now).is_some() && request.principal > max_principal(
                collateral_value(request.collateral, rates.history@.last()),
                self.collateralization_ratio,
            ) ==> terms == Err::<LoanTerms, LoanError>(LoanError::InsufficientCollateral),
    {
        let rate = match rates.fresh(now, self.max_quote_age) {
            Ok(rate) => rate,
            Err(_) => {
                return Err(LoanError::StaleOrMissingRate);
            },
        };
        let value = value_at(request.collateral, &rate);
        if !covers(value, self.collateralization_ratio, request.principal) {
            return Err(LoanError::InsufficientCollateral);
        }
        if current_block_height > u32::MAX - self.term {
            return Err(LoanError::Internal);
        }
        Ok(
            LoanTerms {
                collateral: request.collateral,
                principal: request.principal,
                locktime: current_block_height + self.term,
            },
        )
    }

    /// The place of the first negotiation with the identifier, if there is one.
    pub fn find(&self, id: &Txid) -> (place: Option<usize>)
        ensures
            match place {
                Some(k) => {
                    &&& k < self.negotiations@.len()
                    &&& self.negotiations@[k as int].id == *id
                    &&& forall|i: int| 0 <= i < k ==> (#[trigger] self.negotiations@[i]).id != *id
                },
                None => !has_negotiation(self.negotiations@, *id),
            },
    {
        let mut i: usize = 0;
        while i < self.negotiations.len()
            invariant
                i <= self.negotiations.len(),
                forall|k: int| 0 <= k < i ==> (#[trigger] self.negotiations@[k]).id != *id,
            decreases self.negotiations.len() - i,
        {
            if same_bytes(&self.negotiations[i].id.bytes, &id.bytes) {
                return Some(i);
            }
            i += 1;
        }
        None
    }

    /// Stores the negotiation of an accepted request under the identifier
    /// of its loan transaction, which must be new.
    pub fn open_negotiation(&mut self, id: Txid, terms: LoanTerms, liquidation_tx: Vec<u8>) -> (done: Result<(), LoanError>)
        requires
            old(self).wf(),
        ensures
            final(self).wf(),
            final(self).collateralization_ratio == old(self).collateralization_ratio,
            final(self).term == old(self).term,
            final(self).max_quote_age == old(self).max_quote_age,
            has_negotiation(old(self).negotiations@, id) ==> done == Err::<(), LoanError>(
                LoanError::Internal,
            ) && final(self).negotiations@ == old(self).negotiations@,
            !has_negotiation(old(self).negotiations@, id) ==> done.is_ok()
                && final(self).negotiations@ == old(self).negotiations@.push(
                LoanNegotiation { id, terms, liquidation_tx },
            ),
    {
        if self.find(&id).is_some() {
            return Err(LoanError::Internal);
        }
        self.negotiations.push(LoanNegotiation { id, terms, liquidation_tx });
        Ok(())
    }
}

/// The name under which a loan is recorded for liquidation: the
/// identifier of its transaction in hexadecimal.
pub fn loan_id(id: &Txid) -> (name: String)
    ensures
        name@ == hex_text(id.bytes@),
{
    let mut bytes: Vec<u8> = Vec::new();
    let mut i: usize = 0;
    while i < 32
        invariant
            i <= 32,
            bytes@ =~= id.bytes@.take(i as int),
        decreases 32 - i,
    {
        bytes.push(id.bytes[i]);
        i += 1;
    }
    proof {
        assert(id.bytes@.take(32) =~= id.bytes@);
    }
    to_hex(&bytes)
}

/// The negotiation that a signed transaction belongs to.
pub open spec fn negotiation_of(table: Seq<LoanNegotiation>, id: Txid) -> LoanNegotiation
    recommends
        has_negotiation(table, id),
{
    table[choose|i: int| 0 <= i < table.len() && (#[trigger] table[i]).id == id]
}

/// Why a signed transaction is refused, if it is: no negotiation matches
/// it, its signature is invalid, its amounts are not those negotiated, or
/// its loan already has a liquidation record.
pub open spec fn refusal(
    table: Seq<LoanNegotiation>,
    records: Seq<LiquidationForm>,
    signed: SignedLoan,
) -> Option<LoanError> {
    if !has_negotiation(table, signed.id) {
        Some(LoanError::LoanValidationError(LoanFault::UnknownNegotiation))
    } else if !signed.signature_valid {
        Some(LoanError::LoanValidationError(LoanFault::InvalidSignature))
    } else if negotiation_of(table, signed.id).terms.collateral != signed.collateral
        || negotiation_of(table, signed.id).terms.principal != signed.principal {
        Some(LoanError::LoanValidationError(LoanFault::AmountsDiffer))
    } else if has_loan(records, hex_text(signed.id.bytes@)) {
        Some(LoanError::Internal)
    } else {
        None
    }
}

/// Taking one negotiation out leaves the others distinct.
pub proof fn lemma_remove_keeps_distinct(table: Seq<LoanNegotiation>, k: int)
    requires
        distinct_negotiations(table),
        0 <= k < table.len(),
    ensures
        distinct_negotiations(table.remove(k)),
        !has_negotiation(table.remove(k), table[k].id),
{
    let rest = table.remove(k);
    assert forall|i: int, j: int| 0 <= i < j < rest.len() implies (#[trigger] rest[i]).id != (
    #[trigger] rest[j]).id by {
        let a = if i < k { i } else { i + 1 };
        let b = if j < k { j } else { j + 1 };
        assert(rest[i] == table[a] && rest[j] == table[b]);
    }
    if has_negotiation(rest, table[k].id) {
        let i = choose|i: int| 0 <= i < rest.len() && (#[trigger] rest[i]).id == table[k].id;
        let a = if i < k { i } else { i + 1 };
        assert(rest[i] == table[a]);
    }
}

impl LoanEngine {
    /// Finalizes the loan whose transaction the borrower signed: records
    /// its liquidation transaction under its locktime and closes the
    /// negotiation, both or neither.
    pub fn finalize_loan(&mut self, signed: &SignedLoan, book: &mut LiquidationBook) -> (outcome: Result<LoanFinalized, LoanError>)
        requires
            old(self).wf(),
            old(book).wf(),
        ensures
            final(self).wf(),
            final(book).wf(),
            final(self).collateralization_ratio == old(self).collateralization_ratio,
            final(self).term == old(self).term,
            final(self).max_quote_age == old(self).max_quote_age,
            match outcome {
                Err(why) => {
                    &&& refusal(old(self).negotiations@, old(book).records@, *signed) == Some(why)
                    &&& final(self).negotiations@ == old(self).negotiations@
                    &&& final(book).records@ == old(book).records@
                },
                Ok(done) => {
                    let closed = negotiation_of(old(self).negotiations@, signed.id);
                    &&& refusal(old(self).negotiations@, old(book).records@, *signed).is_none()
                    &&& done == (LoanFinalized { id: signed.id, terms: closed.terms })
                    &&& !has_negotiation(final(self).negotiations@, signed.id)
                    &&& exists|k: int|
                        0 <= k < old(self).negotiations@.len() && old(self).negotiations@[k]
                            == closed && final(self).negotiations@ == old(
                            self,
                        ).negotiations@.remove(k)
                    &&& final(book).records@.len() == old(book).records@.len() + 1
                    &&& final(book).records@.drop_last() == old(book).records@
                    &&& final(book).records@.last().id@ == hex_text(signed.id.bytes@)
                    &&& final(book).records@.last().tx_hex@ == hex_text(closed.liquidation_tx@)
                    &&& final(book).records@.last().locktime == closed.terms.locktime as int
                },
            },
    {
        let place = match self.find(&signed.id) {
            Some(place) => place,
            None => {
                return Err(LoanError::LoanValidationError(LoanFault::UnknownNegotiation));
            },
        };
        proof {
            let table = self.negotiations@;
            let chosen = choose|i: int| 0 <= i < table.len() && (#[trigger] table[i]).id == signed.id;
            assert(table[place as int].id == signed.id);
            assert(chosen == place);
        }
        if !signed.signature_valid {
            return Err(LoanError::LoanValidationError(LoanFault::InvalidSignature));
        }
        let terms = self.negotiations[place].terms;
        if terms.collateral != signed.collateral || terms.principal != signed.principal {
            return Err(LoanError::LoanValidationError(LoanFault::AmountsDiffer));
        }
        let name = loan_id(&signed.id);
        if book.holds(&name) {
            return Err(LoanError::Internal);
        }
        proof {
            lemma_remove_keeps_distinct(self.negotiations@, place as int);
        }
        let closed = self.negotiations.remove(place);
        let recorded = book.record(name, &closed.liquidation_tx, terms.locktime);
        assert(recorded.is_ok());
        Ok(LoanFinalized { id: signed.id, terms })
    }

    /// Gives up the negotiation with the identifier; whether there was one.
    pub fn abandon(&mut self, id: &Txid) -> (closed: bool)
        requires
            old(self).wf(),
        ensures
            final(self).wf(),
            final(self).collateralization_ratio == old(self).collateralization_ratio,
            final(self).term == old(self).term,
            final(self).max_quote_age == old(self).max_quote_age,
            closed == has_negotiation(old(self).negotiations@, *id),
            !closed ==> final(self).negotiations@ == old(self).negotiations@,
            closed ==> !has_negotiation(final(self).negotiations@, *id) && exists|k: int|
                0 <= k < old(self).negotiations@.len() && old(self).negotiations@[k].id == *id
                    && final(self).negotiations@ == old(self).negotiations@.remove(k),
    {
        match self.find(id) {
            Some(place) => {
                proof {
                    lemma_remove_keeps_distinct(self.negotiations@, place as int);
                }
                let _ = self.negotiations.remove(place);
                true
            },
            None => false,
        }
    }
}

} // verus!
