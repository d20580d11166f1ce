//! The swap engine: what each side gives and gets at a quote, whether the
//! caller's inputs can pay for it, and the two-sided transaction.

use vstd::prelude::*;
use crate::accounting::{
    attributed, find_known, holdings, is_outcome, owned_inputs, owned_outputs, reading,
    single_asset, trade_between, trade_pair, two_assets, KnownOutput, OutputContent, Trade,
    TradeSide, TransactionView, TxOutput,
};
use crate::assets::{holds_asset, total_of, AssetAmount, AssetId, OutPoint};
use crate::rate::{Quote, RateService};

verus! {

/// The smallest units in one whole unit of the synthetic asset.
pub const SCALE: u64 = 100_000_000;

/// Which way the caller trades the synthetic asset.
#[derive(Clone, Copy, Debug, PartialEq, Eq, Structural)]
pub enum Side {
    /// The caller buys the synthetic asset and pays in the base asset.
    Buy,
    /// The caller sells the synthetic asset and is paid in the base asset.
    Sell,
}

/// Why a swap was refused.
#[derive(Clone, Copy, Debug, PartialEq, Eq, Structural)]
pub enum SwapError {
    /// No quote has arrived yet, or the latest one is too old.
    StaleOrMissingRate,
    /// An input is below the dust floor.
    InputAmountTooSmall,
    /// The inputs do not cover what the caller gives and the fee.
    ChangeAmountTooSmall,
    /// An input is not of the asset that the caller gives.
    InvalidAssetTypes,
    /// A figure of the swap does not fit 64 bits.
    AmountOutOfRange,
    /// The desk's own input cannot fund its side of the swap.
    Internal,
}

/// One input that the caller brings, with what it holds.
#[derive(Clone, Copy, Debug, PartialEq, Eq)]
pub struct SwapInput {
    pub outpoint: OutPoint,
    pub held: AssetAmount,
}

/// The caller's side of a swap: its inputs, the amount of the synthetic
/// asset that it wants to trade, and the fee that its change pays.
#[derive(Clone, Debug, PartialEq, Eq)]
pub struct CreateSwapPayload {
    pub inputs: Vec<SwapInput>,
    pub amount: u64,
    pub fee: u64,
}

/// The figures of a swap.
#[derive(Clone, Copy, Debug, PartialEq, Eq)]
pub struct SwapPlan {
    pub caller_gives: AssetAmount,
    pub caller_gets: AssetAmount,
    pub caller_change: u64,
    pub fee: u64,
}

/// To whom an output of the swap transaction goes.
#[derive(Clone, Copy, Debug, PartialEq, Eq, Structural)]
pub enum Party {
    Caller,
    Desk,
    Fee,
}

/// One output of the swap transaction before it is blinded.
#[derive(Clone, Copy, Debug, PartialEq, Eq)]
pub struct DraftOutput {
    pub held: AssetAmount,
    pub to: Party,
}

/// The two-sided transaction, ready to be blinded and signed.
#[derive(Clone, Debug, PartialEq, Eq)]
pub struct SwapDraft {
    pub inputs: Vec<OutPoint>,
    pub outputs: Vec<DraftOutput>,
}

/// The pair that the desk trades, and its limits.
#[derive(Clone, Copy, Debug, PartialEq, Eq)]
pub struct SwapEngine {
    pub base: AssetId,
    pub synthetic: AssetId,
    /// No input may hold less than this.
    pub dust_floor: u64,
    /// A quote older than this is not traded on.
    pub max_quote_age: u64,
}

/// What a caller pays in the base asset for `amount` of the synthetic
/// asset at the asking price, rounded up.
pub open spec fn cost(amount: u64, ask: u64) -> int {
    (amount as int * ask as int + SCALE as int - 1) / (SCALE as int)
}

/// What a caller is paid in the base asset for `amount` of the synthetic
/// asset at the bid price, rounded down.
pub open spec fn proceeds(amount: u64, bid: u64) -> int {
    (amount as int * bid as int) / (SCALE as int)
}

/// The sum of what the inputs hold, whatever the asset.
pub open spec fn input_total(inputs: Seq<SwapInput>) -> nat
    decreases inputs.len(),
{
    if inputs.len() == 0 {
        0
    } else {
        input_total(inputs.drop_last()) + inputs.last().held.amount as nat
    }
}

/// Some input holds less than the floor.
pub open spec fn has_dust(inputs: Seq<SwapInput>, floor: u64) -> bool {
    exists|i: int| 0 <= i < inputs.len() && (#[trigger] inputs[i]).held.amount < floor
}

/// Some input is not of the asset.
pub open spec fn has_foreign(inputs: Seq<SwapInput>, asset: AssetId) -> bool {
    exists|i: int| 0 <= i < inputs.len() && (#[trigger] inputs[i]).held.asset != asset
}

/// The outputs that the inputs spend.
pub open spec fn outpoints_of(inputs: Seq<SwapInput>) -> Seq<OutPoint> {
    inputs.map_values(|input: SwapInput| input.outpoint)
}

impl SwapEngine {
    /// The two assets differ.
    pub open spec fn wf(&self) -> bool {
        self.base != self.synthetic
    }

    /// The asset that the caller gives.
    pub open spec fn given_asset(&self, side: Side) -> AssetId {
        match side {
            Side::Buy => self.base,
            Side::Sell => self.synthetic,
        }
    }

    /// The asset that the caller gets.
    pub open spec fn gotten_asset(&self, side: Side) -> AssetId {
        match side {
            Side::Buy => self.synthetic,
            Side::Sell => self.base,
        }
    }

    /// The amount that the caller gives.
    pub open spec fn given(side: Side, quote: Quote, amount: u64) -> int {
        match side {
            Side::Buy => cost(amount, quote.ask),
            Side::Sell => amount as int,
        }
    }

    /// The amount that the caller gets.
    pub open spec fn gotten(side: Side, quote: Quote, amount: u64) -> int {
        match side {
            Side::Buy => amount as int,
            Side::Sell => proceeds(amount, quote.bid),
        }
    }

    /// What is left of the caller's inputs after what it gives and the fee.
    pub open spec fn change(side: Side, quote: Quote, payload: CreateSwapPayload) -> int {
        input_total(payload.inputs@) - Self::given(side, quote, payload.amount) - payload.fee
    }

    /// What planning a swap answers: the figures, or the first reason, in
    /// the order of the cases, why there are none.
    pub open spec fn plan_outcome(
        &self,
        side: Side,
        quote: Quote,
        payload: CreateSwapPayload,
    ) -> Result<SwapPlan, SwapError> {
        if has_dust(payload.inputs@, self.dust_floor) {
            Err(SwapError::InputAmountTooSmall)
        } else if Self::change(side, quote, payload) < 0 {
            Err(SwapError::ChangeAmountTooSmall)
        } else if has_foreign(payload.inputs@, self.given_asset(side)) {
            Err(SwapError::InvalidAssetTypes)
        } else if Self::given(side, quote, payload.amount) > u64::MAX || Self::gotten(
            side,
            quote,
            payload.amount,
        ) > u64::MAX || Self::change(side, quote, payload) > u64::MAX {
            Err(SwapError::AmountOutOfRange)
        } else {
            Ok(
                SwapPlan {
                    caller_gives: AssetAmount {
                        asset: self.given_asset(side),
                        amount: Self::given(side, quote, payload.amount) as u64,
                    },
                    caller_gets: AssetAmount {
                        asset: self.gotten_asset(side),
                        amount: Self::gotten(side, quote, payload.amount) as u64,
                    },
                    caller_change: Self::change(side, quote, payload) as u64,
                    fee: payload.fee,
                },
            )
        }
    }

    /// Works out the figures of a swap at a quote and holds the caller's
    /// inputs against them.
    pub fn plan_swap(&self, side: Side, quote: &Quote, payload: &CreateSwapPayload) -> (plan: Result<SwapPlan, SwapError>)
        ensures
            plan == self.plan_outcome(side, *quote, *payload),
    {
        let given_asset = match side {
            Side::Buy => self.base,
            Side::Sell => self.synthetic,
        };
        let gotten_asset = match side {
            Side::Buy => self.synthetic,
            Side::Sell => self.base,
        };
        let mut total: u128 = 0;
        let mut foreign = false;
        let mut i: usize = 0;
        assert(payload.inputs@.take(0) =~= Seq::<SwapInput>::empty());
        while i < payload.inputs.len()
            invariant
                i <= payload.inputs.len(),
                total == input_total(payload.inputs@.take(i as int)),
                total <= i * 0xffff_ffff_ffff_ffff,
                !has_dust(payload.inputs@.take(i as int), self.dust_floor),
                foreign == has_foreign(payload.inputs@.take(i as int), given_asset),
            decreases payload.inputs.len() - i,
        {
            let ghost before = payload.inputs@.take(i as int);
            let ghost after = payload.inputs@.take(i as int + 1);
            proof {
                assert(after.drop_last() =~= before);
                assert(after.last() == payload.inputs@[i as int]);
                assert(forall|k: int| 0 <= k < before.len() ==> before[k] == after[k]);
            }
            if payload.inputs[i].held.amount < self.dust_floor {
                proof {
                    assert(payload.inputs@[i as int].held.amount < self.dust_floor);
                }
                return Err(SwapError::InputAmountTooSmall);
            }
            let alien = !payload.inputs[i].held.asset.same(&given_asset);
            proof {
                if has_foreign(before, given_asset) {
                    let k = choose|k: int| 0 <= k < before.len() && (#[trigger] before[k]).held.asset != given_asset;
                    assert(after[k].held.asset != given_asset);
                }
                if alien {
                    assert(after[i as int].held.asset != given_asset);
                }
                if has_foreign(after, given_asset) {
                    let k = choose|k: int| 0 <= k < after.len() && (#[trigger] after[k]).held.asset != given_asset;
                    if k < before.len() {
                        assert(before[k].held.asset != given_asset);
                    }
                }
                if has_dust(after, self.dust_floor) {
                    let k = choose|k: int| 0 <= k < after.len() && (#[trigger] after[k]).held.amount < self.dust_floor;
                    if k < before.len() {
                        assert(before[k].held.amount < self.dust_floor);
                    }
                }
            }
            foreign = foreign || alien;
            total = total + payload.inputs[i].held.amount as u128;
            i += 1;
        }
        proof {
            assert(payload.inputs@.take(i as int) =~= payload.inputs@);
        }
        let amount: u128 = payload.amount as u128;
        let scale: u128 = SCALE as u128;
        let (given, gotten): (u128, u128) = match side {
            Side::Buy => {
                let ask: u128 = quote.ask as u128;
                assert(amount * ask <= 0xffff_ffff_ffff_ffff * 0xffff_ffff_ffff_ffff) by (nonlinear_arith)
                    requires
                        amount <= 0xffff_ffff_ffff_ffff,
                        ask <= 0xffff_ffff_ffff_ffff,
                ;
                ((amount * ask + (scale - 1)) / scale, amount)
            },
            Side::Sell => {
                let bid: u128 = quote.bid as u128;
                assert(amount * bid <= 0xffff_ffff_ffff_ffff * 0xffff_ffff_ffff_ffff) by (nonlinear_arith)
                    requires
                        amount <= 0xffff_ffff_ffff_ffff,
                        bid <= 0xffff_ffff_ffff_ffff,
                ;
                (amount, amount * bid / scale)
            },
        };
        assert(given == Self::given(side, *quote, payload.amount));
        assert(gotten == Self::gotten(side, *quote, payload.amount));
        let fee: u128 = payload.fee as u128;
        if total < given + fee {
            return Err(SwapError::ChangeAmountTooSmall);
        }
        if foreign {
            return Err(SwapError::InvalidAssetTypes);
        }
        let change: u128 = total - given - fee;
        let limit: u128 = 0xffff_ffff_ffff_ffff;
        if given > limit || gotten > limit || change > limit {
            return Err(SwapError::AmountOutOfRange);
        }
        Ok(
            SwapPlan {
                caller_gives: AssetAmount { asset: given_asset, amount: given as u64 },
                caller_gets: AssetAmount { asset: gotten_asset, amount: gotten as u64 },
                caller_change: change as u64,
                fee: payload.fee,
            },
        )
    }
}

/// The outputs of the swap transaction: what the caller gets, the caller's
/// change, what the desk gets, the desk's change, and the fee.
pub open spec fn draft_outputs(plan: SwapPlan, funded: u64) -> Seq<DraftOutput> {
    Seq::<DraftOutput>::empty().push(DraftOutput { held: plan.caller_gets, to: Party::Caller }).push(
        DraftOutput {
            held: AssetAmount { asset: plan.caller_gives.asset, amount: plan.caller_change },
            to: Party::Caller,
        },
    ).push(DraftOutput { held: plan.caller_gives, to: Party::Desk }).push(
        DraftOutput {
            held: AssetAmount {
                asset: plan.caller_gets.asset,
                amount: (funded - plan.caller_gets.amount) as u64,
            },
            to: Party::Desk,
        },
    ).push(
        DraftOutput {
            held: AssetAmount { asset: plan.caller_gives.asset, amount: plan.fee },
            to: Party::Fee,
        },
    )
}

/// Some input spends the given output.
pub open spec fn spends(inputs: Seq<SwapInput>, point: OutPoint) -> bool {
    exists|i: int| 0 <= i < inputs.len() && (#[trigger] inputs[i]).outpoint == point
}

/// The desk's input is of the asset that the caller gets, holds at least
/// that amount, and is not one of the caller's inputs.
pub open spec fn can_fund(plan: SwapPlan, payload: CreateSwapPayload, funding: SwapInput) -> bool {
    &&& funding.held.asset == plan.caller_gets.asset
    &&& funding.held.amount >= plan.caller_gets.amount
    &&& !spends(payload.inputs@, funding.outpoint)
}

/// The draft is the swap transaction for the plan: the caller's inputs and
/// then the desk's, and the five outputs of the plan.
pub open spec fn is_draft_of(
    draft: SwapDraft,
    plan: SwapPlan,
    payload: CreateSwapPayload,
    funding: SwapInput,
) -> bool {
    &&& draft.inputs@ == outpoints_of(payload.inputs@).push(funding.outpoint)
    &&& draft.outputs@ == draft_outputs(plan, funding.held.amount)
}

/// Adds the desk's input and outputs to the caller's side of a swap.
pub fn complete_swap(plan: &SwapPlan, payload: &CreateSwapPayload, funding: &SwapInput) -> (draft: Result<SwapDraft, SwapError>)
    ensures
        match draft {
            Ok(made) => can_fund(*plan, *payload, *funding) && is_draft_of(
                made,
                *plan,
                *payload,
                *funding,
            ),
            Err(why) => !can_fund(*plan, *payload, *funding) && why == SwapError::Internal,
        },
{
    if !funding.held.asset.same(&plan.caller_gets.asset) || funding.held.amount
        < plan.caller_gets.amount {
        return Err(SwapError::Internal);
    }
    let mut inputs: Vec<OutPoint> = Vec::new();
    let mut i: usize = 0;
    while i < payload.inputs.len()
        invariant
            i <= payload.inputs.len(),
            inputs@ =~= outpoints_of(payload.inputs@.take(i as int)),
            !spends(payload.inputs@.take(i as int), funding.outpoint),
        decreases payload.inputs.len() - i,
    {
        let ghost before = payload.inputs@.take(i as int);
        let ghost after = payload.inputs@.take(i as int + 1);
        if payload.inputs[i].outpoint.same(&funding.outpoint) {
            proof {
                assert(payload.inputs@[i as int].outpoint == funding.outpoint);
            }
            return Err(SwapError::Internal);
        }
        inputs.push(payload.inputs[i].outpoint);
        proof {
            assert(forall|k: int| 0 <= k < before.len() ==> before[k] == after[k]);
            assert(after[i as int] == payload.inputs@[i as int]);
            if spends(after, funding.outpoint) {
                let k = choose|k: int| 0 <= k < after.len() && (#[trigger] after[k]).outpoint == funding.outpoint;
                if k < before.len() {
                    assert(before[k].outpoint == funding.outpoint);
                }
            }
            assert(inputs@ =~= outpoints_of(after));
        }
        i += 1;
    }
    proof {
        assert(payload.inputs@.take(i as int) =~= payload.inputs@);
    }
    inputs.push(funding.outpoint);
    let mut outputs: Vec<DraftOutput> = Vec::new();
    outputs.push(DraftOutput { held: plan.caller_gets, to: Party::Caller });
    outputs.push(
        DraftOutput {
            held: AssetAmount { asset: plan.caller_gives.asset, amount: plan.caller_change },
            to: Party::Caller,
        },
    );
    outputs.push(DraftOutput { held: plan.caller_gives, to: Party::Desk });
    outputs.push(
        DraftOutput {
            held: AssetAmount {
                asset: plan.caller_gets.asset,
                amount: funding.held.amount - plan.caller_gets.amount,
            },
            to: Party::Desk,
        },
    );
    outputs.push(
        DraftOutput {
            held: AssetAmount { asset: plan.caller_gives.asset, amount: plan.fee },
            to: Party::Fee,
        },
    );
    proof {
        assert(outputs@ =~= draft_outputs(*plan, funding.held.amount));
    }
    Ok(SwapDraft { inputs, outputs })
}

impl SwapEngine {
    /// What the engine answers to a swap request once the rate service has
    /// answered: the draft of the plan, or the first reason why there is none.
    pub open spec fn is_swap_outcome(
        &self,
        side: Side,
        quote: Option<Quote>,
        payload: CreateSwapPayload,
        funding: SwapInput,
        outcome: Result<SwapDraft, SwapError>,
    ) -> bool {
        match quote {
            None => outcome == Err::<SwapDraft, SwapError>(SwapError::StaleOrMissingRate),
            Some(fresh) => match self.plan_outcome(side, fresh, payload) {
                Err(why) => outcome == Err::<SwapDraft, SwapError>(why),
                Ok(plan) => match outcome {
                    Ok(made) => can_fund(plan, payload, funding) && is_draft_of(
                        made,
                        plan,
                        payload,
                        funding,
                    ),
                    Err(why) => !can_fund(plan, payload, funding) && why == SwapError::Internal,
                },
            },
        }
    }

    /// Answers a swap request at a quote that the rate service gave.
    pub fn settle(
        &self,
        side: Side,
        quote: Option<Quote>,
        payload: &CreateSwapPayload,
        funding: &SwapInput,
    ) -> (outcome: Result<SwapDraft, SwapError>)
        ensures
            self.is_swap_outcome(side, quote, *payload, *funding, outcome),
    {
        let fresh = match quote {
            Some(fresh) => fresh,
            None => {
                return Err(SwapError::StaleOrMissingRate);
            },
        };
        match self.plan_swap(side, &fresh, payload) {
            Ok(plan) => complete_swap(&plan, payload, funding),
            Err(why) => Err(why),
        }
    }

    /// The quote that the engine trades on at `now`: the latest one, unless
    /// there is none or it is older than the engine allows.
    pub open spec fn tradable_quote(&self, rates: &RateService, now: u64) -> Option<Quote> {
        if rates.history@.len() == 0 || rates.history@.last().age(now) > self.max_quote_age {
            None
        } else {
            Some(rates.history@.last())
        }
    }

    /// Reads the quote to trade on from the rate service.
    pub fn quote_at(&self, rates: &RateService, now: u64) -> (quote: Option<Quote>)
        requires
            rates.wf(),
        ensures
            quote == self.tradable_quote(rates, now),
    {
        match rates.fresh(now, self.max_quote_age) {
            Ok(fresh) => Some(fresh),
            Err(_) => None,
        }
    }

    /// The caller buys the synthetic asset: the desk adds the input that
    /// holds it and takes the cost at the asking price.
    pub fn handle_create_buy_swap(
        &self,
        rates: &RateService,
        now: u64,
        payload: &CreateSwapPayload,
        funding: &SwapInput,
    ) -> (outcome: Result<SwapDraft, SwapError>)
        requires
            rates.wf(),
        ensures
            self.is_swap_outcome(
                Side::Buy,
                self.tradable_quote(rates, now),
                *payload,
                *funding,
                outcome,
            ),
    {
        let quote = self.quote_at(rates, now);
        self.settle(Side::Buy, quote, payload, funding)
    }

    /// The caller sells the synthetic asset: the desk takes it and adds the
    /// input that pays the proceeds at the bid price.
    pub fn handle_create_sell_swap(
        &self,
        rates: &RateService,
        now: u64,
        payload: &CreateSwapPayload,
        funding: &SwapInput,
    ) -> (outcome: Result<SwapDraft, SwapError>)
        requires
            rates.wf(),
        ensures
            self.is_swap_outcome(
                Side::Sell,
                self.tradable_quote(rates, now),
                *payload,
                *funding,
                outcome,
            ),
    {
        let quote = self.quote_at(rates, now);
        self.settle(Side::Sell, quote, payload, funding)
    }
}

/// How the desk reads an output of its own draft once it is blinded: it
/// opens its own outputs, cannot open the caller's, and the fee stands in
/// the clear and pays nobody.
pub open spec fn desk_reads(output: DraftOutput) -> TxOutput {
    match output.to {
        Party::Caller => TxOutput {
            content: OutputContent::Confidential { opened: None },
            pays_owner: false,
        },
        Party::Desk => TxOutput {
            content: OutputContent::Confidential { opened: Some(output.held) },
            pays_owner: true,
        },
        Party::Fee => TxOutput { content: OutputContent::Explicit(output.held), pays_owner: false },
    }
}

/// The draft as the desk's accounting sees it.
pub open spec fn desk_outputs(outputs: Seq<DraftOutput>) -> Seq<TxOutput> {
    outputs.map_values(|output: DraftOutput| desk_reads(output))
}

/// The transaction of a draft, as the desk's accounting sees it.
pub fn desk_view(draft: &SwapDraft) -> (tx: TransactionView)
    ensures
        tx.inputs@ == draft.inputs@,
        tx.outputs@ == desk_outputs(draft.outputs@),
{
    let mut outputs: Vec<TxOutput> = Vec::new();
    let mut i: usize = 0;
    while i < draft.outputs.len()
        invariant
            i <= draft.outputs.len(),
            outputs@ =~= desk_outputs(draft.outputs@.take(i as int)),
        decreases draft.outputs.len() - i,
    {
        let held = draft.outputs[i].held;
        let seen = match draft.outputs[i].to {
            Party::Caller => TxOutput {
                content: OutputContent::Confidential { opened: None },
                pays_owner: false,
            },
            Party::Desk => TxOutput {
                content: OutputContent::Confidential { opened: Some(held) },
                pays_owner: true,
            },
            Party::Fee => TxOutput { content: OutputContent::Explicit(held), pays_owner: false },
        };
        outputs.push(seen);
        proof {
            assert(draft.outputs@.take(i as int + 1)[i as int] == draft.outputs@[i as int]);
            assert(outputs@ =~= desk_outputs(draft.outputs@.take(i as int + 1)));
        }
        i += 1;
    }
    proof {
        assert(draft.outputs@.take(i as int) =~= draft.outputs@);
    }
    let mut inputs: Vec<OutPoint> = Vec::new();
    let mut j: usize = 0;
    while j < draft.inputs.len()
        invariant
            j <= draft.inputs.len(),
            inputs@ =~= draft.inputs@.take(j as int),
        decreases draft.inputs.len() - j,
    {
        inputs.push(draft.inputs[j]);
        j += 1;
    }
    proof {
        assert(draft.inputs@.take(j as int) =~= draft.inputs@);
    }
    TransactionView { inputs, outputs }
}

/// Inputs that spend none of the known outputs bring nothing into the
/// owner's account.
pub proof fn lemma_foreign_inputs(known: KnownOutput, inputs: Seq<OutPoint>)
    requires
        forall|i: int| 0 <= i < inputs.len() ==> #[trigger] inputs[i] != known.outpoint,
    ensures
        owned_inputs(Seq::<KnownOutput>::empty().push(known), inputs).len() == 0,
    decreases inputs.len(),
{
    let all = Seq::<KnownOutput>::empty().push(known);
    if inputs.len() > 0 {
        lemma_foreign_inputs(known, inputs.drop_last());
        lemma_find_single(known, inputs.last());
    }
}

/// Among a single known output, an input finds it exactly when it spends it.
pub proof fn lemma_find_single(known: KnownOutput, point: OutPoint)
    ensures
        find_known(Seq::<KnownOutput>::empty().push(known), point) == if known.outpoint == point {
            Some(known)
        } else {
            None
        },
{
    let all = Seq::<KnownOutput>::empty().push(known);
    assert(all.drop_last() =~= Seq::<KnownOutput>::empty());
    assert(find_known(all.drop_last(), point).is_none());
    assert(all.last() == known);
}

/// What one more output adds to what the outputs bring the owner.
pub proof fn lemma_owned_outputs_push(outputs: Seq<TxOutput>, next: TxOutput)
    ensures
        owned_outputs(outputs.push(next)) == match attributed(next) {
            Some(held) => owned_outputs(outputs).push(held),
            None => owned_outputs(outputs),
        },
{
    assert(outputs.push(next).drop_last() =~= outputs);
}

/// What one more item adds to a total.
pub proof fn lemma_total_push(items: Seq<AssetAmount>, next: AssetAmount, asset: AssetId)
    ensures
        total_of(items.push(next), asset) == total_of(items, asset) + if next.asset == asset {
            next.amount as nat
        } else {
            0
        },
{
    assert(items.push(next).drop_last() =~= items);
}

/// The trade that the desk makes in a swap: it sells what the caller gets
/// and buys what the caller gives.
pub open spec fn desk_trade(plan: SwapPlan, funded: u64) -> Trade {
    Trade {
        sell: TradeSide {
            asset: plan.caller_gets.asset,
            amount: plan.caller_gets.amount,
            resulting_balance: (funded - plan.caller_gets.amount) as i128,
        },
        buy: TradeSide {
            asset: plan.caller_gives.asset,
            amount: plan.caller_gives.amount,
            resulting_balance: plan.caller_gives.amount as i128,
        },
    }
}

/// A swap accounts for itself: when the desk reads its own draft against
/// the one output that funds it, accounting finds the trade of the plan,
/// whose amounts are those that the quote implies.
pub proof fn lemma_swap_round_trip(
    engine: SwapEngine,
    side: Side,
    quote: Quote,
    payload: CreateSwapPayload,
    funding: SwapInput,
    content: OutputContent,
    draft: SwapDraft,
    tx: TransactionView,
)
    requires
        engine.wf(),
        engine.is_swap_outcome(side, Some(quote), payload, funding, Ok(draft)),
        reading(content) == Some(funding.held),
        tx.inputs@ == draft.inputs@,
        tx.outputs@ == desk_outputs(draft.outputs@),
    ensures
        engine.plan_outcome(side, quote, payload).is_ok(),
        is_outcome(
            Seq::<KnownOutput>::empty().push(KnownOutput { outpoint: funding.outpoint, content }),
            tx,
            Ok(desk_trade(engine.plan_outcome(side, quote, payload).unwrap(), funding.held.amount)),
        ),
        desk_trade(
            engine.plan_outcome(side, quote, payload).unwrap(),
            funding.held.amount,
        ).sell.amount == SwapEngine::gotten(side, quote, payload.amount),
        desk_trade(
            engine.plan_outcome(side, quote, payload).unwrap(),
            funding.held.amount,
        ).buy.amount == SwapEngine::given(side, quote, payload.amount),
{
    let plan = engine.plan_outcome(side, quote, payload).unwrap();
    let funded = funding.held.amount;
    let own = KnownOutput { outpoint: funding.outpoint, content };
    let known = Seq::<KnownOutput>::empty().push(own);
    let sell = plan.caller_gets.asset;
    let buy = plan.caller_gives.asset;
    assert(sell != buy);

    // The inputs: only the last one spends the desk's output.
    let theirs = outpoints_of(payload.inputs@);
    assert(tx.inputs@.drop_last() =~= theirs);
    assert(tx.inputs@.last() == funding.outpoint);
    assert forall|i: int| 0 <= i < theirs.len() implies #[trigger] theirs[i] != own.outpoint by {
        if theirs[i] == own.outpoint {
            assert(payload.inputs@[i].outpoint == funding.outpoint);
        }
    }
    lemma_foreign_inputs(own, theirs);
    lemma_find_single(own, funding.outpoint);
    let ins = owned_inputs(known, tx.inputs@);
    assert(owned_inputs(known, theirs) =~= Seq::<AssetAmount>::empty());
    assert(ins =~= Seq::<AssetAmount>::empty().push(funding.held));
    assert forall|i: int| 0 <= i < tx.inputs@.len() implies match find_known(
        known,
        #[trigger] tx.inputs@[i],
    ) {
        Some(spent) => reading(spent.content).is_some(),
        None => true,
    } by {
        lemma_find_single(own, tx.inputs@[i]);
    }

    // The outputs: the desk opens its own two.
    let drafted = draft_outputs(plan, funded);
    let o0 = desk_reads(drafted[0]);
    let o1 = desk_reads(drafted[1]);
    let o2 = desk_reads(drafted[2]);
    let o3 = desk_reads(drafted[3]);
    let o4 = desk_reads(drafted[4]);
    let e = Seq::<TxOutput>::empty();
    assert(tx.outputs@ =~= e.push(o0).push(o1).push(o2).push(o3).push(o4));
    assert(owned_outputs(e) =~= Seq::<AssetAmount>::empty());
    lemma_owned_outputs_push(e, o0);
    lemma_owned_outputs_push(e.push(o0), o1);
    lemma_owned_outputs_push(e.push(o0).push(o1), o2);
    lemma_owned_outputs_push(e.push(o0).push(o1).push(o2), o3);
    lemma_owned_outputs_push(e.push(o0).push(o1).push(o2).push(o3), o4);
    let got = plan.caller_gives;
    let rest = AssetAmount { asset: sell, amount: (funded - plan.caller_gets.amount) as u64 };
    let outs = owned_outputs(tx.outputs@);
    let none = Seq::<AssetAmount>::empty();
    assert(outs =~= none.push(got).push(rest));
    assert(outs[0].asset == buy && outs[1].asset == sell);
    assert(holds_asset(outs, buy) && holds_asset(outs, sell));
    assert(two_assets(outs, sell, buy));
    assert(ins[0].asset == sell);
    assert(single_asset(ins, sell));
    assert(trade_pair(known, tx, sell, buy));

    // The figures.
    lemma_total_push(none, funding.held, sell);
    assert(total_of(ins, sell) == funded);
    lemma_total_push(none, got, sell);
    lemma_total_push(none.push(got), rest, sell);
    lemma_total_push(none, got, buy);
    lemma_total_push(none.push(got), rest, buy);
    assert(total_of(outs, sell) == funded - plan.caller_gets.amount);
    assert(total_of(outs, buy) == plan.caller_gives.amount);
    assert(known.drop_last() =~= Seq::<KnownOutput>::empty());
    assert(holdings(Seq::<KnownOutput>::empty()) =~= none);
    assert(known.last() == own);
    assert(holdings(known) =~= none.push(funding.held));
    lemma_total_push(none, funding.held, buy);
    assert(total_of(holdings(known), sell) == funded);
    assert(total_of(holdings(known), buy) == 0);
    assert(desk_trade(plan, funded) == trade_between(known, tx, sell, buy));
}

} // verus!
