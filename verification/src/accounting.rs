//! Confidential accounting: what a transaction sells and buys, seen from
//! the owner of a set of known outputs.

use vstd::prelude::*;
use crate::assets::{holds_asset, sum_of, total_of, AssetAmount, AssetId, OutPoint};

verus! {

/// What an output holds, as far as its owner can tell.
#[derive(Clone, Copy, Debug, PartialEq, Eq)]
pub enum OutputContent {
    /// Asset and amount stand in the clear.
    Explicit(AssetAmount),
    /// Asset or amount are blinded; `opened` is what the owner's blinding
    /// key recovers, or nothing where it does not fit.
    Confidential { opened: Option<AssetAmount> },
}

/// An unspent output that belongs to the owner.
#[derive(Clone, Copy, Debug, PartialEq, Eq)]
pub struct KnownOutput {
    pub outpoint: OutPoint,
    pub content: OutputContent,
}

/// An output of the transaction under examination.
#[derive(Clone, Copy, Debug, PartialEq, Eq)]
pub struct TxOutput {
    pub content: OutputContent,
    /// Whether the output pays to the owner's address.
    pub pays_owner: bool,
}

/// The parts of a transaction that accounting reads.
#[derive(Clone, Debug, PartialEq, Eq)]
pub struct TransactionView {
    /// The output that each input spends.
    pub inputs: Vec<OutPoint>,
    pub outputs: Vec<TxOutput>,
}

/// One leg of a trade.
#[derive(Clone, Copy, Debug, PartialEq, Eq)]
pub struct TradeSide {
    pub asset: AssetId,
    pub amount: u64,
    /// The owner's balance in `asset` once the trade is applied.
    pub resulting_balance: i128,
}

/// What the owner gives and what the owner gets.
#[derive(Clone, Copy, Debug, PartialEq, Eq)]
pub struct Trade {
    pub sell: TradeSide,
    pub buy: TradeSide,
}

/// Why no trade can be read off a transaction.
#[derive(Clone, Copy, Debug, PartialEq, Eq, Structural)]
pub enum TradeError {
    /// An input spends a blinded known output that the owner's key does not open.
    InputUnblindFailed,
    /// The inputs that spend known outputs are not all of one asset, or there is none.
    MultipleInputAssetTypes,
    /// The outputs attributed to the owner are not of exactly two assets.
    UnexpectedOutputShape,
    /// None of the two assets received is the asset spent.
    NoMatchingChangeOutput,
    /// The change exceeds what was spent, or a figure does not fit 64 bits.
    AmountOutOfRange,
}

/// The asset and amount that the owner reads in an output, if any.
pub open spec fn reading(content: OutputContent) -> Option<AssetAmount> {
    match content {
        OutputContent::Explicit(held) => Some(held),
        OutputContent::Confidential { opened } => opened,
    }
}

/// The first known output that stands at the given place, if any.
pub open spec fn find_known(known: Seq<KnownOutput>, point: OutPoint) -> Option<KnownOutput>
    decreases known.len(),
{
    if known.len() == 0 {
        None
    } else {
        match find_known(known.drop_last(), point) {
            Some(found) => Some(found),
            None => if known.last().outpoint == point {
                Some(known.last())
            } else {
                None
            },
        }
    }
}

/// Every input that spends a known output spends one that the owner can read.
pub open spec fn inputs_readable(known: Seq<KnownOutput>, inputs: Seq<OutPoint>) -> bool {
    forall|i: int|
        0 <= i < inputs.len() ==> match find_known(known, #[trigger] inputs[i]) {
            Some(spent) => reading(spent.content).is_some(),
            None => true,
        }
}

/// What the inputs spend of the known outputs, in input order.
pub open spec fn owned_inputs(known: Seq<KnownOutput>, inputs: Seq<OutPoint>) -> Seq<AssetAmount>
    decreases inputs.len(),
{
    if inputs.len() == 0 {
        Seq::empty()
    } else {
        let earlier = owned_inputs(known, inputs.drop_last());
        match find_known(known, inputs.last()) {
            Some(spent) => match reading(spent.content) {
                Some(held) => earlier.push(held),
                None => earlier,
            },
            None => earlier,
        }
    }
}

/// What an output of the transaction brings the owner: a clear output counts
/// where it pays the owner, a blinded one where the owner's key opens it.
pub open spec fn attributed(output: TxOutput) -> Option<AssetAmount> {
    match output.content {
        OutputContent::Explicit(held) => if output.pays_owner {
            Some(held)
        } else {
            None
        },
        OutputContent::Confidential { opened } => opened,
    }
}

/// What the outputs bring the owner, in output order.
pub open spec fn owned_outputs(outputs: Seq<TxOutput>) -> Seq<AssetAmount>
    decreases outputs.len(),
{
    if outputs.len() == 0 {
        Seq::empty()
    } else {
        let earlier = owned_outputs(outputs.drop_last());
        match attributed(outputs.last()) {
            Some(held) => earlier.push(held),
            None => earlier,
        }
    }
}

/// What the owner holds: the known outputs that can be read.
pub open spec fn holdings(known: Seq<KnownOutput>) -> Seq<AssetAmount>
    decreases known.len(),
{
    if known.len() == 0 {
        Seq::empty()
    } else {
        let earlier = holdings(known.drop_last());
        match reading(known.last().content) {
            Some(held) => earlier.push(held),
            None => earlier,
        }
    }
}

/// The items are of this one asset, and there is at least one.
pub open spec fn single_asset(items: Seq<AssetAmount>, asset: AssetId) -> bool {
    &&& items.len() > 0
    &&& forall|i: int| 0 <= i < items.len() ==> (#[trigger] items[i]).asset == asset
}

/// The items are of these two assets, and of each there is at least one.
pub open spec fn two_assets(items: Seq<AssetAmount>, first: AssetId, second: AssetId) -> bool {
    &&& first != second
    &&& holds_asset(items, first)
    &&& holds_asset(items, second)
    &&& forall|i: int|
        0 <= i < items.len() ==> (#[trigger] items[i]).asset == first || items[i].asset == second
}

/// The figures of the trade in `sell` against `buy`, before they are held
/// to the range of an amount.
pub open spec fn sold(known: Seq<KnownOutput>, tx: TransactionView, sell: AssetId) -> int {
    total_of(owned_inputs(known, tx.inputs@), sell) - total_of(owned_outputs(tx.outputs@), sell)
}

/// The amount of `buy` that the outputs bring the owner.
pub open spec fn bought(tx: TransactionView, buy: AssetId) -> int {
    total_of(owned_outputs(tx.outputs@), buy) as int
}

/// The owner's balance in an asset before the trade.
pub open spec fn balance(known: Seq<KnownOutput>, asset: AssetId) -> int {
    total_of(holdings(known), asset) as int
}

/// Every figure of the trade is an amount: nothing negative, nothing beyond 64 bits.
pub open spec fn figures_in_range(
    known: Seq<KnownOutput>,
    tx: TransactionView,
    sell: AssetId,
    buy: AssetId,
) -> bool {
    &&& 0 <= sold(known, tx, sell) <= u64::MAX
    &&& bought(tx, buy) <= u64::MAX
    &&& balance(known, sell) <= u64::MAX
    &&& balance(known, buy) <= u64::MAX
}

/// The trade in `sell` against `buy`.
pub open spec fn trade_between(
    known: Seq<KnownOutput>,
    tx: TransactionView,
    sell: AssetId,
    buy: AssetId,
) -> Trade {
    Trade {
        sell: TradeSide {
            asset: sell,
            amount: sold(known, tx, sell) as u64,
            resulting_balance: (balance(known, sell) - sold(known, tx, sell)) as i128,
        },
        buy: TradeSide {
            asset: buy,
            amount: bought(tx, buy) as u64,
            resulting_balance: (balance(known, buy) + bought(tx, buy)) as i128,
        },
    }
}

/// The asset spent and the asset received in return: the inputs are of the
/// first alone, the outputs of both.
pub open spec fn trade_pair(
    known: Seq<KnownOutput>,
    tx: TransactionView,
    sell: AssetId,
    buy: AssetId,
) -> bool {
    &&& single_asset(owned_inputs(known, tx.inputs@), sell)
    &&& two_assets(owned_outputs(tx.outputs@), sell, buy)
}

/// What accounting answers for a transaction: the one trade that it holds,
/// or the first reason, in the order of the variants, why it holds none.
pub open spec fn is_outcome(
    known: Seq<KnownOutput>,
    tx: TransactionView,
    outcome: Result<Trade, TradeError>,
) -> bool {
    let ins = owned_inputs(known, tx.inputs@);
    let outs = owned_outputs(tx.outputs@);
    match outcome {
        Err(TradeError::InputUnblindFailed) => !inputs_readable(known, tx.inputs@),
        Err(TradeError::MultipleInputAssetTypes) => {
            &&& inputs_readable(known, tx.inputs@)
            &&& forall|sell: AssetId| !single_asset(ins, sell)
        },
        Err(TradeError::UnexpectedOutputShape) => {
            &&& inputs_readable(known, tx.inputs@)
            &&& exists|sell: AssetId| single_asset(ins, sell)
            &&& forall|first: AssetId, second: AssetId| !two_assets(outs, first, second)
        },
        Err(TradeError::NoMatchingChangeOutput) => {
            &&& inputs_readable(known, tx.inputs@)
            &&& exists|sell: AssetId| single_asset(ins, sell)
            &&& exists|first: AssetId, second: AssetId| two_assets(outs, first, second)
            &&& forall|sell: AssetId, buy: AssetId| !trade_pair(known, tx, sell, buy)
        },
        Err(TradeError::AmountOutOfRange) => {
            &&& inputs_readable(known, tx.inputs@)
            &&& exists|sell: AssetId, buy: AssetId|
                trade_pair(known, tx, sell, buy) && !figures_in_range(known, tx, sell, buy)
        },
        Ok(trade) => {
            &&& inputs_readable(known, tx.inputs@)
            &&& trade_pair(known, tx, trade.sell.asset, trade.buy.asset)
            &&& figures_in_range(known, tx, trade.sell.asset, trade.buy.asset)
            &&& trade == trade_between(known, tx, trade.sell.asset, trade.buy.asset)
        },
    }
}

/// A match among the first known outputs is the match among all.
pub proof fn lemma_find_prefix(known: Seq<KnownOutput>, n: int, point: OutPoint)
    requires
        0 <= n <= known.len(),
        find_known(known.take(n), point).is_some(),
    ensures
        find_known(known, point) == find_known(known.take(n), point),
    decreases known.len() - n,
{
    if n == known.len() {
        assert(known.take(n) =~= known);
    } else {
        assert(known.take(n + 1).drop_last() =~= known.take(n));
        lemma_find_prefix(known, n + 1, point);
    }
}

/// Looks up the known output that an input spends.
pub fn lookup(known: &Vec<KnownOutput>, point: &OutPoint) -> (found: Option<KnownOutput>)
    ensures
        found == find_known(known@, *point),
{
    let mut i: usize = 0;
    assert(known@.take(0) =~= Seq::<KnownOutput>::empty());
    while i < known.len()
        invariant
            i <= known.len(),
            find_known(known@.take(i as int), *point).is_none(),
        decreases known.len() - i,
    {
        proof {
            assert(known@.take(i as int + 1).drop_last() =~= known@.take(i as int));
        }
        if known[i].outpoint.same(point) {
            proof {
                lemma_find_prefix(known@, i as int + 1, *point);
            }
            return Some(known[i]);
        }
        i += 1;
    }
    proof {
        assert(known@.take(i as int) =~= known@);
    }
    None
}

/// Reads what an output holds.
pub fn read_content(content: &OutputContent) -> (held: Option<AssetAmount>)
    ensures
        held == reading(*content),
{
    match content {
        OutputContent::Explicit(held) => Some(*held),
        OutputContent::Confidential { opened } => *opened,
    }
}

/// Resolves the inputs that spend known outputs; nothing where one of
/// them spends an output that the owner cannot read.
pub fn resolve_inputs(known: &Vec<KnownOutput>, inputs: &Vec<OutPoint>) -> (spent: Option<Vec<AssetAmount>>)
    ensures
        spent.is_some() == inputs_readable(known@, inputs@),
        spent.is_some() ==> spent.unwrap()@ == owned_inputs(known@, inputs@),
{
    let mut spent: Vec<AssetAmount> = Vec::new();
    let mut i: usize = 0;
    assert(inputs@.take(0) =~= Seq::<OutPoint>::empty());
    while i < inputs.len()
        invariant
            i <= inputs.len(),
            spent@ == owned_inputs(known@, inputs@.take(i as int)),
            forall|k: int|
                0 <= k < i ==> match find_known(known@, #[trigger] inputs@[k]) {
                    Some(found) => reading(found.content).is_some(),
                    None => true,
                },
        decreases inputs.len() - i,
    {
        proof {
            assert(inputs@.take(i as int + 1).drop_last() =~= inputs@.take(i as int));
            assert(inputs@.take(i as int + 1).last() == inputs@[i as int]);
        }
        match lookup(known, &inputs[i]) {
            Some(found) => match read_content(&found.content) {
                Some(held) => {
                    spent.push(held);
                },
                None => {
                    assert(!inputs_readable(known@, inputs@));
                    return None;
                },
            },
            None => {},
        }
        i += 1;
    }
    proof {
        assert(inputs@.take(i as int) =~= inputs@);
    }
    Some(spent)
}

/// Collects what the outputs bring the owner.
pub fn collect_outputs(outputs: &Vec<TxOutput>) -> (received: Vec<AssetAmount>)
    ensures
        received@ == owned_outputs(outputs@),
{
    let mut received: Vec<AssetAmount> = Vec::new();
    let mut i: usize = 0;
    assert(outputs@.take(0) =~= Seq::<TxOutput>::empty());
    while i < outputs.len()
        invariant
            i <= outputs.len(),
            received@ == owned_outputs(outputs@.take(i as int)),
        decreases outputs.len() - i,
    {
        proof {
            assert(outputs@.take(i as int + 1).drop_last() =~= outputs@.take(i as int));
            assert(outputs@.take(i as int + 1).last() == outputs@[i as int]);
        }
        match outputs[i].content {
            OutputContent::Explicit(held) => {
                if outputs[i].pays_owner {
                    received.push(held);
                }
            },
            OutputContent::Confidential { opened } => match opened {
                Some(held) => {
                    received.push(held);
                },
                None => {},
            },
        }
        i += 1;
    }
    proof {
        assert(outputs@.take(i as int) =~= outputs@);
    }
    received
}

/// Collects what the owner holds.
pub fn collect_holdings(known: &Vec<KnownOutput>) -> (held: Vec<AssetAmount>)
    ensures
        held@ == holdings(known@),
{
    let mut held: Vec<AssetAmount> = Vec::new();
    let mut i: usize = 0;
    assert(known@.take(0) =~= Seq::<KnownOutput>::empty());
    while i < known.len()
        invariant
            i <= known.len(),
            held@ == holdings(known@.take(i as int)),
        decreases known.len() - i,
    {
        proof {
            assert(known@.take(i as int + 1).drop_last() =~= known@.take(i as int));
            assert(known@.take(i as int + 1).last() == known@[i as int]);
        }
        match read_content(&known[i].content) {
            Some(item) => {
                held.push(item);
            },
            None => {},
        }
        i += 1;
    }
    proof {
        assert(known@.take(i as int) =~= known@);
    }
    held
}

/// The asset that all items are of, where there is exactly one.
pub fn only_asset(items: &Vec<AssetAmount>) -> (asset: Option<AssetId>)
    ensures
        match asset {
            Some(found) => single_asset(items@, found),
            None => forall|any: AssetId| !single_asset(items@, any),
        },
{
    if items.len() == 0 {
        return None;
    }
    let first = items[0].asset;
    let mut i: usize = 1;
    while i < items.len()
        invariant
            1 <= i <= items.len(),
            first == items@[0].asset,
            forall|k: int| 0 <= k < i ==> (#[trigger] items@[k]).asset == first,
        decreases items.len() - i,
    {
        if !items[i].asset.same(&first) {
            proof {
                assert forall|any: AssetId| !single_asset(items@, any) by {
                    if single_asset(items@, any) {
                        assert(items@[0].asset == any);
                        assert(items@[i as int].asset == any);
                    }
                }
            }
            return None;
        }
        i += 1;
    }
    Some(first)
}

/// The two assets that the items are of, where there are exactly two: the
/// asset of the first item, then the other.
pub fn asset_pair(items: &Vec<AssetAmount>) -> (pair: Option<(AssetId, AssetId)>)
    ensures
        match pair {
            Some((first, second)) => two_assets(items@, first, second) && first
                == items@[0].asset,
            None => forall|first: AssetId, second: AssetId| !two_assets(items@, first, second),
        },
{
    if items.len() == 0 {
        return None;
    }
    let first = items[0].asset;
    let mut j: usize = 1;
    while j < items.len() && items[j].asset.same(&first)
        invariant
            1 <= j <= items.len(),
            first == items@[0].asset,
            forall|k: int| 0 <= k < j ==> (#[trigger] items@[k]).asset == first,
        decreases items.len() - j,
    {
        j += 1;
    }
    if j == items.len() {
        proof {
            assert forall|a: AssetId, b: AssetId| !two_assets(items@, a, b) by {
                if two_assets(items@, a, b) {
                    let x = choose|x: int| 0 <= x < items@.len() && (#[trigger] items@[x]).asset == a;
                    let y = choose|y: int| 0 <= y < items@.len() && (#[trigger] items@[y]).asset == b;
                    assert(items@[x].asset == first && items@[y].asset == first);
                }
            }
        }
        return None;
    }
    let second = items[j].asset;
    let mut i: usize = j + 1;
    while i < items.len()
        invariant
            1 <= j < i <= items.len(),
            first == items@[0].asset,
            second == items@[j as int].asset,
            first != second,
            forall|k: int|
                0 <= k < i ==> (#[trigger] items@[k]).asset == first || items@[k].asset == second,
        decreases items.len() - i,
    {
        if !items[i].asset.same(&first) && !items[i].asset.same(&second) {
            proof {
                assert forall|a: AssetId, b: AssetId| !two_assets(items@, a, b) by {
                    if two_assets(items@, a, b) {
                        assert(items@[0].asset == a || items@[0].asset == b);
                        assert(items@[j as int].asset == a || items@[j as int].asset == b);
                        assert(items@[i as int].asset == a || items@[i as int].asset == b);
                    }
                }
            }
            return None;
        }
        i += 1;
    }
    proof {
        assert(items@[0].asset == first);
        assert(items@[j as int].asset == second);
    }
    Some((first, second))
}

/// Reads the trade that a transaction makes for the owner of the known
/// outputs: what the inputs spend of them, less the change, against the
/// other asset that the outputs bring.
pub fn extract_trade(known_outputs: &Vec<KnownOutput>, transaction: &TransactionView) -> (outcome: Result<Trade, TradeError>)
    ensures
        is_outcome(known_outputs@, *transaction, outcome),
        outcome.is_ok() ==> outcome.unwrap().sell.asset != outcome.unwrap().buy.asset,
{
    let ghost known = known_outputs@;
    let ghost tx = *transaction;
    let spent = match resolve_inputs(known_outputs, &transaction.inputs) {
        Some(spent) => spent,
        None => {
            return Err(TradeError::InputUnblindFailed);
        },
    };
    let sell = match only_asset(&spent) {
        Some(sell) => sell,
        None => {
            return Err(TradeError::MultipleInputAssetTypes);
        },
    };
    let received = collect_outputs(&transaction.outputs);
    let (first, second) = match asset_pair(&received) {
        Some(pair) => pair,
        None => {
            return Err(TradeError::UnexpectedOutputShape);
        },
    };
    let buy = if first.same(&sell) {
        second
    } else if second.same(&sell) {
        first
    } else {
        proof {
            assert forall|s: AssetId, b: AssetId| !trade_pair(known, tx, s, b) by {
                if trade_pair(known, tx, s, b) {
                    assert(spent@[0].asset == s);
                    let x = choose|x: int| 0 <= x < received@.len() && (#[trigger] received@[x]).asset == s;
                    assert(received@[x].asset == first || received@[x].asset == second);
                }
            }
        }
        return Err(TradeError::NoMatchingChangeOutput);
    };
    assert(trade_pair(known, tx, sell, buy));
    let held = collect_holdings(known_outputs);
    let spent_total = sum_of(&spent, &sell);
    let change = sum_of(&received, &sell);
    let bought_total = sum_of(&received, &buy);
    let sell_balance = sum_of(&held, &sell);
    let buy_balance = sum_of(&held, &buy);
    let limit: u128 = 0xffff_ffff_ffff_ffff;
    if change > spent_total || spent_total - change > limit || bought_total > limit || sell_balance
        > limit || buy_balance > limit {
        assert(!figures_in_range(known, tx, sell, buy));
        return Err(TradeError::AmountOutOfRange);
    }
    let sold_total = spent_total - change;
    let trade = Trade {
        sell: TradeSide {
            asset: sell,
            amount: sold_total as u64,
            resulting_balance: sell_balance as i128 - sold_total as i128,
        },
        buy: TradeSide {
            asset: buy,
            amount: bought_total as u64,
            resulting_balance: buy_balance as i128 + bought_total as i128,
        },
    };
    assert(trade == trade_between(known, tx, sell, buy));
    Ok(trade)
}

/// The answer is a function of the known outputs and the transaction alone:
/// two outcomes of accounting for the same inputs are the same outcome.
pub proof fn lemma_outcome_unique(
    known: Seq<KnownOutput>,
    tx: TransactionView,
    one: Result<Trade, TradeError>,
    other: Result<Trade, TradeError>,
)
    requires
        is_outcome(known, tx, one),
        is_outcome(known, tx, other),
    ensures
        one == other,
{
    let ins = owned_inputs(known, tx.inputs@);
    let outs = owned_outputs(tx.outputs@);
    assert forall|s: AssetId, b: AssetId, t: AssetId, c: AssetId|
        trade_pair(known, tx, s, b) && trade_pair(known, tx, t, c) implies s == t && b == c by {
        assert(ins[0].asset == s && ins[0].asset == t);
        let x = choose|x: int| 0 <= x < outs.len() && (#[trigger] outs[x]).asset == b;
        assert(outs[x].asset == t || outs[x].asset == c);
    }
}

} // verus!
