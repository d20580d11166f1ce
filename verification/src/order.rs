//! Accounting does not depend on the order in which a transaction lists
//! its inputs and its outputs.

use vstd::prelude::*;
use vstd::seq_lib::{to_multiset_contains, to_multiset_len, to_multiset_remove};
use crate::accounting::{
    attributed, figures_in_range, find_known, inputs_readable, is_outcome, owned_inputs,
    owned_outputs, reading, single_asset, trade_between, trade_pair, two_assets, KnownOutput,
    Trade, TradeError, TransactionView, TxOutput,
};
use crate::assets::{holds_asset, total_of, AssetAmount, AssetId, OutPoint};

verus! {

/// What an input brings into the owner's account, if anything.
pub open spec fn resolved(known: Seq<KnownOutput>, point: OutPoint) -> Option<AssetAmount> {
    match find_known(known, point) {
        Some(spent) => reading(spent.content),
        None => None,
    }
}

/// The amounts that a reading finds in the items, in their order.
pub open spec fn gather<T>(items: Seq<T>, read: spec_fn(T) -> Option<AssetAmount>) -> Seq<
    AssetAmount,
>
    decreases items.len(),
{
    if items.len() == 0 {
        Seq::empty()
    } else {
        match read(items.last()) {
            Some(held) => gather(items.drop_last(), read).push(held),
            None => gather(items.drop_last(), read),
        }
    }
}

/// What one item adds to the total of an asset.
pub open spec fn weight<T>(item: T, read: spec_fn(T) -> Option<AssetAmount>, asset: AssetId) -> nat {
    match read(item) {
        Some(held) => if held.asset == asset {
            held.amount as nat
        } else {
            0
        },
        None => 0,
    }
}

/// The owned inputs are what `resolved` finds in the inputs.
pub proof fn lemma_inputs_gathered(
    known: Seq<KnownOutput>,
    inputs: Seq<OutPoint>,
    read: spec_fn(OutPoint) -> Option<AssetAmount>,
)
    requires
        forall|point: OutPoint| #[trigger] read(point) == resolved(known, point),
    ensures
        owned_inputs(known, inputs) == gather(inputs, read),
    decreases inputs.len(),
{
    if inputs.len() > 0 {
        lemma_inputs_gathered(known, inputs.drop_last(), read);
        assert(read(inputs.last()) == resolved(known, inputs.last()));
    }
}

/// The owned outputs are what `attributed` finds in the outputs.
pub proof fn lemma_outputs_gathered(
    outputs: Seq<TxOutput>,
    read: spec_fn(TxOutput) -> Option<AssetAmount>,
)
    requires
        forall|output: TxOutput| #[trigger] read(output) == attributed(output),
    ensures
        owned_outputs(outputs) == gather(outputs, read),
    decreases outputs.len(),
{
    if outputs.len() > 0 {
        lemma_outputs_gathered(outputs.drop_last(), read);
        assert(read(outputs.last()) == attributed(outputs.last()));
    }
}

/// Taking one item out takes its weight out of the total.
pub proof fn lemma_gather_remove<T>(
    items: Seq<T>,
    read: spec_fn(T) -> Option<AssetAmount>,
    place: int,
    asset: AssetId,
)
    requires
        0 <= place < items.len(),
    ensures
        total_of(gather(items, read), asset) == total_of(gather(items.remove(place), read), asset)
            + weight(items[place], read, asset),
    decreases items.len(),
{
    let rest = items.drop_last();
    lemma_gather_last(items, read, asset);
    if place == items.len() - 1 {
        assert(items.remove(place) =~= rest);
    } else {
        let without = items.remove(place);
        assert(without.drop_last() =~= rest.remove(place));
        assert(without.last() == items.last());
        assert(rest[place] == items[place]);
        lemma_gather_remove(rest, read, place, asset);
        lemma_gather_last(without, read, asset);
    }
}

/// The total is that of all items but the last, and the weight of the last.
pub proof fn lemma_gather_last<T>(
    items: Seq<T>,
    read: spec_fn(T) -> Option<AssetAmount>,
    asset: AssetId,
)
    requires
        items.len() > 0,
    ensures
        total_of(gather(items, read), asset) == total_of(gather(items.drop_last(), read), asset)
            + weight(items.last(), read, asset),
{
    let earlier = gather(items.drop_last(), read);
    match read(items.last()) {
        Some(held) => {
            assert(gather(items, read) == earlier.push(held));
            assert(earlier.push(held).drop_last() =~= earlier);
            assert(earlier.push(held).last() == held);
        },
        None => {},
    }
}

/// Totals do not depend on the order of the items.
pub proof fn lemma_gather_total<T>(
    one: Seq<T>,
    other: Seq<T>,
    read: spec_fn(T) -> Option<AssetAmount>,
    asset: AssetId,
)
    requires
        one.to_multiset() == other.to_multiset(),
    ensures
        total_of(gather(one, read), asset) == total_of(gather(other, read), asset),
    decreases one.len(),
{
    to_multiset_len(one);
    to_multiset_len(other);
    if one.len() > 0 {
        let last = one.len() - 1;
        let item = one[last];
        assert(one.contains(item));
        to_multiset_contains(one, item);
        to_multiset_contains(other, item);
        let place = choose|place: int| 0 <= place < other.len() && other[place] == item;
        to_multiset_remove(one, last);
        to_multiset_remove(other, place);
        lemma_gather_total(one.remove(last), other.remove(place), read, asset);
        lemma_gather_remove(one, read, last, asset);
        lemma_gather_remove(other, read, place, asset);
    }
}

/// An amount is gathered exactly when some item reads as it.
pub proof fn lemma_gather_member<T>(
    items: Seq<T>,
    read: spec_fn(T) -> Option<AssetAmount>,
    held: AssetAmount,
)
    ensures
        gather(items, read).contains(held) <==> exists|i: int|
            0 <= i < items.len() && read(#[trigger] items[i]) == Some(held),
    decreases items.len(),
{
    if items.len() > 0 {
        let rest = items.drop_last();
        let earlier = gather(rest, read);
        let all = gather(items, read);
        lemma_gather_member(rest, read, held);
        if all.contains(held) {
            let k = choose|k: int| 0 <= k < all.len() && all[k] == held;
            if k < earlier.len() {
                assert(earlier[k] == held);
                let i = choose|i: int| 0 <= i < rest.len() && read(#[trigger] rest[i]) == Some(held);
                assert(items[i] == rest[i]);
            } else {
                assert(read(items[items.len() - 1]) == Some(held));
            }
        }
        if exists|i: int| 0 <= i < items.len() && read(#[trigger] items[i]) == Some(held) {
            let i = choose|i: int| 0 <= i < items.len() && read(#[trigger] items[i]) == Some(held);
            if i < rest.len() {
                assert(rest[i] == items[i]);
                let k = choose|k: int| 0 <= k < earlier.len() && earlier[k] == held;
                assert(all[k] == held);
            } else {
                assert(all[all.len() - 1] == held);
            }
        }
    }
}

/// The same amounts are gathered from the same items in another order.
pub proof fn lemma_gather_members<T>(
    one: Seq<T>,
    other: Seq<T>,
    read: spec_fn(T) -> Option<AssetAmount>,
    held: AssetAmount,
)
    requires
        one.to_multiset() == other.to_multiset(),
        gather(one, read).contains(held),
    ensures
        gather(other, read).contains(held),
{
    lemma_gather_member(one, read, held);
    lemma_gather_member(other, read, held);
    let i = choose|i: int| 0 <= i < one.len() && read(#[trigger] one[i]) == Some(held);
    assert(one.contains(one[i]));
    to_multiset_contains(one, one[i]);
    to_multiset_contains(other, one[i]);
    let j = choose|j: int| 0 <= j < other.len() && other[j] == one[i];
    assert(read(other[j]) == Some(held));
}

/// Sequences with the same members are of the same assets.
pub proof fn lemma_same_shape(one: Seq<AssetAmount>, other: Seq<AssetAmount>)
    requires
        forall|held: AssetAmount| one.contains(held) <==> other.contains(held),
    ensures
        forall|asset: AssetId|
            #![trigger holds_asset(one, asset)]
            #![trigger holds_asset(other, asset)]
            holds_asset(one, asset) == holds_asset(other, asset),
        forall|asset: AssetId|
            #![trigger single_asset(one, asset)]
            #![trigger single_asset(other, asset)]
            single_asset(one, asset) == single_asset(other, asset),
        forall|first: AssetId, second: AssetId|
            #![trigger two_assets(one, first, second)]
            #![trigger two_assets(other, first, second)]
            two_assets(one, first, second) == two_assets(other, first, second),
{
    assert forall|asset: AssetId|
        #![trigger holds_asset(one, asset)]
        #![trigger holds_asset(other, asset)]
        holds_asset(one, asset) == holds_asset(other, asset) by {
        lemma_holds_same(one, other, asset);
    }
    assert forall|asset: AssetId|
        #![trigger single_asset(one, asset)]
        #![trigger single_asset(other, asset)]
        single_asset(one, asset) == single_asset(other, asset) by {
        if single_asset(one, asset) {
            lemma_single_carries(one, other, asset);
        }
        if single_asset(other, asset) {
            lemma_single_carries(other, one, asset);
        }
    }
    assert forall|first: AssetId, second: AssetId|
        #![trigger two_assets(one, first, second)]
        #![trigger two_assets(other, first, second)]
        two_assets(one, first, second) == two_assets(other, first, second) by {
        lemma_holds_same(one, other, first);
        lemma_holds_same(one, other, second);
        if two_assets(one, first, second) {
            lemma_pair_carries(one, other, first, second);
        }
        if two_assets(other, first, second) {
            lemma_pair_carries(other, one, first, second);
        }
    }
}

/// An asset is held in both sequences or in neither.
pub proof fn lemma_holds_same(one: Seq<AssetAmount>, other: Seq<AssetAmount>, asset: AssetId)
    requires
        forall|held: AssetAmount| one.contains(held) <==> other.contains(held),
    ensures
        holds_asset(one, asset) == holds_asset(other, asset),
{
    if holds_asset(one, asset) {
        lemma_holds_carries(one, other, asset);
    }
    if holds_asset(other, asset) {
        lemma_holds_carries(other, one, asset);
    }
}

/// An asset held in the one sequence is held in the other.
pub proof fn lemma_holds_carries(one: Seq<AssetAmount>, other: Seq<AssetAmount>, asset: AssetId)
    requires
        forall|held: AssetAmount| one.contains(held) <==> other.contains(held),
        holds_asset(one, asset),
    ensures
        holds_asset(other, asset),
{
    let i = choose|i: int| 0 <= i < one.len() && (#[trigger] one[i]).asset == asset;
    assert(one.contains(one[i]));
    let j = choose|j: int| 0 <= j < other.len() && other[j] == one[i];
    assert(other[j].asset == asset);
}

/// If the one sequence is of a single asset, so is the other.
pub proof fn lemma_single_carries(one: Seq<AssetAmount>, other: Seq<AssetAmount>, asset: AssetId)
    requires
        forall|held: AssetAmount| one.contains(held) <==> other.contains(held),
        single_asset(one, asset),
    ensures
        single_asset(other, asset),
{
    assert(one.contains(one[0]));
    let j = choose|j: int| 0 <= j < other.len() && other[j] == one[0];
    assert forall|k: int| 0 <= k < other.len() implies (#[trigger] other[k]).asset == asset by {
        assert(other.contains(other[k]));
        let i = choose|i: int| 0 <= i < one.len() && one[i] == other[k];
        assert(one[i].asset == asset);
    }
}

/// If all of the one sequence is of two assets, so is all of the other.
pub proof fn lemma_pair_carries(
    one: Seq<AssetAmount>,
    other: Seq<AssetAmount>,
    first: AssetId,
    second: AssetId,
)
    requires
        forall|held: AssetAmount| one.contains(held) <==> other.contains(held),
        forall|i: int|
            0 <= i < one.len() ==> (#[trigger] one[i]).asset == first || one[i].asset == second,
    ensures
        forall|k: int|
            0 <= k < other.len() ==> (#[trigger] other[k]).asset == first || other[k].asset
                == second,
{
    assert forall|k: int| 0 <= k < other.len() implies (#[trigger] other[k]).asset == first
        || other[k].asset == second by {
        assert(other.contains(other[k]));
        let i = choose|i: int| 0 <= i < one.len() && one[i] == other[k];
        assert(one[i].asset == first || one[i].asset == second);
    }
}

/// Whether every owned input can be read does not depend on their order.
pub proof fn lemma_readable_carries(
    known: Seq<KnownOutput>,
    one: Seq<OutPoint>,
    other: Seq<OutPoint>,
)
    requires
        one.to_multiset() == other.to_multiset(),
        inputs_readable(known, one),
    ensures
        inputs_readable(known, other),
{
    assert forall|k: int| 0 <= k < other.len() implies match find_known(
        known,
        #[trigger] other[k],
    ) {
        Some(spent) => reading(spent.content).is_some(),
        None => true,
    } by {
        assert(other.contains(other[k]));
        to_multiset_contains(other, other[k]);
        to_multiset_contains(one, other[k]);
        let i = choose|i: int| 0 <= i < one.len() && one[i] == other[k];
        assert(one[i] == other[k]);
    }
}

/// Accounting is independent of order: two transactions that hold the same
/// inputs and the same outputs, each as often, in whatever order, have the
/// same outcome.
pub proof fn lemma_order_independent(
    known: Seq<KnownOutput>,
    one: TransactionView,
    other: TransactionView,
    outcome: Result<Trade, TradeError>,
)
    requires
        one.inputs@.to_multiset() == other.inputs@.to_multiset(),
        one.outputs@.to_multiset() == other.outputs@.to_multiset(),
        is_outcome(known, one, outcome),
    ensures
        is_outcome(known, other, outcome),
{
    let read_in = |point: OutPoint| resolved(known, point);
    let read_out = |output: TxOutput| attributed(output);
    lemma_inputs_gathered(known, one.inputs@, read_in);
    lemma_inputs_gathered(known, other.inputs@, read_in);
    lemma_outputs_gathered(one.outputs@, read_out);
    lemma_outputs_gathered(other.outputs@, read_out);
    let ins1 = owned_inputs(known, one.inputs@);
    let ins2 = owned_inputs(known, other.inputs@);
    let outs1 = owned_outputs(one.outputs@);
    let outs2 = owned_outputs(other.outputs@);
    assert forall|held: AssetAmount| ins1.contains(held) <==> ins2.contains(held) by {
        if ins1.contains(held) {
            lemma_gather_members(one.inputs@, other.inputs@, read_in, held);
        }
        if ins2.contains(held) {
            lemma_gather_members(other.inputs@, one.inputs@, read_in, held);
        }
    }
    assert forall|held: AssetAmount| outs1.contains(held) <==> outs2.contains(held) by {
        if outs1.contains(held) {
            lemma_gather_members(one.outputs@, other.outputs@, read_out, held);
        }
        if outs2.contains(held) {
            lemma_gather_members(other.outputs@, one.outputs@, read_out, held);
        }
    }
    lemma_same_shape(ins1, ins2);
    lemma_same_shape(outs1, outs2);
    assert forall|asset: AssetId|
        #![trigger total_of(ins1, asset)]
        #![trigger total_of(ins2, asset)]
        total_of(ins1, asset) == total_of(ins2, asset) by {
        lemma_gather_total(one.inputs@, other.inputs@, read_in, asset);
    }
    assert forall|asset: AssetId|
        #![trigger total_of(outs1, asset)]
        #![trigger total_of(outs2, asset)]
        total_of(outs1, asset) == total_of(outs2, asset) by {
        lemma_gather_total(one.outputs@, other.outputs@, read_out, asset);
    }
    if inputs_readable(known, one.inputs@) {
        lemma_readable_carries(known, one.inputs@, other.inputs@);
    }
    if inputs_readable(known, other.inputs@) {
        lemma_readable_carries(known, other.inputs@, one.inputs@);
    }
    assert forall|sell: AssetId, buy: AssetId|
        #![trigger trade_pair(known, one, sell, buy)]
        #![trigger trade_pair(known, other, sell, buy)]
        trade_pair(known, one, sell, buy) == trade_pair(known, other, sell, buy) by {}
    assert forall|sell: AssetId, buy: AssetId|
        #![trigger figures_in_range(known, one, sell, buy)]
        #![trigger figures_in_range(known, other, sell, buy)]
        figures_in_range(known, one, sell, buy) == figures_in_range(known, other, sell, buy) by {
        assert(total_of(ins1, sell) == total_of(ins2, sell));
        assert(total_of(outs1, sell) == total_of(outs2, sell));
        assert(total_of(outs1, buy) == total_of(outs2, buy));
    }
    assert forall|sell: AssetId, buy: AssetId|
        #![trigger trade_between(known, one, sell, buy)]
        #![trigger trade_between(known, other, sell, buy)]
        trade_between(known, one, sell, buy) == trade_between(known, other, sell, buy) by {
        assert(total_of(ins1, sell) == total_of(ins2, sell));
        assert(total_of(outs1, sell) == total_of(outs2, sell));
        assert(total_of(outs1, buy) == total_of(outs2, buy));
    }
    match outcome {
        Err(TradeError::UnexpectedOutputShape) => {
            let sell = choose|sell: AssetId| single_asset(ins1, sell);
            assert(single_asset(ins2, sell));
        },
        Err(TradeError::NoMatchingChangeOutput) => {
            let sell = choose|sell: AssetId| single_asset(ins1, sell);
            assert(single_asset(ins2, sell));
            let (first, second) = choose|first: AssetId, second: AssetId|
                two_assets(outs1, first, second);
            assert(two_assets(outs2, first, second));
        },
        Err(TradeError::AmountOutOfRange) => {
            let (sell, buy) = choose|sell: AssetId, buy: AssetId|
                trade_pair(known, one, sell, buy) && !figures_in_range(known, one, sell, buy);
            assert(trade_pair(known, other, sell, buy) && !figures_in_range(
                known,
                other,
                sell,
                buy,
            ));
        },
        _ => {},
    }
}

} // verus!
