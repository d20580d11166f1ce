//! Asset identifiers, output references and amounts.

use vstd::prelude::*;

verus! {

/// Whether two 32-byte strings are equal.
pub fn same_bytes(a: &[u8; 32], b: &[u8; 32]) -> (same: bool)
    ensures
        same == (*a == *b),
{
    let mut i: usize = 0;
    while i < 32
        invariant
            i <= 32,
            forall|k: int| 0 <= k < i ==> a[k] == b[k],
        decreases 32 - i,
    {
        if a[i] != b[i] {
            return false;
        }
        i += 1;
    }
    proof {
        assert(*a =~= *b);
    }
    true
}

/// The identifier of an asset on the chain.
#[derive(Clone, Copy, Debug, PartialEq, Eq, Hash)]
pub struct AssetId {
    pub bytes: [u8; 32],
}

impl AssetId {
    /// Whether both name the same asset.
    pub fn same(&self, other: &AssetId) -> (same: bool)
        ensures
            same == (*self == *other),
    {
        same_bytes(&self.bytes, &other.bytes)
    }
}

/// The identifier of a transaction.
#[derive(Clone, Copy, Debug, PartialEq, Eq, Hash)]
pub struct Txid {
    pub bytes: [u8; 32],
}

/// One output of one transaction.
#[derive(Clone, Copy, Debug, PartialEq, Eq, Hash)]
pub struct OutPoint {
    pub txid: Txid,
    pub vout: u32,
}

impl OutPoint {
    /// Whether both name the same output.
    pub fn same(&self, other: &OutPoint) -> (same: bool)
        ensures
            same == (*self == *other),
    {
        self.vout == other.vout && same_bytes(&self.txid.bytes, &other.txid.bytes)
    }
}

/// An amount of one asset, in the chain's smallest unit.
#[derive(Clone, Copy, Debug, PartialEq, Eq)]
pub struct AssetAmount {
    pub asset: AssetId,
    pub amount: u64,
}

/// The sum of the amounts that are of the given asset.
pub open spec fn total_of(items: Seq<AssetAmount>, asset: AssetId) -> nat
    decreases items.len(),
{
    if items.len() == 0 {
        0
    } else if items.last().asset == asset {
        total_of(items.drop_last(), asset) + items.last().amount as nat
    } else {
        total_of(items.drop_last(), asset)
    }
}

/// Whether some item is of the given asset.
pub open spec fn holds_asset(items: Seq<AssetAmount>, asset: AssetId) -> bool {
    exists|i: int| 0 <= i < items.len() && (#[trigger] items[i]).asset == asset
}

/// Adds up the amounts of one asset.
pub fn sum_of(items: &Vec<AssetAmount>, asset: &AssetId) -> (total: u128)
    ensures
        total == total_of(items@, *asset),
{
    let mut total: u128 = 0;
    let mut i: usize = 0;
    assert(items@.take(0) =~= Seq::<AssetAmount>::empty());
    while i < items.len()
        invariant
            i <= items.len(),
            total == total_of(items@.take(i as int), *asset),
            total <= i * 0xffff_ffff_ffff_ffff,
        decreases items.len() - i,
    {
        proof {
            assert(items@.take(i as int + 1).drop_last() =~= items@.take(i as int));
        }
        if items[i].asset.same(asset) {
            total = total + items[i].amount as u128;
        }
        i += 1;
    }
    proof {
        assert(items@.take(i as int) =~= items@);
    }
    total
}

} // verus!
