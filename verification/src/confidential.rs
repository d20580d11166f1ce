//! Opening blinded outputs with the owner's blinding key.

use vstd::prelude::*;
use crate::accounting::{
    extract_trade, is_outcome, lemma_outcome_unique, KnownOutput, OutputContent, Trade,
    TradeError, TransactionView, TxOutput,
};
use crate::order::lemma_order_independent;
use crate::assets::{AssetAmount, AssetId, OutPoint};
use elements::confidential::{Asset, Nonce, Value};
use elements::secp256k1_zkp::{Secp256k1, SecretKey};
use elements::{RangeProof, Script, SurjectionProof, TxOut, TxOutWitness};

verus! {

/// A blinded output as it stands in a transaction: the commitments to asset
/// and value, the sender's nonce, the script it pays to, and the range
/// proof that carries the secrets for the receiver.
#[derive(Clone, Debug, PartialEq, Eq)]
pub struct SealedOutput {
    pub asset: Vec<u8>,
    pub value: Vec<u8>,
    pub nonce: Vec<u8>,
    pub script_pubkey: Vec<u8>,
    pub rangeproof: Vec<u8>,
}

/// The asset and the amount that a blinding key recovers from a blinded
/// output, or nothing where the key does not open it.
pub uninterp spec fn unblinded(
    asset: Seq<u8>,
    value: Seq<u8>,
    nonce: Seq<u8>,
    script_pubkey: Seq<u8>,
    rangeproof: Seq<u8>,
    blinding_key: Seq<u8>,
) -> Option<(Seq<u8>, u64)>;

/// What the key recovers from the output.
pub open spec fn opening(sealed: SealedOutput, blinding_key: Seq<u8>) -> Option<(Seq<u8>, u64)> {
    unblinded(
        sealed.asset@,
        sealed.value@,
        sealed.nonce@,
        sealed.script_pubkey@,
        sealed.rangeproof@,
        blinding_key,
    )
}

/// `elements::TxOut::unblind` on the output made of the given parts, which
/// is not verified here: the claim is that what it recovers depends on
/// those parts and the key alone. Parts that are no commitments, and a
/// key that is no secret key, recover nothing.
#[verifier::external_body]
pub(crate) fn unblind(sealed: &SealedOutput, blinding_key: &[u8; 32]) -> (opened: Option<AssetAmount>)
    ensures
        match opened {
            Some(held) => unblinded(
                sealed.asset@,
                sealed.value@,
                sealed.nonce@,
                sealed.script_pubkey@,
                sealed.rangeproof@,
                blinding_key@,
            ) == Some((held.asset.bytes@, held.amount)),
            None => unblinded(
                sealed.asset@,
                sealed.value@,
                sealed.nonce@,
                sealed.script_pubkey@,
                sealed.rangeproof@,
                blinding_key@,
            ).is_none(),
        },
{
    let rangeproof = RangeProof::from_slice(&sealed.rangeproof).ok()?;
    let txout = TxOut {
        asset: Asset::from_commitment(&sealed.asset).ok()?,
        value: Value::from_commitment(&sealed.value).ok()?,
        nonce: Nonce::from_commitment(&sealed.nonce).ok()?,
        script_pubkey: Script::from(sealed.script_pubkey.clone()),
        witness: TxOutWitness { surjection_proof: SurjectionProof::EMPTY, rangeproof },
    };
    let key = SecretKey::from_slice(blinding_key).ok()?;
    let secrets = txout.unblind(&Secp256k1::new(), key).ok()?;
    Some(AssetAmount { asset: AssetId { bytes: secrets.asset.to_byte_array() }, amount: secrets.value })
}

/// What the owner reads in a blinded output, given what the key recovered.
pub fn sealed_content(opened: Option<AssetAmount>) -> (content: OutputContent)
    ensures
        content == (OutputContent::Confidential { opened }),
{
    OutputContent::Confidential { opened }
}

/// Reads a blinded output with the owner's blinding key.
pub fn open_output(sealed: &SealedOutput, blinding_key: &[u8; 32]) -> (content: OutputContent)
    ensures
        match content {
            OutputContent::Confidential { opened: Some(held) } => opening(*sealed, blinding_key@)
                == Some((held.asset.bytes@, held.amount)),
            OutputContent::Confidential { opened: None } => opening(
                *sealed,
                blinding_key@,
            ).is_none(),
            OutputContent::Explicit(_) => false,
        },
{
    sealed_content(unblind(sealed, blinding_key))
}

/// An output as it stands on the chain: in the clear, or blinded.
#[derive(Clone, Debug, PartialEq, Eq)]
pub enum ChainOutput {
    Clear(AssetAmount),
    Sealed(SealedOutput),
}

/// An unspent output of the owner's wallet.
#[derive(Clone, Debug, PartialEq, Eq)]
pub struct OwnedOutput {
    pub outpoint: OutPoint,
    pub output: ChainOutput,
}

/// An output of a transaction, and whether it pays to the owner's address.
#[derive(Clone, Debug, PartialEq, Eq)]
pub struct PaidOutput {
    pub output: ChainOutput,
    pub pays_owner: bool,
}

/// A transaction as it stands on the chain.
#[derive(Clone, Debug, PartialEq, Eq)]
pub struct ChainTransaction {
    pub inputs: Vec<OutPoint>,
    pub outputs: Vec<PaidOutput>,
}

/// The content is what the key reads in the output: a clear output as it
/// stands, a blinded one as far as the key opens it.
pub open spec fn reads_as(output: ChainOutput, blinding_key: Seq<u8>, content: OutputContent) -> bool {
    match output {
        ChainOutput::Clear(held) => content == OutputContent::Explicit(held),
        ChainOutput::Sealed(sealed) => match content {
            OutputContent::Confidential { opened: Some(held) } => opening(sealed, blinding_key)
                == Some((held.asset.bytes@, held.amount)),
            OutputContent::Confidential { opened: None } => opening(sealed, blinding_key).is_none(),
            OutputContent::Explicit(_) => false,
        },
    }
}

/// The known outputs are the owner's outputs as the key reads them.
pub open spec fn known_read_as(
    owned: Seq<OwnedOutput>,
    blinding_key: Seq<u8>,
    known: Seq<KnownOutput>,
) -> bool {
    &&& known.len() == owned.len()
    &&& forall|i: int|
        0 <= i < owned.len() ==> (#[trigger] known[i]).outpoint == owned[i].outpoint && reads_as(
            owned[i].output,
            blinding_key,
            known[i].content,
        )
}

/// The view is the transaction as the key reads it.
pub open spec fn view_read_as(
    transaction: ChainTransaction,
    blinding_key: Seq<u8>,
    view: TransactionView,
) -> bool {
    &&& view.inputs@ == transaction.inputs@
    &&& view.outputs@.len() == transaction.outputs@.len()
    &&& forall|i: int|
        0 <= i < transaction.outputs@.len() ==> (#[trigger] view.outputs@[i]).pays_owner
            == transaction.outputs@[i].pays_owner && reads_as(
            transaction.outputs@[i].output,
            blinding_key,
            view.outputs@[i].content,
        )
}

/// A key reads one thing in an output.
pub proof fn lemma_one_reading(
    output: ChainOutput,
    blinding_key: Seq<u8>,
    one: OutputContent,
    other: OutputContent,
)
    requires
        reads_as(output, blinding_key, one),
        reads_as(output, blinding_key, other),
    ensures
        one == other,
{
    match (one, other) {
        (
            OutputContent::Confidential { opened: Some(a) },
            OutputContent::Confidential { opened: Some(b) },
        ) => {
            assert(a.asset.bytes@ == b.asset.bytes@);
            assert(a.asset.bytes =~= b.asset.bytes);
        },
        _ => {},
    }
}

/// Reads an output with the owner's blinding key.
pub fn read_output(output: &ChainOutput, blinding_key: &[u8; 32]) -> (content: OutputContent)
    ensures
        reads_as(*output, blinding_key@, content),
{
    match output {
        ChainOutput::Clear(held) => OutputContent::Explicit(*held),
        ChainOutput::Sealed(sealed) => open_output(sealed, blinding_key),
    }
}

/// Reads the owner's outputs with the blinding key.
pub fn read_known(owned: &Vec<OwnedOutput>, blinding_key: &[u8; 32]) -> (known: Vec<KnownOutput>)
    ensures
        known_read_as(owned@, blinding_key@, known@),
{
    let mut known: Vec<KnownOutput> = Vec::new();
    let mut i: usize = 0;
    while i < owned.len()
        invariant
            i <= owned.len(),
            known@.len() == i,
            forall|k: int|
                0 <= k < i ==> (#[trigger] known@[k]).outpoint == owned@[k].outpoint && reads_as(
                    owned@[k].output,
                    blinding_key@,
                    known@[k].content,
                ),
        decreases owned.len() - i,
    {
        let content = read_output(&owned[i].output, blinding_key);
        known.push(KnownOutput { outpoint: owned[i].outpoint, content });
        i += 1;
    }
    known
}

/// Reads a transaction with the owner's blinding key.
pub fn read_transaction(transaction: &ChainTransaction, blinding_key: &[u8; 32]) -> (view: TransactionView)
    ensures
        view_read_as(*transaction, blinding_key@, view),
{
    let mut outputs: Vec<TxOutput> = Vec::new();
    let mut i: usize = 0;
    while i < transaction.outputs.len()
        invariant
            i <= transaction.outputs.len(),
            outputs@.len() == i,
            forall|k: int|
                0 <= k < i ==> (#[trigger] outputs@[k]).pays_owner
                    == transaction.outputs@[k].pays_owner && reads_as(
                    transaction.outputs@[k].output,
                    blinding_key@,
                    outputs@[k].content,
                ),
        decreases transaction.outputs.len() - i,
    {
        let content = read_output(&transaction.outputs[i].output, blinding_key);
        outputs.push(TxOutput { content, pays_owner: transaction.outputs[i].pays_owner });
        i += 1;
    }
    let mut inputs: Vec<OutPoint> = Vec::new();
    let mut j: usize = 0;
    while j < transaction.inputs.len()
        invariant
            j <= transaction.inputs.len(),
            inputs@ =~= transaction.inputs@.take(j as int),
        decreases transaction.inputs.len() - j,
    {
        inputs.push(transaction.inputs[j]);
        j += 1;
    }
    proof {
        assert(transaction.inputs@.take(j as int) =~= transaction.inputs@);
    }
    TransactionView { inputs, outputs }
}

/// Reads the trade that a transaction makes for the owner of a wallet:
/// the wallet's outputs and the transaction are read with the blinding
/// key, and the trade is accounted for on what was read.
pub fn extract_trade_with_key(
    owned: &Vec<OwnedOutput>,
    transaction: &ChainTransaction,
    blinding_key: &[u8; 32],
) -> (outcome: Result<Trade, TradeError>)
    ensures
        exists|known: Seq<KnownOutput>, view: TransactionView|
            known_read_as(owned@, blinding_key@, known) && view_read_as(
                *transaction,
                blinding_key@,
                view,
            ) && #[trigger] is_outcome(known, view, outcome),
{
    let known = read_known(owned, blinding_key);
    let view = read_transaction(transaction, blinding_key);
    let outcome = extract_trade(&known, &view);
    assert(is_outcome(known@, view, outcome));
    outcome
}

/// Accounting with a key is a function of the wallet's outputs, the
/// transaction and the key: whatever is read of them, the outcome is the same.
pub proof fn lemma_outcome_with_key_unique(
    owned: Seq<OwnedOutput>,
    transaction: ChainTransaction,
    blinding_key: Seq<u8>,
    known: Seq<KnownOutput>,
    view: TransactionView,
    outcome: Result<Trade, TradeError>,
    known_again: Seq<KnownOutput>,
    view_again: TransactionView,
    outcome_again: Result<Trade, TradeError>,
)
    requires
        known_read_as(owned, blinding_key, known),
        view_read_as(transaction, blinding_key, view),
        is_outcome(known, view, outcome),
        known_read_as(owned, blinding_key, known_again),
        view_read_as(transaction, blinding_key, view_again),
        is_outcome(known_again, view_again, outcome_again),
    ensures
        outcome == outcome_again,
{
    assert forall|i: int| 0 <= i < known.len() implies known[i] == known_again[i] by {
        lemma_one_reading(owned[i].output, blinding_key, known[i].content, known_again[i].content);
    }
    assert(known =~= known_again);
    assert forall|i: int| 0 <= i < view.outputs@.len() implies view.outputs@[i]
        == view_again.outputs@[i] by {
        lemma_one_reading(
            transaction.outputs@[i].output,
            blinding_key,
            view.outputs@[i].content,
            view_again.outputs@[i].content,
        );
    }
    assert(view.outputs@ =~= view_again.outputs@);
    lemma_order_independent(known, view, view_again, outcome);
    lemma_outcome_unique(known, view_again, outcome, outcome_again);
}

} // verus!
