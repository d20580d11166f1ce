//! Messages between the wallet's background script and its popup.

use vstd::prelude::*;
use std::collections::HashMap;
use crate::accounting::Trade;

verus! {

/// A part of the wallet extension that sends or receives messages.
#[derive(Clone, Copy, Debug, PartialEq, Eq, Structural)]
pub enum Component {
    Background,
    Content,
    InPage,
    PopUp,
}

/// The balance of one asset, as the popup shows it.
#[derive(Clone, Debug, PartialEq, Eq)]
pub struct BalanceEntry {
    pub asset: String,
    pub ticker: String,
    pub value: u64,
}

/// A message between background script and popup script.
#[derive(Debug)]
pub struct Message {
    pub rpc_data: RpcData,
    pub target: Component,
    pub source: Component,
    pub content_tab_id: u32,
}

/// Loose data, by name.
#[derive(Debug)]
pub struct Data {
    pub value_map: HashMap<String, String>,
}

/// What a message asks or answers.
#[derive(Debug)]
pub enum RpcData {
    UnlockWallet(String, String),
    CreateWallet(String, String),
    GetWalletStatus,
    GetBalance,
    Balance(Vec<BalanceEntry>),
    SignAndSend { tx_hex: String, tab_id: u32 },
}

/// Whether a wallet exists, and whether it is unlocked.
#[derive(Clone, Debug)]
pub enum WalletStatus {
    NoWallet,
    NotLoaded,
    Loaded { address: String },
}

/// What the background script knows: the wallet's status, and the
/// transaction that waits for a signature, if any.
#[derive(Debug)]
pub struct BackgroundStatus {
    pub wallet: WalletStatus,
    pub sign_tx: Option<TransactionData>,
}

/// A transaction that waits for a signature, with the trade read off it.
#[derive(Clone, Debug)]
pub struct TransactionData {
    pub hex: String,
    pub decoded: Trade,
    pub tab_id: u32,
}

impl BackgroundStatus {
    /// The status made of the two parts.
    pub fn new(wallet: WalletStatus, sign_tx: Option<TransactionData>) -> (status: Self)
        ensures
            status.wallet == wallet,
            status.sign_tx == sign_tx,
    {
        Self { wallet, sign_tx }
    }
}

} // verus!
