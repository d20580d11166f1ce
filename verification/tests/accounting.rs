use bobtimus::accounting::{
    extract_trade, KnownOutput, OutputContent, Trade, TradeError, TradeSide, TransactionView,
    TxOutput,
};
use bobtimus::assets::{AssetAmount, AssetId, OutPoint, Txid};

fn asset(tag: u8) -> AssetId {
    AssetId { bytes: [tag; 32] }
}

fn point(tag: u8, vout: u32) -> OutPoint {
    OutPoint { txid: Txid { bytes: [tag; 32] }, vout }
}

fn clear(tag: u8, amount: u64) -> OutputContent {
    OutputContent::Explicit(AssetAmount { asset: asset(tag), amount })
}

fn opened(tag: u8, amount: u64) -> OutputContent {
    OutputContent::Confidential { opened: Some(AssetAmount { asset: asset(tag), amount }) }
}

fn sealed() -> OutputContent {
    OutputContent::Confidential { opened: None }
}

fn ours(content: OutputContent) -> TxOutput {
    TxOutput { content, pays_owner: true }
}

fn theirs(content: OutputContent) -> TxOutput {
    TxOutput { content, pays_owner: false }
}

#[test]
fn sells_what_is_spent_less_the_change() {
    let known = vec![KnownOutput { outpoint: point(1, 0), content: clear(0xa, 1000) }];
    let tx = TransactionView {
        inputs: vec![point(1, 0)],
        outputs: vec![ours(clear(0xa, 400)), ours(clear(0xb, 600))],
    };
    let trade = extract_trade(&known, &tx).unwrap();
    assert_eq!(
        trade,
        Trade {
            sell: TradeSide { asset: asset(0xa), amount: 600, resulting_balance: 400 },
            buy: TradeSide { asset: asset(0xb), amount: 600, resulting_balance: 600 },
        }
    );
}

#[test]
fn order_of_inputs_and_outputs_does_not_matter() {
    let known = vec![
        KnownOutput { outpoint: point(1, 0), content: opened(0xa, 700) },
        KnownOutput { outpoint: point(2, 1), content: clear(0xa, 300) },
        KnownOutput { outpoint: point(3, 0), content: clear(0xb, 50) },
    ];
    let one = TransactionView {
        inputs: vec![point(1, 0), point(9, 9), point(2, 1)],
        outputs: vec![
            ours(opened(0xa, 100)),
            theirs(clear(0xa, 5)),
            ours(opened(0xb, 20)),
            theirs(sealed()),
            ours(clear(0xb, 40)),
            ours(opened(0xa, 300)),
        ],
    };
    let other = TransactionView {
        inputs: vec![point(2, 1), point(1, 0), point(9, 9)],
        outputs: vec![
            ours(clear(0xb, 40)),
            ours(opened(0xa, 300)),
            theirs(sealed()),
            ours(opened(0xb, 20)),
            ours(opened(0xa, 100)),
            theirs(clear(0xa, 5)),
        ],
    };
    let expected = Trade {
        sell: TradeSide { asset: asset(0xa), amount: 600, resulting_balance: 400 },
        buy: TradeSide { asset: asset(0xb), amount: 60, resulting_balance: 110 },
    };
    assert_eq!(extract_trade(&known, &one), Ok(expected));
    assert_eq!(extract_trade(&known, &other), Ok(expected));
    assert_eq!(extract_trade(&known, &one), extract_trade(&known, &one));
}

#[test]
fn unknown_buy_balance_counts_as_zero() {
    let known = vec![KnownOutput { outpoint: point(1, 0), content: opened(0xa, 10) }];
    let tx = TransactionView {
        inputs: vec![point(1, 0)],
        outputs: vec![ours(opened(0xb, 7)), ours(opened(0xa, 0))],
    };
    let trade = extract_trade(&known, &tx).unwrap();
    assert_eq!(trade.sell, TradeSide { asset: asset(0xa), amount: 10, resulting_balance: 0 });
    assert_eq!(trade.buy, TradeSide { asset: asset(0xb), amount: 7, resulting_balance: 7 });
}

#[test]
fn a_blinded_input_that_does_not_open_is_an_error() {
    let known = vec![KnownOutput { outpoint: point(1, 0), content: sealed() }];
    let tx = TransactionView {
        inputs: vec![point(1, 0)],
        outputs: vec![ours(clear(0xa, 400)), ours(clear(0xb, 600))],
    };
    assert_eq!(extract_trade(&known, &tx), Err(TradeError::InputUnblindFailed));
}

#[test]
fn inputs_of_two_assets_are_an_error() {
    let known = vec![
        KnownOutput { outpoint: point(1, 0), content: clear(0xa, 1000) },
        KnownOutput { outpoint: point(1, 1), content: clear(0xb, 1000) },
    ];
    let tx = TransactionView {
        inputs: vec![point(1, 0), point(1, 1)],
        outputs: vec![ours(clear(0xa, 400)), ours(clear(0xb, 600))],
    };
    assert_eq!(extract_trade(&known, &tx), Err(TradeError::MultipleInputAssetTypes));
}

#[test]
fn no_owned_input_is_an_error() {
    let known = vec![KnownOutput { outpoint: point(1, 0), content: clear(0xa, 1000) }];
    let tx = TransactionView {
        inputs: vec![point(1, 1)],
        outputs: vec![ours(clear(0xa, 400)), ours(clear(0xb, 600))],
    };
    assert_eq!(extract_trade(&known, &tx), Err(TradeError::MultipleInputAssetTypes));
}

#[test]
fn one_or_three_output_assets_are_an_error() {
    let known = vec![KnownOutput { outpoint: point(1, 0), content: clear(0xa, 1000) }];
    let one = TransactionView {
        inputs: vec![point(1, 0)],
        outputs: vec![ours(clear(0xa, 400)), theirs(clear(0xb, 600)), theirs(sealed())],
    };
    assert_eq!(extract_trade(&known, &one), Err(TradeError::UnexpectedOutputShape));
    let three = TransactionView {
        inputs: vec![point(1, 0)],
        outputs: vec![ours(clear(0xa, 400)), ours(clear(0xb, 600)), ours(opened(0xc, 1))],
    };
    assert_eq!(extract_trade(&known, &three), Err(TradeError::UnexpectedOutputShape));
    let none = TransactionView { inputs: vec![point(1, 0)], outputs: vec![] };
    assert_eq!(extract_trade(&known, &none), Err(TradeError::UnexpectedOutputShape));
}

#[test]
fn outputs_without_the_spent_asset_are_an_error() {
    let known = vec![KnownOutput { outpoint: point(1, 0), content: clear(0xa, 1000) }];
    let tx = TransactionView {
        inputs: vec![point(1, 0)],
        outputs: vec![ours(clear(0xc, 400)), ours(clear(0xb, 600))],
    };
    assert_eq!(extract_trade(&known, &tx), Err(TradeError::NoMatchingChangeOutput));
}

#[test]
fn change_above_what_was_spent_is_out_of_range() {
    let known = vec![KnownOutput { outpoint: point(1, 0), content: clear(0xa, 1000) }];
    let tx = TransactionView {
        inputs: vec![point(1, 0)],
        outputs: vec![ours(clear(0xa, 1001)), ours(clear(0xb, 600))],
    };
    assert_eq!(extract_trade(&known, &tx), Err(TradeError::AmountOutOfRange));
}

#[test]
fn a_sum_beyond_64_bits_is_out_of_range() {
    let known = vec![KnownOutput { outpoint: point(1, 0), content: clear(0xa, 1000) }];
    let tx = TransactionView {
        inputs: vec![point(1, 0)],
        outputs: vec![
            ours(clear(0xa, 400)),
            ours(clear(0xb, u64::MAX)),
            ours(clear(0xb, 1)),
        ],
    };
    assert_eq!(extract_trade(&known, &tx), Err(TradeError::AmountOutOfRange));
}

#[test]
fn the_first_known_output_at_a_place_is_the_one_spent() {
    let known = vec![
        KnownOutput { outpoint: point(1, 0), content: clear(0xa, 1000) },
        KnownOutput { outpoint: point(1, 0), content: clear(0xb, 1) },
    ];
    let tx = TransactionView {
        inputs: vec![point(1, 0)],
        outputs: vec![ours(clear(0xa, 400)), ours(clear(0xb, 600))],
    };
    let trade = extract_trade(&known, &tx).unwrap();
    assert_eq!(trade.sell, TradeSide { asset: asset(0xa), amount: 600, resulting_balance: 400 });
    assert_eq!(trade.buy, TradeSide { asset: asset(0xb), amount: 600, resulting_balance: 601 });
}
