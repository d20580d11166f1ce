use bobtimus::accounting::{extract_trade, KnownOutput, OutputContent, Trade, TradeSide};
use bobtimus::assets::{AssetAmount, AssetId, OutPoint, Txid};
use bobtimus::rate::{Quote, RateService};
use bobtimus::swap::{
    complete_swap, desk_view, CreateSwapPayload, DraftOutput, Party, Side, SwapEngine, SwapError,
    SwapInput, SwapPlan, SCALE,
};

const BASE: AssetId = AssetId { bytes: [0xb; 32] };
const SYNTHETIC: AssetId = AssetId { bytes: [0x5; 32] };

fn engine() -> SwapEngine {
    SwapEngine { base: BASE, synthetic: SYNTHETIC, dust_floor: 100, max_quote_age: 60 }
}

fn input(tag: u8, asset: AssetId, amount: u64) -> SwapInput {
    SwapInput {
        outpoint: OutPoint { txid: Txid { bytes: [tag; 32] }, vout: 0 },
        held: AssetAmount { asset, amount },
    }
}

fn rates(ask: u64, bid: u64, at: u64) -> RateService {
    let mut service = RateService::new();
    assert_eq!(service.publish(Quote { ask, bid, observed_at: at }), Ok(()));
    service
}

#[test]
fn a_buyer_pays_the_asking_price_rounded_up() {
    let quote = Quote { ask: 5001, bid: 4999, observed_at: 0 };
    let payload = CreateSwapPayload {
        inputs: vec![input(1, BASE, 10_000), input(2, BASE, 3_000)],
        amount: 250_000_000,
        fee: 97,
    };
    assert_eq!(
        engine().plan_swap(Side::Buy, &quote, &payload),
        Ok(SwapPlan {
            caller_gives: AssetAmount { asset: BASE, amount: 12_503 },
            caller_gets: AssetAmount { asset: SYNTHETIC, amount: 250_000_000 },
            caller_change: 400,
            fee: 97,
        })
    );
    let even = Quote { ask: 5000, bid: 4999, observed_at: 0 };
    assert_eq!(
        engine().plan_swap(Side::Buy, &even, &payload).unwrap().caller_gives.amount,
        12_500
    );
}

#[test]
fn a_seller_is_paid_the_bid_price_rounded_down() {
    let quote = Quote { ask: 5001, bid: 4999, observed_at: 0 };
    let payload = CreateSwapPayload {
        inputs: vec![input(1, SYNTHETIC, 250_000_100)],
        amount: 250_000_000,
        fee: 100,
    };
    assert_eq!(
        engine().plan_swap(Side::Sell, &quote, &payload),
        Ok(SwapPlan {
            caller_gives: AssetAmount { asset: SYNTHETIC, amount: 250_000_000 },
            caller_gets: AssetAmount { asset: BASE, amount: 12_497 },
            caller_change: 0,
            fee: 100,
        })
    );
    assert_eq!(SCALE, 100_000_000);
}

#[test]
fn dust_short_change_and_foreign_assets_are_refused_in_that_order() {
    let quote = Quote { ask: 5000, bid: 5000, observed_at: 0 };
    let dust = CreateSwapPayload {
        inputs: vec![input(1, SYNTHETIC, 99)],
        amount: 250_000_000,
        fee: 0,
    };
    assert_eq!(engine().plan_swap(Side::Buy, &quote, &dust), Err(SwapError::InputAmountTooSmall));
    let short = CreateSwapPayload {
        inputs: vec![input(1, SYNTHETIC, 12_500)],
        amount: 250_000_000,
        fee: 1,
    };
    assert_eq!(engine().plan_swap(Side::Buy, &quote, &short), Err(SwapError::ChangeAmountTooSmall));
    let none = CreateSwapPayload { inputs: vec![], amount: 1, fee: 0 };
    assert_eq!(engine().plan_swap(Side::Buy, &quote, &none), Err(SwapError::ChangeAmountTooSmall));
    let foreign = CreateSwapPayload {
        inputs: vec![input(1, BASE, 12_000), input(2, SYNTHETIC, 501)],
        amount: 250_000_000,
        fee: 1,
    };
    assert_eq!(engine().plan_swap(Side::Buy, &quote, &foreign), Err(SwapError::InvalidAssetTypes));
    let exact = CreateSwapPayload {
        inputs: vec![input(1, BASE, 12_000), input(2, BASE, 501)],
        amount: 250_000_000,
        fee: 1,
    };
    assert_eq!(engine().plan_swap(Side::Buy, &quote, &exact).unwrap().caller_change, 0);
}

#[test]
fn figures_beyond_64_bits_are_refused() {
    let steep = Quote { ask: u64::MAX, bid: u64::MAX, observed_at: 0 };
    let payload = CreateSwapPayload {
        inputs: vec![input(1, SYNTHETIC, u64::MAX)],
        amount: u64::MAX,
        fee: 0,
    };
    assert_eq!(engine().plan_swap(Side::Sell, &steep, &payload), Err(SwapError::AmountOutOfRange));
    let rich = CreateSwapPayload {
        inputs: vec![input(1, BASE, u64::MAX), input(2, BASE, u64::MAX)],
        amount: 0,
        fee: 0,
    };
    assert_eq!(engine().plan_swap(Side::Buy, &steep, &rich), Err(SwapError::AmountOutOfRange));
}

#[test]
fn no_swap_without_a_fresh_rate() {
    let payload = CreateSwapPayload {
        inputs: vec![input(1, BASE, 13_000)],
        amount: 250_000_000,
        fee: 0,
    };
    let funding = input(9, SYNTHETIC, 300_000_000);
    let empty = RateService::new();
    assert_eq!(
        engine().handle_create_buy_swap(&empty, 0, &payload, &funding),
        Err(SwapError::StaleOrMissingRate)
    );
    let service = rates(5001, 4999, 1000);
    assert_eq!(
        engine().handle_create_sell_swap(&service, 1061, &payload, &funding),
        Err(SwapError::StaleOrMissingRate)
    );
    assert!(engine().handle_create_buy_swap(&service, 1060, &payload, &funding).is_ok());
    assert_eq!(engine().quote_at(&service, 1061), None);
    assert_eq!(
        engine().quote_at(&service, 1060),
        Some(Quote { ask: 5001, bid: 4999, observed_at: 1000 })
    );
}

#[test]
fn the_desk_adds_its_input_and_the_five_outputs() {
    let payload = CreateSwapPayload {
        inputs: vec![input(1, BASE, 13_000)],
        amount: 250_000_000,
        fee: 97,
    };
    let funding = input(9, SYNTHETIC, 300_000_000);
    let service = rates(5001, 4999, 1000);
    let draft = engine().handle_create_buy_swap(&service, 1000, &payload, &funding).unwrap();
    assert_eq!(draft.inputs, vec![payload.inputs[0].outpoint, funding.outpoint]);
    assert_eq!(
        draft.outputs,
        vec![
            DraftOutput {
                held: AssetAmount { asset: SYNTHETIC, amount: 250_000_000 },
                to: Party::Caller,
            },
            DraftOutput { held: AssetAmount { asset: BASE, amount: 400 }, to: Party::Caller },
            DraftOutput { held: AssetAmount { asset: BASE, amount: 12_503 }, to: Party::Desk },
            DraftOutput {
                held: AssetAmount { asset: SYNTHETIC, amount: 50_000_000 },
                to: Party::Desk,
            },
            DraftOutput { held: AssetAmount { asset: BASE, amount: 97 }, to: Party::Fee },
        ]
    );
}

#[test]
fn the_desk_must_be_able_to_fund_its_side() {
    let payload = CreateSwapPayload {
        inputs: vec![input(1, BASE, 13_000)],
        amount: 250_000_000,
        fee: 97,
    };
    let service = rates(5001, 4999, 1000);
    let poor = input(9, SYNTHETIC, 249_999_999);
    assert_eq!(
        engine().handle_create_buy_swap(&service, 1000, &payload, &poor),
        Err(SwapError::Internal)
    );
    let wrong = input(9, BASE, 300_000_000);
    assert_eq!(
        engine().handle_create_buy_swap(&service, 1000, &payload, &wrong),
        Err(SwapError::Internal)
    );
    let shared = input(1, SYNTHETIC, 300_000_000);
    assert_eq!(
        engine().handle_create_buy_swap(&service, 1000, &payload, &shared),
        Err(SwapError::Internal)
    );
    let plan = engine().plan_swap(Side::Buy, &service.latest().unwrap(), &payload).unwrap();
    assert_eq!(complete_swap(&plan, &payload, &poor), Err(SwapError::Internal));
    assert_eq!(
        engine().settle(Side::Buy, None, &payload, &shared),
        Err(SwapError::StaleOrMissingRate)
    );
}

#[test]
fn the_desk_accounts_for_its_side_of_a_swap() {
    let service = rates(5001, 4999, 1000);
    let funding = input(9, SYNTHETIC, 300_000_000);
    let known = vec![KnownOutput {
        outpoint: funding.outpoint,
        content: OutputContent::Confidential { opened: Some(funding.held) },
    }];
    let payload = CreateSwapPayload {
        inputs: vec![input(1, BASE, 13_000)],
        amount: 250_000_000,
        fee: 97,
    };
    let draft = engine().handle_create_buy_swap(&service, 1000, &payload, &funding).unwrap();
    assert_eq!(
        extract_trade(&known, &desk_view(&draft)),
        Ok(Trade {
            sell: TradeSide { asset: SYNTHETIC, amount: 250_000_000, resulting_balance: 50_000_000 },
            buy: TradeSide { asset: BASE, amount: 12_503, resulting_balance: 12_503 },
        })
    );

    let funding = input(9, BASE, 20_000);
    let known = vec![KnownOutput {
        outpoint: funding.outpoint,
        content: OutputContent::Explicit(funding.held),
    }];
    let payload = CreateSwapPayload {
        inputs: vec![input(1, SYNTHETIC, 250_000_000), input(2, SYNTHETIC, 1_000)],
        amount: 250_000_000,
        fee: 500,
    };
    let draft = engine().handle_create_sell_swap(&service, 1000, &payload, &funding).unwrap();
    assert_eq!(
        extract_trade(&known, &desk_view(&draft)),
        Ok(Trade {
            sell: TradeSide { asset: BASE, amount: 12_497, resulting_balance: 7_503 },
            buy: TradeSide { asset: SYNTHETIC, amount: 250_000_000, resulting_balance: 250_000_000 },
        })
    );
}
