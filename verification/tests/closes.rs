use gridbot::closes::{calc_closes_long, calc_closes_short};
use gridbot::types::{
    BookLevel, BotSideConfig, EMABands, ExchangeParams, OrderBook, OrderType, Position,
    StateParams, TrailingPriceBundle,
};

/// Fixed-point encoding of a plain decimal value.
fn fx(x: f64) -> i64 {
    (x * 1e9).round() as i64
}

fn setup_test_params() -> (ExchangeParams, StateParams, BotSideConfig, Position) {
    let exchange_params = ExchangeParams {
        qty_step: fx(0.001),
        price_step: fx(0.01),
        min_qty: fx(0.001),
        min_cost: fx(1.0),
        c_mult: fx(1.0),
        inverse: false,
    };

    let state_params = StateParams {
        balance: fx(1000.0),
        order_book: OrderBook {
            bids: vec![BookLevel { price: fx(99.0), qty: fx(1.0) }],
            asks: vec![BookLevel { price: fx(101.0), qty: fx(1.0) }],
        },
        ema_bands: EMABands { upper: fx(105.0), lower: fx(95.0) },
    };

    let bot_params = BotSideConfig {
        backwards_tp: false,
        total_wallet_exposure_limit: fx(10.0),
        close_grid_min_markup: fx(0.01),
        close_grid_markup_range: fx(0.02),
        n_close_orders: fx(5.0),
        unstuck_threshold: fx(0.1),
        unstuck_ema_dist: fx(0.01),
        ..BotSideConfig::default()
    };

    let position = Position { size: fx(1.0), price: fx(100.0) };

    (exchange_params, state_params, bot_params, position)
}

#[test]
fn test_calc_closes_long_frontwards() {
    let (exchange_params, state_params, mut bot_params, position) = setup_test_params();
    bot_params.backwards_tp = false;

    let trailing_bundle = TrailingPriceBundle::default();

    let closes = calc_closes_long(
        &exchange_params,
        &state_params,
        &bot_params,
        &position,
        &trailing_bundle,
    );

    assert!(!closes.is_empty());
    assert_eq!(closes.len(), 5);

    let total_qty: i64 = closes.iter().map(|o| o.qty.abs()).sum();
    assert!((total_qty - position.size).abs() < exchange_params.qty_step);

    for i in 0..closes.len() - 1 {
        assert!(closes[i].price < closes[i + 1].price);
    }
}

#[test]
fn test_calc_closes_long_backwards() {
    let (exchange_params, state_params, mut bot_params, position) = setup_test_params();
    bot_params.backwards_tp = true;

    let trailing_bundle = TrailingPriceBundle::default();

    let closes = calc_closes_long(
        &exchange_params,
        &state_params,
        &bot_params,
        &position,
        &trailing_bundle,
    );

    assert!(!closes.is_empty());
    assert_eq!(closes.len(), 1);

    let total_qty: i64 = closes.iter().map(|o| o.qty.abs()).sum();
    assert!((total_qty - position.size).abs() < exchange_params.qty_step);
}

#[test]
fn frontwards_long_close_grid_levels() {
    let (exchange_params, state_params, bot_params, position) = setup_test_params();
    let trailing_bundle = TrailingPriceBundle::default();
    let closes = calc_closes_long(
        &exchange_params,
        &state_params,
        &bot_params,
        &position,
        &trailing_bundle,
    );
    // five levels 101.00 .. 103.00 spaced by 0.5, each closing 0.2
    assert_eq!(closes.len(), 5);
    let expected_prices = [fx(101.0), fx(101.5), fx(102.0), fx(102.5), fx(103.0)];
    let mut total: i64 = 0;
    for (o, want) in closes.iter().zip(expected_prices.iter()) {
        assert_eq!(o.price, *want);
        assert_eq!(o.qty, -fx(0.2));
        assert!(matches!(o.order_type, OrderType::CloseNormalLong));
        total += o.qty.abs();
    }
    assert_eq!(total, position.size);
}

#[test]
fn backwards_long_close_collapses_to_farthest_level() {
    let (exchange_params, state_params, mut bot_params, position) = setup_test_params();
    bot_params.backwards_tp = true;
    let trailing_bundle = TrailingPriceBundle::default();
    let closes = calc_closes_long(
        &exchange_params,
        &state_params,
        &bot_params,
        &position,
        &trailing_bundle,
    );
    // the per-level capacity (20.0) dominates the 1.0 position, so the
    // whole size sits at the farthest level
    assert_eq!(closes.len(), 1);
    assert_eq!(closes[0].price, fx(103.0));
    assert_eq!(closes[0].qty, -fx(1.0));
}

#[test]
fn trailing_long_close_triggers_on_retracement() {
    let (exchange_params, state_params, mut bot_params, position) = setup_test_params();
    bot_params.close_trailing_threshold_pct = fx(0.01);
    bot_params.close_trailing_retracement_pct = fx(0.01);
    bot_params.close_trailing_qty_pct = fx(0.5);
    let mut sp = state_params;
    sp.order_book.bids[0].price = fx(100.5);
    let trailing_bundle = TrailingPriceBundle {
        max_since_open: fx(102.0),
        ..TrailingPriceBundle::default()
    };
    let closes = calc_closes_long(&exchange_params, &sp, &bot_params, &position, &trailing_bundle);
    // 102 > 101 and 100.5 < 102 * 0.99 = 100.98: half the position closes
    // at the best bid
    assert_eq!(closes.len(), 1);
    assert_eq!(closes[0].qty, -fx(0.5));
    assert_eq!(closes[0].price, fx(100.5));
    assert!(matches!(closes[0].order_type, OrderType::CloseTrailingLong));
}

#[test]
fn frontwards_short_close_grid_levels() {
    let (exchange_params, state_params, bot_params, _) = setup_test_params();
    let trailing_bundle = TrailingPriceBundle::default();
    let short_pos = Position { size: -fx(1.0), price: fx(100.0) };
    let closes = calc_closes_short(
        &exchange_params,
        &state_params,
        &bot_params,
        &short_pos,
        &trailing_bundle,
    );
    // five levels 99.00 .. 97.00 walked downward, each closing 0.2
    assert_eq!(closes.len(), 5);
    let expected_prices = [fx(99.0), fx(98.5), fx(98.0), fx(97.5), fx(97.0)];
    let mut total: i64 = 0;
    for (o, want) in closes.iter().zip(expected_prices.iter()) {
        assert_eq!(o.price, *want);
        assert_eq!(o.qty, fx(0.2));
        assert!(matches!(o.order_type, OrderType::CloseNormalShort));
        total += o.qty.abs();
    }
    assert_eq!(total, fx(1.0));
}

#[test]
fn dust_position_yields_no_close() {
    let (exchange_params, state_params, bot_params, _) = setup_test_params();
    let trailing_bundle = TrailingPriceBundle::default();
    let dust = Position { size: fx(0.0004), price: fx(100.0) };
    let closes = calc_closes_long(
        &exchange_params,
        &state_params,
        &bot_params,
        &dust,
        &trailing_bundle,
    );
    // below one quantity step the grid emits nothing
    assert!(closes.is_empty());
}

#[test]
fn closes_are_pure_functions_of_their_inputs() {
    let (exchange_params, state_params, bot_params, position) = setup_test_params();
    let trailing_bundle = TrailingPriceBundle::default();
    let a = calc_closes_long(&exchange_params, &state_params, &bot_params, &position, &trailing_bundle);
    let b = calc_closes_long(&exchange_params, &state_params, &bot_params, &position, &trailing_bundle);
    assert_eq!(a, b);
}
