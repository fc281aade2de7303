use gridbot::entries::{
    calc_cropped_reentry_qty, calc_entries_long, calc_initial_entry_qty, calc_min_entry_qty,
    calc_next_entry_long, calc_reentry_price_ask, calc_reentry_price_bid, calc_reentry_qty,
};
use gridbot::types::{
    BookLevel, BotSideConfig, EMABands, ExchangeParams, OrderBook, OrderType, Position,
    StateParams, TrailingPriceBundle,
};
use gridbot::utils::{calc_new_psize_pprice, calc_wallet_exposure, calc_wallet_exposure_if_filled};

/// Fixed-point encoding of a plain decimal value.
fn fx(x: f64) -> i64 {
    (x * 1e9).round() as i64
}

fn setup_test_params() -> (ExchangeParams, StateParams, BotSideConfig, Position, TrailingPriceBundle)
{
    let exchange_params = ExchangeParams {
        qty_step: fx(0.001),
        price_step: fx(0.01),
        min_qty: fx(0.001),
        min_cost: fx(1.0),
        c_mult: fx(1.0),
        inverse: false,
    };

    let state_params = StateParams {
        balance: fx(1000.0),
        order_book: OrderBook {
            bids: vec![BookLevel { price: fx(99.0), qty: fx(1.0) }],
            asks: vec![BookLevel { price: fx(101.0), qty: fx(1.0) }],
        },
        ema_bands: EMABands { upper: fx(105.0), lower: fx(95.0) },
    };

    let bot_params = BotSideConfig {
        total_wallet_exposure_limit: fx(10.0),
        entry_initial_ema_dist: fx(0.001),
        entry_initial_qty_pct: fx(0.01),
        entry_grid_spacing_pct: fx(0.01),
        entry_grid_spacing_weight: fx(1.0),
        entry_grid_double_down_factor: fx(2.0),
        entry_trailing_grid_ratio: 0,
        entry_trailing_threshold_pct: fx(0.005),
        entry_trailing_retracement_pct: fx(0.005),
        unstuck_threshold: fx(0.1),
        unstuck_ema_dist: fx(0.01),
        ..BotSideConfig::default()
    };

    let position = Position { size: fx(1.0), price: fx(100.0) };

    (exchange_params, state_params, bot_params, position, TrailingPriceBundle::default())
}

#[test]
fn test_calc_min_entry_qty() {
    let (exchange_params, _, _, _, _) = setup_test_params();
    let entry_price = fx(100.0);
    let min_qty = calc_min_entry_qty(entry_price, &exchange_params);
    assert_eq!(min_qty, fx(0.01));
}

#[test]
fn test_calc_initial_entry_qty() {
    let (exchange_params, state_params, bot_params, _, _) = setup_test_params();
    let entry_price = fx(100.0);
    let initial_qty = calc_initial_entry_qty(
        &exchange_params,
        &bot_params,
        state_params.balance,
        entry_price,
    );
    // balance * limit * initial pct = 1000 * 10 * 0.01 = 100 quote,
    // worth 1.0 at price 100
    assert_eq!(initial_qty, fx(1.0));
}

#[test]
fn test_calc_reentry_price_bid() {
    let (exchange_params, state_params, bot_params, position, _) = setup_test_params();
    let wallet_exposure = fx(5.0);
    let reentry_price = calc_reentry_price_bid(
        position.price,
        wallet_exposure,
        state_params.order_book.best_bid(),
        &exchange_params,
        &bot_params,
    );
    // multiplier 0.5, spacing 1.5%: 100 * 0.985 = 98.5, under the 99 bid
    assert_eq!(reentry_price, fx(98.5));
}

#[test]
fn test_calc_reentry_price_ask() {
    let (exchange_params, state_params, bot_params, position, _) = setup_test_params();
    let wallet_exposure = fx(5.0);
    let reentry_price = calc_reentry_price_ask(
        position.price,
        wallet_exposure,
        state_params.order_book.best_ask(),
        &exchange_params,
        &bot_params,
    );
    // multiplier 0.5, spacing 1.5%: 100 * 1.015 = 101.5, over the 101 ask
    assert_eq!(reentry_price, fx(101.5));
}

#[test]
fn test_calc_reentry_qty() {
    let (exchange_params, state_params, bot_params, position, _) = setup_test_params();
    let entry_price = fx(100.0);
    let reentry_qty = calc_reentry_qty(
        entry_price,
        state_params.balance,
        position.size,
        &exchange_params,
        &bot_params,
    );
    // double-down 1.0 * 2 = 2.0 beats the cost share 1.0
    assert_eq!(reentry_qty, fx(2.0));
}

#[test]
fn test_calc_cropped_reentry_qty_not_cropped() {
    let (exchange_params, state_params, bot_params, position, _) = setup_test_params();
    let wallet_exposure = fx(1.0);
    let balance = state_params.balance;
    let entry_qty = fx(2.0);
    let entry_price = fx(98.0);

    let (_, cropped_qty) = calc_cropped_reentry_qty(
        &exchange_params,
        &bot_params,
        &position,
        wallet_exposure,
        balance,
        entry_qty,
        entry_price,
    );

    assert_eq!(cropped_qty, fx(2.0));
}

#[test]
fn test_calc_cropped_reentry_qty_is_cropped() {
    let (exchange_params, state_params, bot_params, position, _) = setup_test_params();
    let wallet_exposure = calc_wallet_exposure(
        exchange_params.c_mult,
        state_params.balance,
        position.size,
        position.price,
        exchange_params.inverse,
    );
    let balance = state_params.balance;
    let entry_qty = fx(120.0);
    let entry_price = fx(90.0);
    // the projected exposure (about 10.9) exceeds 10 * 1.01

    let (wallet_exposure_if_filled, cropped_qty) = calc_cropped_reentry_qty(
        &exchange_params,
        &bot_params,
        &position,
        wallet_exposure,
        balance,
        entry_qty,
        entry_price,
    );

    assert!(wallet_exposure_if_filled > fx(10.0 * 1.01));
    // interpolation back to the limit yields 110.0
    assert_eq!(cropped_qty, fx(110.0));
}

#[test]
fn initial_entry_from_flat_long() {
    let (exchange_params, state_params, bot_params, _, trailing) = setup_test_params();
    let flat = Position { size: 0, price: 0 };
    let entry = calc_next_entry_long(
        &exchange_params,
        &state_params,
        &bot_params,
        &flat,
        &trailing,
    );
    // price min(99, round_dn(95 * 0.999, 0.01)) = 94.90;
    // qty max(min entry 0.011, round(100 / 94.90, 0.001)) = 1.054
    assert_eq!(entry.price, fx(94.90));
    assert_eq!(entry.qty, fx(1.054));
    assert!(matches!(entry.order_type, OrderType::EntryInitialNormalLong));
}

#[test]
fn grid_reentry_at_partial_exposure_long() {
    let (exchange_params, state_params, bot_params, position, trailing) = setup_test_params();
    let entry = calc_next_entry_long(
        &exchange_params,
        &state_params,
        &bot_params,
        &position,
        &trailing,
    );
    // exposure 0.1 of limit 10: multiplier 0.01, spacing 1.01%:
    // round_dn(100 * 0.98990, 0.01) = 98.99, under the 99 bid;
    // qty max(1.0 * 2, cost share) = 2.0
    assert_eq!(entry.price, fx(98.99));
    assert_eq!(entry.qty, fx(2.0));
    assert!(matches!(entry.order_type, OrderType::EntryGridNormalLong));
}

#[test]
fn cropped_reentry_keeps_exposure_under_cap() {
    let (exchange_params, state_params, bot_params, position, _) = setup_test_params();
    // force a crop: a 120-size order at 90 would push exposure to ~10.9
    let wallet_exposure = calc_wallet_exposure(
        exchange_params.c_mult,
        state_params.balance,
        position.size,
        position.price,
        exchange_params.inverse,
    );
    let (_, cropped) = calc_cropped_reentry_qty(
        &exchange_params,
        &bot_params,
        &position,
        wallet_exposure,
        state_params.balance,
        fx(120.0),
        fx(90.0),
    );
    let we_after = calc_wallet_exposure_if_filled(
        state_params.balance,
        position.size,
        position.price,
        cropped,
        fx(90.0),
        exchange_params.inverse,
        &exchange_params,
    );
    // per-order wallet-exposure invariant: the cropped fill stays within
    // 1.01 of the configured limit
    assert!(we_after <= fx(10.0 * 1.01));
    assert!(cropped < fx(120.0));
}

#[test]
fn unrolled_entries_walk_prices_down_and_cap_exposure() {
    let (exchange_params, state_params, bot_params, position, trailing) = setup_test_params();
    let entries = calc_entries_long(
        &exchange_params,
        &state_params,
        &bot_params,
        &position,
        &trailing,
    );
    assert!(!entries.is_empty());
    for w in entries.windows(2) {
        assert!(w[1].price < w[0].price);
    }
    // feeding each order through the position update keeps cumulative
    // exposure at or below 1.01 of the limit
    let mut psize = position.size;
    let mut pprice = position.price;
    for o in &entries {
        let np = calc_new_psize_pprice(psize, pprice, o.qty, o.price, exchange_params.qty_step);
        psize = np.0;
        pprice = np.1;
        let we = calc_wallet_exposure(
            exchange_params.c_mult,
            state_params.balance,
            psize,
            pprice,
            exchange_params.inverse,
        );
        assert!(we <= fx(10.0 * 1.01));
    }
}

#[test]
fn unrolled_short_entries_walk_prices_up() {
    let (exchange_params, state_params, bot_params, _, trailing) = setup_test_params();
    let short_pos = Position { size: -fx(1.0), price: fx(100.0) };
    let entries = gridbot::entries::calc_entries_short(
        &exchange_params,
        &state_params,
        &bot_params,
        &short_pos,
        &trailing,
    );
    assert!(!entries.is_empty());
    for o in &entries {
        assert!(o.qty < 0);
    }
    for w in entries.windows(2) {
        assert!(w[1].price > w[0].price);
    }
}

#[test]
fn entries_are_pure_functions_of_their_inputs() {
    let (exchange_params, state_params, bot_params, position, trailing) = setup_test_params();
    let a = calc_entries_long(&exchange_params, &state_params, &bot_params, &position, &trailing);
    let b = calc_entries_long(&exchange_params, &state_params, &bot_params, &position, &trailing);
    assert_eq!(a, b);
}
