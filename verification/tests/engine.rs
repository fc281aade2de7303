use gridbot::fixed::FX_MAX;
use gridbot::solvers::{
    find_close_qty_long_bringing_wallet_exposure_to_target,
    find_entry_qty_bringing_wallet_exposure_to_target,
};
use gridbot::types::{ExchangeParams, OrderType, TrailingPriceBundle};

/// Fixed-point encoding of a plain decimal value.
fn fx(x: f64) -> i64 {
    (x * 1e9).round() as i64
}

fn exchange() -> ExchangeParams {
    ExchangeParams {
        qty_step: fx(0.001),
        price_step: fx(0.01),
        min_qty: fx(0.001),
        min_cost: fx(1.0),
        c_mult: fx(1.0),
        inverse: false,
    }
}

#[test]
fn trailing_extrema_follow_the_stream() {
    let mut t = TrailingPriceBundle::default();
    assert_eq!(t.min_since_open, FX_MAX);
    assert_eq!(t.max_since_open, 0);
    for p in [fx(100.0), fx(95.0), fx(105.0), fx(97.0)] {
        t = t.update(p);
    }
    assert_eq!(t.min_since_open, fx(95.0));
    assert_eq!(t.max_since_open, fx(105.0));
    assert_eq!(t.max_since_min, fx(105.0));
    assert_eq!(t.min_since_max, fx(95.0));
}

#[test]
fn order_type_labels_round_trip() {
    let tags = [
        OrderType::EntryInitialNormalLong,
        OrderType::EntryGridCroppedLong,
        OrderType::EntryUnstuckShort,
        OrderType::CloseNormalLong,
        OrderType::CloseNormalShort,
        OrderType::CloseUnstuckLong,
        OrderType::CloseTrailingShort,
    ];
    for t in tags {
        let label = t.label();
        assert_eq!(OrderType::from_str(label.as_str()), Some(t));
    }
    assert_eq!(OrderType::from_str("long_nclose"), Some(OrderType::CloseNormalLong));
    assert_eq!(OrderType::from_str("unstuck_close_short"), Some(OrderType::CloseUnstuckShort));
    assert_eq!(OrderType::from_str("unknown_tag"), None);
    // the empty sentinel has no parseable label of its own
    assert_eq!(OrderType::from_str("empty"), None);
}

#[test]
fn entry_solver_returns_zero_at_saturated_exposure() {
    let ep = exchange();
    // position cost 10000 on a 1000 balance: exposure 10 is already at the
    // target, so no entry quantity is proposed
    let q = find_entry_qty_bringing_wallet_exposure_to_target(
        fx(1000.0),
        fx(100.0),
        fx(100.0),
        fx(10.0),
        fx(99.0),
        false,
        &ep,
    );
    assert_eq!(q, 0);
    // a zero target also proposes nothing
    let q0 = find_entry_qty_bringing_wallet_exposure_to_target(
        fx(1000.0),
        fx(1.0),
        fx(100.0),
        0,
        fx(99.0),
        false,
        &ep,
    );
    assert_eq!(q0, 0);
}

#[test]
fn entry_solver_converges_toward_target_exposure() {
    let ep = exchange();
    // from a 1.0 position at 100 on a 1000 balance, find the quantity that
    // brings exposure to 1.0 when filled at 99
    let q = find_entry_qty_bringing_wallet_exposure_to_target(
        fx(1000.0),
        fx(1.0),
        fx(100.0),
        fx(1.0),
        fx(99.0),
        false,
        &ep,
    );
    assert!(q > 0);
    let we = gridbot::utils::calc_wallet_exposure_if_filled(
        fx(1000.0),
        fx(1.0),
        fx(100.0),
        q,
        fx(99.0),
        false,
        &ep,
    );
    // the solver stops within one percent of the target
    assert!((we - fx(1.0)).abs() <= fx(0.01));
}

#[test]
fn close_solver_full_close_at_zero_target() {
    let ep = exchange();
    let q = find_close_qty_long_bringing_wallet_exposure_to_target(
        fx(1000.0),
        fx(2.0),
        fx(100.0),
        0,
        fx(101.0),
        false,
        &ep,
    );
    assert_eq!(q, fx(2.0));
    // exposure already below the target: nothing to close
    let q0 = find_close_qty_long_bringing_wallet_exposure_to_target(
        fx(1000.0),
        fx(2.0),
        fx(100.0),
        fx(5.0),
        fx(101.0),
        false,
        &ep,
    );
    assert_eq!(q0, 0);
}

#[test]
fn close_solver_derisks_toward_target() {
    let ep = exchange();
    // a 50-size position at 100 on a 1000 balance carries exposure 5;
    // closing toward exposure 2 at price 101 leaves roughly 3/5 to sell
    let q = find_close_qty_long_bringing_wallet_exposure_to_target(
        fx(1000.0),
        fx(50.0),
        fx(100.0),
        fx(2.0),
        fx(101.0),
        false,
        &ep,
    );
    assert!(q > 0 && q < fx(50.0));
    let pnl = gridbot::utils::calc_pnl_long(fx(100.0), fx(101.0), q, false, fx(1.0));
    let new_balance = fx(1000.0) + pnl;
    let remaining_cost = gridbot::utils::qty_to_cost(fx(50.0) - q, fx(100.0), false, fx(1.0));
    let we = ((remaining_cost as i128) * 1_000_000_000i128 / (new_balance as i128)) as i64;
    assert!((we - fx(2.0)).abs() <= fx(0.02));
}
