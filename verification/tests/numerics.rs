use gridbot::fixed::{FX_MAX, SCALE};
use gridbot::utils::{
    calc_diff, calc_new_psize_pprice, calc_pnl_long, calc_pnl_short, cost_to_qty, qty_to_cost,
    round_, round_dn, round_dynamic, round_dynamic_dn, round_dynamic_up, round_up,
};

/// Fixed-point encoding of a plain decimal value.
fn fx(x: f64) -> i64 {
    (x * 1e9).round() as i64
}

#[test]
fn test_round_() {
    assert_eq!(round_(fx(1.2345), fx(0.01)), fx(1.23));
    assert_eq!(round_(fx(1.2355), fx(0.01)), fx(1.24));
    assert_eq!(round_(fx(1.23), fx(0.05)), fx(1.25));
    assert_eq!(round_(fx(1.22), fx(0.05)), fx(1.20));
}

#[test]
fn test_round_up() {
    assert_eq!(round_up(fx(1.2345), fx(0.01)), fx(1.24));
    assert_eq!(round_up(fx(1.23), fx(0.01)), fx(1.23));
    assert_eq!(round_up(fx(1.23), fx(0.05)), fx(1.25));
    assert_eq!(round_up(fx(1.20), fx(0.05)), fx(1.20));
}

#[test]
fn test_round_dn() {
    assert_eq!(round_dn(fx(1.2345), fx(0.01)), fx(1.23));
    assert_eq!(round_dn(fx(1.2399), fx(0.01)), fx(1.23));
    assert_eq!(round_dn(fx(1.23), fx(0.01)), fx(1.23));
    assert_eq!(round_dn(fx(1.24), fx(0.05)), fx(1.20));
}

#[test]
fn test_calc_diff() {
    assert_eq!(calc_diff(fx(1.0), fx(1.0)), 0);
    assert_eq!(calc_diff(fx(1.1), fx(1.0)), fx(0.1));
    assert_eq!(calc_diff(fx(0.9), fx(1.0)), fx(0.1));
    assert_eq!(calc_diff(0, 0), 0);
    // a zero reference with a non-zero value yields the unbounded stand-in
    assert_eq!(calc_diff(fx(1.0), 0), FX_MAX);
}

#[test]
fn test_cost_to_qty() {
    // linear
    assert_eq!(cost_to_qty(fx(100.0), fx(50.0), false, fx(1.0)), fx(2.0));
    assert_eq!(cost_to_qty(fx(100.0), 0, false, fx(1.0)), 0);
    // inverse
    assert_eq!(cost_to_qty(fx(2.0), fx(50.0), true, fx(1.0)), fx(100.0));
    assert_eq!(cost_to_qty(fx(100.0), fx(50.0), true, fx(2.0)), fx(2500.0));
}

#[test]
fn test_qty_to_cost() {
    // linear
    assert_eq!(qty_to_cost(fx(2.0), fx(50.0), false, fx(1.0)), fx(100.0));
    assert_eq!(qty_to_cost(fx(-2.0), fx(50.0), false, fx(1.0)), fx(100.0));
    // inverse
    assert_eq!(qty_to_cost(fx(100.0), fx(50.0), true, fx(1.0)), fx(2.0));
    assert_eq!(qty_to_cost(fx(100.0), 0, true, fx(1.0)), 0);
    assert_eq!(qty_to_cost(fx(2500.0), fx(50.0), true, fx(2.0)), fx(100.0));
}

#[test]
fn test_calc_pnl_long() {
    // linear: 1.0 * 1.0 * (110 - 100) = 10, exact
    assert_eq!(calc_pnl_long(fx(100.0), fx(110.0), fx(1.0), false, fx(1.0)), fx(10.0));
    // inverse: 11000 * (1/100 - 1/110) = 10; the reciprocals truncate at the
    // ninth decimal, so the engine's exact value is 10.000001
    assert_eq!(calc_pnl_long(fx(100.0), fx(110.0), fx(11000.0), true, fx(1.0)), 10_000_001_000);
}

#[test]
fn test_calc_pnl_short() {
    // linear: 1.0 * 1.0 * (100 - 90) = 10, exact
    assert_eq!(calc_pnl_short(fx(100.0), fx(90.0), fx(1.0), false, fx(1.0)), fx(10.0));
    // inverse: 9000 * (1/90 - 1/100) = 10; truncation makes it 9.999999
    assert_eq!(calc_pnl_short(fx(100.0), fx(90.0), fx(9000.0), true, fx(1.0)), 9_999_999_000);
}

#[test]
fn test_calc_new_psize_pprice() {
    let (psize, pprice) = calc_new_psize_pprice(fx(1.0), fx(100.0), fx(1.0), fx(110.0), fx(0.01));
    assert_eq!(psize, fx(2.0));
    assert_eq!(pprice, fx(105.0));

    let (psize, pprice) = calc_new_psize_pprice(0, 0, fx(1.0), fx(110.0), fx(0.01));
    assert_eq!(psize, fx(1.0));
    assert_eq!(pprice, fx(110.0));

    let (psize, pprice) = calc_new_psize_pprice(fx(1.0), fx(100.0), fx(-1.0), fx(110.0), fx(0.01));
    assert_eq!(psize, 0);
    assert_eq!(pprice, 0);
}

#[test]
fn test_round_dynamic() {
    assert_eq!(round_dynamic(fx(1234.5678), 4), fx(1235.0));
    assert_eq!(round_dynamic(fx(0.0012345), 2), fx(0.0012));
    assert_eq!(round_dynamic(0, 3), 0);
}

#[test]
fn test_round_dynamic_up() {
    assert_eq!(round_dynamic_up(fx(0.0012345), 2), fx(0.0013));
    assert_eq!(round_dynamic_up(fx(1234.5678), 4), fx(1235.0));
}

#[test]
fn test_round_dynamic_dn() {
    assert_eq!(round_dynamic_dn(fx(1999.0), 2), fx(1900.0));
    assert_eq!(round_dynamic_dn(fx(0.0012345), 2), fx(0.0012));
}

#[test]
fn test_scale_constant() {
    assert_eq!(gridbot::fixed_point_scale(), SCALE);
    assert_eq!(fx(1.0), SCALE);
}
