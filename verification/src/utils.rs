//! Numerics of the engine: step rounding, cost/quantity conversion, PnL,
//! wallet exposure, interpolation, and the small derived quantities.
//!
//! Every executable function has a spec-level model (`s_*`) built from the
//! saturating fixed-point operations of [`crate::fixed`], and its contract
//! states that it returns exactly the model's value.

use vstd::prelude::*;
use crate::fixed::{
    fx_ok, fx_abs, fx_add, fx_div, fx_max, fx_min, fx_mul, fx_round_dn, fx_round_nr, fx_round_up,
    fx_sub, s_abs, s_add, s_div, s_max, s_min, s_mul, s_round_dn, s_round_nr, s_round_up, s_sub,
    s_clamp, FX_MAX, SCALE,
};
use crate::types::{ExchangeParams, exchange_params_wf, LONG, SHORT};

verus! {

/// Saturate into the fixed-point range; used where a rounded value feeds a
/// stored engine quantity.
pub fn fx_cap(v: i64) -> (r: i64)
    ensures
        r == s_clamp(v as int),
        fx_ok(r),
{
    if v > FX_MAX {
        FX_MAX
    } else if v < -FX_MAX {
        -FX_MAX
    } else {
        v
    }
}

/// Rounds `n` up to the nearest multiple of `step`.
pub fn round_up(n: i64, step: i64) -> (r: i64)
    requires
        fx_ok(n),
        0 < step <= FX_MAX,
    ensures
        r == s_round_up(n as int, step as int),
        -FX_MAX <= r <= FX_MAX + step,
{
    fx_round_up(n, step)
}

/// Rounds `n` to the nearest multiple of `step`, ties away from zero.
pub fn round_(n: i64, step: i64) -> (r: i64)
    requires
        fx_ok(n),
        0 < step <= FX_MAX,
    ensures
        r == s_round_nr(n as int, step as int),
        -FX_MAX - step <= r <= FX_MAX + step,
{
    fx_round_nr(n, step)
}

/// Rounds `n` down to the nearest multiple of `step`.
pub fn round_dn(n: i64, step: i64) -> (r: i64)
    requires
        fx_ok(n),
        0 < step <= FX_MAX,
    ensures
        r == s_round_dn(n as int, step as int),
        -FX_MAX - step <= r <= FX_MAX,
{
    fx_round_dn(n, step)
}

/// Number of decimal digits of a non-negative `i64`-ranged integer (one
/// for zero).
pub open spec fn s_digits10(v: int) -> int {
    if v < 10 {
        1
    } else if v < 100 {
        2
    } else if v < 1000 {
        3
    } else if v < 10000 {
        4
    } else if v < 100000 {
        5
    } else if v < 1000000 {
        6
    } else if v < 10000000 {
        7
    } else if v < 100000000 {
        8
    } else if v < 1000000000 {
        9
    } else if v < 10000000000 {
        10
    } else if v < 100000000000 {
        11
    } else if v < 1000000000000 {
        12
    } else if v < 10000000000000 {
        13
    } else if v < 100000000000000 {
        14
    } else if v < 1000000000000000 {
        15
    } else if v < 10000000000000000 {
        16
    } else if v < 100000000000000000 {
        17
    } else if v < 1000000000000000000 {
        18
    } else if v < 10000000000000000000 {
        19
    } else {
        19
    }
}

/// Ten to a power between zero and eighteen (saturating above).
pub open spec fn s_pow10(e: int) -> int {
    if e <= 0 {
        1
    } else if e == 1 {
        10
    } else if e == 2 {
        100
    } else if e == 3 {
        1000
    } else if e == 4 {
        10000
    } else if e == 5 {
        100000
    } else if e == 6 {
        1000000
    } else if e == 7 {
        10000000
    } else if e == 8 {
        100000000
    } else if e == 9 {
        1000000000
    } else if e == 10 {
        10000000000
    } else if e == 11 {
        100000000000
    } else if e == 12 {
        1000000000000
    } else if e == 13 {
        10000000000000
    } else if e == 14 {
        100000000000000
    } else if e == 15 {
        1000000000000000
    } else if e == 16 {
        10000000000000000
    } else if e == 17 {
        100000000000000000
    } else {
        1000000000000000000
    }
}

/// The decimal grid on which a value rounded to `d` significant digits
/// lies: coarser than one fixed-point unit only when the value has more
/// than `d` digits.
pub open spec fn s_sig_step(n: int, d: int) -> int {
    s_pow10(s_digits10(s_abs(n)) - d)
}

/// `n` rounded to `d` significant digits of its carried decimal value,
/// ties away from zero; zero stays zero.
pub open spec fn s_round_dynamic(n: int, d: int) -> int {
    if n == 0 {
        0
    } else {
        s_round_nr(n, s_sig_step(n, d))
    }
}

/// `n` rounded up to `d` significant digits; zero stays zero.
pub open spec fn s_round_dynamic_up(n: int, d: int) -> int {
    if n == 0 {
        0
    } else {
        s_round_up(n, s_sig_step(n, d))
    }
}

/// `n` rounded down to `d` significant digits; zero stays zero.
pub open spec fn s_round_dynamic_dn(n: int, d: int) -> int {
    if n == 0 {
        0
    } else {
        s_round_dn(n, s_sig_step(n, d))
    }
}

/// Number of decimal digits, executable side.
fn digits10(m: i64) -> (r: i64)
    requires
        m >= 0,
    ensures
        r as int == s_digits10(m as int),
        1 <= r <= 19,
{
    if m < 10 {
        1
    } else if m < 100 {
        2
    } else if m < 1000 {
        3
    } else if m < 10000 {
        4
    } else if m < 100000 {
        5
    } else if m < 1000000 {
        6
    } else if m < 10000000 {
        7
    } else if m < 100000000 {
        8
    } else if m < 1000000000 {
        9
    } else if m < 10000000000 {
        10
    } else if m < 100000000000 {
        11
    } else if m < 1000000000000 {
        12
    } else if m < 10000000000000 {
        13
    } else if m < 100000000000000 {
        14
    } else if m < 1000000000000000 {
        15
    } else if m < 10000000000000000 {
        16
    } else if m < 100000000000000000 {
        17
    } else if m < 1000000000000000000 {
        18
    } else {
        19
    }
}

/// Ten to a power, executable side.
fn pow10(e: i64) -> (r: i64)
    requires
        e <= 18,
    ensures
        r as int == s_pow10(e as int),
        1 <= r <= 1000000000000000000,
{
    if e <= 0 {
        1
    } else if e == 1 {
        10
    } else if e == 2 {
        100
    } else if e == 3 {
        1000
    } else if e == 4 {
        10000
    } else if e == 5 {
        100000
    } else if e == 6 {
        1000000
    } else if e == 7 {
        10000000
    } else if e == 8 {
        100000000
    } else if e == 9 {
        1000000000
    } else if e == 10 {
        10000000000
    } else if e == 11 {
        100000000000
    } else if e == 12 {
        1000000000000
    } else if e == 13 {
        10000000000000
    } else if e == 14 {
        100000000000000
    } else if e == 15 {
        1000000000000000
    } else if e == 16 {
        10000000000000000
    } else if e == 17 {
        100000000000000000
    } else {
        1000000000000000000
    }
}

/// Rounds `n` to `d` significant decimal digits (of the carried real
/// value), ties away from zero.
pub fn round_dynamic(n: i64, d: i64) -> (r: i64)
    requires
        fx_ok(n),
        1 <= d,
    ensures
        r as int == s_round_dynamic(n as int, d as int),
{
    if n == 0 {
        return 0;
    }
    let step: i64 = pow10(digits10(fx_abs(n)) - d);
    fx_round_nr(n, step)
}

/// Rounds `n` up to `d` significant decimal digits.
pub fn round_dynamic_up(n: i64, d: i64) -> (r: i64)
    requires
        fx_ok(n),
        1 <= d,
    ensures
        r as int == s_round_dynamic_up(n as int, d as int),
{
    if n == 0 {
        return 0;
    }
    let step: i64 = pow10(digits10(fx_abs(n)) - d);
    fx_round_up(n, step)
}

/// Rounds `n` down to `d` significant decimal digits.
pub fn round_dynamic_dn(n: i64, d: i64) -> (r: i64)
    requires
        fx_ok(n),
        1 <= d,
    ensures
        r as int == s_round_dynamic_dn(n as int, d as int),
{
    if n == 0 {
        return 0;
    }
    let step: i64 = pow10(digits10(fx_abs(n)) - d);
    fx_round_dn(n, step)
}

/// Relative difference `|x - y| / |y|`; zero when both are zero, the
/// unbounded stand-in `FX_MAX` when only `y` is.
pub open spec fn s_calc_diff(x: int, y: int) -> int {
    if y == 0 {
        if x == 0 {
            0
        } else {
            FX_MAX as int
        }
    } else {
        s_div(s_abs(s_sub(x, y)), s_abs(y))
    }
}

pub fn calc_diff(x: i64, y: i64) -> (r: i64)
    requires
        fx_ok(x),
        fx_ok(y),
    ensures
        r == s_calc_diff(x as int, y as int),
        fx_ok(r),
{
    if y == 0 {
        if x == 0 {
            0
        } else {
            FX_MAX
        }
    } else {
        fx_div(fx_abs(fx_sub(x, y)), fx_abs(y))
    }
}

/// Quantity bought by `cost` at `price`: `cost / (price * c_mult)` on linear
/// markets (zero at price zero), `cost * price / c_mult` on inverse markets.
pub open spec fn s_cost_to_qty(cost: int, price: int, inverse: bool, c_mult: int) -> int {
    if inverse {
        s_div(s_mul(cost, price), c_mult)
    } else if price > 0 {
        s_div(s_div(cost, price), c_mult)
    } else {
        0
    }
}

pub fn cost_to_qty(cost: i64, price: i64, inverse: bool, c_mult: i64) -> (r: i64)
    ensures
        r == s_cost_to_qty(cost as int, price as int, inverse, c_mult as int),
        fx_ok(r),
{
    if inverse {
        fx_div(fx_mul(cost, price), c_mult)
    } else if price > 0 {
        fx_div(fx_div(cost, price), c_mult)
    } else {
        0
    }
}

/// Notional cost of `qty` at `price`: `|qty| * price * c_mult` on linear
/// markets, `|qty| / price * c_mult` on inverse markets (zero at price zero).
pub open spec fn s_qty_to_cost(qty: int, price: int, inverse: bool, c_mult: int) -> int {
    if inverse {
        if price > 0 {
            s_mul(s_div(s_abs(qty), price), c_mult)
        } else {
            0
        }
    } else {
        s_mul(s_mul(s_abs(qty), price), c_mult)
    }
}

pub fn qty_to_cost(qty: i64, price: i64, inverse: bool, c_mult: i64) -> (r: i64)
    requires
        fx_ok(qty),
    ensures
        r == s_qty_to_cost(qty as int, price as int, inverse, c_mult as int),
        fx_ok(r),
{
    if inverse {
        if price > 0 {
            fx_mul(fx_div(fx_abs(qty), price), c_mult)
        } else {
            0
        }
    } else {
        fx_mul(fx_mul(fx_abs(qty), price), c_mult)
    }
}

/// Wallet exposure: position cost over balance; zero for an empty position
/// or a non-positive balance.
pub open spec fn s_wallet_exposure(
    c_mult: int,
    balance: int,
    psize: int,
    pprice: int,
    inverse: bool,
) -> int {
    if balance <= 0 || psize == 0 {
        0
    } else {
        s_div(s_qty_to_cost(psize, pprice, inverse, c_mult), balance)
    }
}

pub fn calc_wallet_exposure(
    c_mult: i64,
    balance: i64,
    position_size: i64,
    position_price: i64,
    inverse: bool,
) -> (r: i64)
    requires
        fx_ok(position_size),
    ensures
        r == s_wallet_exposure(
            c_mult as int,
            balance as int,
            position_size as int,
            position_price as int,
            inverse,
        ),
        fx_ok(r),
{
    if balance <= 0 || position_size == 0 {
        0
    } else {
        fx_div(qty_to_cost(position_size, position_price, inverse, c_mult), balance)
    }
}

/// New position size and weighted-average price after a fill of `qty` at
/// `price`. The size is rounded to `qty_step` and saturated; a fill that
/// zeroes the position clears the price.
pub open spec fn s_new_psize_pprice(
    psize: int,
    pprice: int,
    qty: int,
    price: int,
    qty_step: int,
) -> (int, int) {
    if qty == 0 {
        (psize, pprice)
    } else if psize == 0 {
        (qty, price)
    } else {
        let new_psize = s_clamp(s_round_nr(s_add(psize, qty), qty_step));
        if new_psize == 0 {
            (0, 0)
        } else {
            (
                new_psize,
                s_add(s_mul(pprice, s_div(psize, new_psize)), s_mul(price, s_div(qty, new_psize))),
            )
        }
    }
}

pub fn calc_new_psize_pprice(psize: i64, pprice: i64, qty: i64, price: i64, qty_step: i64) -> (r: (
    i64,
    i64,
))
    requires
        fx_ok(psize),
        fx_ok(pprice),
        fx_ok(qty),
        fx_ok(price),
        0 < qty_step <= FX_MAX,
    ensures
        (r.0 as int, r.1 as int) == s_new_psize_pprice(
            psize as int,
            pprice as int,
            qty as int,
            price as int,
            qty_step as int,
        ),
        fx_ok(r.0),
        fx_ok(r.1),
{
    if qty == 0 {
        return (psize, pprice);
    }
    if psize == 0 {
        return (qty, price);
    }
    let new_psize: i64 = fx_cap(fx_round_nr(fx_add(psize, qty), qty_step));
    if new_psize == 0 {
        return (0, 0);
    }
    (
        new_psize,
        fx_add(fx_mul(pprice, fx_div(psize, new_psize)), fx_mul(price, fx_div(qty, new_psize))),
    )
}

/// Wallet exposure after a hypothetical fill: absolute size and quantity are
/// rounded to `qty_step`, merged by weighted average, then priced.
pub open spec fn s_wallet_exposure_if_filled(
    balance: int,
    psize: int,
    pprice: int,
    qty: int,
    price: int,
    inverse: bool,
    ep: ExchangeParams,
) -> int {
    let psize_r = s_clamp(s_round_nr(s_abs(psize), ep.qty_step as int));
    let qty_r = s_clamp(s_round_nr(s_abs(qty), ep.qty_step as int));
    let np = s_new_psize_pprice(psize_r, pprice, qty_r, price, ep.qty_step as int);
    s_wallet_exposure(ep.c_mult as int, balance, np.0, np.1, inverse)
}

pub fn calc_wallet_exposure_if_filled(
    balance: i64,
    psize: i64,
    pprice: i64,
    qty: i64,
    price: i64,
    inverse: bool,
    exchange_params: &ExchangeParams,
) -> (r: i64)
    requires
        fx_ok(psize),
        fx_ok(pprice),
        fx_ok(qty),
        fx_ok(price),
        exchange_params_wf(*exchange_params),
    ensures
        r == s_wallet_exposure_if_filled(
            balance as int,
            psize as int,
            pprice as int,
            qty as int,
            price as int,
            inverse,
            *exchange_params,
        ),
        fx_ok(r),
{
    let psize_r: i64 = fx_cap(fx_round_nr(fx_abs(psize), exchange_params.qty_step));
    let qty_r: i64 = fx_cap(fx_round_nr(fx_abs(qty), exchange_params.qty_step));
    proof {
        crate::fixed::lemma_round_nr_props(s_abs(psize as int), exchange_params.qty_step as int);
        crate::fixed::lemma_round_nr_props(s_abs(qty as int), exchange_params.qty_step as int);
    }
    let np = calc_new_psize_pprice(psize_r, pprice, qty_r, price, exchange_params.qty_step);
    calc_wallet_exposure(exchange_params.c_mult, balance, np.0, np.1, inverse)
}

/// Two-point Lagrange interpolation of `y` at `x`, evaluated ratio-first:
/// `y0 * ((x - x1) / (x0 - x1)) + y1 * ((x - x0) / (x1 - x0))`.
pub open spec fn s_interp_two(x: int, x0: int, x1: int, y0: int, y1: int) -> int {
    s_add(
        s_mul(y0, s_div(s_sub(x, x1), s_sub(x0, x1))),
        s_mul(y1, s_div(s_sub(x, x0), s_sub(x1, x0))),
    )
}

/// Two-point interpolation on scalar arguments.
pub fn interp_two(x: i64, x0: i64, x1: i64, y0: i64, y1: i64) -> (r: i64)
    ensures
        r == s_interp_two(x as int, x0 as int, x1 as int, y0 as int, y1 as int),
        fx_ok(r),
{
    fx_add(
        fx_mul(y0, fx_div(fx_sub(x, x1), fx_sub(x0, x1))),
        fx_mul(y1, fx_div(fx_sub(x, x0), fx_sub(x1, x0))),
    )
}

/// Lagrange interpolation over exactly two sample points.
pub fn interpolate(x: i64, xs: &Vec<i64>, ys: &Vec<i64>) -> (r: i64)
    requires
        xs@.len() == 2,
        ys@.len() == 2,
    ensures
        r == s_interp_two(
            x as int,
            xs@[0] as int,
            xs@[1] as int,
            ys@[0] as int,
            ys@[1] as int,
        ),
        fx_ok(r),
{
    interp_two(x, xs[0], xs[1], ys[0], ys[1])
}

/// PnL of closing `|qty|` of a long at `close_price` entered at
/// `entry_price`: `|qty| * c_mult * (close - entry)` on linear markets,
/// `|qty| * c_mult * (1/entry - 1/close)` on inverse markets (zero when a
/// price is zero).
pub open spec fn s_pnl_long(
    entry_price: int,
    close_price: int,
    qty: int,
    inverse: bool,
    c_mult: int,
) -> int {
    if inverse {
        if entry_price == 0 || close_price == 0 {
            0
        } else {
            s_mul(
                s_mul(s_abs(qty), c_mult),
                s_sub(s_div(SCALE as int, entry_price), s_div(SCALE as int, close_price)),
            )
        }
    } else {
        s_mul(s_mul(s_abs(qty), c_mult), s_sub(close_price, entry_price))
    }
}

pub fn calc_pnl_long(entry_price: i64, close_price: i64, qty: i64, inverse: bool, c_mult: i64) -> (r: i64)
    requires
        fx_ok(qty),
    ensures
        r == s_pnl_long(entry_price as int, close_price as int, qty as int, inverse, c_mult as int),
        fx_ok(r),
{
    if inverse {
        if entry_price == 0 || close_price == 0 {
            0
        } else {
            fx_mul(
                fx_mul(fx_abs(qty), c_mult),
                fx_sub(fx_div(SCALE, entry_price), fx_div(SCALE, close_price)),
            )
        }
    } else {
        fx_mul(fx_mul(fx_abs(qty), c_mult), fx_sub(close_price, entry_price))
    }
}

/// PnL of closing `|qty|` of a short: sign-mirror of [`s_pnl_long`].
pub open spec fn s_pnl_short(
    entry_price: int,
    close_price: int,
    qty: int,
    inverse: bool,
    c_mult: int,
) -> int {
    if inverse {
        if entry_price == 0 || close_price == 0 {
            0
        } else {
            s_mul(
                s_mul(s_abs(qty), c_mult),
                s_sub(s_div(SCALE as int, close_price), s_div(SCALE as int, entry_price)),
            )
        }
    } else {
        s_mul(s_mul(s_abs(qty), c_mult), s_sub(entry_price, close_price))
    }
}

pub fn calc_pnl_short(entry_price: i64, close_price: i64, qty: i64, inverse: bool, c_mult: i64) -> (r: i64)
    requires
        fx_ok(qty),
    ensures
        r == s_pnl_short(
            entry_price as int,
            close_price as int,
            qty as int,
            inverse,
            c_mult as int,
        ),
        fx_ok(r),
{
    if inverse {
        if entry_price == 0 || close_price == 0 {
            0
        } else {
            fx_mul(
                fx_mul(fx_abs(qty), c_mult),
                fx_sub(fx_div(SCALE, close_price), fx_div(SCALE, entry_price)),
            )
        }
    } else {
        fx_mul(fx_mul(fx_abs(qty), c_mult), fx_sub(entry_price, close_price))
    }
}

/// Relative distance of `price` from the position price, signed so that a
/// profit is positive: `1 - price/pprice` for a long, `price/pprice - 1` for
/// a short; zero when the position price is not positive.
pub open spec fn s_pprice_diff(pside: int, pprice: int, price: int) -> int {
    if pside == LONG {
        if pprice > 0 {
            s_sub(SCALE as int, s_div(price, pprice))
        } else {
            0
        }
    } else {
        if pprice > 0 {
            s_sub(s_div(price, pprice), SCALE as int)
        } else {
            0
        }
    }
}

pub fn calc_pprice_diff_int(pside: usize, pprice: i64, price: i64) -> (r: i64)
    requires
        pside == LONG || pside == SHORT,
    ensures
        r == s_pprice_diff(pside as int, pprice as int, price as int),
        fx_ok(r),
{
    if pside == LONG {
        if pprice > 0 {
            fx_sub(SCALE, fx_div(price, pprice))
        } else {
            0
        }
    } else {
        if pprice > 0 {
            fx_sub(fx_div(price, pprice), SCALE)
        } else {
            0
        }
    }
}

/// Budget for auto-unstuck losses: a share of the balance peak plus the
/// drop already suffered since that peak, floored at zero.
pub open spec fn s_auto_unstuck_allowance(
    balance: int,
    loss_allowance_pct: int,
    pnl_cumsum_max: int,
    pnl_cumsum_last: int,
) -> int {
    let balance_peak = s_add(balance, s_sub(pnl_cumsum_max, pnl_cumsum_last));
    let drop_since_peak_pct = s_sub(s_div(balance, balance_peak), SCALE as int);
    s_max(s_mul(balance_peak, s_add(loss_allowance_pct, drop_since_peak_pct)), 0)
}

pub fn calc_auto_unstuck_allowance(
    balance: i64,
    loss_allowance_pct: i64,
    pnl_cumsum_max: i64,
    pnl_cumsum_last: i64,
) -> (r: i64)
    ensures
        r == s_auto_unstuck_allowance(
            balance as int,
            loss_allowance_pct as int,
            pnl_cumsum_max as int,
            pnl_cumsum_last as int,
        ),
        fx_ok(r),
{
    let balance_peak: i64 = fx_add(balance, fx_sub(pnl_cumsum_max, pnl_cumsum_last));
    let drop_since_peak_pct: i64 = fx_sub(fx_div(balance, balance_peak), SCALE);
    fx_max(fx_mul(balance_peak, fx_add(loss_allowance_pct, drop_since_peak_pct)), 0)
}

/// Bid entry price from the lower EMA band at distance `ema_dist`, capped at
/// the best bid.
pub open spec fn s_ema_price_bid(
    price_step: int,
    order_book_bid: int,
    ema_bands_lower: int,
    ema_dist: int,
) -> int {
    s_min(
        order_book_bid,
        s_round_dn(s_mul(ema_bands_lower, s_sub(SCALE as int, ema_dist)), price_step),
    )
}

pub fn calc_ema_price_bid(
    price_step: i64,
    order_book_bid: i64,
    ema_bands_lower: i64,
    ema_dist: i64,
) -> (r: i64)
    requires
        0 < price_step <= FX_MAX,
    ensures
        r == s_ema_price_bid(
            price_step as int,
            order_book_bid as int,
            ema_bands_lower as int,
            ema_dist as int,
        ),
{
    fx_min(order_book_bid, fx_round_dn(fx_mul(ema_bands_lower, fx_sub(SCALE, ema_dist)), price_step))
}

/// Ask entry price from the upper EMA band at distance `ema_dist`, floored
/// at the best ask.
pub open spec fn s_ema_price_ask(
    price_step: int,
    order_book_ask: int,
    ema_bands_upper: int,
    ema_dist: int,
) -> int {
    s_max(
        order_book_ask,
        s_round_up(s_mul(ema_bands_upper, s_add(SCALE as int, ema_dist)), price_step),
    )
}

pub fn calc_ema_price_ask(
    price_step: i64,
    order_book_ask: i64,
    ema_bands_upper: i64,
    ema_dist: i64,
) -> (r: i64)
    requires
        0 < price_step <= FX_MAX,
    ensures
        r == s_ema_price_ask(
            price_step as int,
            order_book_ask as int,
            ema_bands_upper as int,
            ema_dist as int,
        ),
{
    fx_max(order_book_ask, fx_round_up(fx_mul(ema_bands_upper, fx_add(SCALE, ema_dist)), price_step))
}

/// One EMA update: `price * a + prev * (1 - a)` with `a = 2 / (span + 1)`.
pub open spec fn s_ema(prev_ema: int, price: int, span: int) -> int {
    let multiplier = s_div(2 * (SCALE as int), s_add(span, SCALE as int));
    s_add(s_mul(price, multiplier), s_mul(prev_ema, s_sub(SCALE as int, multiplier)))
}

pub fn calc_ema(prev_ema: i64, price: i64, span: i64) -> (r: i64)
    ensures
        r == s_ema(prev_ema as int, price as int, span as int),
        fx_ok(r),
{
    let multiplier: i64 = fx_div(2_000_000_000, fx_add(span, SCALE));
    fx_add(fx_mul(price, multiplier), fx_mul(prev_ema, fx_sub(SCALE, multiplier)))
}

/// Smallest order quantity the exchange accepts at `price`: `min_qty` on
/// inverse markets, else the larger of `min_qty` and the quantity covering
/// `min_cost`, rounded up to `qty_step`.
pub open spec fn s_min_entry_qty_parts(
    price: int,
    inverse: bool,
    c_mult: int,
    qty_step: int,
    min_qty: int,
    min_cost: int,
) -> int {
    if inverse {
        min_qty
    } else {
        s_max(min_qty, s_round_up(s_cost_to_qty(min_cost, price, inverse, c_mult), qty_step))
    }
}

pub fn calc_min_entry_qty(
    price: i64,
    inverse: bool,
    c_mult: i64,
    qty_step: i64,
    min_qty: i64,
    min_cost: i64,
) -> (r: i64)
    requires
        0 < qty_step <= FX_MAX,
    ensures
        r == s_min_entry_qty_parts(
            price as int,
            inverse,
            c_mult as int,
            qty_step as int,
            min_qty as int,
            min_cost as int,
        ),
{
    if inverse {
        min_qty
    } else {
        fx_max(min_qty, fx_round_up(cost_to_qty(min_cost, price, inverse, c_mult), qty_step))
    }
}

/// Account equity: balance plus unrealized PnL of both positions.
pub open spec fn s_equity(
    balance: int,
    psize_long: int,
    pprice_long: int,
    psize_short: int,
    pprice_short: int,
    last_price: int,
    inverse: bool,
    c_mult: int,
) -> int {
    let with_long = if pprice_long != 0 && psize_long != 0 {
        s_add(balance, s_pnl_long(pprice_long, last_price, psize_long, inverse, c_mult))
    } else {
        balance
    };
    if pprice_short != 0 && psize_short != 0 {
        s_add(with_long, s_pnl_short(pprice_short, last_price, psize_short, inverse, c_mult))
    } else {
        with_long
    }
}

pub fn calc_equity(
    balance: i64,
    psize_long: i64,
    pprice_long: i64,
    psize_short: i64,
    pprice_short: i64,
    last_price: i64,
    inverse: bool,
    c_mult: i64,
) -> (r: i64)
    requires
        fx_ok(psize_long),
        fx_ok(psize_short),
    ensures
        r == s_equity(
            balance as int,
            psize_long as int,
            pprice_long as int,
            psize_short as int,
            pprice_short as int,
            last_price as int,
            inverse,
            c_mult as int,
        ),
{
    let mut equity: i64 = balance;
    if pprice_long != 0 && psize_long != 0 {
        equity = fx_add(equity, calc_pnl_long(pprice_long, last_price, psize_long, inverse, c_mult));
    }
    if pprice_short != 0 && psize_short != 0 {
        equity = fx_add(
            equity,
            calc_pnl_short(pprice_short, last_price, psize_short, inverse, c_mult),
        );
    }
    equity
}

/// Quantity of the first entry: a share `initial_qty_pct` of the exposure
/// budget `balance * wallet_exposure_limit`, step-rounded, floored at the
/// exchange minimum.
pub open spec fn s_initial_entry_qty_parts(
    balance: int,
    initial_entry_price: int,
    inverse: bool,
    qty_step: int,
    min_qty: int,
    min_cost: int,
    c_mult: int,
    wallet_exposure_limit: int,
    initial_qty_pct: int,
) -> int {
    s_max(
        s_min_entry_qty_parts(initial_entry_price, inverse, c_mult, qty_step, min_qty, min_cost),
        s_round_nr(
            s_cost_to_qty(
                s_mul(s_mul(balance, wallet_exposure_limit), initial_qty_pct),
                initial_entry_price,
                inverse,
                c_mult,
            ),
            qty_step,
        ),
    )
}

pub fn calc_initial_entry_qty(
    balance: i64,
    initial_entry_price: i64,
    inverse: bool,
    qty_step: i64,
    min_qty: i64,
    min_cost: i64,
    c_mult: i64,
    wallet_exposure_limit: i64,
    initial_qty_pct: i64,
) -> (r: i64)
    requires
        0 < qty_step <= FX_MAX,
    ensures
        r == s_initial_entry_qty_parts(
            balance as int,
            initial_entry_price as int,
            inverse,
            qty_step as int,
            min_qty as int,
            min_cost as int,
            c_mult as int,
            wallet_exposure_limit as int,
            initial_qty_pct as int,
        ),
{
    fx_max(
        calc_min_entry_qty(initial_entry_price, inverse, c_mult, qty_step, min_qty, min_cost),
        fx_round_nr(
            cost_to_qty(
                fx_mul(fx_mul(balance, wallet_exposure_limit), initial_qty_pct),
                initial_entry_price,
                inverse,
                c_mult,
            ),
            qty_step,
        ),
    )
}

/// Clock-mode order quantity: cost share scaled by current exposure, floored
/// at the exchange minimum.
pub open spec fn s_clock_qty(
    balance: int,
    wallet_exposure: int,
    entry_price: int,
    inverse: bool,
    qty_step: int,
    min_qty: int,
    min_cost: int,
    c_mult: int,
    qty_pct: int,
    we_multiplier: int,
    wallet_exposure_limit: int,
) -> int {
    let ratio = s_div(wallet_exposure, wallet_exposure_limit);
    let cost = s_mul(
        s_mul(s_mul(balance, wallet_exposure_limit), qty_pct),
        s_add(SCALE as int, s_mul(ratio, we_multiplier)),
    );
    s_max(
        s_min_entry_qty_parts(entry_price, inverse, c_mult, qty_step, min_qty, min_cost),
        s_round_nr(s_cost_to_qty(cost, entry_price, inverse, c_mult), qty_step),
    )
}

pub fn calc_clock_qty(
    balance: i64,
    wallet_exposure: i64,
    entry_price: i64,
    inverse: bool,
    qty_step: i64,
    min_qty: i64,
    min_cost: i64,
    c_mult: i64,
    qty_pct: i64,
    we_multiplier: i64,
    wallet_exposure_limit: i64,
) -> (r: i64)
    requires
        0 < qty_step <= FX_MAX,
    ensures
        r == s_clock_qty(
            balance as int,
            wallet_exposure as int,
            entry_price as int,
            inverse,
            qty_step as int,
            min_qty as int,
            min_cost as int,
            c_mult as int,
            qty_pct as int,
            we_multiplier as int,
            wallet_exposure_limit as int,
        ),
{
    let ratio: i64 = fx_div(wallet_exposure, wallet_exposure_limit);
    let cost: i64 = fx_mul(
        fx_mul(fx_mul(balance, wallet_exposure_limit), qty_pct),
        fx_add(SCALE, fx_mul(ratio, we_multiplier)),
    );
    fx_max(
        calc_min_entry_qty(entry_price, inverse, c_mult, qty_step, min_qty, min_cost),
        fx_round_nr(cost_to_qty(cost, entry_price, inverse, c_mult), qty_step),
    )
}

/// Delay before the next ask-side fill: the base delay shrunk as price rises
/// above the position price, floored at one minute (in fixed-point
/// milliseconds).
pub open spec fn s_delay_between_fills_ms_ask(
    pprice: int,
    price: int,
    delay_between_fills_ms: int,
    delay_weight: int,
) -> int {
    let pprice_diff = if pprice > 0 {
        s_sub(s_div(price, pprice), SCALE as int)
    } else {
        0
    };
    s_max(
        60_000 * (SCALE as int),
        s_mul(
            delay_between_fills_ms,
            s_min(SCALE as int, s_sub(SCALE as int, s_mul(pprice_diff, delay_weight))),
        ),
    )
}

pub fn calc_delay_between_fills_ms_ask(
    pprice: i64,
    price: i64,
    delay_between_fills_ms: i64,
    delay_weight: i64,
) -> (r: i64)
    ensures
        r == s_delay_between_fills_ms_ask(
            pprice as int,
            price as int,
            delay_between_fills_ms as int,
            delay_weight as int,
        ),
{
    let pprice_diff: i64 = if pprice > 0 {
        fx_sub(fx_div(price, pprice), SCALE)
    } else {
        0
    };
    fx_max(
        60_000_000_000_000,
        fx_mul(delay_between_fills_ms, fx_min(SCALE, fx_sub(SCALE, fx_mul(pprice_diff, delay_weight)))),
    )
}

/// Delay before the next bid-side fill: mirror of
/// [`s_delay_between_fills_ms_ask`] with the price difference reversed.
pub open spec fn s_delay_between_fills_ms_bid(
    pprice: int,
    price: int,
    delay_between_fills_ms: int,
    delay_weight: int,
) -> int {
    let pprice_diff = if pprice > 0 {
        s_sub(SCALE as int, s_div(price, pprice))
    } else {
        0
    };
    s_max(
        60_000 * (SCALE as int),
        s_mul(
            delay_between_fills_ms,
            s_min(SCALE as int, s_sub(SCALE as int, s_mul(pprice_diff, delay_weight))),
        ),
    )
}

pub fn calc_delay_between_fills_ms_bid(
    pprice: i64,
    price: i64,
    delay_between_fills_ms: i64,
    delay_weight: i64,
) -> (r: i64)
    ensures
        r == s_delay_between_fills_ms_bid(
            pprice as int,
            price as int,
            delay_between_fills_ms as int,
            delay_weight as int,
        ),
{
    let pprice_diff: i64 = if pprice > 0 {
        fx_sub(SCALE, fx_div(price, pprice))
    } else {
        0
    };
    fx_max(
        60_000_000_000_000,
        fx_mul(delay_between_fills_ms, fx_min(SCALE, fx_sub(SCALE, fx_mul(pprice_diff, delay_weight)))),
    )
}

/// Price at which account equity reaches zero for the combined positions,
/// floored at zero.
pub open spec fn s_bankruptcy_price(
    balance: int,
    psize_long: int,
    pprice_long: int,
    psize_short: int,
    pprice_short: int,
    inverse: bool,
    c_mult: int,
) -> int {
    let psize_long_c = s_mul(psize_long, c_mult);
    let abs_psize_short_c = s_mul(s_abs(psize_short), c_mult);
    let raw = if inverse {
        let short_cost = if pprice_short > 0 {
            s_div(abs_psize_short_c, pprice_short)
        } else {
            0
        };
        let long_cost = if pprice_long > 0 {
            s_div(psize_long_c, pprice_long)
        } else {
            0
        };
        let denominator = s_sub(s_sub(short_cost, long_cost), balance);
        if denominator == 0 {
            0
        } else {
            s_div(s_sub(abs_psize_short_c, psize_long_c), denominator)
        }
    } else {
        let denominator = s_sub(psize_long_c, abs_psize_short_c);
        if denominator == 0 {
            0
        } else {
            s_div(
                s_sub(
                    s_add(-balance, s_mul(psize_long_c, pprice_long)),
                    s_mul(abs_psize_short_c, pprice_short),
                ),
                denominator,
            )
        }
    };
    s_max(raw, 0)
}

pub fn calc_bankruptcy_price(
    balance: i64,
    psize_long: i64,
    pprice_long: i64,
    psize_short: i64,
    pprice_short: i64,
    inverse: bool,
    c_mult: i64,
) -> (r: i64)
    requires
        fx_ok(balance),
        fx_ok(psize_short),
    ensures
        r == s_bankruptcy_price(
            balance as int,
            psize_long as int,
            pprice_long as int,
            psize_short as int,
            pprice_short as int,
            inverse,
            c_mult as int,
        ),
{
    let psize_long_c: i64 = fx_mul(psize_long, c_mult);
    let abs_psize_short_c: i64 = fx_mul(fx_abs(psize_short), c_mult);
    let raw: i64 = if inverse {
        let short_cost: i64 = if pprice_short > 0 {
            fx_div(abs_psize_short_c, pprice_short)
        } else {
            0
        };
        let long_cost: i64 = if pprice_long > 0 {
            fx_div(psize_long_c, pprice_long)
        } else {
            0
        };
        let denominator: i64 = fx_sub(fx_sub(short_cost, long_cost), balance);
        if denominator == 0 {
            0
        } else {
            fx_div(fx_sub(abs_psize_short_c, psize_long_c), denominator)
        }
    } else {
        let denominator: i64 = fx_sub(psize_long_c, abs_psize_short_c);
        if denominator == 0 {
            0
        } else {
            fx_div(
                fx_sub(fx_add(-balance, fx_mul(psize_long_c, pprice_long)), fx_mul(abs_psize_short_c, pprice_short)),
                denominator,
            )
        }
    };
    fx_max(raw, 0)
}

} // verus!
