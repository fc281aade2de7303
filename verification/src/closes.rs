//! Close engine: markup-range close grids (frontwards and backwards
//! distribution), trailing closes, auto-unstuck closes, and the per-side
//! close router.
//!
//! Close lists are sequences of `(qty, price, tag)` entries; a single
//! `(0, 0, Empty)` entry is the sentinel for "nothing to close".

use vstd::prelude::*;
use crate::fixed::{
    fx_abs, fx_add, fx_div, fx_max, fx_min, fx_mul, fx_ok, fx_round_dn, fx_sub,
    s_abs, s_add, s_clamp, s_div, s_divt, s_max, s_min, s_mul, s_round_dn, s_round_nr,
    s_round_up, FX_MAX, SCALE,
};
use crate::types::{
    BotSideConfig, ExchangeParams, GridOrder, OrderType, Position, StateParams,
    TrailingPriceBundle, bot_params_wf, exchange_params_wf, position_wf, state_params_wf,
    trailing_bundle_wf, LONG, SHORT,
};
use crate::utils::{
    calc_clock_qty, calc_delay_between_fills_ms_ask, calc_delay_between_fills_ms_bid,
    cost_to_qty, fx_cap, round_, round_dn, round_up, s_clock_qty, s_cost_to_qty,
    s_delay_between_fills_ms_ask, s_delay_between_fills_ms_bid, s_min_entry_qty_parts,
    s_qty_to_cost,
};
use crate::utils::calc_min_entry_qty as calc_min_entry_qty_args;
use crate::solvers::{
    CloseCtx, find_close_qty_long_bringing_wallet_exposure_to_target,
    find_close_qty_short_bringing_wallet_exposure_to_target, s_close_solver,
};
use crate::entries::orders_view;

verus! {

/// The `i`-th raw (unrounded) close price of a markup grid of `n` levels:
/// the position price marked up by `min_markup`, stepped by
/// `markup_range / max(1, n - 1)` per level, away from the position for the
/// long side and toward lower prices for the short side.
pub open spec fn s_raw_close_price(
    pprice: int,
    min_markup: int,
    markup_range: int,
    n: int,
    side: int,
    i: int,
) -> int {
    let minm = if side == LONG {
        s_mul(pprice, s_add(SCALE as int, min_markup))
    } else {
        s_mul(pprice, s_clamp((SCALE as int) - min_markup))
    };
    let unit = s_divt(s_mul(pprice, markup_range), if n - 1 >= 1 { n - 1 } else { 1 });
    let off = s_clamp(unit * i);
    if side == LONG {
        s_add(minm, off)
    } else {
        s_clamp(minm - off)
    }
}

/// Raw close prices for levels `0 .. n`.
fn generate_raw_close_prices(
    pprice: i64,
    min_markup: i64,
    markup_range: i64,
    n_close_orders: i64,
    side: usize,
) -> (r: Vec<i64>)
    requires
        fx_ok(pprice),
        fx_ok(min_markup),
        fx_ok(markup_range),
        0 <= n_close_orders <= 1000_000,
        side == LONG || side == SHORT,
    ensures
        r@.len() == n_close_orders,
        forall|i: int|
            0 <= i < r@.len() ==> r@[i] as int == s_raw_close_price(
                pprice as int,
                min_markup as int,
                markup_range as int,
                n_close_orders as int,
                side as int,
                i,
            ) && fx_ok(#[trigger] r@[i]),
{
    let minm: i64 = if side == LONG {
        fx_mul(pprice, fx_add(SCALE, min_markup))
    } else {
        fx_mul(pprice, fx_sub(SCALE, min_markup))
    };
    let denom: i64 = if n_close_orders - 1 >= 1 {
        n_close_orders - 1
    } else {
        1
    };
    let base: i64 = fx_mul(pprice, markup_range);
    let mut r: Vec<i64> = Vec::new();
    let mut i: i64 = 0;
    while i < n_close_orders
        invariant
            0 <= i <= n_close_orders <= 1000_000,
            fx_ok(minm),
            fx_ok(base),
            denom as int == (if n_close_orders - 1 >= 1 { n_close_orders - 1 } else { 1int }),
            1 <= denom,
            r@.len() == i,
            forall|j: int|
                0 <= j < r@.len() ==> r@[j] as int == s_raw_close_price(
                    pprice as int,
                    min_markup as int,
                    markup_range as int,
                    n_close_orders as int,
                    (if side == LONG { LONG as int } else { SHORT as int }),
                    j,
                ) && fx_ok(#[trigger] r@[j]),
            side == LONG || side == SHORT,
            minm as int == (if side == LONG {
                s_mul(pprice as int, s_add(SCALE as int, min_markup as int))
            } else {
                s_mul(pprice as int, s_clamp((SCALE as int) - (min_markup as int)))
            }),
            base as int == s_mul(pprice as int, markup_range as int),
        decreases n_close_orders - i,
    {
        let unit: i64 = {
            let neg: bool = base < 0;
            let mag: u64 = if neg {
                ((-(base as i128)) as u64)
            } else {
                base as u64
            };
            let q: u64 = mag / (denom as u64);
            proof {
                vstd::arithmetic::div_mod::lemma_div_nonincreasing(mag as int, denom as int);
                vstd::arithmetic::div_mod::lemma_div_pos_is_pos(mag as int, denom as int);
            }
            if neg {
                (-(q as i128)) as i64
            } else {
                q as i64
            }
        };
        proof {
            assert(unit as int == s_divt(base as int, denom as int));
        }
        proof {
            assert((unit as i128) * (i as i128) <= 0x40000000000000000000000000000000
                && (unit as i128) * (i as i128) >= -0x40000000000000000000000000000000)
                by (nonlinear_arith)
                requires
                    -0x8000000000000000 <= unit as i128 <= 0x7fffffffffffffff,
                    0 <= i as i128 <= 1000_000,
            ;
        }
        let off128: i128 = (unit as i128) * (i as i128);
        let off: i64 = if off128 > (FX_MAX as i128) {
            FX_MAX
        } else if off128 < -(FX_MAX as i128) {
            -FX_MAX
        } else {
            off128 as i64
        };
        let p: i64 = if side == LONG {
            fx_add(minm, off)
        } else {
            fx_sub(minm, off)
        };
        r.push(p);
        i = i + 1;
    }
    r
}

/// Auto-unstuck close for a long position: `(qty, price)`, quantity zero
/// when no unstuck order applies. Fires when exposure exceeds
/// `limit * (1 - threshold)` and the EMA-derived close price undercuts the
/// first normal close; sized by the clock quantity under the delay regime,
/// else by the long close solver toward `threshold * 1.01`.
#[verifier::opaque]
pub open spec fn s_auto_unstuck_close_long(
    balance: int,
    psize: int,
    pprice: int,
    lowest_ask: int,
    ema_band_upper: int,
    utc_now_ms: int,
    prev_au_fill_ts_close: int,
    inverse: bool,
    qty_step: int,
    price_step: int,
    min_qty: int,
    min_cost: int,
    c_mult: int,
    wallet_exposure_limit: int,
    auto_unstuck_wallet_exposure_threshold: int,
    auto_unstuck_ema_dist: int,
    auto_unstuck_delay_minutes: int,
    auto_unstuck_qty_pct: int,
    lowest_normal_close_price: int,
) -> (int, int) {
    let threshold = s_mul(
        wallet_exposure_limit,
        s_clamp((SCALE as int) - auto_unstuck_wallet_exposure_threshold),
    );
    let wallet_exposure = s_div(s_qty_to_cost(psize, pprice, inverse, c_mult), balance);
    if wallet_exposure > threshold {
        let unstuck_close_price = s_max(
            lowest_ask,
            s_clamp(s_round_up(
                s_mul(ema_band_upper, s_add(SCALE as int, auto_unstuck_ema_dist)),
                price_step,
            )),
        );
        let unstuck_close_qty = if unstuck_close_price < lowest_normal_close_price {
            if auto_unstuck_delay_minutes != 0 && auto_unstuck_qty_pct != 0 {
                let delay = s_delay_between_fills_ms_ask(
                    pprice,
                    lowest_ask,
                    s_mul(s_mul(auto_unstuck_delay_minutes, 60 * (SCALE as int)), 1000 * (
                    SCALE as int)),
                    0,
                );
                if s_clamp(utc_now_ms - prev_au_fill_ts_close) > delay {
                    s_min(
                        psize,
                        s_clock_qty(
                            balance,
                            wallet_exposure,
                            unstuck_close_price,
                            inverse,
                            qty_step,
                            min_qty,
                            min_cost,
                            c_mult,
                            auto_unstuck_qty_pct,
                            0,
                            wallet_exposure_limit,
                        ),
                    )
                } else {
                    0
                }
            } else {
                s_close_solver(
                    CloseCtx {
                        balance,
                        psize,
                        pprice,
                        target: s_mul(threshold, 1_010_000_000),
                        close_price: unstuck_close_price,
                        inverse,
                        long: true,
                        ep: ExchangeParams {
                            qty_step: qty_step as i64,
                            price_step: price_step as i64,
                            min_qty: min_qty as i64,
                            min_cost: min_cost as i64,
                            c_mult: c_mult as i64,
                            inverse: false,
                        },
                    },
                )
            }
        } else {
            0
        };
        if unstuck_close_qty != 0 {
            let meq = s_min_entry_qty_parts(
                unstuck_close_price,
                inverse,
                c_mult,
                qty_step,
                min_qty,
                min_cost,
            );
            (s_clamp(-s_max(unstuck_close_qty, meq)), unstuck_close_price)
        } else {
            (0, 0)
        }
    } else {
        (0, 0)
    }
}

/// Auto-unstuck close for a long position; the returned quantity is
/// negative (a sell), zero when no unstuck order applies.
pub fn calc_auto_unstuck_close_long(
    balance: i64,
    psize: i64,
    pprice: i64,
    lowest_ask: i64,
    ema_band_upper: i64,
    utc_now_ms: i64,
    prev_au_fill_ts_close: i64,
    inverse: bool,
    qty_step: i64,
    price_step: i64,
    min_qty: i64,
    min_cost: i64,
    c_mult: i64,
    wallet_exposure_limit: i64,
    auto_unstuck_wallet_exposure_threshold: i64,
    auto_unstuck_ema_dist: i64,
    auto_unstuck_delay_minutes: i64,
    auto_unstuck_qty_pct: i64,
    lowest_normal_close_price: i64,
) -> (r: (i64, i64))
    requires
        fx_ok(balance),
        fx_ok(psize),
        fx_ok(pprice),
        fx_ok(lowest_ask),
        fx_ok(ema_band_upper),
        0 < qty_step <= FX_MAX,
        0 < price_step <= FX_MAX,
        0 <= min_qty <= FX_MAX,
        0 <= min_cost <= FX_MAX,
        0 < c_mult <= FX_MAX,
    ensures
        (r.0 as int, r.1 as int) == s_auto_unstuck_close_long(
            balance as int,
            psize as int,
            pprice as int,
            lowest_ask as int,
            ema_band_upper as int,
            utc_now_ms as int,
            prev_au_fill_ts_close as int,
            inverse,
            qty_step as int,
            price_step as int,
            min_qty as int,
            min_cost as int,
            c_mult as int,
            wallet_exposure_limit as int,
            auto_unstuck_wallet_exposure_threshold as int,
            auto_unstuck_ema_dist as int,
            auto_unstuck_delay_minutes as int,
            auto_unstuck_qty_pct as int,
            lowest_normal_close_price as int,
        ),
        fx_ok(r.0),
        fx_ok(r.1),
{
    proof {
        reveal(s_auto_unstuck_close_long);
    }
    let threshold: i64 = fx_mul(
        wallet_exposure_limit,
        fx_sub(SCALE, auto_unstuck_wallet_exposure_threshold),
    );
    let wallet_exposure: i64 = fx_div(
        crate::utils::qty_to_cost(psize, pprice, inverse, c_mult),
        balance,
    );
    if wallet_exposure > threshold {
        let unstuck_close_price: i64 = fx_max(
            lowest_ask,
            fx_cap(round_up(
                fx_mul(ema_band_upper, fx_add(SCALE, auto_unstuck_ema_dist)),
                price_step,
            )),
        );
        let mut unstuck_close_qty: i64 = 0;
        if unstuck_close_price < lowest_normal_close_price {
            if auto_unstuck_delay_minutes != 0 && auto_unstuck_qty_pct != 0 {
                let delay: i64 = calc_delay_between_fills_ms_ask(
                    pprice,
                    lowest_ask,
                    fx_mul(fx_mul(auto_unstuck_delay_minutes, 60_000_000_000), 1_000_000_000_000),
                    0,
                );
                if fx_sub(utc_now_ms, prev_au_fill_ts_close) > delay {
                    unstuck_close_qty = fx_min(
                        psize,
                        calc_clock_qty(
                            balance,
                            wallet_exposure,
                            unstuck_close_price,
                            inverse,
                            qty_step,
                            min_qty,
                            min_cost,
                            c_mult,
                            auto_unstuck_qty_pct,
                            0,
                            wallet_exposure_limit,
                        ),
                    );
                }
            } else {
                let dummy_exchange_params = ExchangeParams {
                    qty_step,
                    price_step,
                    min_qty,
                    min_cost,
                    c_mult,
                    inverse: false,
                };
                unstuck_close_qty = find_close_qty_long_bringing_wallet_exposure_to_target(
                    balance,
                    psize,
                    pprice,
                    fx_mul(threshold, 1_010_000_000),
                    unstuck_close_price,
                    inverse,
                    &dummy_exchange_params,
                );
            }
        }
        if unstuck_close_qty != 0 {
            let min_entry_qty: i64 = calc_min_entry_qty_args(
                unstuck_close_price,
                inverse,
                c_mult,
                qty_step,
                min_qty,
                min_cost,
            );
            (fx_cap(-fx_max(unstuck_close_qty, min_entry_qty)), unstuck_close_price)
        } else {
            (0, 0)
        }
    } else {
        (0, 0)
    }
}

/// Auto-unstuck close for a short position: mirror of
/// [`s_auto_unstuck_close_long`] on the bid side; the returned quantity is
/// positive (a buy), zero when no unstuck order applies.
#[verifier::opaque]
pub open spec fn s_auto_unstuck_close_short(
    balance: int,
    psize: int,
    pprice: int,
    highest_bid: int,
    ema_band_lower: int,
    utc_now_ms: int,
    prev_au_fill_ts_close: int,
    inverse: bool,
    qty_step: int,
    price_step: int,
    min_qty: int,
    min_cost: int,
    c_mult: int,
    wallet_exposure_limit: int,
    auto_unstuck_wallet_exposure_threshold: int,
    auto_unstuck_ema_dist: int,
    auto_unstuck_delay_minutes: int,
    auto_unstuck_qty_pct: int,
    highest_normal_close_price: int,
) -> (int, int) {
    let threshold = s_mul(
        wallet_exposure_limit,
        s_clamp((SCALE as int) - auto_unstuck_wallet_exposure_threshold),
    );
    let wallet_exposure = s_div(s_qty_to_cost(psize, pprice, inverse, c_mult), balance);
    if wallet_exposure > threshold {
        let unstuck_close_price = s_min(
            highest_bid,
            s_clamp(s_round_dn(
                s_mul(ema_band_lower, s_clamp((SCALE as int) - auto_unstuck_ema_dist)),
                price_step,
            )),
        );
        let unstuck_close_qty = if unstuck_close_price > highest_normal_close_price {
            if auto_unstuck_delay_minutes != 0 && auto_unstuck_qty_pct != 0 {
                let delay = s_delay_between_fills_ms_bid(
                    pprice,
                    highest_bid,
                    s_mul(s_mul(auto_unstuck_delay_minutes, 60 * (SCALE as int)), 1000 * (
                    SCALE as int)),
                    0,
                );
                if s_clamp(utc_now_ms - prev_au_fill_ts_close) > delay {
                    s_min(
                        s_abs(psize),
                        s_clock_qty(
                            balance,
                            wallet_exposure,
                            unstuck_close_price,
                            inverse,
                            qty_step,
                            min_qty,
                            min_cost,
                            c_mult,
                            auto_unstuck_qty_pct,
                            0,
                            wallet_exposure_limit,
                        ),
                    )
                } else {
                    0
                }
            } else {
                s_close_solver(
                    CloseCtx {
                        balance,
                        psize,
                        pprice,
                        target: s_mul(threshold, 1_010_000_000),
                        close_price: unstuck_close_price,
                        inverse,
                        long: false,
                        ep: ExchangeParams {
                            qty_step: qty_step as i64,
                            price_step: price_step as i64,
                            min_qty: min_qty as i64,
                            min_cost: min_cost as i64,
                            c_mult: c_mult as i64,
                            inverse: false,
                        },
                    },
                )
            }
        } else {
            0
        };
        if unstuck_close_qty != 0 {
            let meq = s_min_entry_qty_parts(
                unstuck_close_price,
                inverse,
                c_mult,
                qty_step,
                min_qty,
                min_cost,
            );
            (s_clamp(s_max(unstuck_close_qty, meq)), unstuck_close_price)
        } else {
            (0, 0)
        }
    } else {
        (0, 0)
    }
}

pub fn calc_auto_unstuck_close_short(
    balance: i64,
    psize: i64,
    pprice: i64,
    highest_bid: i64,
    ema_band_lower: i64,
    utc_now_ms: i64,
    prev_au_fill_ts_close: i64,
    inverse: bool,
    qty_step: i64,
    price_step: i64,
    min_qty: i64,
    min_cost: i64,
    c_mult: i64,
    wallet_exposure_limit: i64,
    auto_unstuck_wallet_exposure_threshold: i64,
    auto_unstuck_ema_dist: i64,
    auto_unstuck_delay_minutes: i64,
    auto_unstuck_qty_pct: i64,
    highest_normal_close_price: i64,
) -> (r: (i64, i64))
    requires
        fx_ok(balance),
        fx_ok(psize),
        fx_ok(pprice),
        fx_ok(highest_bid),
        fx_ok(ema_band_lower),
        0 < qty_step <= FX_MAX,
        0 < price_step <= FX_MAX,
        0 <= min_qty <= FX_MAX,
        0 <= min_cost <= FX_MAX,
        0 < c_mult <= FX_MAX,
    ensures
        (r.0 as int, r.1 as int) == s_auto_unstuck_close_short(
            balance as int,
            psize as int,
            pprice as int,
            highest_bid as int,
            ema_band_lower as int,
            utc_now_ms as int,
            prev_au_fill_ts_close as int,
            inverse,
            qty_step as int,
            price_step as int,
            min_qty as int,
            min_cost as int,
            c_mult as int,
            wallet_exposure_limit as int,
            auto_unstuck_wallet_exposure_threshold as int,
            auto_unstuck_ema_dist as int,
            auto_unstuck_delay_minutes as int,
            auto_unstuck_qty_pct as int,
            highest_normal_close_price as int,
        ),
        fx_ok(r.0),
        fx_ok(r.1),
{
    proof {
        reveal(s_auto_unstuck_close_short);
    }
    let threshold: i64 = fx_mul(
        wallet_exposure_limit,
        fx_sub(SCALE, auto_unstuck_wallet_exposure_threshold),
    );
    let wallet_exposure: i64 = fx_div(
        crate::utils::qty_to_cost(psize, pprice, inverse, c_mult),
        balance,
    );
    if wallet_exposure > threshold {
        let unstuck_close_price: i64 = fx_min(
            highest_bid,
            fx_cap(fx_round_dn(
                fx_mul(ema_band_lower, fx_sub(SCALE, auto_unstuck_ema_dist)),
                price_step,
            )),
        );
        let mut unstuck_close_qty: i64 = 0;
        if unstuck_close_price > highest_normal_close_price {
            if auto_unstuck_delay_minutes != 0 && auto_unstuck_qty_pct != 0 {
                let delay: i64 = calc_delay_between_fills_ms_bid(
                    pprice,
                    highest_bid,
                    fx_mul(fx_mul(auto_unstuck_delay_minutes, 60_000_000_000), 1_000_000_000_000),
                    0,
                );
                if fx_sub(utc_now_ms, prev_au_fill_ts_close) > delay {
                    unstuck_close_qty = fx_min(
                        fx_abs(psize),
                        calc_clock_qty(
                            balance,
                            wallet_exposure,
                            unstuck_close_price,
                            inverse,
                            qty_step,
                            min_qty,
                            min_cost,
                            c_mult,
                            auto_unstuck_qty_pct,
                            0,
                            wallet_exposure_limit,
                        ),
                    );
                }
            } else {
                let dummy_exchange_params = ExchangeParams {
                    qty_step,
                    price_step,
                    min_qty,
                    min_cost,
                    c_mult,
                    inverse: false,
                };
                unstuck_close_qty = find_close_qty_short_bringing_wallet_exposure_to_target(
                    balance,
                    psize,
                    pprice,
                    fx_mul(threshold, 1_010_000_000),
                    unstuck_close_price,
                    inverse,
                    &dummy_exchange_params,
                );
            }
        }
        if unstuck_close_qty != 0 {
            let min_entry_qty: i64 = calc_min_entry_qty_args(
                unstuck_close_price,
                inverse,
                c_mult,
                qty_step,
                min_qty,
                min_cost,
            );
            (fx_cap(fx_max(unstuck_close_qty, min_entry_qty)), unstuck_close_price)
        } else {
            (0, 0)
        }
    } else {
        (0, 0)
    }
}

/// Integer view of a close list.
pub open spec fn tuples_view(s: Seq<(i64, i64, OrderType)>) -> Seq<(int, int, OrderType)> {
    s.map_values(|t: (i64, i64, OrderType)| (t.0 as int, t.1 as int, t.2))
}

/// A close entry holds well-formed fixed-point values.
pub open spec fn close_entry_ok(t: (i64, i64, OrderType)) -> bool {
    fx_ok(t.0) && fx_ok(t.1)
}

/// Every close entry holds well-formed fixed-point values.
pub open spec fn closes_fx_ok(s: Seq<(i64, i64, OrderType)>) -> bool {
    forall|i: int| 0 <= i < s.len() ==> close_entry_ok(#[trigger] s[i])
}

/// Rounded close prices of a long grid from level `i` on, keeping those at
/// or above the best ask.
pub open spec fn s_front_prices_long(
    pprice: int,
    min_markup: int,
    markup_range: int,
    n: int,
    price_step: int,
    lowest_ask: int,
    i: int,
) -> Seq<int>
    decreases n - i,
{
    if i >= n {
        Seq::empty()
    } else {
        let p = s_clamp(s_round_up(
            s_raw_close_price(pprice, min_markup, markup_range, n, LONG as int, i),
            price_step,
        ));
        let rest = s_front_prices_long(
            pprice,
            min_markup,
            markup_range,
            n,
            price_step,
            lowest_ask,
            i + 1,
        );
        if p >= lowest_ask {
            seq![p] + rest
        } else {
            rest
        }
    }
}

/// Rounded close prices of a short grid from level `i` on, keeping those at
/// or below the best bid.
pub open spec fn s_front_prices_short(
    pprice: int,
    min_markup: int,
    markup_range: int,
    n: int,
    price_step: int,
    highest_bid: int,
    i: int,
) -> Seq<int>
    decreases n - i,
{
    if i >= n {
        Seq::empty()
    } else {
        let p = s_clamp(s_round_dn(
            s_raw_close_price(pprice, min_markup, markup_range, n, SHORT as int, i),
            price_step,
        ));
        let rest = s_front_prices_short(
            pprice,
            min_markup,
            markup_range,
            n,
            price_step,
            highest_bid,
            i + 1,
        );
        if p <= highest_bid {
            seq![p] + rest
        } else {
            rest
        }
    }
}

/// The quantity count a fixed-point level count stands for.
pub open spec fn s_count_of(n_fx: int) -> int {
    s_divt(s_round_nr(n_fx, SCALE as int), SCALE as int)
}

/// Walk the price levels `i .. endi` of a frontwards grid: close
/// `min(remaining, max(default, minimum))` at each level while the
/// remaining size covers the level's minimum; returns the signed entries
/// and the remaining size.
pub open spec fn s_front_emit(
    prices: Seq<int>,
    i: int,
    endi: int,
    remaining: int,
    dflt: int,
    inverse: bool,
    c_mult: int,
    qty_step: int,
    min_qty: int,
    min_cost: int,
    long: bool,
    tag: OrderType,
) -> (Seq<(int, int, OrderType)>, int)
    decreases endi - i,
{
    if i >= endi {
        (Seq::empty(), remaining)
    } else {
        let meq = s_min_entry_qty_parts(prices[i], inverse, c_mult, qty_step, min_qty, min_cost);
        if remaining < meq {
            (Seq::empty(), remaining)
        } else {
            let q = s_min(remaining, s_max(dflt, meq));
            let r = s_front_emit(
                prices,
                i + 1,
                endi,
                s_clamp(s_round_nr(s_clamp(remaining - q), qty_step)),
                dflt,
                inverse,
                c_mult,
                qty_step,
                min_qty,
                min_cost,
                long,
                tag,
            );
            (seq![(if long { s_clamp(-q) } else { s_clamp(q) }, prices[i], tag)] + r.0, r.1)
        }
    }
}

/// Fold the residual size into the most recent close entry.
pub open spec fn s_absorb(
    s: Seq<(int, int, OrderType)>,
    rem: int,
    qty_step: int,
    long: bool,
) -> Seq<(int, int, OrderType)> {
    let last = s[s.len() - 1];
    let merged = s_round_nr(s_add(s_abs(last.0), rem), qty_step);
    s.update(
        s.len() - 1,
        (if long { s_clamp(-merged) } else { s_clamp(merged) }, last.1, last.2),
    )
}


/// The markup-level walk of a frontwards grid with two or more levels:
/// even division, emission walk, then residual placement or absorption.
pub open spec fn s_front_tail(
    cps: Seq<int>,
    psize_1: int,
    head: Seq<(int, int, OrderType)>,
    inverse: bool,
    c_mult: int,
    qty_step: int,
    min_qty: int,
    min_cost: int,
    long: bool,
    tag: OrderType,
) -> Seq<(int, int, OrderType)> {
    let dflt = s_clamp(s_round_dn(s_divt(psize_1, cps.len() as int), qty_step));
    let em = s_front_emit(
        cps,
        0,
        cps.len() - 1,
        psize_1,
        dflt,
        inverse,
        c_mult,
        qty_step,
        min_qty,
        min_cost,
        long,
        tag,
    );
    let body = head + em.0;
    let rem = em.1;
    let lastp = cps[cps.len() - 1];
    let meql = s_min_entry_qty_parts(lastp, inverse, c_mult, qty_step, min_qty, min_cost);
    if rem >= meql {
        body + seq![(if long { s_clamp(-rem) } else { s_clamp(rem) }, lastp, tag)]
    } else if body.len() > 0 {
        s_absorb(body, rem, qty_step, long)
    } else {
        seq![(0, 0, OrderType::Empty)]
    }
}

/// Markup-level walk, executable side: `closes` arrives holding the head
/// entries and leaves holding the whole grid.
#[verifier::rlimit(60)]
fn front_tail(
    close_prices: &Vec<i64>,
    psize_1: i64,
    inverse: bool,
    c_mult: i64,
    qty_step: i64,
    min_qty: i64,
    min_cost: i64,
    long: bool,
    tag: OrderType,
    closes: &mut Vec<(i64, i64, OrderType)>,
)
    requires
        close_prices@.len() >= 2,
        close_prices@.len() <= 1000_000,
        forall|i: int| 0 <= i < close_prices@.len() ==> fx_ok(#[trigger] close_prices@[i]),
        fx_ok(psize_1),
        0 < qty_step <= FX_MAX,
        0 <= min_qty <= FX_MAX,
        0 <= min_cost <= FX_MAX,
        0 < c_mult <= FX_MAX,
        closes_fx_ok(old(closes)@),
    ensures
        tuples_view(final(closes)@) == s_front_tail(
            crate::solvers::view64(close_prices@),
            psize_1 as int,
            tuples_view(old(closes)@),
            inverse,
            c_mult as int,
            qty_step as int,
            min_qty as int,
            min_cost as int,
            long,
            tag,
        ),
        closes_fx_ok(final(closes)@),
{
    let dflt: i64 = fx_cap(round_dn(
        crate::fixed::fx_divt_count(psize_1, close_prices.len() as i64),
        qty_step,
    ));
    let endi: usize = close_prices.len() - 1;
    let rem: i64 = front_emit(
        close_prices,
        endi,
        psize_1,
        dflt,
        inverse,
        c_mult,
        qty_step,
        min_qty,
        min_cost,
        long,
        tag,
        closes,
    );
    let last_price: i64 = close_prices[close_prices.len() - 1];
    let min_close_qty: i64 = calc_min_entry_qty_args(
        last_price,
        inverse,
        c_mult,
        qty_step,
        min_qty,
        min_cost,
    );
    if rem >= min_close_qty {
        let ghost pre = closes@;
        let sq: i64 = if long {
            fx_cap(-rem)
        } else {
            fx_cap(rem)
        };
        closes.push((sq, last_price, tag));
        proof {
            assert(tuples_view(closes@) =~= tuples_view(pre) + seq![
                (sq as int, last_price as int, tag),
            ]);
        }
        return;
    }
    if closes.len() > 0 {
        absorb_into_last(closes, rem, qty_step, long);
        return;
    }
    proof {
        assert(tuples_view(closes@) =~= Seq::<(int, int, OrderType)>::empty());
    }
    closes.push((0, 0, OrderType::Empty));
    proof {
        assert(tuples_view(closes@) =~= seq![(0int, 0int, OrderType::Empty)]);
    }
}

/// Frontwards long close grid: the rounded position is divided evenly over
/// the accepted markup levels, walking prices upward; the residual goes to
/// the last level or is absorbed into the previous entry; an auto-unstuck
/// close, when it fires, leads the list and shrinks what the grid closes.
pub open spec fn s_close_grid_frontwards_long(
    balance: int,
    psize: int,
    pprice: int,
    lowest_ask: int,
    ema_band_upper: int,
    utc_now_ms: int,
    prev_au_fill_ts_close: int,
    inverse: bool,
    qty_step: int,
    price_step: int,
    min_qty: int,
    min_cost: int,
    c_mult: int,
    wallet_exposure_limit: int,
    min_markup: int,
    markup_range: int,
    n_close_orders: int,
    auto_unstuck_wallet_exposure_threshold: int,
    auto_unstuck_ema_dist: int,
    auto_unstuck_delay_minutes: int,
    auto_unstuck_qty_pct: int,
) -> Seq<(int, int, OrderType)> {
    let psize_0 = s_clamp(s_round_dn(psize, qty_step));
    if psize_0 == 0 {
        seq![(0, 0, OrderType::Empty)]
    } else {
        let n = s_count_of(n_close_orders);
        let cps = s_front_prices_long(pprice, min_markup, markup_range, n, price_step, lowest_ask, 0);
        if cps.len() == 0 {
            seq![(s_clamp(-psize), lowest_ask, OrderType::CloseNormalLong)]
        } else {
            let au = if auto_unstuck_wallet_exposure_threshold != 0 {
                s_auto_unstuck_close_long(
                    balance,
                    psize,
                    pprice,
                    lowest_ask,
                    ema_band_upper,
                    utc_now_ms,
                    prev_au_fill_ts_close,
                    inverse,
                    qty_step,
                    price_step,
                    min_qty,
                    min_cost,
                    c_mult,
                    wallet_exposure_limit,
                    auto_unstuck_wallet_exposure_threshold,
                    auto_unstuck_ema_dist,
                    auto_unstuck_delay_minutes,
                    auto_unstuck_qty_pct,
                    cps[0],
                )
            } else {
                (0, 0)
            };
            let psize_1 = if au.0 != 0 {
                s_clamp(s_round_nr(s_clamp(psize_0 - s_abs(au.0)), qty_step))
            } else {
                psize_0
            };
            if au.0 != 0 && psize_1 < s_min_entry_qty_parts(
                au.1,
                inverse,
                c_mult,
                qty_step,
                min_qty,
                min_cost,
            ) {
                seq![(s_clamp(-psize), au.1, OrderType::CloseUnstuckLong)]
            } else {
                let head = if au.0 != 0 {
                    seq![(au.0, au.1, OrderType::CloseUnstuckLong)]
                } else {
                    Seq::<(int, int, OrderType)>::empty()
                };
                if cps.len() == 1 {
                    let meq0 = s_min_entry_qty_parts(
                        cps[0],
                        inverse,
                        c_mult,
                        qty_step,
                        min_qty,
                        min_cost,
                    );
                    if psize_1 >= meq0 {
                        head + seq![(s_clamp(-psize_1), cps[0], OrderType::CloseNormalLong)]
                    } else if head.len() == 0 {
                        seq![(0, 0, OrderType::Empty)]
                    } else {
                        head
                    }
                } else {
                    s_front_tail(
                        cps,
                        psize_1,
                        head,
                        inverse,
                        c_mult,
                        qty_step,
                        min_qty,
                        min_cost,
                        true,
                        OrderType::CloseNormalLong,
                    )
                }
            }
        }
    }
}

/// Close prices for a long grid, executable side.
fn front_prices_long(
    pprice: i64,
    min_markup: i64,
    markup_range: i64,
    n: i64,
    price_step: i64,
    lowest_ask: i64,
) -> (r: Vec<i64>)
    requires
        fx_ok(pprice),
        fx_ok(min_markup),
        fx_ok(markup_range),
        0 <= n <= 1000_000,
        0 < price_step <= FX_MAX,
    ensures
        crate::solvers::view64(r@) == s_front_prices_long(
            pprice as int,
            min_markup as int,
            markup_range as int,
            n as int,
            price_step as int,
            lowest_ask as int,
            0,
        ),
        forall|i: int| 0 <= i < r@.len() ==> fx_ok(#[trigger] r@[i]),
        r@.len() <= n,
{
    let raw: Vec<i64> = generate_raw_close_prices(pprice, min_markup, markup_range, n, LONG);
    let mut r: Vec<i64> = Vec::new();
    let mut i: usize = 0;
    while i < raw.len()
        invariant
            raw@.len() == n,
            0 <= i <= raw@.len(),
            0 <= n <= 1000_000,
            0 < price_step <= FX_MAX,
            forall|j: int|
                0 <= j < raw@.len() ==> raw@[j] as int == s_raw_close_price(
                    pprice as int,
                    min_markup as int,
                    markup_range as int,
                    n as int,
                    LONG as int,
                    j,
                ) && fx_ok(#[trigger] raw@[j]),
            forall|j: int| 0 <= j < r@.len() ==> fx_ok(#[trigger] r@[j]),
            r@.len() <= i,
            s_front_prices_long(
                pprice as int,
                min_markup as int,
                markup_range as int,
                n as int,
                price_step as int,
                lowest_ask as int,
                0,
            ) == crate::solvers::view64(r@) + s_front_prices_long(
                pprice as int,
                min_markup as int,
                markup_range as int,
                n as int,
                price_step as int,
                lowest_ask as int,
                i as int,
            ),
        decreases raw@.len() - i,
    {
        let ghost pre = r@;
        let p: i64 = fx_cap(round_up(raw[i], price_step));
        if p >= lowest_ask {
            r.push(p);
        }
        i = i + 1;
        proof {
            if p >= lowest_ask {
                assert(crate::solvers::view64(r@) =~= crate::solvers::view64(pre) + seq![
                    p as int,
                ]);
                assert(crate::solvers::view64(pre) + (seq![p as int] + s_front_prices_long(
                    pprice as int,
                    min_markup as int,
                    markup_range as int,
                    n as int,
                    price_step as int,
                    lowest_ask as int,
                    i as int,
                )) =~= (crate::solvers::view64(pre) + seq![p as int]) + s_front_prices_long(
                    pprice as int,
                    min_markup as int,
                    markup_range as int,
                    n as int,
                    price_step as int,
                    lowest_ask as int,
                    i as int,
                ));
            }
        }
    }
    r
}

/// Close prices for a short grid, executable side.
fn front_prices_short(
    pprice: i64,
    min_markup: i64,
    markup_range: i64,
    n: i64,
    price_step: i64,
    highest_bid: i64,
) -> (r: Vec<i64>)
    requires
        fx_ok(pprice),
        fx_ok(min_markup),
        fx_ok(markup_range),
        0 <= n <= 1000_000,
        0 < price_step <= FX_MAX,
    ensures
        crate::solvers::view64(r@) == s_front_prices_short(
            pprice as int,
            min_markup as int,
            markup_range as int,
            n as int,
            price_step as int,
            highest_bid as int,
            0,
        ),
        forall|i: int| 0 <= i < r@.len() ==> fx_ok(#[trigger] r@[i]),
        r@.len() <= n,
{
    let raw: Vec<i64> = generate_raw_close_prices(pprice, min_markup, markup_range, n, SHORT);
    let mut r: Vec<i64> = Vec::new();
    let mut i: usize = 0;
    while i < raw.len()
        invariant
            raw@.len() == n,
            0 <= i <= raw@.len(),
            0 <= n <= 1000_000,
            0 < price_step <= FX_MAX,
            forall|j: int|
                0 <= j < raw@.len() ==> raw@[j] as int == s_raw_close_price(
                    pprice as int,
                    min_markup as int,
                    markup_range as int,
                    n as int,
                    SHORT as int,
                    j,
                ) && fx_ok(#[trigger] raw@[j]),
            forall|j: int| 0 <= j < r@.len() ==> fx_ok(#[trigger] r@[j]),
            r@.len() <= i,
            s_front_prices_short(
                pprice as int,
                min_markup as int,
                markup_range as int,
                n as int,
                price_step as int,
                highest_bid as int,
                0,
            ) == crate::solvers::view64(r@) + s_front_prices_short(
                pprice as int,
                min_markup as int,
                markup_range as int,
                n as int,
                price_step as int,
                highest_bid as int,
                i as int,
            ),
        decreases raw@.len() - i,
    {
        let ghost pre = r@;
        let p: i64 = fx_cap(round_dn(raw[i], price_step));
        if p <= highest_bid {
            r.push(p);
        }
        i = i + 1;
        proof {
            if p <= highest_bid {
                assert(crate::solvers::view64(r@) =~= crate::solvers::view64(pre) + seq![
                    p as int,
                ]);
                assert(crate::solvers::view64(pre) + (seq![p as int] + s_front_prices_short(
                    pprice as int,
                    min_markup as int,
                    markup_range as int,
                    n as int,
                    price_step as int,
                    highest_bid as int,
                    i as int,
                )) =~= (crate::solvers::view64(pre) + seq![p as int]) + s_front_prices_short(
                    pprice as int,
                    min_markup as int,
                    markup_range as int,
                    n as int,
                    price_step as int,
                    highest_bid as int,
                    i as int,
                ));
            }
        }
    }
    r
}

/// Level count from a fixed-point level configuration, bounded for the
/// price builders.
fn count_of(n_fx: i64) -> (r: i64)
    requires
        0 <= n_fx <= 1000_000_000_000_000,
    ensures
        r as int == s_count_of(n_fx as int),
        0 <= r <= 1000_000,
{
    let rounded: i64 = round_(n_fx, SCALE);
    proof {
        crate::fixed::lemma_round_nr_props(n_fx as int, SCALE as int);
        vstd::arithmetic::div_mod::lemma_div_pos_is_pos(rounded as int, SCALE as int);
        vstd::arithmetic::div_mod::lemma_div_is_ordered(
            rounded as int,
            2000_000_000_000_000,
            SCALE as int,
        );
    }
    (rounded / SCALE) as i64
}

/// Frontwards emission walk, executable side.
#[verifier::rlimit(60)]
fn front_emit(
    prices: &Vec<i64>,
    endi: usize,
    remaining0: i64,
    dflt: i64,
    inverse: bool,
    c_mult: i64,
    qty_step: i64,
    min_qty: i64,
    min_cost: i64,
    long: bool,
    tag: OrderType,
    closes: &mut Vec<(i64, i64, OrderType)>,
) -> (rem: i64)
    requires
        endi <= prices@.len(),
        forall|i: int| 0 <= i < prices@.len() ==> fx_ok(#[trigger] prices@[i]),
        fx_ok(remaining0),
        fx_ok(dflt),
        0 < qty_step <= FX_MAX,
        0 <= min_qty <= FX_MAX,
        0 <= min_cost <= FX_MAX,
        0 < c_mult <= FX_MAX,
        closes_fx_ok(old(closes)@),
    ensures
        ({
            let em = s_front_emit(
                crate::solvers::view64(prices@),
                0,
                endi as int,
                remaining0 as int,
                dflt as int,
                inverse,
                c_mult as int,
                qty_step as int,
                min_qty as int,
                min_cost as int,
                long,
                tag,
            );
            tuples_view(final(closes)@) == tuples_view(old(closes)@) + em.0 && rem as int == em.1
        }),
        fx_ok(rem),
        closes_fx_ok(final(closes)@),
{
    let ghost full = s_front_emit(
        crate::solvers::view64(prices@),
        0,
        endi as int,
        remaining0 as int,
        dflt as int,
        inverse,
        c_mult as int,
        qty_step as int,
        min_qty as int,
        min_cost as int,
        long,
        tag,
    );
    let ghost base = old(closes)@;
    let mut remaining: i64 = remaining0;
    let mut i: usize = 0;
    let mut stop: bool = false;
    while i < endi && !stop
        invariant
            endi <= prices@.len(),
            forall|j: int| 0 <= j < prices@.len() ==> fx_ok(#[trigger] prices@[j]),
            fx_ok(remaining),
            fx_ok(dflt),
            0 < qty_step <= FX_MAX,
            0 <= min_qty <= FX_MAX,
            0 <= min_cost <= FX_MAX,
            0 < c_mult <= FX_MAX,
            0 <= i <= endi,
            closes_fx_ok(closes@),
            closes_fx_ok(base),
            tuples_view(base).len() <= tuples_view(closes@).len(),
            tuples_view(closes@) =~= tuples_view(base) + tuples_view(closes@).subrange(
                base.len() as int,
                closes@.len() as int,
            ),
            ({
                let em = s_front_emit(
                    crate::solvers::view64(prices@),
                    i as int,
                    endi as int,
                    remaining as int,
                    dflt as int,
                    inverse,
                    c_mult as int,
                    qty_step as int,
                    min_qty as int,
                    min_cost as int,
                    long,
                    tag,
                );
                (full.0, full.1) == (
                    tuples_view(closes@).subrange(base.len() as int, closes@.len() as int) + (
                    if stop {
                        Seq::<(int, int, OrderType)>::empty()
                    } else {
                        em.0
                    }),
                    (if stop {
                        remaining as int
                    } else {
                        em.1
                    }),
                )
            }),
        decreases endi - i, (if stop { 0int } else { 1int }),
    {
        let meq: i64 = calc_min_entry_qty_args(
            prices[i],
            inverse,
            c_mult,
            qty_step,
            min_qty,
            min_cost,
        );
        if remaining < meq {
            stop = true;
        } else {
            let q: i64 = fx_min(remaining, fx_max(dflt, meq));
            proof {
                assert(q >= 0);
            }
            let ghost pre = closes@;
            let sq: i64 = if long {
                fx_cap(-q)
            } else {
                fx_cap(q)
            };
            closes.push((sq, prices[i], tag));
            remaining = fx_cap(round_(fx_sub(remaining, q), qty_step));
            i = i + 1;
            proof {
                assert(sq as int == (if long { s_clamp(-(q as int)) } else { s_clamp(q as int) }));
                assert(tuples_view(closes@) =~= tuples_view(pre) + seq![
                    (sq as int, prices@[i - 1] as int, tag),
                ]);
                assert(tuples_view(closes@).subrange(base.len() as int, closes@.len() as int)
                    =~= tuples_view(pre).subrange(base.len() as int, pre.len() as int) + seq![
                    (sq as int, prices@[i - 1] as int, tag),
                ]);
                let em_new = s_front_emit(
                    crate::solvers::view64(prices@),
                    i as int,
                    endi as int,
                    remaining as int,
                    dflt as int,
                    inverse,
                    c_mult as int,
                    qty_step as int,
                    min_qty as int,
                    min_cost as int,
                    long,
                    tag,
                );
                assert((tuples_view(pre).subrange(base.len() as int, pre.len() as int) + seq![
                    (sq as int, prices@[i - 1] as int, tag),
                ]) + em_new.0 =~= tuples_view(pre).subrange(base.len() as int, pre.len() as int)
                    + (seq![(sq as int, prices@[i - 1] as int, tag)] + em_new.0));
            }
        }
    }
    remaining
}

/// Fold the residual into the last element of a non-empty close list.
fn absorb_into_last(
    closes: &mut Vec<(i64, i64, OrderType)>,
    rem: i64,
    qty_step: i64,
    long: bool,
)
    requires
        old(closes)@.len() > 0,
        closes_fx_ok(old(closes)@),
        fx_ok(rem),
        0 < qty_step <= FX_MAX,
    ensures
        tuples_view(final(closes)@) == s_absorb(
            tuples_view(old(closes)@),
            rem as int,
            qty_step as int,
            long,
        ),
        closes_fx_ok(final(closes)@),
{
    let ghost pre = closes@;
    match closes.pop() {
        Option::Some(lc) => {
            let merged: i64 = round_(fx_add(fx_abs(lc.0), rem), qty_step);
            let sq: i64 = if long {
                fx_cap(-merged)
            } else {
                fx_cap(merged)
            };
            closes.push((sq, lc.1, lc.2));
            proof {
                assert(tuples_view(closes@) =~= s_absorb(
                    tuples_view(pre),
                    rem as int,
                    qty_step as int,
                    long,
                ));
            }
        },
        Option::None => {
        },
    }
}

/// Frontwards long close grid (see [`s_close_grid_frontwards_long`]); the
/// returned entries have negative quantities.
#[verifier::rlimit(100)]
pub fn calc_close_grid_frontwards_long(
    balance: i64,
    psize: i64,
    pprice: i64,
    lowest_ask: i64,
    ema_band_upper: i64,
    utc_now_ms: i64,
    prev_au_fill_ts_close: i64,
    inverse: bool,
    qty_step: i64,
    price_step: i64,
    min_qty: i64,
    min_cost: i64,
    c_mult: i64,
    wallet_exposure_limit: i64,
    min_markup: i64,
    markup_range: i64,
    n_close_orders: i64,
    auto_unstuck_wallet_exposure_threshold: i64,
    auto_unstuck_ema_dist: i64,
    auto_unstuck_delay_minutes: i64,
    auto_unstuck_qty_pct: i64,
) -> (r: Vec<(i64, i64, OrderType)>)
    requires
        fx_ok(balance),
        fx_ok(psize),
        fx_ok(pprice),
        fx_ok(lowest_ask),
        fx_ok(ema_band_upper),
        fx_ok(min_markup),
        fx_ok(markup_range),
        0 < qty_step <= FX_MAX,
        0 < price_step <= FX_MAX,
        0 <= min_qty <= FX_MAX,
        0 <= min_cost <= FX_MAX,
        0 < c_mult <= FX_MAX,
        0 <= n_close_orders <= 1000_000_000_000_000,
    ensures
        tuples_view(r@) == s_close_grid_frontwards_long(
            balance as int,
            psize as int,
            pprice as int,
            lowest_ask as int,
            ema_band_upper as int,
            utc_now_ms as int,
            prev_au_fill_ts_close as int,
            inverse,
            qty_step as int,
            price_step as int,
            min_qty as int,
            min_cost as int,
            c_mult as int,
            wallet_exposure_limit as int,
            min_markup as int,
            markup_range as int,
            n_close_orders as int,
            auto_unstuck_wallet_exposure_threshold as int,
            auto_unstuck_ema_dist as int,
            auto_unstuck_delay_minutes as int,
            auto_unstuck_qty_pct as int,
        ),
        closes_fx_ok(r@),
{
    let mut psize_: i64 = fx_cap(round_dn(psize, qty_step));
    if psize_ == 0 {
        let r: Vec<(i64, i64, OrderType)> = vec![(0i64, 0i64, OrderType::Empty)];
        proof {
            assert(tuples_view(r@) =~= seq![(0int, 0int, OrderType::Empty)]);
        }
        return r;
    }
    let n: i64 = count_of(n_close_orders);
    let close_prices: Vec<i64> = front_prices_long(
        pprice,
        min_markup,
        markup_range,
        n,
        price_step,
        lowest_ask,
    );
    if close_prices.len() == 0 {
        let nq: i64 = fx_cap(-psize);
        let r: Vec<(i64, i64, OrderType)> = vec![(nq, lowest_ask, OrderType::CloseNormalLong)];
        proof {
            assert(tuples_view(r@) =~= seq![
                (s_clamp(-(psize as int)), lowest_ask as int, OrderType::CloseNormalLong),
            ]);
        }
        return r;
    }
    let mut closes: Vec<(i64, i64, OrderType)> = Vec::new();
    if auto_unstuck_wallet_exposure_threshold != 0 {
        let au = calc_auto_unstuck_close_long(
            balance,
            psize,
            pprice,
            lowest_ask,
            ema_band_upper,
            utc_now_ms,
            prev_au_fill_ts_close,
            inverse,
            qty_step,
            price_step,
            min_qty,
            min_cost,
            c_mult,
            wallet_exposure_limit,
            auto_unstuck_wallet_exposure_threshold,
            auto_unstuck_ema_dist,
            auto_unstuck_delay_minutes,
            auto_unstuck_qty_pct,
            close_prices[0],
        );
        if au.0 != 0 {
            psize_ = fx_cap(round_(fx_sub(psize_, fx_abs(au.0)), qty_step));
            let min_entry_qty: i64 = calc_min_entry_qty_args(
                au.1,
                inverse,
                c_mult,
                qty_step,
                min_qty,
                min_cost,
            );
            if psize_ < min_entry_qty {
                let nq: i64 = fx_cap(-psize);
                let r: Vec<(i64, i64, OrderType)> = vec![(nq, au.1, OrderType::CloseUnstuckLong)];
                proof {
                    assert(tuples_view(r@) =~= seq![
                        (s_clamp(-(psize as int)), au.1 as int, OrderType::CloseUnstuckLong),
                    ]);
                }
                return r;
            }
            closes.push((au.0, au.1, OrderType::CloseUnstuckLong));
        }
    }
    if close_prices.len() == 1 {
        let meq0: i64 = calc_min_entry_qty_args(
            close_prices[0],
            inverse,
            c_mult,
            qty_step,
            min_qty,
            min_cost,
        );
        if psize_ >= meq0 {
            closes.push((fx_cap(-psize_), close_prices[0], OrderType::CloseNormalLong));
        }
        if closes.len() == 0 {
            let r: Vec<(i64, i64, OrderType)> = vec![(0i64, 0i64, OrderType::Empty)];
            proof {
                assert(tuples_view(r@) =~= seq![(0int, 0int, OrderType::Empty)]);
            }
            return r;
        }
        proof {
            assert(tuples_view(closes@) =~= s_close_grid_frontwards_long(
                balance as int,
                psize as int,
                pprice as int,
                lowest_ask as int,
                ema_band_upper as int,
                utc_now_ms as int,
                prev_au_fill_ts_close as int,
                inverse,
                qty_step as int,
                price_step as int,
                min_qty as int,
                min_cost as int,
                c_mult as int,
                wallet_exposure_limit as int,
                min_markup as int,
                markup_range as int,
                n_close_orders as int,
                auto_unstuck_wallet_exposure_threshold as int,
                auto_unstuck_ema_dist as int,
                auto_unstuck_delay_minutes as int,
                auto_unstuck_qty_pct as int,
            ));
        }
        return closes;
    }
    front_tail(
        &close_prices,
        psize_,
        inverse,
        c_mult,
        qty_step,
        min_qty,
        min_cost,
        true,
        OrderType::CloseNormalLong,
        &mut closes,
    );
    closes
}

/// Frontwards short close grid: mirror of
/// [`s_close_grid_frontwards_long`] over the absolute position size,
/// walking prices downward from the best bid; quantities are positive.
pub open spec fn s_close_grid_frontwards_short(
    balance: int,
    psize: int,
    pprice: int,
    highest_bid: int,
    ema_band_lower: int,
    utc_now_ms: int,
    prev_au_fill_ts_close: int,
    inverse: bool,
    qty_step: int,
    price_step: int,
    min_qty: int,
    min_cost: int,
    c_mult: int,
    wallet_exposure_limit: int,
    min_markup: int,
    markup_range: int,
    n_close_orders: int,
    auto_unstuck_wallet_exposure_threshold: int,
    auto_unstuck_ema_dist: int,
    auto_unstuck_delay_minutes: int,
    auto_unstuck_qty_pct: int,
) -> Seq<(int, int, OrderType)> {
    let psize_0 = s_clamp(s_round_dn(s_abs(psize), qty_step));
    if psize_0 == 0 {
        seq![(0, 0, OrderType::Empty)]
    } else {
        let n = s_count_of(n_close_orders);
        let cps = s_front_prices_short(
            pprice,
            min_markup,
            markup_range,
            n,
            price_step,
            highest_bid,
            0,
        );
        if cps.len() == 0 {
            seq![(psize_0, highest_bid, OrderType::CloseNormalShort)]
        } else {
            let au = if auto_unstuck_wallet_exposure_threshold != 0 {
                s_auto_unstuck_close_short(
                    balance,
                    psize,
                    pprice,
                    highest_bid,
                    ema_band_lower,
                    utc_now_ms,
                    prev_au_fill_ts_close,
                    inverse,
                    qty_step,
                    price_step,
                    min_qty,
                    min_cost,
                    c_mult,
                    wallet_exposure_limit,
                    auto_unstuck_wallet_exposure_threshold,
                    auto_unstuck_ema_dist,
                    auto_unstuck_delay_minutes,
                    auto_unstuck_qty_pct,
                    cps[0],
                )
            } else {
                (0, 0)
            };
            let psize_1 = if au.0 != 0 {
                s_clamp(s_round_nr(s_clamp(psize_0 - s_abs(au.0)), qty_step))
            } else {
                psize_0
            };
            if au.0 != 0 && psize_1 < s_min_entry_qty_parts(
                au.1,
                inverse,
                c_mult,
                qty_step,
                min_qty,
                min_cost,
            ) {
                seq![(s_abs(psize), au.1, OrderType::CloseUnstuckShort)]
            } else {
                let head = if au.0 != 0 {
                    seq![(au.0, au.1, OrderType::CloseUnstuckShort)]
                } else {
                    Seq::<(int, int, OrderType)>::empty()
                };
                if cps.len() == 1 {
                    let meq0 = s_min_entry_qty_parts(
                        cps[0],
                        inverse,
                        c_mult,
                        qty_step,
                        min_qty,
                        min_cost,
                    );
                    if psize_1 >= meq0 {
                        head + seq![(psize_1, cps[0], OrderType::CloseNormalShort)]
                    } else if head.len() == 0 {
                        seq![(0, 0, OrderType::Empty)]
                    } else {
                        head
                    }
                } else {
                    s_front_tail(
                        cps,
                        psize_1,
                        head,
                        inverse,
                        c_mult,
                        qty_step,
                        min_qty,
                        min_cost,
                        false,
                        OrderType::CloseNormalShort,
                    )
                }
            }
        }
    }
}

/// Frontwards short close grid (see [`s_close_grid_frontwards_short`]);
/// the returned entries have positive quantities.
#[verifier::rlimit(100)]
pub fn calc_close_grid_frontwards_short(
    balance: i64,
    psize: i64,
    pprice: i64,
    highest_bid: i64,
    ema_band_lower: i64,
    utc_now_ms: i64,
    prev_au_fill_ts_close: i64,
    inverse: bool,
    qty_step: i64,
    price_step: i64,
    min_qty: i64,
    min_cost: i64,
    c_mult: i64,
    wallet_exposure_limit: i64,
    min_markup: i64,
    markup_range: i64,
    n_close_orders: i64,
    auto_unstuck_wallet_exposure_threshold: i64,
    auto_unstuck_ema_dist: i64,
    auto_unstuck_delay_minutes: i64,
    auto_unstuck_qty_pct: i64,
) -> (r: Vec<(i64, i64, OrderType)>)
    requires
        fx_ok(balance),
        fx_ok(psize),
        fx_ok(pprice),
        fx_ok(highest_bid),
        fx_ok(ema_band_lower),
        fx_ok(min_markup),
        fx_ok(markup_range),
        0 < qty_step <= FX_MAX,
        0 < price_step <= FX_MAX,
        0 <= min_qty <= FX_MAX,
        0 <= min_cost <= FX_MAX,
        0 < c_mult <= FX_MAX,
        0 <= n_close_orders <= 1000_000_000_000_000,
    ensures
        tuples_view(r@) == s_close_grid_frontwards_short(
            balance as int,
            psize as int,
            pprice as int,
            highest_bid as int,
            ema_band_lower as int,
            utc_now_ms as int,
            prev_au_fill_ts_close as int,
            inverse,
            qty_step as int,
            price_step as int,
            min_qty as int,
            min_cost as int,
            c_mult as int,
            wallet_exposure_limit as int,
            min_markup as int,
            markup_range as int,
            n_close_orders as int,
            auto_unstuck_wallet_exposure_threshold as int,
            auto_unstuck_ema_dist as int,
            auto_unstuck_delay_minutes as int,
            auto_unstuck_qty_pct as int,
        ),
        closes_fx_ok(r@),
{
    let mut psize_: i64 = fx_cap(round_dn(fx_abs(psize), qty_step));
    if psize_ == 0 {
        let r: Vec<(i64, i64, OrderType)> = vec![(0i64, 0i64, OrderType::Empty)];
        proof {
            assert(tuples_view(r@) =~= seq![(0int, 0int, OrderType::Empty)]);
        }
        return r;
    }
    let n: i64 = count_of(n_close_orders);
    let close_prices: Vec<i64> = front_prices_short(
        pprice,
        min_markup,
        markup_range,
        n,
        price_step,
        highest_bid,
    );
    if close_prices.len() == 0 {
        let r: Vec<(i64, i64, OrderType)> = vec![
            (psize_, highest_bid, OrderType::CloseNormalShort),
        ];
        proof {
            assert(tuples_view(r@) =~= seq![
                (psize_ as int, highest_bid as int, OrderType::CloseNormalShort),
            ]);
        }
        return r;
    }
    let mut closes: Vec<(i64, i64, OrderType)> = Vec::new();
    if auto_unstuck_wallet_exposure_threshold != 0 {
        let au = calc_auto_unstuck_close_short(
            balance,
            psize,
            pprice,
            highest_bid,
            ema_band_lower,
            utc_now_ms,
            prev_au_fill_ts_close,
            inverse,
            qty_step,
            price_step,
            min_qty,
            min_cost,
            c_mult,
            wallet_exposure_limit,
            auto_unstuck_wallet_exposure_threshold,
            auto_unstuck_ema_dist,
            auto_unstuck_delay_minutes,
            auto_unstuck_qty_pct,
            close_prices[0],
        );
        if au.0 != 0 {
            psize_ = fx_cap(round_(fx_sub(psize_, fx_abs(au.0)), qty_step));
            let min_entry_qty: i64 = calc_min_entry_qty_args(
                au.1,
                inverse,
                c_mult,
                qty_step,
                min_qty,
                min_cost,
            );
            if psize_ < min_entry_qty {
                let aq: i64 = fx_abs(psize);
                let r: Vec<(i64, i64, OrderType)> = vec![
                    (aq, au.1, OrderType::CloseUnstuckShort),
                ];
                proof {
                    assert(tuples_view(r@) =~= seq![
                        (s_abs(psize as int), au.1 as int, OrderType::CloseUnstuckShort),
                    ]);
                }
                return r;
            }
            closes.push((au.0, au.1, OrderType::CloseUnstuckShort));
        }
    }
    if close_prices.len() == 1 {
        let meq0: i64 = calc_min_entry_qty_args(
            close_prices[0],
            inverse,
            c_mult,
            qty_step,
            min_qty,
            min_cost,
        );
        if psize_ >= meq0 {
            closes.push((psize_, close_prices[0], OrderType::CloseNormalShort));
        }
        if closes.len() == 0 {
            let r: Vec<(i64, i64, OrderType)> = vec![(0i64, 0i64, OrderType::Empty)];
            proof {
                assert(tuples_view(r@) =~= seq![(0int, 0int, OrderType::Empty)]);
            }
            return r;
        }
        proof {
            assert(tuples_view(closes@) =~= s_close_grid_frontwards_short(
                balance as int,
                psize as int,
                pprice as int,
                highest_bid as int,
                ema_band_lower as int,
                utc_now_ms as int,
                prev_au_fill_ts_close as int,
                inverse,
                qty_step as int,
                price_step as int,
                min_qty as int,
                min_cost as int,
                c_mult as int,
                wallet_exposure_limit as int,
                min_markup as int,
                markup_range as int,
                n_close_orders as int,
                auto_unstuck_wallet_exposure_threshold as int,
                auto_unstuck_ema_dist as int,
                auto_unstuck_delay_minutes as int,
                auto_unstuck_qty_pct as int,
            ));
        }
        return closes;
    }
    front_tail(
        &close_prices,
        psize_,
        inverse,
        c_mult,
        qty_step,
        min_qty,
        min_cost,
        false,
        OrderType::CloseNormalShort,
        &mut closes,
    );
    closes
}

/// `s` ordered by price, ascending or descending.
pub open spec fn s_sorted_by_price(s: Seq<(int, int, OrderType)>, asc: bool) -> bool {
    forall|i: int, j: int|
        0 <= i < j < s.len() ==> (if asc {
            (#[trigger] s[i]).1 <= (#[trigger] s[j]).1
        } else {
            s[i].1 >= s[j].1
        })
}

/// Stable insertion of `x` into `s`: after every element whose price does
/// not pass it (in the chosen direction).
pub open spec fn s_ins_by_price(
    s: Seq<(int, int, OrderType)>,
    x: (int, int, OrderType),
    asc: bool,
) -> Seq<(int, int, OrderType)>
    decreases s.len(),
{
    if s.len() == 0 {
        seq![x]
    } else if (if asc {
        s.last().1 <= x.1
    } else {
        s.last().1 >= x.1
    }) {
        s.push(x)
    } else {
        s_ins_by_price(s.drop_last(), x, asc).push(s.last())
    }
}

/// Stable sort by price: insert each element, left to right.
pub open spec fn s_sort_by_price(
    s: Seq<(int, int, OrderType)>,
    asc: bool,
) -> Seq<(int, int, OrderType)>
    decreases s.len(),
{
    if s.len() == 0 {
        Seq::empty()
    } else {
        s_ins_by_price(s_sort_by_price(s.drop_last(), asc), s.last(), asc)
    }
}

/// Inserting into a sorted sequence at the boundary position equals the
/// stable insertion, and keeps the sequence sorted.
proof fn lemma_ins_at(
    s: Seq<(int, int, OrderType)>,
    x: (int, int, OrderType),
    pos: int,
    asc: bool,
)
    requires
        s_sorted_by_price(s, asc),
        0 <= pos <= s.len(),
        forall|j: int|
            0 <= j < pos ==> (if asc {
                (#[trigger] s[j]).1 <= x.1
            } else {
                s[j].1 >= x.1
            }),
        pos < s.len() ==> (if asc {
            s[pos].1 > x.1
        } else {
            s[pos].1 < x.1
        }),
    ensures
        s_ins_by_price(s, x, asc) == s.insert(pos, x),
        s_sorted_by_price(s.insert(pos, x), asc),
    decreases s.len(),
{
    if s.len() == 0 {
        assert(s_ins_by_price(s, x, asc) =~= s.insert(pos, x));
    } else if pos == s.len() {
        assert(s_ins_by_price(s, x, asc) =~= s.insert(pos, x));
    } else {
        let last = s.last();
        assert(if asc {
            last.1 > x.1
        } else {
            last.1 < x.1
        }) by {
            if pos < s.len() - 1 {
                assert(s[pos].1 == s[pos].1);
            }
        }
        lemma_ins_at(s.drop_last(), x, pos, asc);
        assert(s_ins_by_price(s, x, asc) =~= s.drop_last().insert(pos, x).push(last));
        assert(s.drop_last().insert(pos, x).push(last) =~= s.insert(pos, x));
    }
    assert forall|i: int, j: int| 0 <= i < j < s.insert(pos, x).len() implies (if asc {
        (#[trigger] s.insert(pos, x)[i]).1 <= (#[trigger] s.insert(pos, x)[j]).1
    } else {
        s.insert(pos, x)[i].1 >= s.insert(pos, x)[j].1
    }) by {
        let t = s.insert(pos, x);
        if i < pos && j < pos {
        } else if i < pos && j == pos {
        } else if i == pos && j > pos {
            assert(t[j] == s[j - 1]);
            if j - 1 > pos {
                assert(s[pos].1 == s[pos].1);
            }
        } else if i < pos && j > pos {
            assert(t[j] == s[j - 1]);
        } else if i > pos && j > pos {
            assert(t[i] == s[i - 1]);
            assert(t[j] == s[j - 1]);
        } else if i == pos && j == pos {
        } else if i > pos && j == pos {
        }
    }
}

/// Stable sort by price, executable side.
fn sort_closes_by_price(v: &Vec<(i64, i64, OrderType)>, asc: bool) -> (r: Vec<
    (i64, i64, OrderType),
>)
    requires
        closes_fx_ok(v@),
    ensures
        tuples_view(r@) == s_sort_by_price(tuples_view(v@), asc),
        closes_fx_ok(r@),
{
    let mut r: Vec<(i64, i64, OrderType)> = Vec::new();
    let mut i: usize = 0;
    while i < v.len()
        invariant
            0 <= i <= v@.len(),
            closes_fx_ok(v@),
            closes_fx_ok(r@),
            tuples_view(r@) == s_sort_by_price(tuples_view(v@).subrange(0, i as int), asc),
            s_sorted_by_price(tuples_view(r@), asc),
        decreases v@.len() - i,
    {
        let x = v[i];
        proof {
            assert(fx_ok(v@[i as int].0) && fx_ok(v@[i as int].1));
        }
        let mut pos: usize = 0;
        let mut scanning: bool = true;
        while scanning
            invariant
                0 <= pos <= r@.len(),
                forall|j: int|
                    0 <= j < pos ==> (if asc {
                        (#[trigger] tuples_view(r@)[j]).1 <= x.1 as int
                    } else {
                        tuples_view(r@)[j].1 >= x.1 as int
                    }),
                !scanning ==> pos == r@.len() || (if asc {
                    tuples_view(r@)[pos as int].1 > x.1 as int
                } else {
                    tuples_view(r@)[pos as int].1 < x.1 as int
                }),
            decreases r@.len() - pos, (if scanning { 1int } else { 0int }),
        {
            if pos >= r.len() {
                scanning = false;
            } else {
                let below: bool = if asc {
                    r[pos].1 <= x.1
                } else {
                    r[pos].1 >= x.1
                };
                if below {
                    pos = pos + 1;
                } else {
                    scanning = false;
                }
            }
        }
        let ghost pre = r@;
        r.insert(pos, x);
        i = i + 1;
        proof {
            lemma_ins_at(
                tuples_view(pre),
                (x.0 as int, x.1 as int, x.2),
                pos as int,
                asc,
            );
            pre.insert_ensures(pos as int, x);
            assert forall|j: int| 0 <= j < r@.len() implies close_entry_ok(#[trigger] r@[j]) by {
                if j < pos {
                    assert(r@[j] == pre[j]);
                } else if j == pos {
                    assert(r@[j] == x);
                } else {
                    assert(r@[j] == pre.insert(pos as int, x)[(j - 1) + 1]);
                    assert(r@[j] == pre[j - 1]);
                }
            }
            assert(tuples_view(r@) =~= tuples_view(pre).insert(
                pos as int,
                (x.0 as int, x.1 as int, x.2),
            ));
            assert(tuples_view(v@).subrange(0, i as int).drop_last() =~= tuples_view(
                v@,
            ).subrange(0, i - 1));
            assert(tuples_view(v@).subrange(0, i as int).last() == (x.0 as int, x.1 as int, x.2));
        }
    }
    proof {
        assert(tuples_view(v@).subrange(0, v@.len() as int) =~= tuples_view(v@));
    }
    r
}

/// Deduplicating scan of the rounded close prices of a backwards grid:
/// `all` collects each distinct rounded price once, `kept` those of them on
/// the tradable side of the book.
pub open spec fn s_back_scan(
    pprice: int,
    min_markup: int,
    markup_range: int,
    n: int,
    price_step: int,
    bound: int,
    long: bool,
    i: int,
    all: Seq<int>,
    kept: Seq<int>,
) -> (Seq<int>, Seq<int>)
    decreases n - i,
{
    if i >= n {
        (all, kept)
    } else {
        let p = s_clamp(
            if long {
                s_round_up(
                    s_raw_close_price(pprice, min_markup, markup_range, n, LONG as int, i),
                    price_step,
                )
            } else {
                s_round_dn(
                    s_raw_close_price(pprice, min_markup, markup_range, n, SHORT as int, i),
                    price_step,
                )
            },
        );
        if all.contains(p) {
            s_back_scan(
                pprice,
                min_markup,
                markup_range,
                n,
                price_step,
                bound,
                long,
                i + 1,
                all,
                kept,
            )
        } else {
            let kept2 = if (if long {
                p >= bound
            } else {
                p <= bound
            }) {
                kept.push(p)
            } else {
                kept
            };
            s_back_scan(
                pprice,
                min_markup,
                markup_range,
                n,
                price_step,
                bound,
                long,
                i + 1,
                all.push(p),
                kept2,
            )
        }
    }
}

/// Deduplicating price scan, executable side; returns `(all, kept)`.
fn back_scan(
    pprice: i64,
    min_markup: i64,
    markup_range: i64,
    n: i64,
    price_step: i64,
    bound: i64,
    long: bool,
) -> (r: (Vec<i64>, Vec<i64>))
    requires
        fx_ok(pprice),
        fx_ok(min_markup),
        fx_ok(markup_range),
        0 <= n <= 1000_000,
        0 < price_step <= FX_MAX,
    ensures
        ({
            let sc = s_back_scan(
                pprice as int,
                min_markup as int,
                markup_range as int,
                n as int,
                price_step as int,
                bound as int,
                long,
                0,
                Seq::empty(),
                Seq::empty(),
            );
            crate::solvers::view64(r.0@) == sc.0 && crate::solvers::view64(r.1@) == sc.1
        }),
        forall|i: int| 0 <= i < r.1@.len() ==> fx_ok(#[trigger] r.1@[i]),
        r.1@.len() <= r.0@.len() <= n,
{
    let raw: Vec<i64> = generate_raw_close_prices(
        pprice,
        min_markup,
        markup_range,
        n,
        if long {
            LONG
        } else {
            SHORT
        },
    );
    let mut all: Vec<i64> = Vec::new();
    let mut kept: Vec<i64> = Vec::new();
    proof {
        assert(crate::solvers::view64(all@) =~= Seq::<int>::empty());
        assert(crate::solvers::view64(kept@) =~= Seq::<int>::empty());
    }
    let mut i: usize = 0;
    while i < raw.len()
        invariant
            raw@.len() == n,
            0 <= i <= raw@.len(),
            0 <= n <= 1000_000,
            0 < price_step <= FX_MAX,
            forall|j: int|
                0 <= j < raw@.len() ==> raw@[j] as int == s_raw_close_price(
                    pprice as int,
                    min_markup as int,
                    markup_range as int,
                    n as int,
                    (if long { LONG as int } else { SHORT as int }),
                    j,
                ) && fx_ok(#[trigger] raw@[j]),
            forall|j: int| 0 <= j < kept@.len() ==> fx_ok(#[trigger] kept@[j]),
            kept@.len() <= all@.len() <= i,
            s_back_scan(
                pprice as int,
                min_markup as int,
                markup_range as int,
                n as int,
                price_step as int,
                bound as int,
                long,
                0,
                Seq::empty(),
                Seq::empty(),
            ) == s_back_scan(
                pprice as int,
                min_markup as int,
                markup_range as int,
                n as int,
                price_step as int,
                bound as int,
                long,
                i as int,
                crate::solvers::view64(all@),
                crate::solvers::view64(kept@),
            ),
        decreases raw@.len() - i,
    {
        let p: i64 = if long {
            fx_cap(round_up(raw[i], price_step))
        } else {
            fx_cap(round_dn(raw[i], price_step))
        };
        let mut dup: bool = false;
        let mut k: usize = 0;
        while k < all.len()
            invariant
                0 <= k <= all@.len(),
                dup == exists|j: int| 0 <= j < k && all@[j] == p,
            decreases all@.len() - k,
        {
            if all[k] == p {
                dup = true;
            }
            k = k + 1;
        }
        proof {
            assert(dup == crate::solvers::view64(all@).contains(p as int)) by {
                if dup {
                    let j = choose|j: int| 0 <= j < all@.len() && all@[j] == p;
                    assert(crate::solvers::view64(all@)[j] == p as int);
                } else {
                    if crate::solvers::view64(all@).contains(p as int) {
                        let j = choose|j: int|
                            0 <= j < all@.len() && crate::solvers::view64(all@)[j] == p as int;
                        assert(all@[j] == p);
                    }
                }
            }
        }
        if !dup {
            let ghost all_pre = all@;
            let ghost kept_pre = kept@;
            all.push(p);
            let keep: bool = if long {
                p >= bound
            } else {
                p <= bound
            };
            if keep {
                kept.push(p);
            }
            proof {
                assert(crate::solvers::view64(all@) =~= crate::solvers::view64(all_pre).push(
                    p as int,
                ));
                if keep {
                    assert(crate::solvers::view64(kept@) =~= crate::solvers::view64(
                        kept_pre,
                    ).push(p as int));
                }
            }
        }
        i = i + 1;
    }
    (all, kept)
}

/// Walk the kept prices of a backwards grid from the farthest (index `i`)
/// toward the nearest, placing the fixed per-level quantity; a level whose
/// placeable quantity falls under its minimum absorbs the residual into
/// the most recent entry (or takes it whole when none exists) and stops.
pub open spec fn s_back_emit(
    prices: Seq<int>,
    i: int,
    rem: int,
    closes: Seq<(int, int, OrderType)>,
    qty_per: int,
    inverse: bool,
    c_mult: int,
    qty_step: int,
    min_qty: int,
    min_cost: int,
    long: bool,
    tag: OrderType,
) -> (Seq<(int, int, OrderType)>, int)
    decreases i + 1,
{
    if i < 0 {
        (closes, rem)
    } else {
        let meq = s_min_entry_qty_parts(prices[i], inverse, c_mult, qty_step, min_qty, min_cost);
        let qty = s_min(rem, s_max(qty_per, meq));
        if qty < meq {
            if closes.len() > 0 {
                (s_absorb(closes, rem, qty_step, long), 0)
            } else {
                (
                    closes.push(
                        (
                            if long {
                                s_clamp(-rem)
                            } else {
                                s_clamp(rem)
                            },
                            prices[i],
                            tag,
                        ),
                    ),
                    0,
                )
            }
        } else {
            let closes2 = closes.push(
                (
                    if long {
                        s_clamp(-qty)
                    } else {
                        s_clamp(qty)
                    },
                    prices[i],
                    tag,
                ),
            );
            let rem2 = s_clamp(s_round_nr(s_clamp(rem - qty), qty_step));
            if rem2 <= 0 {
                (closes2, rem2)
            } else {
                s_back_emit(
                    prices,
                    i - 1,
                    rem2,
                    closes2,
                    qty_per,
                    inverse,
                    c_mult,
                    qty_step,
                    min_qty,
                    min_cost,
                    long,
                    tag,
                )
            }
        }
    }
}

/// Backwards emission walk, executable side; returns the residual.
#[verifier::rlimit(60)]
fn back_emit(
    prices: &Vec<i64>,
    rem0: i64,
    qty_per: i64,
    inverse: bool,
    c_mult: i64,
    qty_step: i64,
    min_qty: i64,
    min_cost: i64,
    long: bool,
    tag: OrderType,
    closes: &mut Vec<(i64, i64, OrderType)>,
) -> (rem: i64)
    requires
        prices@.len() >= 1,
        forall|i: int| 0 <= i < prices@.len() ==> fx_ok(#[trigger] prices@[i]),
        fx_ok(rem0),
        fx_ok(qty_per),
        0 < qty_step <= FX_MAX,
        0 <= min_qty <= FX_MAX,
        0 <= min_cost <= FX_MAX,
        0 < c_mult <= FX_MAX,
        closes_fx_ok(old(closes)@),
    ensures
        ({
            let em = s_back_emit(
                crate::solvers::view64(prices@),
                prices@.len() - 1,
                rem0 as int,
                tuples_view(old(closes)@),
                qty_per as int,
                inverse,
                c_mult as int,
                qty_step as int,
                min_qty as int,
                min_cost as int,
                long,
                tag,
            );
            tuples_view(final(closes)@) == em.0 && rem as int == em.1
        }),
        fx_ok(rem),
        closes_fx_ok(final(closes)@),
{
    let ghost full = s_back_emit(
        crate::solvers::view64(prices@),
        prices@.len() - 1,
        rem0 as int,
        tuples_view(old(closes)@),
        qty_per as int,
        inverse,
        c_mult as int,
        qty_step as int,
        min_qty as int,
        min_cost as int,
        long,
        tag,
    );
    let mut remaining: i64 = rem0;
    let mut i: usize = prices.len();
    let mut stop: bool = false;
    while i > 0 && !stop
        invariant
            prices@.len() >= 1,
            forall|j: int| 0 <= j < prices@.len() ==> fx_ok(#[trigger] prices@[j]),
            fx_ok(remaining),
            fx_ok(qty_per),
            0 < qty_step <= FX_MAX,
            0 <= min_qty <= FX_MAX,
            0 <= min_cost <= FX_MAX,
            0 < c_mult <= FX_MAX,
            0 <= i <= prices@.len(),
            closes_fx_ok(closes@),
            (full.0, full.1) == (if stop {
                (tuples_view(closes@), remaining as int)
            } else {
                s_back_emit(
                    crate::solvers::view64(prices@),
                    i - 1,
                    remaining as int,
                    tuples_view(closes@),
                    qty_per as int,
                    inverse,
                    c_mult as int,
                    qty_step as int,
                    min_qty as int,
                    min_cost as int,
                    long,
                    tag,
                )
            }),
        decreases i, (if stop { 0int } else { 1int }),
    {
        let price: i64 = prices[i - 1];
        let meq: i64 = calc_min_entry_qty_args(
            price,
            inverse,
            c_mult,
            qty_step,
            min_qty,
            min_cost,
        );
        let qty: i64 = fx_min(remaining, fx_max(qty_per, meq));
        if qty < meq {
            if closes.len() > 0 {
                absorb_into_last(closes, remaining, qty_step, long);
            } else {
                let sq: i64 = if long {
                    fx_cap(-remaining)
                } else {
                    fx_cap(remaining)
                };
                let ghost pre = closes@;
                closes.push((sq, price, tag));
                proof {
                    assert(tuples_view(closes@) =~= tuples_view(pre).push(
                        (sq as int, price as int, tag),
                    ));
                }
            }
            remaining = 0;
            stop = true;
        } else {
            proof {
                assert(qty >= 0);
            }
            let sq: i64 = if long {
                fx_cap(-qty)
            } else {
                fx_cap(qty)
            };
            let ghost pre = closes@;
            closes.push((sq, price, tag));
            proof {
                assert(tuples_view(closes@) =~= tuples_view(pre).push(
                    (sq as int, price as int, tag),
                ));
            }
            remaining = fx_cap(round_(fx_sub(remaining, qty), qty_step));
            i = i - 1;
            if remaining <= 0 {
                stop = true;
            }
        }
    }
    remaining
}

/// Backwards long close grid: the per-level quantity is the side's full
/// exposure capacity divided over all distinct levels; levels fill from the
/// farthest price toward the best ask, the residual is absorbed, and the
/// result is ordered by ascending price.
pub open spec fn s_close_grid_backwards_long(
    balance: int,
    psize: int,
    pprice: int,
    lowest_ask: int,
    ema_band_upper: int,
    utc_now_ms: int,
    prev_au_fill_ts_close: int,
    inverse: bool,
    qty_step: int,
    price_step: int,
    min_qty: int,
    min_cost: int,
    c_mult: int,
    wallet_exposure_limit: int,
    min_markup: int,
    markup_range: int,
    n_close_orders: int,
    auto_unstuck_wallet_exposure_threshold: int,
    auto_unstuck_ema_dist: int,
    auto_unstuck_delay_minutes: int,
    auto_unstuck_qty_pct: int,
) -> Seq<(int, int, OrderType)> {
    let psize_0 = s_clamp(s_round_dn(psize, qty_step));
    if psize_0 == 0 {
        seq![(0, 0, OrderType::Empty)]
    } else {
        let full_psize = s_cost_to_qty(s_mul(balance, wallet_exposure_limit), pprice, inverse, c_mult);
        let n = s_clamp_count(
            s_count_of(
                s_max(
                    s_min(
                        n_close_orders,
                        s_div(
                            full_psize,
                            s_min_entry_qty_parts(pprice, inverse, c_mult, qty_step, min_qty, min_cost),
                        ),
                    ),
                    SCALE as int,
                ),
            ),
        );
        let sc = s_back_scan(
            pprice,
            min_markup,
            markup_range,
            n,
            price_step,
            lowest_ask,
            true,
            0,
            Seq::empty(),
            Seq::empty(),
        );
        let cps = sc.1;
        if cps.len() == 0 {
            seq![(s_clamp(-psize), lowest_ask, OrderType::CloseNormalLong)]
        } else {
            let au = if auto_unstuck_wallet_exposure_threshold != 0 {
                s_auto_unstuck_close_long(
                    balance,
                    psize,
                    pprice,
                    lowest_ask,
                    ema_band_upper,
                    utc_now_ms,
                    prev_au_fill_ts_close,
                    inverse,
                    qty_step,
                    price_step,
                    min_qty,
                    min_cost,
                    c_mult,
                    wallet_exposure_limit,
                    auto_unstuck_wallet_exposure_threshold,
                    auto_unstuck_ema_dist,
                    auto_unstuck_delay_minutes,
                    auto_unstuck_qty_pct,
                    cps[0],
                )
            } else {
                (0, 0)
            };
            let psize_1 = if au.0 != 0 {
                s_clamp(s_round_nr(s_clamp(psize_0 - s_abs(au.0)), qty_step))
            } else {
                psize_0
            };
            if au.0 != 0 && psize_1 < s_min_entry_qty_parts(
                au.1,
                inverse,
                c_mult,
                qty_step,
                min_qty,
                min_cost,
            ) {
                seq![(s_clamp(-psize), au.1, OrderType::CloseUnstuckLong)]
            } else {
                let head = if au.0 != 0 {
                    seq![(au.0, au.1, OrderType::CloseUnstuckLong)]
                } else {
                    Seq::<(int, int, OrderType)>::empty()
                };
                if cps.len() == 1 {
                    let meq0 = s_min_entry_qty_parts(
                        cps[0],
                        inverse,
                        c_mult,
                        qty_step,
                        min_qty,
                        min_cost,
                    );
                    if psize_1 >= meq0 {
                        head + seq![(s_clamp(-psize_1), cps[0], OrderType::CloseNormalLong)]
                    } else if head.len() == 0 {
                        seq![(0, 0, OrderType::Empty)]
                    } else {
                        head
                    }
                } else {
                    let qty_per = s_clamp(s_round_up(
                        s_max(s_divt(full_psize, sc.0.len() as int), min_qty),
                        qty_step,
                    ));
                    let em = s_back_emit(
                        cps,
                        cps.len() - 1,
                        psize_1,
                        head,
                        qty_per,
                        inverse,
                        c_mult,
                        qty_step,
                        min_qty,
                        min_cost,
                        true,
                        OrderType::CloseNormalLong,
                    );
                    let after = if em.1 > 0 && em.0.len() > 0 {
                        s_absorb(em.0, em.1, qty_step, true)
                    } else {
                        em.0
                    };
                    let sorted = s_sort_by_price(after, true);
                    if sorted.len() == 0 {
                        seq![(0, 0, OrderType::Empty)]
                    } else {
                        sorted
                    }
                }
            }
        }
    }
}

/// Clamp a level count into the range the price builders accept.
pub open spec fn s_clamp_count(n: int) -> int {
    if n > 1000_000 {
        1000_000
    } else if n < 0 {
        0
    } else {
        n
    }
}

/// Backwards long close grid (see [`s_close_grid_backwards_long`]).
#[verifier::rlimit(100)]
pub fn calc_close_grid_backwards_long(
    balance: i64,
    psize: i64,
    pprice: i64,
    lowest_ask: i64,
    ema_band_upper: i64,
    utc_now_ms: i64,
    prev_au_fill_ts_close: i64,
    inverse: bool,
    qty_step: i64,
    price_step: i64,
    min_qty: i64,
    min_cost: i64,
    c_mult: i64,
    wallet_exposure_limit: i64,
    min_markup: i64,
    markup_range: i64,
    n_close_orders: i64,
    auto_unstuck_wallet_exposure_threshold: i64,
    auto_unstuck_ema_dist: i64,
    auto_unstuck_delay_minutes: i64,
    auto_unstuck_qty_pct: i64,
) -> (r: Vec<(i64, i64, OrderType)>)
    requires
        fx_ok(balance),
        fx_ok(psize),
        fx_ok(pprice),
        fx_ok(lowest_ask),
        fx_ok(ema_band_upper),
        fx_ok(min_markup),
        fx_ok(markup_range),
        fx_ok(wallet_exposure_limit),
        0 < qty_step <= FX_MAX,
        0 < price_step <= FX_MAX,
        0 <= min_qty <= FX_MAX,
        0 <= min_cost <= FX_MAX,
        0 < c_mult <= FX_MAX,
        0 <= n_close_orders <= 1000_000_000_000_000,
    ensures
        tuples_view(r@) == s_close_grid_backwards_long(
            balance as int,
            psize as int,
            pprice as int,
            lowest_ask as int,
            ema_band_upper as int,
            utc_now_ms as int,
            prev_au_fill_ts_close as int,
            inverse,
            qty_step as int,
            price_step as int,
            min_qty as int,
            min_cost as int,
            c_mult as int,
            wallet_exposure_limit as int,
            min_markup as int,
            markup_range as int,
            n_close_orders as int,
            auto_unstuck_wallet_exposure_threshold as int,
            auto_unstuck_ema_dist as int,
            auto_unstuck_delay_minutes as int,
            auto_unstuck_qty_pct as int,
        ),
        closes_fx_ok(r@),
{
    let mut psize_: i64 = fx_cap(round_dn(psize, qty_step));
    if psize_ == 0 {
        let r: Vec<(i64, i64, OrderType)> = vec![(0i64, 0i64, OrderType::Empty)];
        proof {
            assert(tuples_view(r@) =~= seq![(0int, 0int, OrderType::Empty)]);
        }
        return r;
    }
    let full_psize: i64 = cost_to_qty(fx_mul(balance, wallet_exposure_limit), pprice, inverse, c_mult);
    let n_raw: i64 = count_of(fx_max(
        fx_min(
            n_close_orders,
            fx_div(
                full_psize,
                calc_min_entry_qty_args(pprice, inverse, c_mult, qty_step, min_qty, min_cost),
            ),
        ),
        SCALE,
    ));
    let n: i64 = if n_raw > 1000_000 {
        1000_000
    } else if n_raw < 0 {
        0
    } else {
        n_raw
    };
    let sc = back_scan(pprice, min_markup, markup_range, n, price_step, lowest_ask, true);
    let close_prices_all: Vec<i64> = sc.0;
    let close_prices: Vec<i64> = sc.1;
    if close_prices.len() == 0 {
        let nq: i64 = fx_cap(-psize);
        let r: Vec<(i64, i64, OrderType)> = vec![(nq, lowest_ask, OrderType::CloseNormalLong)];
        proof {
            assert(tuples_view(r@) =~= seq![
                (s_clamp(-(psize as int)), lowest_ask as int, OrderType::CloseNormalLong),
            ]);
        }
        return r;
    }
    let mut closes: Vec<(i64, i64, OrderType)> = Vec::new();
    if auto_unstuck_wallet_exposure_threshold != 0 {
        let au = calc_auto_unstuck_close_long(
            balance,
            psize,
            pprice,
            lowest_ask,
            ema_band_upper,
            utc_now_ms,
            prev_au_fill_ts_close,
            inverse,
            qty_step,
            price_step,
            min_qty,
            min_cost,
            c_mult,
            wallet_exposure_limit,
            auto_unstuck_wallet_exposure_threshold,
            auto_unstuck_ema_dist,
            auto_unstuck_delay_minutes,
            auto_unstuck_qty_pct,
            close_prices[0],
        );
        if au.0 != 0 {
            psize_ = fx_cap(round_(fx_sub(psize_, fx_abs(au.0)), qty_step));
            let min_entry_qty: i64 = calc_min_entry_qty_args(
                au.1,
                inverse,
                c_mult,
                qty_step,
                min_qty,
                min_cost,
            );
            if psize_ < min_entry_qty {
                let nq: i64 = fx_cap(-psize);
                let r: Vec<(i64, i64, OrderType)> = vec![
                    (nq, au.1, OrderType::CloseUnstuckLong),
                ];
                proof {
                    assert(tuples_view(r@) =~= seq![
                        (s_clamp(-(psize as int)), au.1 as int, OrderType::CloseUnstuckLong),
                    ]);
                }
                return r;
            }
            closes.push((au.0, au.1, OrderType::CloseUnstuckLong));
            proof {
                assert(tuples_view(closes@) =~= seq![
                    (au.0 as int, au.1 as int, OrderType::CloseUnstuckLong),
                ]);
            }
        }
    }
    proof {
        if closes@.len() == 0 {
            assert(tuples_view(closes@) =~= Seq::<(int, int, OrderType)>::empty());
        }
    }
    if close_prices.len() == 1 {
        let meq0: i64 = calc_min_entry_qty_args(
            close_prices[0],
            inverse,
            c_mult,
            qty_step,
            min_qty,
            min_cost,
        );
        if psize_ >= meq0 {
            let nq: i64 = fx_cap(-psize_);
            let ghost pre1 = closes@;
            closes.push((nq, close_prices[0], OrderType::CloseNormalLong));
            proof {
                assert(tuples_view(closes@) =~= tuples_view(pre1) + seq![
                    (nq as int, close_prices@[0] as int, OrderType::CloseNormalLong),
                ]);
            }
        }
        if closes.len() == 0 {
            let r: Vec<(i64, i64, OrderType)> = vec![(0i64, 0i64, OrderType::Empty)];
            proof {
                assert(tuples_view(r@) =~= seq![(0int, 0int, OrderType::Empty)]);
            }
            return r;
        }
        return closes;
    }
    let qty_per_close: i64 = fx_cap(round_up(
        fx_max(crate::fixed::fx_divt_count(full_psize, close_prices_all.len() as i64), min_qty),
        qty_step,
    ));
    let rem: i64 = back_emit(
        &close_prices,
        psize_,
        qty_per_close,
        inverse,
        c_mult,
        qty_step,
        min_qty,
        min_cost,
        true,
        OrderType::CloseNormalLong,
        &mut closes,
    );
    if rem > 0 && closes.len() > 0 {
        absorb_into_last(&mut closes, rem, qty_step, true);
    }
    let sorted: Vec<(i64, i64, OrderType)> = sort_closes_by_price(&closes, true);
    if sorted.len() == 0 {
        let r: Vec<(i64, i64, OrderType)> = vec![(0i64, 0i64, OrderType::Empty)];
        proof {
            assert(tuples_view(sorted@) =~= Seq::<(int, int, OrderType)>::empty());
            assert(tuples_view(r@) =~= seq![(0int, 0int, OrderType::Empty)]);
        }
        return r;
    }
    sorted
}

/// Backwards short close grid: mirror of
/// [`s_close_grid_backwards_long`] over the absolute size, filling from
/// the farthest (lowest) price toward the best bid and ordering the result
/// by descending price.
pub open spec fn s_close_grid_backwards_short(
    balance: int,
    psize: int,
    pprice: int,
    highest_bid: int,
    ema_band_lower: int,
    utc_now_ms: int,
    prev_au_fill_ts_close: int,
    inverse: bool,
    qty_step: int,
    price_step: int,
    min_qty: int,
    min_cost: int,
    c_mult: int,
    wallet_exposure_limit: int,
    min_markup: int,
    markup_range: int,
    n_close_orders: int,
    auto_unstuck_wallet_exposure_threshold: int,
    auto_unstuck_ema_dist: int,
    auto_unstuck_delay_minutes: int,
    auto_unstuck_qty_pct: int,
) -> Seq<(int, int, OrderType)> {
    let psize_0 = s_clamp(s_round_dn(s_abs(psize), qty_step));
    if psize_0 == 0 {
        seq![(0, 0, OrderType::Empty)]
    } else {
        let full_psize = s_cost_to_qty(s_mul(balance, wallet_exposure_limit), pprice, inverse, c_mult);
        let n = s_clamp_count(
            s_count_of(
                s_max(
                    s_min(
                        n_close_orders,
                        s_div(
                            full_psize,
                            s_min_entry_qty_parts(pprice, inverse, c_mult, qty_step, min_qty, min_cost),
                        ),
                    ),
                    SCALE as int,
                ),
            ),
        );
        let sc = s_back_scan(
            pprice,
            min_markup,
            markup_range,
            n,
            price_step,
            highest_bid,
            false,
            0,
            Seq::empty(),
            Seq::empty(),
        );
        let cps = sc.1;
        if cps.len() == 0 {
            seq![(psize_0, highest_bid, OrderType::CloseNormalShort)]
        } else {
            let au = if auto_unstuck_wallet_exposure_threshold != 0 {
                s_auto_unstuck_close_short(
                    balance,
                    psize,
                    pprice,
                    highest_bid,
                    ema_band_lower,
                    utc_now_ms,
                    prev_au_fill_ts_close,
                    inverse,
                    qty_step,
                    price_step,
                    min_qty,
                    min_cost,
                    c_mult,
                    wallet_exposure_limit,
                    auto_unstuck_wallet_exposure_threshold,
                    auto_unstuck_ema_dist,
                    auto_unstuck_delay_minutes,
                    auto_unstuck_qty_pct,
                    cps[0],
                )
            } else {
                (0, 0)
            };
            let psize_1 = if au.0 != 0 {
                s_clamp(s_round_nr(s_clamp(psize_0 - s_abs(au.0)), qty_step))
            } else {
                psize_0
            };
            if au.0 != 0 && psize_1 < s_min_entry_qty_parts(
                au.1,
                inverse,
                c_mult,
                qty_step,
                min_qty,
                min_cost,
            ) {
                seq![(s_abs(psize), au.1, OrderType::CloseUnstuckShort)]
            } else {
                let head = if au.0 != 0 {
                    seq![(au.0, au.1, OrderType::CloseUnstuckShort)]
                } else {
                    Seq::<(int, int, OrderType)>::empty()
                };
                if cps.len() == 1 {
                    let meq0 = s_min_entry_qty_parts(
                        cps[0],
                        inverse,
                        c_mult,
                        qty_step,
                        min_qty,
                        min_cost,
                    );
                    if psize_1 >= meq0 {
                        head + seq![(psize_1, cps[0], OrderType::CloseNormalShort)]
                    } else if head.len() == 0 {
                        seq![(0, 0, OrderType::Empty)]
                    } else {
                        head
                    }
                } else {
                    let qty_per = s_clamp(s_round_up(
                        s_max(s_divt(full_psize, sc.0.len() as int), min_qty),
                        qty_step,
                    ));
                    let em = s_back_emit(
                        cps,
                        cps.len() - 1,
                        psize_1,
                        head,
                        qty_per,
                        inverse,
                        c_mult,
                        qty_step,
                        min_qty,
                        min_cost,
                        false,
                        OrderType::CloseNormalShort,
                    );
                    let after = if em.1 > 0 && em.0.len() > 0 {
                        s_absorb(em.0, em.1, qty_step, false)
                    } else {
                        em.0
                    };
                    let sorted = s_sort_by_price(after, false);
                    if sorted.len() == 0 {
                        seq![(0, 0, OrderType::Empty)]
                    } else {
                        sorted
                    }
                }
            }
        }
    }
}

/// Backwards short close grid (see [`s_close_grid_backwards_short`]).
#[verifier::rlimit(100)]
pub fn calc_close_grid_backwards_short(
    balance: i64,
    psize: i64,
    pprice: i64,
    highest_bid: i64,
    ema_band_lower: i64,
    utc_now_ms: i64,
    prev_au_fill_ts_close: i64,
    inverse: bool,
    qty_step: i64,
    price_step: i64,
    min_qty: i64,
    min_cost: i64,
    c_mult: i64,
    wallet_exposure_limit: i64,
    min_markup: i64,
    markup_range: i64,
    n_close_orders: i64,
    auto_unstuck_wallet_exposure_threshold: i64,
    auto_unstuck_ema_dist: i64,
    auto_unstuck_delay_minutes: i64,
    auto_unstuck_qty_pct: i64,
) -> (r: Vec<(i64, i64, OrderType)>)
    requires
        fx_ok(balance),
        fx_ok(psize),
        fx_ok(pprice),
        fx_ok(highest_bid),
        fx_ok(ema_band_lower),
        fx_ok(min_markup),
        fx_ok(markup_range),
        fx_ok(wallet_exposure_limit),
        0 < qty_step <= FX_MAX,
        0 < price_step <= FX_MAX,
        0 <= min_qty <= FX_MAX,
        0 <= min_cost <= FX_MAX,
        0 < c_mult <= FX_MAX,
        0 <= n_close_orders <= 1000_000_000_000_000,
    ensures
        tuples_view(r@) == s_close_grid_backwards_short(
            balance as int,
            psize as int,
            pprice as int,
            highest_bid as int,
            ema_band_lower as int,
            utc_now_ms as int,
            prev_au_fill_ts_close as int,
            inverse,
            qty_step as int,
            price_step as int,
            min_qty as int,
            min_cost as int,
            c_mult as int,
            wallet_exposure_limit as int,
            min_markup as int,
            markup_range as int,
            n_close_orders as int,
            auto_unstuck_wallet_exposure_threshold as int,
            auto_unstuck_ema_dist as int,
            auto_unstuck_delay_minutes as int,
            auto_unstuck_qty_pct as int,
        ),
        closes_fx_ok(r@),
{
    let mut psize_: i64 = fx_cap(round_dn(fx_abs(psize), qty_step));
    if psize_ == 0 {
        let r: Vec<(i64, i64, OrderType)> = vec![(0i64, 0i64, OrderType::Empty)];
        proof {
            assert(tuples_view(r@) =~= seq![(0int, 0int, OrderType::Empty)]);
        }
        return r;
    }
    let full_psize: i64 = cost_to_qty(fx_mul(balance, wallet_exposure_limit), pprice, inverse, c_mult);
    let n_raw: i64 = count_of(fx_max(
        fx_min(
            n_close_orders,
            fx_div(
                full_psize,
                calc_min_entry_qty_args(pprice, inverse, c_mult, qty_step, min_qty, min_cost),
            ),
        ),
        SCALE,
    ));
    let n: i64 = if n_raw > 1000_000 {
        1000_000
    } else if n_raw < 0 {
        0
    } else {
        n_raw
    };
    let sc = back_scan(pprice, min_markup, markup_range, n, price_step, highest_bid, false);
    let close_prices_all: Vec<i64> = sc.0;
    let close_prices: Vec<i64> = sc.1;
    if close_prices.len() == 0 {
        let r: Vec<(i64, i64, OrderType)> = vec![
            (psize_, highest_bid, OrderType::CloseNormalShort),
        ];
        proof {
            assert(tuples_view(r@) =~= seq![
                (psize_ as int, highest_bid as int, OrderType::CloseNormalShort),
            ]);
        }
        return r;
    }
    let mut closes: Vec<(i64, i64, OrderType)> = Vec::new();
    if auto_unstuck_wallet_exposure_threshold != 0 {
        let au = calc_auto_unstuck_close_short(
            balance,
            psize,
            pprice,
            highest_bid,
            ema_band_lower,
            utc_now_ms,
            prev_au_fill_ts_close,
            inverse,
            qty_step,
            price_step,
            min_qty,
            min_cost,
            c_mult,
            wallet_exposure_limit,
            auto_unstuck_wallet_exposure_threshold,
            auto_unstuck_ema_dist,
            auto_unstuck_delay_minutes,
            auto_unstuck_qty_pct,
            close_prices[0],
        );
        if au.0 != 0 {
            psize_ = fx_cap(round_(fx_sub(psize_, fx_abs(au.0)), qty_step));
            let min_entry_qty: i64 = calc_min_entry_qty_args(
                au.1,
                inverse,
                c_mult,
                qty_step,
                min_qty,
                min_cost,
            );
            if psize_ < min_entry_qty {
                let aq: i64 = fx_abs(psize);
                let r: Vec<(i64, i64, OrderType)> = vec![
                    (aq, au.1, OrderType::CloseUnstuckShort),
                ];
                proof {
                    assert(tuples_view(r@) =~= seq![
                        (s_abs(psize as int), au.1 as int, OrderType::CloseUnstuckShort),
                    ]);
                }
                return r;
            }
            closes.push((au.0, au.1, OrderType::CloseUnstuckShort));
            proof {
                assert(tuples_view(closes@) =~= seq![
                    (au.0 as int, au.1 as int, OrderType::CloseUnstuckShort),
                ]);
            }
        }
    }
    proof {
        if closes@.len() == 0 {
            assert(tuples_view(closes@) =~= Seq::<(int, int, OrderType)>::empty());
        }
    }
    if close_prices.len() == 1 {
        let meq0: i64 = calc_min_entry_qty_args(
            close_prices[0],
            inverse,
            c_mult,
            qty_step,
            min_qty,
            min_cost,
        );
        if psize_ >= meq0 {
            let ghost pre1 = closes@;
            closes.push((psize_, close_prices[0], OrderType::CloseNormalShort));
            proof {
                assert(tuples_view(closes@) =~= tuples_view(pre1) + seq![
                    (psize_ as int, close_prices@[0] as int, OrderType::CloseNormalShort),
                ]);
            }
        }
        if closes.len() == 0 {
            let r: Vec<(i64, i64, OrderType)> = vec![(0i64, 0i64, OrderType::Empty)];
            proof {
                assert(tuples_view(r@) =~= seq![(0int, 0int, OrderType::Empty)]);
            }
            return r;
        }
        return closes;
    }
    let qty_per_close: i64 = fx_cap(round_up(
        fx_max(crate::fixed::fx_divt_count(full_psize, close_prices_all.len() as i64), min_qty),
        qty_step,
    ));
    let rem: i64 = back_emit(
        &close_prices,
        psize_,
        qty_per_close,
        inverse,
        c_mult,
        qty_step,
        min_qty,
        min_cost,
        false,
        OrderType::CloseNormalShort,
        &mut closes,
    );
    if rem > 0 && closes.len() > 0 {
        absorb_into_last(&mut closes, rem, qty_step, false);
    }
    let sorted: Vec<(i64, i64, OrderType)> = sort_closes_by_price(&closes, false);
    if sorted.len() == 0 {
        let r: Vec<(i64, i64, OrderType)> = vec![(0i64, 0i64, OrderType::Empty)];
        proof {
            assert(tuples_view(sorted@) =~= Seq::<(int, int, OrderType)>::empty());
            assert(tuples_view(r@) =~= seq![(0int, 0int, OrderType::Empty)]);
        }
        return r;
    }
    sorted
}

/// Trailing close for a long position: fires when the running maximum
/// cleared the threshold above the position price and the bid has retraced
/// below the running maximum; closes `close_trailing_qty_pct` of the
/// position at the best bid, or nothing when that stays under the exchange
/// minimum.
pub open spec fn s_trailing_close_long(
    ep: ExchangeParams,
    bp: BotSideConfig,
    ob_bid: int,
    psize: int,
    pprice: int,
    tb: TrailingPriceBundle,
) -> Seq<(int, int, OrderType)> {
    if psize == 0 || bp.close_trailing_threshold_pct <= 0 {
        Seq::empty()
    } else {
        let threshold_price = s_mul(pprice, s_add(SCALE as int, bp.close_trailing_threshold_pct as int));
        let retracement_price = s_mul(
            tb.max_since_open as int,
            s_clamp((SCALE as int) - (bp.close_trailing_retracement_pct as int)),
        );
        if tb.max_since_open as int > threshold_price && ob_bid < retracement_price {
            let close_qty = s_mul(psize, bp.close_trailing_qty_pct as int);
            let meq = crate::entries::s_min_entry_qty(ob_bid, ep);
            if close_qty >= meq {
                seq![(s_clamp(-close_qty), ob_bid, OrderType::CloseTrailingLong)]
            } else {
                Seq::empty()
            }
        } else {
            Seq::empty()
        }
    }
}

/// Trailing close for a short position: mirror of
/// [`s_trailing_close_long`] against the running minimum and the best ask.
pub open spec fn s_trailing_close_short(
    ep: ExchangeParams,
    bp: BotSideConfig,
    ob_ask: int,
    psize: int,
    pprice: int,
    tb: TrailingPriceBundle,
) -> Seq<(int, int, OrderType)> {
    if psize == 0 || bp.close_trailing_threshold_pct <= 0 {
        Seq::empty()
    } else {
        let threshold_price = s_mul(
            pprice,
            s_clamp((SCALE as int) - (bp.close_trailing_threshold_pct as int)),
        );
        let retracement_price = s_mul(
            tb.min_since_open as int,
            s_add(SCALE as int, bp.close_trailing_retracement_pct as int),
        );
        if (tb.min_since_open as int) < threshold_price && ob_ask > retracement_price {
            let close_qty = s_mul(s_abs(psize), bp.close_trailing_qty_pct as int);
            let meq = crate::entries::s_min_entry_qty(ob_ask, ep);
            if close_qty >= meq {
                seq![(s_clamp(close_qty), ob_ask, OrderType::CloseTrailingShort)]
            } else {
                Seq::empty()
            }
        } else {
            Seq::empty()
        }
    }
}

/// The entries of a close list whose tag is not the empty sentinel, from
/// index `i` on.
pub open spec fn s_keep_orders(s: Seq<(int, int, OrderType)>, i: int) -> Seq<(int, int, OrderType)>
    decreases s.len() - i,
{
    if i < 0 || i >= s.len() {
        Seq::empty()
    } else if s[i].2 == OrderType::Empty {
        s_keep_orders(s, i + 1)
    } else {
        seq![s[i]] + s_keep_orders(s, i + 1)
    }
}

/// Builds the emitted orders from a close list, dropping sentinel entries.
fn keep_orders(v: &Vec<(i64, i64, OrderType)>) -> (r: Vec<GridOrder>)
    requires
        closes_fx_ok(v@),
    ensures
        orders_view(r@) == s_keep_orders(tuples_view(v@), 0),
        crate::entries::orders_fx_ok(r@),
{
    let mut r: Vec<GridOrder> = Vec::new();
    let mut i: usize = 0;
    while i < v.len()
        invariant
            0 <= i <= v@.len(),
            closes_fx_ok(v@),
            crate::entries::orders_fx_ok(r@),
            s_keep_orders(tuples_view(v@), 0) == orders_view(r@) + s_keep_orders(
                tuples_view(v@),
                i as int,
            ),
        decreases v@.len() - i,
    {
        let t = v[i];
        proof {
            assert(close_entry_ok(v@[i as int]));
        }
        let ghost pre = r@;
        if !matches!(t.2, OrderType::Empty) {
            r.push(GridOrder { qty: t.0, price: t.1, order_type: t.2 });
        }
        i = i + 1;
        proof {
            if tuples_view(v@)[i - 1].2 != OrderType::Empty {
                assert(orders_view(r@) =~= orders_view(pre) + seq![tuples_view(v@)[i - 1]]);
                assert(orders_view(pre) + (seq![tuples_view(v@)[i - 1]] + s_keep_orders(
                    tuples_view(v@),
                    i as int,
                )) =~= (orders_view(pre) + seq![tuples_view(v@)[i - 1]]) + s_keep_orders(
                    tuples_view(v@),
                    i as int,
                ));
            }
        }
    }
    r
}

/// Close orders for a long position: the trailing close when both trailing
/// parameters are positive and it fires, else the grid distribution chosen
/// by `backwards_tp`, with the unstuck parameters taken from the side
/// configuration and the clock path disabled.
pub open spec fn s_closes_long(
    ep: ExchangeParams,
    bp: BotSideConfig,
    balance: int,
    ob_bid: int,
    ob_ask: int,
    ema_upper: int,
    psize: int,
    pprice: int,
    tb: TrailingPriceBundle,
) -> Seq<(int, int, OrderType)> {
    let tr = if bp.close_trailing_threshold_pct > 0 && bp.close_trailing_retracement_pct > 0 {
        s_trailing_close_long(ep, bp, ob_bid, psize, pprice, tb)
    } else {
        Seq::empty()
    };
    if tr.len() > 0 {
        tr
    } else {
        let grid = if bp.backwards_tp {
            s_close_grid_backwards_long(
                balance,
                psize,
                pprice,
                ob_ask,
                ema_upper,
                0,
                0,
                ep.inverse,
                ep.qty_step as int,
                ep.price_step as int,
                ep.min_qty as int,
                ep.min_cost as int,
                ep.c_mult as int,
                bp.total_wallet_exposure_limit as int,
                bp.close_grid_min_markup as int,
                bp.close_grid_markup_range as int,
                bp.n_close_orders as int,
                bp.unstuck_threshold as int,
                bp.unstuck_ema_dist as int,
                0,
                0,
            )
        } else {
            s_close_grid_frontwards_long(
                balance,
                psize,
                pprice,
                ob_ask,
                ema_upper,
                0,
                0,
                ep.inverse,
                ep.qty_step as int,
                ep.price_step as int,
                ep.min_qty as int,
                ep.min_cost as int,
                ep.c_mult as int,
                bp.total_wallet_exposure_limit as int,
                bp.close_grid_min_markup as int,
                bp.close_grid_markup_range as int,
                bp.n_close_orders as int,
                bp.unstuck_threshold as int,
                bp.unstuck_ema_dist as int,
                0,
                0,
            )
        };
        s_keep_orders(grid, 0)
    }
}

/// Close orders for a long position.
pub fn calc_closes_long(
    exchange_params: &ExchangeParams,
    state_params: &StateParams,
    bot_params: &BotSideConfig,
    position: &Position,
    trailing_price_bundle: &TrailingPriceBundle,
) -> (r: Vec<GridOrder>)
    requires
        exchange_params_wf(*exchange_params),
        state_params_wf(*state_params),
        position_wf(*position),
        bot_params_wf(*bot_params),
        trailing_bundle_wf(*trailing_price_bundle),
        bot_params.n_close_orders <= 1000_000_000_000_000,
    ensures
        orders_view(r@) == s_closes_long(
            *exchange_params,
            *bot_params,
            state_params.balance as int,
            state_params.order_book.spec_best_bid(),
            state_params.order_book.spec_best_ask(),
            state_params.ema_bands.upper as int,
            position.size as int,
            position.price as int,
            *trailing_price_bundle,
        ),
        crate::entries::orders_fx_ok(r@),
{
    let ob_bid: i64 = state_params.order_book.best_bid();
    let ob_ask: i64 = state_params.order_book.best_ask();
    if bot_params.close_trailing_threshold_pct > 0 && bot_params.close_trailing_retracement_pct
        > 0 {
        if position.size != 0 {
            let threshold_price: i64 = fx_mul(
                position.price,
                fx_add(SCALE, bot_params.close_trailing_threshold_pct),
            );
            let retracement_price: i64 = fx_mul(
                trailing_price_bundle.max_since_open,
                fx_sub(SCALE, bot_params.close_trailing_retracement_pct),
            );
            if trailing_price_bundle.max_since_open > threshold_price && ob_bid
                < retracement_price {
                let close_qty: i64 = fx_mul(position.size, bot_params.close_trailing_qty_pct);
                let meq: i64 = crate::entries::calc_min_entry_qty(ob_bid, exchange_params);
                if close_qty >= meq {
                    let nq: i64 = fx_cap(-close_qty);
                    let mut tr: Vec<GridOrder> = Vec::new();
                    tr.push(GridOrder { qty: nq, price: ob_bid, order_type: OrderType::CloseTrailingLong });
                    proof {
                        assert(orders_view(tr@) =~= seq![
                            (nq as int, ob_bid as int, OrderType::CloseTrailingLong),
                        ]);
                    }
                    return tr;
                }
            }
        }
    }
    let grid: Vec<(i64, i64, OrderType)> = if bot_params.backwards_tp {
        calc_close_grid_backwards_long(
            state_params.balance,
            position.size,
            position.price,
            ob_ask,
            state_params.ema_bands.upper,
            0,
            0,
            exchange_params.inverse,
            exchange_params.qty_step,
            exchange_params.price_step,
            exchange_params.min_qty,
            exchange_params.min_cost,
            exchange_params.c_mult,
            bot_params.total_wallet_exposure_limit,
            bot_params.close_grid_min_markup,
            bot_params.close_grid_markup_range,
            bot_params.n_close_orders,
            bot_params.unstuck_threshold,
            bot_params.unstuck_ema_dist,
            0,
            0,
        )
    } else {
        calc_close_grid_frontwards_long(
            state_params.balance,
            position.size,
            position.price,
            ob_ask,
            state_params.ema_bands.upper,
            0,
            0,
            exchange_params.inverse,
            exchange_params.qty_step,
            exchange_params.price_step,
            exchange_params.min_qty,
            exchange_params.min_cost,
            exchange_params.c_mult,
            bot_params.total_wallet_exposure_limit,
            bot_params.close_grid_min_markup,
            bot_params.close_grid_markup_range,
            bot_params.n_close_orders,
            bot_params.unstuck_threshold,
            bot_params.unstuck_ema_dist,
            0,
            0,
        )
    };
    keep_orders(&grid)
}

/// Close orders for a short position: mirror of [`s_closes_long`].
pub open spec fn s_closes_short(
    ep: ExchangeParams,
    bp: BotSideConfig,
    balance: int,
    ob_bid: int,
    ob_ask: int,
    ema_lower: int,
    psize: int,
    pprice: int,
    tb: TrailingPriceBundle,
) -> Seq<(int, int, OrderType)> {
    let tr = if bp.close_trailing_threshold_pct > 0 && bp.close_trailing_retracement_pct > 0 {
        s_trailing_close_short(ep, bp, ob_ask, psize, pprice, tb)
    } else {
        Seq::empty()
    };
    if tr.len() > 0 {
        tr
    } else {
        let grid = if bp.backwards_tp {
            s_close_grid_backwards_short(
                balance,
                psize,
                pprice,
                ob_bid,
                ema_lower,
                0,
                0,
                ep.inverse,
                ep.qty_step as int,
                ep.price_step as int,
                ep.min_qty as int,
                ep.min_cost as int,
                ep.c_mult as int,
                bp.total_wallet_exposure_limit as int,
                bp.close_grid_min_markup as int,
                bp.close_grid_markup_range as int,
                bp.n_close_orders as int,
                bp.unstuck_threshold as int,
                bp.unstuck_ema_dist as int,
                0,
                0,
            )
        } else {
            s_close_grid_frontwards_short(
                balance,
                psize,
                pprice,
                ob_bid,
                ema_lower,
                0,
                0,
                ep.inverse,
                ep.qty_step as int,
                ep.price_step as int,
                ep.min_qty as int,
                ep.min_cost as int,
                ep.c_mult as int,
                bp.total_wallet_exposure_limit as int,
                bp.close_grid_min_markup as int,
                bp.close_grid_markup_range as int,
                bp.n_close_orders as int,
                bp.unstuck_threshold as int,
                bp.unstuck_ema_dist as int,
                0,
                0,
            )
        };
        s_keep_orders(grid, 0)
    }
}

/// Close orders for a short position.
pub fn calc_closes_short(
    exchange_params: &ExchangeParams,
    state_params: &StateParams,
    bot_params: &BotSideConfig,
    position: &Position,
    trailing_price_bundle: &TrailingPriceBundle,
) -> (r: Vec<GridOrder>)
    requires
        exchange_params_wf(*exchange_params),
        state_params_wf(*state_params),
        position_wf(*position),
        bot_params_wf(*bot_params),
        trailing_bundle_wf(*trailing_price_bundle),
        bot_params.n_close_orders <= 1000_000_000_000_000,
    ensures
        orders_view(r@) == s_closes_short(
            *exchange_params,
            *bot_params,
            state_params.balance as int,
            state_params.order_book.spec_best_bid(),
            state_params.order_book.spec_best_ask(),
            state_params.ema_bands.lower as int,
            position.size as int,
            position.price as int,
            *trailing_price_bundle,
        ),
        crate::entries::orders_fx_ok(r@),
{
    let ob_bid: i64 = state_params.order_book.best_bid();
    let ob_ask: i64 = state_params.order_book.best_ask();
    if bot_params.close_trailing_threshold_pct > 0 && bot_params.close_trailing_retracement_pct
        > 0 {
        if position.size != 0 {
            let threshold_price: i64 = fx_mul(
                position.price,
                fx_sub(SCALE, bot_params.close_trailing_threshold_pct),
            );
            let retracement_price: i64 = fx_mul(
                trailing_price_bundle.min_since_open,
                fx_add(SCALE, bot_params.close_trailing_retracement_pct),
            );
            if trailing_price_bundle.min_since_open < threshold_price && ob_ask
                > retracement_price {
                let close_qty: i64 = fx_mul(fx_abs(position.size), bot_params.close_trailing_qty_pct);
                let meq: i64 = crate::entries::calc_min_entry_qty(ob_ask, exchange_params);
                if close_qty >= meq {
                    let pq: i64 = fx_cap(close_qty);
                    let mut tr: Vec<GridOrder> = Vec::new();
                    tr.push(GridOrder { qty: pq, price: ob_ask, order_type: OrderType::CloseTrailingShort });
                    proof {
                        assert(orders_view(tr@) =~= seq![
                            (pq as int, ob_ask as int, OrderType::CloseTrailingShort),
                        ]);
                    }
                    return tr;
                }
            }
        }
    }
    let grid: Vec<(i64, i64, OrderType)> = if bot_params.backwards_tp {
        calc_close_grid_backwards_short(
            state_params.balance,
            position.size,
            position.price,
            ob_bid,
            state_params.ema_bands.lower,
            0,
            0,
            exchange_params.inverse,
            exchange_params.qty_step,
            exchange_params.price_step,
            exchange_params.min_qty,
            exchange_params.min_cost,
            exchange_params.c_mult,
            bot_params.total_wallet_exposure_limit,
            bot_params.close_grid_min_markup,
            bot_params.close_grid_markup_range,
            bot_params.n_close_orders,
            bot_params.unstuck_threshold,
            bot_params.unstuck_ema_dist,
            0,
            0,
        )
    } else {
        calc_close_grid_frontwards_short(
            state_params.balance,
            position.size,
            position.price,
            ob_bid,
            state_params.ema_bands.lower,
            0,
            0,
            exchange_params.inverse,
            exchange_params.qty_step,
            exchange_params.price_step,
            exchange_params.min_qty,
            exchange_params.min_cost,
            exchange_params.c_mult,
            bot_params.total_wallet_exposure_limit,
            bot_params.close_grid_min_markup,
            bot_params.close_grid_markup_range,
            bot_params.n_close_orders,
            bot_params.unstuck_threshold,
            bot_params.unstuck_ema_dist,
            0,
            0,
        )
    };
    keep_orders(&grid)
}

} // verus!
