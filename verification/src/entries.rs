//! Entry engine: initial entries, grid reentries with cropping and
//! inflation, trailing reentries, auto-unstuck entries, the ratio router,
//! and the grid unroller.
//!
//! Orders are emitted with saturated quantity and price, so every emitted
//! [`GridOrder`] holds well-formed fixed-point values.

use vstd::prelude::*;
use crate::fixed::{
    fx_abs, fx_add, fx_div, fx_max, fx_min, fx_mul, fx_ok, fx_round_dn, fx_round_nr, fx_sub,
    s_abs, s_add, s_clamp, s_div, s_max, s_min, s_mul, s_round_dn, s_round_nr, SCALE,
};
use crate::types::{
    BotSideConfig, ExchangeParams, GridOrder, OrderType, Position, StateParams,
    TrailingPriceBundle, bot_params_wf, exchange_params_wf, position_wf, state_params_wf,
    trailing_bundle_wf,
};
use crate::utils::{
    calc_wallet_exposure, calc_wallet_exposure_if_filled, calc_new_psize_pprice, calc_pnl_long,
    calc_pnl_short, cost_to_qty, fx_cap, interp_two, s_cost_to_qty, s_ema_price_ask,
    s_ema_price_bid, s_initial_entry_qty_parts, s_interp_two, s_min_entry_qty_parts,
    s_new_psize_pprice, s_pnl_long, s_pnl_short, s_wallet_exposure, s_wallet_exposure_if_filled,
};
use crate::utils::{calc_ema_price_ask, calc_ema_price_bid};
use crate::solvers::{
    EntryCtx, SolverState, lemma_best_idx_in_range, pick_best_guess, s_best_idx, s_converged,
    s_entry_val, s_rel_err, view64,
};

verus! {

/// [`s_min_entry_qty_parts`] over an [`ExchangeParams`] bundle.
pub open spec fn s_min_entry_qty(price: int, ep: ExchangeParams) -> int {
    s_min_entry_qty_parts(
        price,
        ep.inverse,
        ep.c_mult as int,
        ep.qty_step as int,
        ep.min_qty as int,
        ep.min_cost as int,
    )
}

/// Smallest order quantity the exchange accepts at `price`.
pub fn calc_min_entry_qty(entry_price: i64, exchange_params: &ExchangeParams) -> (r: i64)
    requires
        exchange_params_wf(*exchange_params),
    ensures
        r == s_min_entry_qty(entry_price as int, *exchange_params),
{
    crate::utils::calc_min_entry_qty(
        entry_price,
        exchange_params.inverse,
        exchange_params.c_mult,
        exchange_params.qty_step,
        exchange_params.min_qty,
        exchange_params.min_cost,
    )
}

/// [`s_initial_entry_qty_parts`] over the engine's bundles.
pub open spec fn s_initial_entry_qty(
    ep: ExchangeParams,
    bp: BotSideConfig,
    balance: int,
    entry_price: int,
) -> int {
    s_initial_entry_qty_parts(
        balance,
        entry_price,
        ep.inverse,
        ep.qty_step as int,
        ep.min_qty as int,
        ep.min_cost as int,
        ep.c_mult as int,
        bp.total_wallet_exposure_limit as int,
        bp.entry_initial_qty_pct as int,
    )
}

/// Quantity of the first entry order for a side.
pub fn calc_initial_entry_qty(
    exchange_params: &ExchangeParams,
    bot_params: &BotSideConfig,
    balance: i64,
    entry_price: i64,
) -> (r: i64)
    requires
        exchange_params_wf(*exchange_params),
    ensures
        r == s_initial_entry_qty(*exchange_params, *bot_params, balance as int, entry_price as int),
{
    crate::utils::calc_initial_entry_qty(
        balance,
        entry_price,
        exchange_params.inverse,
        exchange_params.qty_step,
        exchange_params.min_qty,
        exchange_params.min_cost,
        exchange_params.c_mult,
        bot_params.total_wallet_exposure_limit,
        bot_params.entry_initial_qty_pct,
    )
}

/// Grid reentry price on the bid side: the position price stepped down by
/// the exposure-weighted spacing, rounded down, capped at the best bid;
/// zero when the result would not clear one price step.
pub open spec fn s_reentry_price_bid(
    position_price: int,
    wallet_exposure: int,
    order_book_bid: int,
    ep: ExchangeParams,
    bp: BotSideConfig,
) -> int {
    let multiplier = s_mul(
        s_div(wallet_exposure, bp.total_wallet_exposure_limit as int),
        bp.entry_grid_spacing_weight as int,
    );
    let reentry_price = s_min(
        s_round_dn(
            s_mul(
                position_price,
                s_clamp(
                    (SCALE as int) - s_mul(
                        bp.entry_grid_spacing_pct as int,
                        s_add(SCALE as int, multiplier),
                    ),
                ),
            ),
            ep.price_step as int,
        ),
        order_book_bid,
    );
    if reentry_price <= ep.price_step {
        0
    } else {
        reentry_price
    }
}

pub fn calc_reentry_price_bid(
    position_price: i64,
    wallet_exposure: i64,
    order_book_bid: i64,
    exchange_params: &ExchangeParams,
    bot_params: &BotSideConfig,
) -> (r: i64)
    requires
        fx_ok(position_price),
        exchange_params_wf(*exchange_params),
    ensures
        r == s_reentry_price_bid(
            position_price as int,
            wallet_exposure as int,
            order_book_bid as int,
            *exchange_params,
            *bot_params,
        ),
        fx_ok(r),
{
    let multiplier: i64 = fx_mul(
        fx_div(wallet_exposure, bot_params.total_wallet_exposure_limit),
        bot_params.entry_grid_spacing_weight,
    );
    let reentry_price: i64 = fx_min(
        fx_round_dn(
            fx_mul(
                position_price,
                fx_sub(SCALE, fx_mul(bot_params.entry_grid_spacing_pct, fx_add(SCALE, multiplier))),
            ),
            exchange_params.price_step,
        ),
        order_book_bid,
    );
    if reentry_price <= exchange_params.price_step {
        0
    } else {
        reentry_price
    }
}

/// Grid reentry price on the ask side: mirror of [`s_reentry_price_bid`],
/// stepping up, rounding up, floored at the best ask.
pub open spec fn s_reentry_price_ask(
    position_price: int,
    wallet_exposure: int,
    order_book_ask: int,
    ep: ExchangeParams,
    bp: BotSideConfig,
) -> int {
    let multiplier = s_mul(
        s_div(wallet_exposure, bp.total_wallet_exposure_limit as int),
        bp.entry_grid_spacing_weight as int,
    );
    let reentry_price = s_max(
        s_clamp(crate::fixed::s_round_up(
            s_mul(
                position_price,
                s_add(
                    SCALE as int,
                    s_mul(bp.entry_grid_spacing_pct as int, s_add(SCALE as int, multiplier)),
                ),
            ),
            ep.price_step as int,
        )),
        order_book_ask,
    );
    if reentry_price <= ep.price_step {
        0
    } else {
        reentry_price
    }
}

pub fn calc_reentry_price_ask(
    position_price: i64,
    wallet_exposure: i64,
    order_book_ask: i64,
    exchange_params: &ExchangeParams,
    bot_params: &BotSideConfig,
) -> (r: i64)
    requires
        fx_ok(position_price),
        fx_ok(order_book_ask),
        exchange_params_wf(*exchange_params),
    ensures
        r == s_reentry_price_ask(
            position_price as int,
            wallet_exposure as int,
            order_book_ask as int,
            *exchange_params,
            *bot_params,
        ),
        fx_ok(r),
{
    let multiplier: i64 = fx_mul(
        fx_div(wallet_exposure, bot_params.total_wallet_exposure_limit),
        bot_params.entry_grid_spacing_weight,
    );
    let reentry_price: i64 = fx_max(
        fx_cap(crate::utils::round_up(
            fx_mul(
                position_price,
                fx_add(SCALE, fx_mul(bot_params.entry_grid_spacing_pct, fx_add(SCALE, multiplier))),
            ),
            exchange_params.price_step,
        )),
        order_book_ask,
    );
    if reentry_price <= exchange_params.price_step {
        0
    } else {
        reentry_price
    }
}

/// Standard grid reentry quantity: the larger of the double-down multiple
/// of the position and the initial-entry cost share, step-rounded, floored
/// at the exchange minimum.
pub open spec fn s_reentry_qty(
    entry_price: int,
    balance: int,
    position_size: int,
    ep: ExchangeParams,
    bp: BotSideConfig,
) -> int {
    s_max(
        s_min_entry_qty(entry_price, ep),
        s_round_nr(
            s_max(
                s_mul(s_abs(position_size), bp.entry_grid_double_down_factor as int),
                s_mul(
                    s_mul(
                        s_cost_to_qty(balance, entry_price, ep.inverse, ep.c_mult as int),
                        bp.total_wallet_exposure_limit as int,
                    ),
                    bp.entry_initial_qty_pct as int,
                ),
            ),
            ep.qty_step as int,
        ),
    )
}

pub fn calc_reentry_qty(
    entry_price: i64,
    balance: i64,
    position_size: i64,
    exchange_params: &ExchangeParams,
    bot_params: &BotSideConfig,
) -> (r: i64)
    requires
        fx_ok(position_size),
        exchange_params_wf(*exchange_params),
    ensures
        r == s_reentry_qty(
            entry_price as int,
            balance as int,
            position_size as int,
            *exchange_params,
            *bot_params,
        ),
{
    fx_max(
        calc_min_entry_qty(entry_price, exchange_params),
        fx_round_nr(
            fx_max(
                fx_mul(fx_abs(position_size), bot_params.entry_grid_double_down_factor),
                fx_mul(
                    fx_mul(
                        cost_to_qty(balance, entry_price, exchange_params.inverse, exchange_params.c_mult),
                        bot_params.total_wallet_exposure_limit,
                    ),
                    bot_params.entry_initial_qty_pct,
                ),
            ),
            exchange_params.qty_step,
        ),
    )
}

/// Projected exposure and (possibly cropped) reentry quantity: when the
/// fill would push exposure more than 1% over the limit, the quantity is
/// interpolated back to the limit; either way it is floored at the
/// exchange minimum.
pub open spec fn s_cropped_reentry_qty(
    ep: ExchangeParams,
    bp: BotSideConfig,
    psize: int,
    pprice: int,
    wallet_exposure: int,
    balance: int,
    entry_qty: int,
    entry_price: int,
) -> (int, int) {
    let position_size_abs = s_abs(psize);
    let entry_qty_abs = s_abs(entry_qty);
    let weif = s_wallet_exposure_if_filled(
        balance,
        position_size_abs,
        pprice,
        entry_qty_abs,
        entry_price,
        ep.inverse,
        ep,
    );
    let meq = s_min_entry_qty(entry_price, ep);
    if weif > s_mul(bp.total_wallet_exposure_limit as int, 1_010_000_000) {
        let cropped = s_clamp(
            s_interp_two(
                bp.total_wallet_exposure_limit as int,
                wallet_exposure,
                weif,
                position_size_abs,
                s_add(position_size_abs, entry_qty_abs),
            ) - position_size_abs,
        );
        (weif, s_max(s_round_nr(cropped, ep.qty_step as int), meq))
    } else {
        (weif, s_max(entry_qty_abs, meq))
    }
}

pub fn calc_cropped_reentry_qty(
    exchange_params: &ExchangeParams,
    bot_params: &BotSideConfig,
    position: &Position,
    wallet_exposure: i64,
    balance: i64,
    entry_qty: i64,
    entry_price: i64,
) -> (r: (i64, i64))
    requires
        fx_ok(position.size),
        fx_ok(position.price),
        fx_ok(entry_qty),
        fx_ok(entry_price),
        exchange_params_wf(*exchange_params),
    ensures
        (r.0 as int, r.1 as int) == s_cropped_reentry_qty(
            *exchange_params,
            *bot_params,
            position.size as int,
            position.price as int,
            wallet_exposure as int,
            balance as int,
            entry_qty as int,
            entry_price as int,
        ),
        fx_ok(r.0),
{
    let position_size_abs: i64 = fx_abs(position.size);
    let entry_qty_abs: i64 = fx_abs(entry_qty);
    let wallet_exposure_if_filled: i64 = calc_wallet_exposure_if_filled(
        balance,
        position_size_abs,
        position.price,
        entry_qty_abs,
        entry_price,
        exchange_params.inverse,
        exchange_params,
    );
    let min_entry_qty: i64 = calc_min_entry_qty(entry_price, exchange_params);
    if wallet_exposure_if_filled > fx_mul(bot_params.total_wallet_exposure_limit, 1_010_000_000) {
        let cropped: i64 = fx_sub(
            interp_two(
                bot_params.total_wallet_exposure_limit,
                wallet_exposure,
                wallet_exposure_if_filled,
                position_size_abs,
                fx_add(position_size_abs, entry_qty_abs),
            ),
            position_size_abs,
        );
        (
            wallet_exposure_if_filled,
            fx_max(fx_round_nr(cropped, exchange_params.qty_step), min_entry_qty),
        )
    } else {
        (wallet_exposure_if_filled, fx_max(entry_qty_abs, min_entry_qty))
    }
}

/// One refinement step of the entry-engine solver. It differs from the
/// standalone solver in rounding the candidates: the stagnation bump takes
/// an absolute value, and the interpolated guess is rounded before the
/// clamp at zero.
pub open spec fn s_gsolver_step(c: EntryCtx, st: SolverState) -> SolverState {
    let st1 = if st.guesses[st.guesses.len() - 1] == st.guesses[st.guesses.len() - 2] {
        let last = st.guesses[st.guesses.len() - 1];
        let gb = s_clamp(
            s_abs(s_max(s_mul(last, 1_100_000_000), s_add(last, c.ep.qty_step as int))),
        );
        SolverState {
            guesses: st.guesses.push(gb),
            vals: st.vals.push(s_entry_val(c, gb)),
            evals: st.evals,
        }
    } else {
        st
    };
    let m = st1.guesses.len();
    let interp = s_interp_two(
        c.target,
        st1.vals[m - 2],
        st1.vals[m - 1],
        st1.guesses[m - 2],
        st1.guesses[m - 1],
    );
    let g = s_clamp(s_max(s_round_nr(interp, c.ep.qty_step as int), 0));
    let v = s_entry_val(c, g);
    SolverState {
        guesses: st1.guesses.push(g),
        vals: st1.vals.push(v),
        evals: st1.evals.push(s_rel_err(v, c.target)),
    }
}

/// Run up to `k` entry-engine solver steps, stopping once converged.
pub open spec fn s_gsolver_iter(c: EntryCtx, st: SolverState, k: nat) -> SolverState
    decreases k,
{
    if k == 0 || s_converged(st) {
        st
    } else {
        s_gsolver_iter(c, s_gsolver_step(c, st), (k - 1) as nat)
    }
}

proof fn lemma_gsolver_iter_converged(c: EntryCtx, st: SolverState, k: nat)
    requires
        s_converged(st),
    ensures
        s_gsolver_iter(c, st, k) == st,
{
}

proof fn lemma_gsolver_iter_unfold(c: EntryCtx, st: SolverState, k: nat)
    requires
        k > 0,
        !s_converged(st),
    ensures
        s_gsolver_iter(c, st, k) == s_gsolver_iter(c, s_gsolver_step(c, st), (k - 1) as nat),
{
}

proof fn lemma_gsolver_iter_add(c: EntryCtx, st: SolverState, k: nat, j: nat)
    ensures
        s_gsolver_iter(c, st, k + j) == s_gsolver_iter(c, s_gsolver_iter(c, st, k), j),
    decreases k,
{
    if k == 0 {
    } else if s_converged(st) {
        lemma_gsolver_iter_converged(c, st, k + j);
        lemma_gsolver_iter_converged(c, st, k);
        lemma_gsolver_iter_converged(c, st, j);
    } else {
        lemma_gsolver_iter_add(c, s_gsolver_step(c, st), (k - 1) as nat, j);
    }
}

proof fn lemma_gsolver_iter_step_count(c: EntryCtx, st: SolverState, k: nat)
    requires
        k > 0,
        !s_converged(s_gsolver_iter(c, st, (k - 1) as nat)),
    ensures
        s_gsolver_iter(c, st, k) == s_gsolver_step(c, s_gsolver_iter(c, st, (k - 1) as nat)),
    decreases k,
{
    if s_converged(st) {
        lemma_gsolver_iter_converged(c, st, (k - 1) as nat);
        assert(false);
    }
    if k == 1 {
        lemma_gsolver_iter_unfold(c, st, 1);
        assert(s_gsolver_iter(c, s_gsolver_step(c, st), 0) == s_gsolver_step(c, st));
        assert(s_gsolver_iter(c, st, 0) == st);
    } else {
        lemma_gsolver_iter_unfold(c, st, (k - 1) as nat);
        lemma_gsolver_iter_step_count(c, s_gsolver_step(c, st), (k - 1) as nat);
        lemma_gsolver_iter_unfold(c, st, k);
    }
}

/// Initial two-sample state of the entry-engine solver.
pub open spec fn s_gsolver_init(c: EntryCtx, we: int) -> SolverState {
    let g0 = s_clamp(s_round_nr(
        s_div(s_mul(s_abs(c.psize), c.target), s_max(10_000_000, we)),
        c.ep.qty_step as int,
    ));
    let v0 = s_entry_val(c, g0);
    let g1 = s_clamp(s_max(
        s_round_nr(
            s_max(s_mul(g0, 1_200_000_000), s_add(g0, c.ep.qty_step as int)),
            c.ep.qty_step as int,
        ),
        0,
    ));
    let v1 = s_entry_val(c, g1);
    SolverState {
        guesses: seq![g0, g1],
        vals: seq![v0, v1],
        evals: seq![s_rel_err(v0, c.target), s_rel_err(v1, c.target)],
    }
}

/// The quantity the entry-engine solver returns: zero once wallet exposure
/// reaches 99% of the limit, else the best-error guess after up to 15
/// refinement steps toward the side's exposure limit.
pub open spec fn s_entry_qty_to_target(
    ep: ExchangeParams,
    bp: BotSideConfig,
    balance: int,
    psize: int,
    pprice: int,
    entry_price: int,
) -> int {
    let c = EntryCtx {
        balance,
        psize,
        pprice,
        target: bp.total_wallet_exposure_limit as int,
        entry_price,
        inverse: ep.inverse,
        ep,
    };
    let we = s_wallet_exposure(ep.c_mult as int, balance, psize, pprice, ep.inverse);
    if we >= s_mul(c.target, 990_000_000) {
        0
    } else {
        let st = s_gsolver_iter(c, s_gsolver_init(c, we), 15);
        st.guesses[s_best_idx(st.evals, st.evals.len() as int)]
    }
}

/// Iteratively finds an entry quantity bringing wallet exposure to the
/// side's configured limit; returns the best-error guess observed, or zero
/// when exposure already reaches 99% of the limit.
#[verifier::rlimit(60)]
pub fn find_entry_qty_bringing_wallet_exposure_to_target(
    exchange_params: &ExchangeParams,
    bot_params: &BotSideConfig,
    state_params: &StateParams,
    position: &Position,
    entry_price: i64,
) -> (r: i64)
    requires
        exchange_params_wf(*exchange_params),
        state_params_wf(*state_params),
        position_wf(*position),
        bot_params_wf(*bot_params),
        fx_ok(entry_price),
    ensures
        r as int == s_entry_qty_to_target(
            *exchange_params,
            *bot_params,
            state_params.balance as int,
            position.size as int,
            position.price as int,
            entry_price as int,
        ),
        fx_ok(r),
{
    let balance: i64 = state_params.balance;
    let psize: i64 = position.size;
    let pprice: i64 = position.price;
    let target: i64 = bot_params.total_wallet_exposure_limit;
    let ghost c = EntryCtx {
        balance: balance as int,
        psize: psize as int,
        pprice: pprice as int,
        target: target as int,
        entry_price: entry_price as int,
        inverse: exchange_params.inverse,
        ep: *exchange_params,
    };
    let wallet_exposure: i64 = calc_wallet_exposure(
        exchange_params.c_mult,
        balance,
        psize,
        pprice,
        exchange_params.inverse,
    );
    if wallet_exposure >= fx_mul(target, 990_000_000) {
        return 0;
    }
    let qty_step: i64 = exchange_params.qty_step;

    let mut guesses: Vec<i64> = Vec::new();
    let mut vals: Vec<i64> = Vec::new();
    let mut evals: Vec<i64> = Vec::new();

    let g0: i64 = fx_cap(fx_round_nr(
        fx_div(fx_mul(fx_abs(psize), target), fx_max(10_000_000, wallet_exposure)),
        qty_step,
    ));
    let v0: i64 = calc_wallet_exposure_if_filled(
        balance,
        psize,
        pprice,
        g0,
        entry_price,
        exchange_params.inverse,
        exchange_params,
    );
    guesses.push(g0);
    vals.push(v0);
    evals.push(fx_div(fx_abs(fx_sub(v0, target)), target));

    let g1: i64 = fx_cap(fx_max(
        fx_round_nr(fx_max(fx_mul(g0, 1_200_000_000), fx_add(g0, qty_step)), qty_step),
        0,
    ));
    let v1: i64 = calc_wallet_exposure_if_filled(
        balance,
        psize,
        pprice,
        g1,
        entry_price,
        exchange_params.inverse,
        exchange_params,
    );
    guesses.push(g1);
    vals.push(v1);
    evals.push(fx_div(fx_abs(fx_sub(v1, target)), target));

    proof {
        assert(view64(guesses@) =~= s_gsolver_init(c, wallet_exposure as int).guesses);
        assert(view64(vals@) =~= s_gsolver_init(c, wallet_exposure as int).vals);
        assert(view64(evals@) =~= s_gsolver_init(c, wallet_exposure as int).evals);
    }

    let ghost init = s_gsolver_init(c, wallet_exposure as int);
    let mut k: usize = 0;
    let mut stop: bool = evals[1] < 10_000_000;
    while k < 15 && !stop
        invariant
            fx_ok(balance),
            fx_ok(psize),
            fx_ok(pprice),
            fx_ok(entry_price),
            fx_ok(target),
            exchange_params_wf(*exchange_params),
            qty_step == exchange_params.qty_step,
            c == (EntryCtx {
                balance: balance as int,
                psize: psize as int,
                pprice: pprice as int,
                target: target as int,
                entry_price: entry_price as int,
                inverse: exchange_params.inverse,
                ep: *exchange_params,
            }),
            k <= 15,
            view64(guesses@) == s_gsolver_iter(c, init, k as nat).guesses,
            view64(vals@) == s_gsolver_iter(c, init, k as nat).vals,
            view64(evals@) == s_gsolver_iter(c, init, k as nat).evals,
            guesses@.len() == vals@.len(),
            2 <= evals@.len() <= guesses@.len(),
            forall|i: int| 0 <= i < guesses@.len() ==> fx_ok(#[trigger] guesses@[i]),
            stop == s_converged(s_gsolver_iter(c, init, k as nat)),
        decreases 15 - k,
    {
        let ghost st = s_gsolver_iter(c, init, k as nat);
        let n: usize = guesses.len();
        if guesses[n - 1] == guesses[n - 2] {
            let last: i64 = guesses[n - 1];
            let gb: i64 = fx_cap(fx_abs(fx_cap(fx_max(fx_mul(last, 1_100_000_000), fx_add(last, qty_step)))));
            let vb: i64 = calc_wallet_exposure_if_filled(
                balance,
                psize,
                pprice,
                gb,
                entry_price,
                exchange_params.inverse,
                exchange_params,
            );
            guesses.push(gb);
            vals.push(vb);
        }
        let ghost st1 = if st.guesses[st.guesses.len() - 1] == st.guesses[st.guesses.len() - 2] {
            SolverState {
                guesses: st.guesses.push(
                    s_clamp(s_abs(s_max(
                        s_mul(st.guesses[st.guesses.len() - 1], 1_100_000_000),
                        s_add(st.guesses[st.guesses.len() - 1], c.ep.qty_step as int),
                    ))),
                ),
                vals: st.vals.push(
                    s_entry_val(
                        c,
                        s_clamp(s_abs(s_max(
                            s_mul(st.guesses[st.guesses.len() - 1], 1_100_000_000),
                            s_add(st.guesses[st.guesses.len() - 1], c.ep.qty_step as int),
                        ))),
                    ),
                ),
                evals: st.evals,
            }
        } else {
            st
        };
        proof {
            assert(view64(guesses@) =~= st1.guesses);
            assert(view64(vals@) =~= st1.vals);
        }
        let m: usize = guesses.len();
        let interp: i64 = interp_two(target, vals[m - 2], vals[m - 1], guesses[m - 2], guesses[m - 1]);
        let g: i64 = fx_cap(fx_max(fx_round_nr(interp, qty_step), 0));
        let v: i64 = calc_wallet_exposure_if_filled(
            balance,
            psize,
            pprice,
            g,
            entry_price,
            exchange_params.inverse,
            exchange_params,
        );
        let e: i64 = fx_div(fx_abs(fx_sub(v, target)), target);
        guesses.push(g);
        vals.push(v);
        evals.push(e);
        proof {
            assert(view64(guesses@) =~= s_gsolver_step(c, st).guesses);
            assert(view64(vals@) =~= s_gsolver_step(c, st).vals);
            assert(view64(evals@) =~= s_gsolver_step(c, st).evals);
            lemma_gsolver_iter_unfold(c, st, (15 - k) as nat);
        }
        stop = e < 10_000_000;
        k = k + 1;
        proof {
            assert(s_gsolver_iter(c, init, k as nat) == s_gsolver_step(c, st)) by {
                lemma_gsolver_iter_step_count(c, init, k as nat);
            }
        }
    }
    proof {
        let fin = s_gsolver_iter(c, init, k as nat);
        if k < 15 {
            lemma_gsolver_iter_converged(c, fin, (15 - k) as nat);
            lemma_gsolver_iter_add(c, init, k as nat, (15 - k) as nat);
        }
        assert(s_gsolver_iter(c, init, 15) == fin);
        lemma_best_idx_in_range(fin.evals, fin.evals.len() as int);
    }
    pick_best_guess(&evals, &guesses)
}

/// Auto-unstuck entry for a long: an averaging-down order below the lower
/// EMA band, sized by the entry-engine solver, floored at the exchange
/// minimum.
pub open spec fn s_auto_unstuck_entry_long(
    ep: ExchangeParams,
    bp: BotSideConfig,
    balance: int,
    ob_bid: int,
    ema_lower: int,
    psize: int,
    pprice: int,
) -> (int, int, OrderType) {
    let price = s_ema_price_bid(ep.price_step as int, ob_bid, ema_lower, bp.unstuck_ema_dist as int);
    let qty = s_entry_qty_to_target(ep, bp, balance, psize, pprice, s_clamp(price));
    (
        s_clamp(s_max(qty, s_min_entry_qty(s_clamp(price), ep))),
        s_clamp(price),
        OrderType::EntryUnstuckLong,
    )
}

pub fn calc_auto_unstuck_entry_long(
    exchange_params: &ExchangeParams,
    bot_params: &BotSideConfig,
    state_params: &StateParams,
    position: &Position,
) -> (r: GridOrder)
    requires
        exchange_params_wf(*exchange_params),
        state_params_wf(*state_params),
        position_wf(*position),
        bot_params_wf(*bot_params),
    ensures
        (r.qty as int, r.price as int, r.order_type) == s_auto_unstuck_entry_long(
            *exchange_params,
            *bot_params,
            state_params.balance as int,
            state_params.order_book.spec_best_bid(),
            state_params.ema_bands.lower as int,
            position.size as int,
            position.price as int,
        ),
        fx_ok(r.qty),
        fx_ok(r.price),
{
    let ob_bid: i64 = state_params.order_book.best_bid();
    let auto_unstuck_entry_price: i64 = fx_cap(calc_ema_price_bid(
        exchange_params.price_step,
        ob_bid,
        state_params.ema_bands.lower,
        bot_params.unstuck_ema_dist,
    ));
    let auto_unstuck_qty: i64 = find_entry_qty_bringing_wallet_exposure_to_target(
        exchange_params,
        bot_params,
        state_params,
        position,
        auto_unstuck_entry_price,
    );
    let min_entry_qty: i64 = calc_min_entry_qty(auto_unstuck_entry_price, exchange_params);
    GridOrder {
        qty: fx_cap(fx_max(auto_unstuck_qty, min_entry_qty)),
        price: auto_unstuck_entry_price,
        order_type: OrderType::EntryUnstuckLong,
    }
}

/// Auto-unstuck entry for a short: mirror of
/// [`s_auto_unstuck_entry_long`] above the upper EMA band, with negative
/// quantity.
pub open spec fn s_auto_unstuck_entry_short(
    ep: ExchangeParams,
    bp: BotSideConfig,
    balance: int,
    ob_ask: int,
    ema_upper: int,
    psize: int,
    pprice: int,
) -> (int, int, OrderType) {
    let price = s_ema_price_ask(ep.price_step as int, ob_ask, ema_upper, bp.unstuck_ema_dist as int);
    let qty = s_entry_qty_to_target(ep, bp, balance, psize, pprice, s_clamp(price));
    (
        s_clamp(-s_max(qty, s_min_entry_qty(s_clamp(price), ep))),
        s_clamp(price),
        OrderType::EntryUnstuckShort,
    )
}

pub fn calc_auto_unstuck_entry_short(
    exchange_params: &ExchangeParams,
    bot_params: &BotSideConfig,
    state_params: &StateParams,
    position: &Position,
) -> (r: GridOrder)
    requires
        exchange_params_wf(*exchange_params),
        state_params_wf(*state_params),
        position_wf(*position),
        bot_params_wf(*bot_params),
    ensures
        (r.qty as int, r.price as int, r.order_type) == s_auto_unstuck_entry_short(
            *exchange_params,
            *bot_params,
            state_params.balance as int,
            state_params.order_book.spec_best_ask(),
            state_params.ema_bands.upper as int,
            position.size as int,
            position.price as int,
        ),
        fx_ok(r.qty),
        fx_ok(r.price),
{
    let ob_ask: i64 = state_params.order_book.best_ask();
    let auto_unstuck_entry_price: i64 = fx_cap(calc_ema_price_ask(
        exchange_params.price_step,
        ob_ask,
        state_params.ema_bands.upper,
        bot_params.unstuck_ema_dist,
    ));
    let auto_unstuck_qty: i64 = find_entry_qty_bringing_wallet_exposure_to_target(
        exchange_params,
        bot_params,
        state_params,
        position,
        auto_unstuck_entry_price,
    );
    let min_entry_qty: i64 = calc_min_entry_qty(auto_unstuck_entry_price, exchange_params);
    GridOrder {
        qty: fx_cap(-fx_max(auto_unstuck_qty, min_entry_qty)),
        price: auto_unstuck_entry_price,
        order_type: OrderType::EntryUnstuckShort,
    }
}

/// Next grid entry for a long position: initial entry when flat, top-up of
/// a partial initial fill, otherwise a grid reentry that is cropped when it
/// would breach the exposure limit and inflated when the following reentry
/// would fall under a quarter of the double-down cadence.
pub open spec fn s_grid_entry_long(
    ep: ExchangeParams,
    bp: BotSideConfig,
    balance: int,
    ob_bid: int,
    ema_lower: int,
    psize: int,
    pprice: int,
) -> (int, int, OrderType) {
    if bp.total_wallet_exposure_limit == 0 || balance <= 0 {
        (0, 0, OrderType::Empty)
    } else {
        let iep = s_ema_price_bid(
            ep.price_step as int,
            ob_bid,
            ema_lower,
            bp.entry_initial_ema_dist as int,
        );
        if iep <= ep.price_step {
            (0, 0, OrderType::Empty)
        } else {
            let ieq = s_initial_entry_qty(ep, bp, balance, iep);
            if psize == 0 {
                (s_clamp(ieq), s_clamp(iep), OrderType::EntryInitialNormalLong)
            } else if psize < s_mul(ieq, 800_000_000) {
                (
                    s_clamp(s_max(
                        s_min_entry_qty(iep, ep),
                        s_round_dn(s_clamp(ieq - psize), ep.qty_step as int),
                    )),
                    s_clamp(iep),
                    OrderType::EntryInitialPartialLong,
                )
            } else {
                let we = s_wallet_exposure(ep.c_mult as int, balance, psize, pprice, ep.inverse);
                if we >= s_mul(bp.total_wallet_exposure_limit as int, 999_000_000) {
                    (0, 0, OrderType::Empty)
                } else {
                    let rp = s_reentry_price_bid(pprice, we, ob_bid, ep, bp);
                    if rp <= 0 {
                        (0, 0, OrderType::Empty)
                    } else {
                        let rq = s_max(s_reentry_qty(rp, balance, psize, ep, bp), ieq);
                        let cr = s_cropped_reentry_qty(
                            ep,
                            bp,
                            psize,
                            pprice,
                            we,
                            balance,
                            s_clamp(rq),
                            rp,
                        );
                        if cr.1 < rq {
                            (s_clamp(cr.1), s_clamp(rp), OrderType::EntryGridCroppedLong)
                        } else {
                            let np = s_new_psize_pprice(
                                psize,
                                pprice,
                                s_clamp(rq),
                                rp,
                                ep.qty_step as int,
                            );
                            let nrp = s_reentry_price_bid(np.1, cr.0, ob_bid, ep, bp);
                            let nrq = s_max(s_reentry_qty(nrp, balance, np.0, ep, bp), ieq);
                            let ncr = s_cropped_reentry_qty(
                                ep,
                                bp,
                                np.0,
                                np.1,
                                cr.0,
                                balance,
                                s_clamp(nrq),
                                nrp,
                            );
                            let eddf = s_div(ncr.1, np.0);
                            if eddf < s_mul(bp.entry_grid_double_down_factor as int, 250_000_000) {
                                let infl = s_clamp(
                                    s_interp_two(
                                        bp.total_wallet_exposure_limit as int,
                                        we,
                                        cr.0,
                                        psize,
                                        s_add(psize, rq),
                                    ) - psize,
                                );
                                (
                                    s_clamp(s_round_nr(infl, ep.qty_step as int)),
                                    s_clamp(rp),
                                    OrderType::EntryGridInflatedLong,
                                )
                            } else {
                                (s_clamp(rq), s_clamp(rp), OrderType::EntryGridNormalLong)
                            }
                        }
                    }
                }
            }
        }
    }
}

pub fn calc_grid_entry_long(
    exchange_params: &ExchangeParams,
    state_params: &StateParams,
    bot_params: &BotSideConfig,
    position: &Position,
) -> (r: GridOrder)
    requires
        exchange_params_wf(*exchange_params),
        state_params_wf(*state_params),
        position_wf(*position),
        bot_params_wf(*bot_params),
    ensures
        (r.qty as int, r.price as int, r.order_type) == s_grid_entry_long(
            *exchange_params,
            *bot_params,
            state_params.balance as int,
            state_params.order_book.spec_best_bid(),
            state_params.ema_bands.lower as int,
            position.size as int,
            position.price as int,
        ),
        fx_ok(r.qty),
        fx_ok(r.price),
{
    grid_entry_long_at(
        exchange_params,
        bot_params,
        state_params.balance,
        state_params.order_book.best_bid(),
        state_params.ema_bands.lower,
        position.size,
        position.price,
    )
}

/// Scalar-state core of [`calc_grid_entry_long`], reused by the unroller.
#[verifier::rlimit(60)]
fn grid_entry_long_at(
    exchange_params: &ExchangeParams,
    bot_params: &BotSideConfig,
    balance: i64,
    ob_bid: i64,
    ema_lower: i64,
    psize: i64,
    pprice: i64,
) -> (r: GridOrder)
    requires
        exchange_params_wf(*exchange_params),
        bot_params_wf(*bot_params),
        fx_ok(balance),
        fx_ok(ob_bid),
        fx_ok(ema_lower),
        fx_ok(psize),
        fx_ok(pprice),
    ensures
        (r.qty as int, r.price as int, r.order_type) == s_grid_entry_long(
            *exchange_params,
            *bot_params,
            balance as int,
            ob_bid as int,
            ema_lower as int,
            psize as int,
            pprice as int,
        ),
        fx_ok(r.qty),
        fx_ok(r.price),
{
    if bot_params.total_wallet_exposure_limit == 0 || balance <= 0 {
        return GridOrder::default();
    }
    let initial_entry_price: i64 = calc_ema_price_bid(
        exchange_params.price_step,
        ob_bid,
        ema_lower,
        bot_params.entry_initial_ema_dist,
    );
    if initial_entry_price <= exchange_params.price_step {
        return GridOrder::default();
    }
    let initial_entry_qty: i64 = calc_initial_entry_qty(
        exchange_params,
        bot_params,
        balance,
        initial_entry_price,
    );
    if psize == 0 {
        return GridOrder {
            qty: fx_cap(initial_entry_qty),
            price: fx_cap(initial_entry_price),
            order_type: OrderType::EntryInitialNormalLong,
        };
    } else if psize < fx_mul(initial_entry_qty, 800_000_000) {
        return GridOrder {
            qty: fx_cap(fx_max(
                calc_min_entry_qty(initial_entry_price, exchange_params),
                fx_round_dn(fx_sub(initial_entry_qty, psize), exchange_params.qty_step),
            )),
            price: fx_cap(initial_entry_price),
            order_type: OrderType::EntryInitialPartialLong,
        };
    }
    let wallet_exposure: i64 = calc_wallet_exposure(
        exchange_params.c_mult,
        balance,
        psize,
        pprice,
        exchange_params.inverse,
    );
    if wallet_exposure >= fx_mul(bot_params.total_wallet_exposure_limit, 999_000_000) {
        return GridOrder::default();
    }
    let reentry_price: i64 = calc_reentry_price_bid(
        pprice,
        wallet_exposure,
        ob_bid,
        exchange_params,
        bot_params,
    );
    if reentry_price <= 0 {
        return GridOrder::default();
    }
    let reentry_qty: i64 = fx_max(
        calc_reentry_qty(reentry_price, balance, psize, exchange_params, bot_params),
        initial_entry_qty,
    );
    let pos0 = Position { size: psize, price: pprice };
    let cr = calc_cropped_reentry_qty(
        exchange_params,
        bot_params,
        &pos0,
        wallet_exposure,
        balance,
        fx_cap(reentry_qty),
        reentry_price,
    );
    let wallet_exposure_if_filled: i64 = cr.0;
    let reentry_qty_cropped: i64 = cr.1;
    if reentry_qty_cropped < reentry_qty {
        return GridOrder {
            qty: fx_cap(reentry_qty_cropped),
            price: fx_cap(reentry_price),
            order_type: OrderType::EntryGridCroppedLong,
        };
    }
    let np = calc_new_psize_pprice(
        psize,
        pprice,
        fx_cap(reentry_qty),
        reentry_price,
        exchange_params.qty_step,
    );
    let next_reentry_price: i64 = calc_reentry_price_bid(
        np.1,
        wallet_exposure_if_filled,
        ob_bid,
        exchange_params,
        bot_params,
    );
    let next_reentry_qty: i64 = fx_max(
        calc_reentry_qty(next_reentry_price, balance, np.0, exchange_params, bot_params),
        initial_entry_qty,
    );
    let pos1 = Position { size: np.0, price: np.1 };
    let ncr = calc_cropped_reentry_qty(
        exchange_params,
        bot_params,
        &pos1,
        wallet_exposure_if_filled,
        balance,
        fx_cap(next_reentry_qty),
        next_reentry_price,
    );
    let effective_double_down_factor: i64 = fx_div(ncr.1, np.0);
    if effective_double_down_factor < fx_mul(bot_params.entry_grid_double_down_factor, 250_000_000)
    {
        let new_entry_qty: i64 = fx_sub(
            interp_two(
                bot_params.total_wallet_exposure_limit,
                wallet_exposure,
                wallet_exposure_if_filled,
                psize,
                fx_add(psize, reentry_qty),
            ),
            psize,
        );
        GridOrder {
            qty: fx_cap(fx_round_nr(new_entry_qty, exchange_params.qty_step)),
            price: fx_cap(reentry_price),
            order_type: OrderType::EntryGridInflatedLong,
        }
    } else {
        GridOrder {
            qty: fx_cap(reentry_qty),
            price: fx_cap(reentry_price),
            order_type: OrderType::EntryGridNormalLong,
        }
    }
}

/// Next grid entry for a short position: sign-mirror of
/// [`s_grid_entry_long`] over the absolute position size, quoting on the
/// ask side.
pub open spec fn s_grid_entry_short(
    ep: ExchangeParams,
    bp: BotSideConfig,
    balance: int,
    ob_ask: int,
    ema_upper: int,
    psize: int,
    pprice: int,
) -> (int, int, OrderType) {
    if bp.total_wallet_exposure_limit == 0 || balance <= 0 {
        (0, 0, OrderType::Empty)
    } else {
        let iep = s_ema_price_ask(
            ep.price_step as int,
            ob_ask,
            ema_upper,
            bp.entry_initial_ema_dist as int,
        );
        if iep <= ep.price_step {
            (0, 0, OrderType::Empty)
        } else {
            let ieq = s_initial_entry_qty(ep, bp, balance, s_clamp(iep));
            let pa = s_abs(psize);
            if pa == 0 {
                (s_clamp(-ieq), s_clamp(iep), OrderType::EntryInitialNormalShort)
            } else if pa < s_mul(ieq, 800_000_000) {
                (
                    s_clamp(-s_max(
                        s_min_entry_qty(s_clamp(iep), ep),
                        s_round_dn(s_clamp(ieq - pa), ep.qty_step as int),
                    )),
                    s_clamp(iep),
                    OrderType::EntryInitialPartialShort,
                )
            } else {
                let we = s_wallet_exposure(ep.c_mult as int, balance, pa, pprice, ep.inverse);
                if we >= s_mul(bp.total_wallet_exposure_limit as int, 999_000_000) {
                    (0, 0, OrderType::Empty)
                } else {
                    let rp = s_reentry_price_ask(pprice, we, ob_ask, ep, bp);
                    if rp <= 0 {
                        (0, 0, OrderType::Empty)
                    } else {
                        let rq = s_max(s_reentry_qty(rp, balance, pa, ep, bp), ieq);
                        let cr = s_cropped_reentry_qty(
                            ep,
                            bp,
                            psize,
                            pprice,
                            we,
                            balance,
                            s_clamp(rq),
                            rp,
                        );
                        if cr.1 < rq {
                            (s_clamp(-cr.1), s_clamp(rp), OrderType::EntryGridCroppedShort)
                        } else {
                            let np = s_new_psize_pprice(
                                pa,
                                pprice,
                                s_clamp(rq),
                                rp,
                                ep.qty_step as int,
                            );
                            let nrp = s_reentry_price_ask(np.1, cr.0, ob_ask, ep, bp);
                            let nrq = s_max(s_reentry_qty(nrp, balance, np.0, ep, bp), ieq);
                            let ncr = s_cropped_reentry_qty(
                                ep,
                                bp,
                                np.0,
                                np.1,
                                cr.0,
                                balance,
                                s_clamp(nrq),
                                nrp,
                            );
                            let eddf = s_div(ncr.1, np.0);
                            if eddf < s_mul(bp.entry_grid_double_down_factor as int, 250_000_000) {
                                let infl = s_clamp(
                                    s_interp_two(
                                        bp.total_wallet_exposure_limit as int,
                                        we,
                                        cr.0,
                                        pa,
                                        s_add(pa, rq),
                                    ) - pa,
                                );
                                (
                                    s_clamp(-s_round_nr(infl, ep.qty_step as int)),
                                    s_clamp(rp),
                                    OrderType::EntryGridInflatedShort,
                                )
                            } else {
                                (s_clamp(-rq), s_clamp(rp), OrderType::EntryGridNormalShort)
                            }
                        }
                    }
                }
            }
        }
    }
}

pub fn calc_grid_entry_short(
    exchange_params: &ExchangeParams,
    state_params: &StateParams,
    bot_params: &BotSideConfig,
    position: &Position,
) -> (r: GridOrder)
    requires
        exchange_params_wf(*exchange_params),
        state_params_wf(*state_params),
        position_wf(*position),
        bot_params_wf(*bot_params),
    ensures
        (r.qty as int, r.price as int, r.order_type) == s_grid_entry_short(
            *exchange_params,
            *bot_params,
            state_params.balance as int,
            state_params.order_book.spec_best_ask(),
            state_params.ema_bands.upper as int,
            position.size as int,
            position.price as int,
        ),
        fx_ok(r.qty),
        fx_ok(r.price),
{
    grid_entry_short_at(
        exchange_params,
        bot_params,
        state_params.balance,
        state_params.order_book.best_ask(),
        state_params.ema_bands.upper,
        position.size,
        position.price,
    )
}

/// Scalar-state core of [`calc_grid_entry_short`], reused by the unroller.
#[verifier::rlimit(60)]
fn grid_entry_short_at(
    exchange_params: &ExchangeParams,
    bot_params: &BotSideConfig,
    balance: i64,
    ob_ask: i64,
    ema_upper: i64,
    psize: i64,
    pprice: i64,
) -> (r: GridOrder)
    requires
        exchange_params_wf(*exchange_params),
        bot_params_wf(*bot_params),
        fx_ok(balance),
        fx_ok(ob_ask),
        fx_ok(ema_upper),
        fx_ok(psize),
        fx_ok(pprice),
    ensures
        (r.qty as int, r.price as int, r.order_type) == s_grid_entry_short(
            *exchange_params,
            *bot_params,
            balance as int,
            ob_ask as int,
            ema_upper as int,
            psize as int,
            pprice as int,
        ),
        fx_ok(r.qty),
        fx_ok(r.price),
{
    if bot_params.total_wallet_exposure_limit == 0 || balance <= 0 {
        return GridOrder::default();
    }
    let initial_entry_price: i64 = calc_ema_price_ask(
        exchange_params.price_step,
        ob_ask,
        ema_upper,
        bot_params.entry_initial_ema_dist,
    );
    if initial_entry_price <= exchange_params.price_step {
        return GridOrder::default();
    }
    let iep_c: i64 = fx_cap(initial_entry_price);
    let initial_entry_qty: i64 = calc_initial_entry_qty(
        exchange_params,
        bot_params,
        balance,
        iep_c,
    );
    let position_size_abs: i64 = fx_abs(psize);
    if position_size_abs == 0 {
        return GridOrder {
            qty: fx_cap(-initial_entry_qty),
            price: iep_c,
            order_type: OrderType::EntryInitialNormalShort,
        };
    } else if position_size_abs < fx_mul(initial_entry_qty, 800_000_000) {
        return GridOrder {
            qty: fx_cap(-fx_max(
                calc_min_entry_qty(iep_c, exchange_params),
                fx_round_dn(fx_sub(initial_entry_qty, position_size_abs), exchange_params.qty_step),
            )),
            price: iep_c,
            order_type: OrderType::EntryInitialPartialShort,
        };
    }
    let wallet_exposure: i64 = calc_wallet_exposure(
        exchange_params.c_mult,
        balance,
        position_size_abs,
        pprice,
        exchange_params.inverse,
    );
    if wallet_exposure >= fx_mul(bot_params.total_wallet_exposure_limit, 999_000_000) {
        return GridOrder::default();
    }
    let reentry_price: i64 = calc_reentry_price_ask(
        pprice,
        wallet_exposure,
        ob_ask,
        exchange_params,
        bot_params,
    );
    if reentry_price <= 0 {
        return GridOrder::default();
    }
    let reentry_qty: i64 = fx_max(
        calc_reentry_qty(reentry_price, balance, position_size_abs, exchange_params, bot_params),
        initial_entry_qty,
    );
    let pos0 = Position { size: psize, price: pprice };
    let cr = calc_cropped_reentry_qty(
        exchange_params,
        bot_params,
        &pos0,
        wallet_exposure,
        balance,
        fx_cap(reentry_qty),
        reentry_price,
    );
    let wallet_exposure_if_filled: i64 = cr.0;
    let reentry_qty_cropped: i64 = cr.1;
    if reentry_qty_cropped < reentry_qty {
        return GridOrder {
            qty: fx_cap(-reentry_qty_cropped),
            price: fx_cap(reentry_price),
            order_type: OrderType::EntryGridCroppedShort,
        };
    }
    let np = calc_new_psize_pprice(
        position_size_abs,
        pprice,
        fx_cap(reentry_qty),
        reentry_price,
        exchange_params.qty_step,
    );
    let next_reentry_price: i64 = calc_reentry_price_ask(
        np.1,
        wallet_exposure_if_filled,
        ob_ask,
        exchange_params,
        bot_params,
    );
    let next_reentry_qty: i64 = fx_max(
        calc_reentry_qty(next_reentry_price, balance, np.0, exchange_params, bot_params),
        initial_entry_qty,
    );
    let pos1 = Position { size: np.0, price: np.1 };
    let ncr = calc_cropped_reentry_qty(
        exchange_params,
        bot_params,
        &pos1,
        wallet_exposure_if_filled,
        balance,
        fx_cap(next_reentry_qty),
        next_reentry_price,
    );
    let effective_double_down_factor: i64 = fx_div(ncr.1, np.0);
    if effective_double_down_factor < fx_mul(bot_params.entry_grid_double_down_factor, 250_000_000)
    {
        let new_entry_qty: i64 = fx_sub(
            interp_two(
                bot_params.total_wallet_exposure_limit,
                wallet_exposure,
                wallet_exposure_if_filled,
                position_size_abs,
                fx_add(position_size_abs, reentry_qty),
            ),
            position_size_abs,
        );
        GridOrder {
            qty: fx_cap(-fx_round_nr(new_entry_qty, exchange_params.qty_step)),
            price: fx_cap(reentry_price),
            order_type: OrderType::EntryGridInflatedShort,
        }
    } else {
        GridOrder {
            qty: fx_cap(-reentry_qty),
            price: fx_cap(reentry_price),
            order_type: OrderType::EntryGridNormalShort,
        }
    }
}

/// Next trailing entry for a long position: initial/partial entries as in
/// the grid, then a reentry placed only once the configured threshold and
/// retracement conditions on the trailing bundle hold; an untriggered call
/// yields a zero-quantity trailing tag.
pub open spec fn s_trailing_entry_long(
    ep: ExchangeParams,
    bp: BotSideConfig,
    balance: int,
    ob_bid: int,
    ema_lower: int,
    psize: int,
    pprice: int,
    tb: TrailingPriceBundle,
) -> (int, int, OrderType) {
    let iep = s_ema_price_bid(
        ep.price_step as int,
        ob_bid,
        ema_lower,
        bp.entry_initial_ema_dist as int,
    );
    if iep <= ep.price_step {
        (0, 0, OrderType::Empty)
    } else {
        let ieq = s_initial_entry_qty(ep, bp, balance, iep);
        if psize == 0 {
            (s_clamp(ieq), s_clamp(iep), OrderType::EntryInitialNormalLong)
        } else if psize < s_mul(ieq, 800_000_000) {
            (
                s_clamp(s_max(
                    s_min_entry_qty(iep, ep),
                    s_round_dn(s_clamp(ieq - psize), ep.qty_step as int),
                )),
                s_clamp(iep),
                OrderType::EntryInitialPartialLong,
            )
        } else {
            let we = s_wallet_exposure(ep.c_mult as int, balance, psize, pprice, ep.inverse);
            if we > s_mul(bp.total_wallet_exposure_limit as int, 999_000_000) {
                (0, 0, OrderType::Empty)
            } else {
                let trig = s_trailing_entry_trigger_long(ep, bp, ob_bid, pprice, tb);
                if !trig.0 {
                    (0, 0, OrderType::EntryTrailingNormalLong)
                } else {
                    let rp = trig.1;
                    let rq = s_max(s_reentry_qty(rp, balance, psize, ep, bp), ieq);
                    let cr = s_cropped_reentry_qty(
                        ep,
                        bp,
                        psize,
                        pprice,
                        we,
                        balance,
                        s_clamp(rq),
                        s_clamp(rp),
                    );
                    if cr.1 < rq {
                        (s_clamp(cr.1), s_clamp(rp), OrderType::EntryTrailingCroppedLong)
                    } else {
                        (s_clamp(rq), s_clamp(rp), OrderType::EntryTrailingNormalLong)
                    }
                }
            }
        }
    }
}

/// Whether a long trailing entry fires, and at which price. With no
/// threshold the retracement alone triggers at the best bid; with no
/// retracement the threshold price is quoted immediately; with both, the
/// price must first drop below the threshold and then retrace.
pub open spec fn s_trailing_entry_trigger_long(
    ep: ExchangeParams,
    bp: BotSideConfig,
    ob_bid: int,
    pprice: int,
    tb: TrailingPriceBundle,
) -> (bool, int) {
    if bp.entry_trailing_threshold_pct <= 0 {
        if bp.entry_trailing_retracement_pct > 0 && tb.max_since_min as int > s_mul(
            tb.min_since_open as int,
            s_add(SCALE as int, bp.entry_trailing_retracement_pct as int),
        ) {
            (true, ob_bid)
        } else {
            (false, 0)
        }
    } else if bp.entry_trailing_retracement_pct <= 0 {
        (
            true,
            s_min(
                ob_bid,
                s_round_dn(
                    s_mul(pprice, s_clamp((SCALE as int) - (bp.entry_trailing_threshold_pct as int))),
                    ep.price_step as int,
                ),
            ),
        )
    } else {
        if (tb.min_since_open as int) < s_mul(
            pprice,
            s_clamp((SCALE as int) - (bp.entry_trailing_threshold_pct as int)),
        ) && tb.max_since_min as int > s_mul(
            tb.min_since_open as int,
            s_add(SCALE as int, bp.entry_trailing_retracement_pct as int),
        ) {
            (
                true,
                s_min(
                    ob_bid,
                    s_round_dn(
                        s_mul(
                            pprice,
                            s_add(
                                s_clamp(
                                    (SCALE as int) - (bp.entry_trailing_threshold_pct as int),
                                ),
                                bp.entry_trailing_retracement_pct as int,
                            ),
                        ),
                        ep.price_step as int,
                    ),
                ),
            )
        } else {
            (false, 0)
        }
    }
}

pub fn calc_trailing_entry_long(
    exchange_params: &ExchangeParams,
    state_params: &StateParams,
    bot_params: &BotSideConfig,
    position: &Position,
    trailing_price_bundle: &TrailingPriceBundle,
) -> (r: GridOrder)
    requires
        exchange_params_wf(*exchange_params),
        state_params_wf(*state_params),
        position_wf(*position),
        bot_params_wf(*bot_params),
        trailing_bundle_wf(*trailing_price_bundle),
    ensures
        (r.qty as int, r.price as int, r.order_type) == s_trailing_entry_long(
            *exchange_params,
            *bot_params,
            state_params.balance as int,
            state_params.order_book.spec_best_bid(),
            state_params.ema_bands.lower as int,
            position.size as int,
            position.price as int,
            *trailing_price_bundle,
        ),
        fx_ok(r.qty),
        fx_ok(r.price),
{
    trailing_entry_long_at(
        exchange_params,
        bot_params,
        state_params.balance,
        state_params.order_book.best_bid(),
        state_params.ema_bands.lower,
        position.size,
        position.price,
        trailing_price_bundle,
    )
}

/// Scalar-state core of [`calc_trailing_entry_long`], reused by the router.
#[verifier::rlimit(60)]
fn trailing_entry_long_at(
    exchange_params: &ExchangeParams,
    bot_params: &BotSideConfig,
    balance: i64,
    ob_bid: i64,
    ema_lower: i64,
    psize: i64,
    pprice: i64,
    trailing_price_bundle: &TrailingPriceBundle,
) -> (r: GridOrder)
    requires
        exchange_params_wf(*exchange_params),
        bot_params_wf(*bot_params),
        trailing_bundle_wf(*trailing_price_bundle),
        fx_ok(balance),
        fx_ok(ob_bid),
        fx_ok(ema_lower),
        fx_ok(psize),
        fx_ok(pprice),
    ensures
        (r.qty as int, r.price as int, r.order_type) == s_trailing_entry_long(
            *exchange_params,
            *bot_params,
            balance as int,
            ob_bid as int,
            ema_lower as int,
            psize as int,
            pprice as int,
            *trailing_price_bundle,
        ),
        fx_ok(r.qty),
        fx_ok(r.price),
{
    let initial_entry_price: i64 = calc_ema_price_bid(
        exchange_params.price_step,
        ob_bid,
        ema_lower,
        bot_params.entry_initial_ema_dist,
    );
    if initial_entry_price <= exchange_params.price_step {
        return GridOrder::default();
    }
    let initial_entry_qty: i64 = calc_initial_entry_qty(
        exchange_params,
        bot_params,
        balance,
        initial_entry_price,
    );
    if psize == 0 {
        return GridOrder {
            qty: fx_cap(initial_entry_qty),
            price: fx_cap(initial_entry_price),
            order_type: OrderType::EntryInitialNormalLong,
        };
    } else if psize < fx_mul(initial_entry_qty, 800_000_000) {
        return GridOrder {
            qty: fx_cap(fx_max(
                calc_min_entry_qty(initial_entry_price, exchange_params),
                fx_round_dn(fx_sub(initial_entry_qty, psize), exchange_params.qty_step),
            )),
            price: fx_cap(initial_entry_price),
            order_type: OrderType::EntryInitialPartialLong,
        };
    }
    let wallet_exposure: i64 = calc_wallet_exposure(
        exchange_params.c_mult,
        balance,
        psize,
        pprice,
        exchange_params.inverse,
    );
    if wallet_exposure > fx_mul(bot_params.total_wallet_exposure_limit, 999_000_000) {
        return GridOrder::default();
    }
    let mut entry_triggered: bool = false;
    let mut reentry_price: i64 = 0;
    if bot_params.entry_trailing_threshold_pct <= 0 {
        if bot_params.entry_trailing_retracement_pct > 0
            && trailing_price_bundle.max_since_min > fx_mul(
            trailing_price_bundle.min_since_open,
            fx_add(SCALE, bot_params.entry_trailing_retracement_pct),
        ) {
            entry_triggered = true;
            reentry_price = ob_bid;
        }
    } else if bot_params.entry_trailing_retracement_pct <= 0 {
        entry_triggered = true;
        reentry_price = fx_min(
            ob_bid,
            fx_round_dn(
                fx_mul(pprice, fx_sub(SCALE, bot_params.entry_trailing_threshold_pct)),
                exchange_params.price_step,
            ),
        );
    } else {
        if trailing_price_bundle.min_since_open < fx_mul(
            pprice,
            fx_sub(SCALE, bot_params.entry_trailing_threshold_pct),
        ) && trailing_price_bundle.max_since_min > fx_mul(
            trailing_price_bundle.min_since_open,
            fx_add(SCALE, bot_params.entry_trailing_retracement_pct),
        ) {
            entry_triggered = true;
            reentry_price = fx_min(
                ob_bid,
                fx_round_dn(
                    fx_mul(
                        pprice,
                        fx_add(
                            fx_sub(SCALE, bot_params.entry_trailing_threshold_pct),
                            bot_params.entry_trailing_retracement_pct,
                        ),
                    ),
                    exchange_params.price_step,
                ),
            );
        }
    }
    if !entry_triggered {
        return GridOrder { qty: 0, price: 0, order_type: OrderType::EntryTrailingNormalLong };
    }
    let reentry_qty: i64 = fx_max(
        calc_reentry_qty(reentry_price, balance, psize, exchange_params, bot_params),
        initial_entry_qty,
    );
    let pos0 = Position { size: psize, price: pprice };
    let cr = calc_cropped_reentry_qty(
        exchange_params,
        bot_params,
        &pos0,
        wallet_exposure,
        balance,
        fx_cap(reentry_qty),
        fx_cap(reentry_price),
    );
    if cr.1 < reentry_qty {
        GridOrder {
            qty: fx_cap(cr.1),
            price: fx_cap(reentry_price),
            order_type: OrderType::EntryTrailingCroppedLong,
        }
    } else {
        GridOrder {
            qty: fx_cap(reentry_qty),
            price: fx_cap(reentry_price),
            order_type: OrderType::EntryTrailingNormalLong,
        }
    }
}

/// Next trailing entry for a short position: mirror of
/// [`s_trailing_entry_long`] over the absolute size, driven by the
/// maximum-then-retrace side of the bundle.
pub open spec fn s_trailing_entry_short(
    ep: ExchangeParams,
    bp: BotSideConfig,
    balance: int,
    ob_ask: int,
    ema_upper: int,
    psize: int,
    pprice: int,
    tb: TrailingPriceBundle,
) -> (int, int, OrderType) {
    let iep = s_ema_price_ask(
        ep.price_step as int,
        ob_ask,
        ema_upper,
        bp.entry_initial_ema_dist as int,
    );
    if iep <= ep.price_step {
        (0, 0, OrderType::Empty)
    } else {
        let ieq = s_initial_entry_qty(ep, bp, balance, s_clamp(iep));
        let pa = s_abs(psize);
        if pa == 0 {
            (s_clamp(-ieq), s_clamp(iep), OrderType::EntryInitialNormalShort)
        } else if pa < s_mul(ieq, 800_000_000) {
            (
                s_clamp(-s_max(
                    s_min_entry_qty(s_clamp(iep), ep),
                    s_round_dn(s_clamp(ieq - pa), ep.qty_step as int),
                )),
                s_clamp(iep),
                OrderType::EntryInitialPartialShort,
            )
        } else {
            let we = s_wallet_exposure(ep.c_mult as int, balance, pa, pprice, ep.inverse);
            if we > s_mul(bp.total_wallet_exposure_limit as int, 999_000_000) {
                (0, 0, OrderType::Empty)
            } else {
                let trig = s_trailing_entry_trigger_short(ep, bp, ob_ask, pprice, tb);
                if !trig.0 {
                    (0, 0, OrderType::EntryTrailingNormalShort)
                } else {
                    let rp = trig.1;
                    let rq = s_max(s_reentry_qty(rp, balance, pa, ep, bp), ieq);
                    let cr = s_cropped_reentry_qty(
                        ep,
                        bp,
                        psize,
                        pprice,
                        we,
                        balance,
                        s_clamp(rq),
                        s_clamp(rp),
                    );
                    if cr.1 < rq {
                        (s_clamp(-cr.1), s_clamp(rp), OrderType::EntryTrailingCroppedShort)
                    } else {
                        (s_clamp(-rq), s_clamp(rp), OrderType::EntryTrailingNormalShort)
                    }
                }
            }
        }
    }
}

/// Whether a short trailing entry fires, and at which price.
pub open spec fn s_trailing_entry_trigger_short(
    ep: ExchangeParams,
    bp: BotSideConfig,
    ob_ask: int,
    pprice: int,
    tb: TrailingPriceBundle,
) -> (bool, int) {
    if bp.entry_trailing_threshold_pct <= 0 {
        if bp.entry_trailing_retracement_pct > 0 && (tb.min_since_max as int) < s_mul(
            tb.max_since_open as int,
            s_clamp((SCALE as int) - (bp.entry_trailing_retracement_pct as int)),
        ) {
            (true, ob_ask)
        } else {
            (false, 0)
        }
    } else if bp.entry_trailing_retracement_pct <= 0 {
        (
            true,
            s_max(
                ob_ask,
                s_clamp(crate::fixed::s_round_up(
                    s_mul(pprice, s_add(SCALE as int, bp.entry_trailing_threshold_pct as int)),
                    ep.price_step as int,
                )),
            ),
        )
    } else {
        if tb.max_since_open as int > s_mul(
            pprice,
            s_add(SCALE as int, bp.entry_trailing_threshold_pct as int),
        ) && (tb.min_since_max as int) < s_mul(
            tb.max_since_open as int,
            s_clamp((SCALE as int) - (bp.entry_trailing_retracement_pct as int)),
        ) {
            (
                true,
                s_max(
                    ob_ask,
                    s_clamp(crate::fixed::s_round_up(
                        s_mul(
                            pprice,
                            s_clamp(
                                s_add(
                                    SCALE as int,
                                    bp.entry_trailing_threshold_pct as int,
                                ) - (bp.entry_trailing_retracement_pct as int),
                            ),
                        ),
                        ep.price_step as int,
                    )),
                ),
            )
        } else {
            (false, 0)
        }
    }
}

pub fn calc_trailing_entry_short(
    exchange_params: &ExchangeParams,
    state_params: &StateParams,
    bot_params: &BotSideConfig,
    position: &Position,
    trailing_price_bundle: &TrailingPriceBundle,
) -> (r: GridOrder)
    requires
        exchange_params_wf(*exchange_params),
        state_params_wf(*state_params),
        position_wf(*position),
        bot_params_wf(*bot_params),
        trailing_bundle_wf(*trailing_price_bundle),
    ensures
        (r.qty as int, r.price as int, r.order_type) == s_trailing_entry_short(
            *exchange_params,
            *bot_params,
            state_params.balance as int,
            state_params.order_book.spec_best_ask(),
            state_params.ema_bands.upper as int,
            position.size as int,
            position.price as int,
            *trailing_price_bundle,
        ),
        fx_ok(r.qty),
        fx_ok(r.price),
{
    trailing_entry_short_at(
        exchange_params,
        bot_params,
        state_params.balance,
        state_params.order_book.best_ask(),
        state_params.ema_bands.upper,
        position.size,
        position.price,
        trailing_price_bundle,
    )
}

/// Scalar-state core of [`calc_trailing_entry_short`], reused by the router.
#[verifier::rlimit(60)]
fn trailing_entry_short_at(
    exchange_params: &ExchangeParams,
    bot_params: &BotSideConfig,
    balance: i64,
    ob_ask: i64,
    ema_upper: i64,
    psize: i64,
    pprice: i64,
    trailing_price_bundle: &TrailingPriceBundle,
) -> (r: GridOrder)
    requires
        exchange_params_wf(*exchange_params),
        bot_params_wf(*bot_params),
        trailing_bundle_wf(*trailing_price_bundle),
        fx_ok(balance),
        fx_ok(ob_ask),
        fx_ok(ema_upper),
        fx_ok(psize),
        fx_ok(pprice),
    ensures
        (r.qty as int, r.price as int, r.order_type) == s_trailing_entry_short(
            *exchange_params,
            *bot_params,
            balance as int,
            ob_ask as int,
            ema_upper as int,
            psize as int,
            pprice as int,
            *trailing_price_bundle,
        ),
        fx_ok(r.qty),
        fx_ok(r.price),
{
    let initial_entry_price: i64 = calc_ema_price_ask(
        exchange_params.price_step,
        ob_ask,
        ema_upper,
        bot_params.entry_initial_ema_dist,
    );
    if initial_entry_price <= exchange_params.price_step {
        return GridOrder::default();
    }
    let iep_c: i64 = fx_cap(initial_entry_price);
    let initial_entry_qty: i64 = calc_initial_entry_qty(
        exchange_params,
        bot_params,
        balance,
        iep_c,
    );
    let position_size_abs: i64 = fx_abs(psize);
    if position_size_abs == 0 {
        return GridOrder {
            qty: fx_cap(-initial_entry_qty),
            price: iep_c,
            order_type: OrderType::EntryInitialNormalShort,
        };
    } else if position_size_abs < fx_mul(initial_entry_qty, 800_000_000) {
        return GridOrder {
            qty: fx_cap(-fx_max(
                calc_min_entry_qty(iep_c, exchange_params),
                fx_round_dn(fx_sub(initial_entry_qty, position_size_abs), exchange_params.qty_step),
            )),
            price: iep_c,
            order_type: OrderType::EntryInitialPartialShort,
        };
    }
    let wallet_exposure: i64 = calc_wallet_exposure(
        exchange_params.c_mult,
        balance,
        position_size_abs,
        pprice,
        exchange_params.inverse,
    );
    if wallet_exposure > fx_mul(bot_params.total_wallet_exposure_limit, 999_000_000) {
        return GridOrder::default();
    }
    let mut entry_triggered: bool = false;
    let mut reentry_price: i64 = 0;
    if bot_params.entry_trailing_threshold_pct <= 0 {
        if bot_params.entry_trailing_retracement_pct > 0
            && trailing_price_bundle.min_since_max < fx_mul(
            trailing_price_bundle.max_since_open,
            fx_sub(SCALE, bot_params.entry_trailing_retracement_pct),
        ) {
            entry_triggered = true;
            reentry_price = ob_ask;
        }
    } else if bot_params.entry_trailing_retracement_pct <= 0 {
        entry_triggered = true;
        reentry_price = fx_max(
            ob_ask,
            fx_cap(crate::utils::round_up(
                fx_mul(pprice, fx_add(SCALE, bot_params.entry_trailing_threshold_pct)),
                exchange_params.price_step,
            )),
        );
    } else {
        if trailing_price_bundle.max_since_open > fx_mul(
            pprice,
            fx_add(SCALE, bot_params.entry_trailing_threshold_pct),
        ) && trailing_price_bundle.min_since_max < fx_mul(
            trailing_price_bundle.max_since_open,
            fx_sub(SCALE, bot_params.entry_trailing_retracement_pct),
        ) {
            entry_triggered = true;
            reentry_price = fx_max(
                ob_ask,
                fx_cap(crate::utils::round_up(
                    fx_mul(
                        pprice,
                        fx_sub(
                            fx_add(SCALE, bot_params.entry_trailing_threshold_pct),
                            bot_params.entry_trailing_retracement_pct,
                        ),
                    ),
                    exchange_params.price_step,
                )),
            );
        }
    }
    if !entry_triggered {
        return GridOrder { qty: 0, price: 0, order_type: OrderType::EntryTrailingNormalShort };
    }
    let reentry_qty: i64 = fx_max(
        calc_reentry_qty(reentry_price, balance, position_size_abs, exchange_params, bot_params),
        initial_entry_qty,
    );
    let pos0 = Position { size: psize, price: pprice };
    let cr = calc_cropped_reentry_qty(
        exchange_params,
        bot_params,
        &pos0,
        wallet_exposure,
        balance,
        fx_cap(reentry_qty),
        fx_cap(reentry_price),
    );
    if cr.1 < reentry_qty {
        GridOrder {
            qty: fx_cap(-cr.1),
            price: fx_cap(reentry_price),
            order_type: OrderType::EntryTrailingCroppedShort,
        }
    } else {
        GridOrder {
            qty: fx_cap(-reentry_qty),
            price: fx_cap(reentry_price),
            order_type: OrderType::EntryTrailingNormalShort,
        }
    }
}

/// Ratio router for long entries. With `r = entry_trailing_grid_ratio`:
/// `|r| >= 1` means trailing only, `r == 0` grid only; `r > 0` trails while
/// the exposure ratio is under `r` (capping the trailing phase at
/// `limit * r * 1.01` once exposure is non-zero), then switches to the
/// grid; `r < 0` mirrors with the grid phase first.
#[verifier::opaque]
pub open spec fn s_next_entry_long(
    ep: ExchangeParams,
    bp: BotSideConfig,
    balance: int,
    ob_bid: int,
    ema_lower: int,
    psize: int,
    pprice: int,
    tb: TrailingPriceBundle,
) -> (int, int, OrderType) {
    if bp.total_wallet_exposure_limit == 0 || balance <= 0 {
        (0, 0, OrderType::Empty)
    } else if bp.entry_trailing_grid_ratio >= SCALE || bp.entry_trailing_grid_ratio <= -SCALE {
        s_trailing_entry_long(ep, bp, balance, ob_bid, ema_lower, psize, pprice, tb)
    } else if bp.entry_trailing_grid_ratio == 0 {
        s_grid_entry_long(ep, bp, balance, ob_bid, ema_lower, psize, pprice)
    } else {
        let we = s_wallet_exposure(ep.c_mult as int, balance, psize, pprice, ep.inverse);
        let wer = s_div(we, bp.total_wallet_exposure_limit as int);
        if bp.entry_trailing_grid_ratio > 0 {
            if wer < bp.entry_trailing_grid_ratio {
                if we == 0 {
                    s_trailing_entry_long(ep, bp, balance, ob_bid, ema_lower, psize, pprice, tb)
                } else {
                    s_trailing_entry_long(
                        ep,
                        s_scaled_limit(bp, bp.entry_trailing_grid_ratio as int),
                        balance,
                        ob_bid,
                        ema_lower,
                        psize,
                        pprice,
                        tb,
                    )
                }
            } else {
                s_grid_entry_long(ep, bp, balance, ob_bid, ema_lower, psize, pprice)
            }
        } else {
            if wer < s_add(SCALE as int, bp.entry_trailing_grid_ratio as int) {
                if we == 0 {
                    s_grid_entry_long(ep, bp, balance, ob_bid, ema_lower, psize, pprice)
                } else {
                    s_grid_entry_long(
                        ep,
                        s_scaled_limit(
                            bp,
                            s_add(SCALE as int, bp.entry_trailing_grid_ratio as int),
                        ),
                        balance,
                        ob_bid,
                        ema_lower,
                        psize,
                        pprice,
                    )
                }
            } else {
                s_trailing_entry_long(ep, bp, balance, ob_bid, ema_lower, psize, pprice, tb)
            }
        }
    }
}

/// The side configuration with its exposure limit scaled by
/// `factor * 1.01`, as the router hands to the phase it caps.
pub open spec fn s_scaled_limit(bp: BotSideConfig, factor: int) -> BotSideConfig {
    BotSideConfig {
        total_wallet_exposure_limit: s_mul(
            s_mul(bp.total_wallet_exposure_limit as int, factor),
            1_010_000_000,
        ) as i64,
        ..bp
    }
}

/// Ratio router for short entries: mirror of [`s_next_entry_long`] over
/// the absolute position size.
#[verifier::opaque]
pub open spec fn s_next_entry_short(
    ep: ExchangeParams,
    bp: BotSideConfig,
    balance: int,
    ob_ask: int,
    ema_upper: int,
    psize: int,
    pprice: int,
    tb: TrailingPriceBundle,
) -> (int, int, OrderType) {
    if bp.total_wallet_exposure_limit == 0 || balance <= 0 {
        (0, 0, OrderType::Empty)
    } else if bp.entry_trailing_grid_ratio >= SCALE || bp.entry_trailing_grid_ratio <= -SCALE {
        s_trailing_entry_short(ep, bp, balance, ob_ask, ema_upper, psize, pprice, tb)
    } else if bp.entry_trailing_grid_ratio == 0 {
        s_grid_entry_short(ep, bp, balance, ob_ask, ema_upper, psize, pprice)
    } else {
        let we = s_wallet_exposure(ep.c_mult as int, balance, s_abs(psize), pprice, ep.inverse);
        let wer = s_div(we, bp.total_wallet_exposure_limit as int);
        if bp.entry_trailing_grid_ratio > 0 {
            if wer < bp.entry_trailing_grid_ratio {
                if we == 0 {
                    s_trailing_entry_short(ep, bp, balance, ob_ask, ema_upper, psize, pprice, tb)
                } else {
                    s_trailing_entry_short(
                        ep,
                        s_scaled_limit(bp, bp.entry_trailing_grid_ratio as int),
                        balance,
                        ob_ask,
                        ema_upper,
                        psize,
                        pprice,
                        tb,
                    )
                }
            } else {
                s_grid_entry_short(ep, bp, balance, ob_ask, ema_upper, psize, pprice)
            }
        } else {
            if wer < s_add(SCALE as int, bp.entry_trailing_grid_ratio as int) {
                if we == 0 {
                    s_grid_entry_short(ep, bp, balance, ob_ask, ema_upper, psize, pprice)
                } else {
                    s_grid_entry_short(
                        ep,
                        s_scaled_limit(
                            bp,
                            s_add(SCALE as int, bp.entry_trailing_grid_ratio as int),
                        ),
                        balance,
                        ob_ask,
                        ema_upper,
                        psize,
                        pprice,
                    )
                }
            } else {
                s_trailing_entry_short(ep, bp, balance, ob_ask, ema_upper, psize, pprice, tb)
            }
        }
    }
}

/// Scaled-limit configuration, executable side.
fn scaled_limit(bot_params: &BotSideConfig, factor: i64) -> (r: BotSideConfig)
    requires
        bot_params_wf(*bot_params),
        0 <= factor,
    ensures
        r == s_scaled_limit(*bot_params, factor as int),
        bot_params_wf(r),
{
    proof {
        crate::fixed::lemma_s_mul_nonneg(
            bot_params.total_wallet_exposure_limit as int,
            factor as int,
        );
        crate::fixed::lemma_s_mul_nonneg(
            crate::fixed::s_mul(bot_params.total_wallet_exposure_limit as int, factor as int),
            1_010_000_000,
        );
    }
    let mut r: BotSideConfig = *bot_params;
    r.total_wallet_exposure_limit = fx_mul(
        fx_mul(bot_params.total_wallet_exposure_limit, factor),
        1_010_000_000,
    );
    r
}

/// Scalar-state core of [`calc_next_entry_long`], reused by the unroller.
fn next_entry_long_at(
    exchange_params: &ExchangeParams,
    bot_params: &BotSideConfig,
    balance: i64,
    ob_bid: i64,
    ema_lower: i64,
    psize: i64,
    pprice: i64,
    trailing_price_bundle: &TrailingPriceBundle,
) -> (r: GridOrder)
    requires
        exchange_params_wf(*exchange_params),
        bot_params_wf(*bot_params),
        trailing_bundle_wf(*trailing_price_bundle),
        fx_ok(balance),
        fx_ok(ob_bid),
        fx_ok(ema_lower),
        fx_ok(psize),
        fx_ok(pprice),
    ensures
        (r.qty as int, r.price as int, r.order_type) == s_next_entry_long(
            *exchange_params,
            *bot_params,
            balance as int,
            ob_bid as int,
            ema_lower as int,
            psize as int,
            pprice as int,
            *trailing_price_bundle,
        ),
        fx_ok(r.qty),
        fx_ok(r.price),
{
    proof {
        reveal(s_next_entry_long);
    }
    if bot_params.total_wallet_exposure_limit == 0 || balance <= 0 {
        return GridOrder::default();
    }
    if bot_params.entry_trailing_grid_ratio >= SCALE || bot_params.entry_trailing_grid_ratio
        <= -SCALE {
        return trailing_entry_long_at(
            exchange_params,
            bot_params,
            balance,
            ob_bid,
            ema_lower,
            psize,
            pprice,
            trailing_price_bundle,
        );
    } else if bot_params.entry_trailing_grid_ratio == 0 {
        return grid_entry_long_at(
            exchange_params,
            bot_params,
            balance,
            ob_bid,
            ema_lower,
            psize,
            pprice,
        );
    }
    let wallet_exposure: i64 = calc_wallet_exposure(
        exchange_params.c_mult,
        balance,
        psize,
        pprice,
        exchange_params.inverse,
    );
    let wallet_exposure_ratio: i64 = fx_div(
        wallet_exposure,
        bot_params.total_wallet_exposure_limit,
    );
    if bot_params.entry_trailing_grid_ratio > 0 {
        if wallet_exposure_ratio < bot_params.entry_trailing_grid_ratio {
            if wallet_exposure == 0 {
                trailing_entry_long_at(
                    exchange_params,
                    bot_params,
                    balance,
                    ob_bid,
                    ema_lower,
                    psize,
                    pprice,
                    trailing_price_bundle,
                )
            } else {
                let modified = scaled_limit(bot_params, bot_params.entry_trailing_grid_ratio);
                trailing_entry_long_at(
                    exchange_params,
                    &modified,
                    balance,
                    ob_bid,
                    ema_lower,
                    psize,
                    pprice,
                    trailing_price_bundle,
                )
            }
        } else {
            grid_entry_long_at(exchange_params, bot_params, balance, ob_bid, ema_lower, psize, pprice)
        }
    } else {
        if wallet_exposure_ratio < fx_add(SCALE, bot_params.entry_trailing_grid_ratio) {
            if wallet_exposure == 0 {
                grid_entry_long_at(
                    exchange_params,
                    bot_params,
                    balance,
                    ob_bid,
                    ema_lower,
                    psize,
                    pprice,
                )
            } else {
                let modified = scaled_limit(
                    bot_params,
                    fx_add(SCALE, bot_params.entry_trailing_grid_ratio),
                );
                grid_entry_long_at(
                    exchange_params,
                    &modified,
                    balance,
                    ob_bid,
                    ema_lower,
                    psize,
                    pprice,
                )
            }
        } else {
            trailing_entry_long_at(
                exchange_params,
                bot_params,
                balance,
                ob_bid,
                ema_lower,
                psize,
                pprice,
                trailing_price_bundle,
            )
        }
    }
}

/// Chooses between a grid and a trailing entry for a long position.
pub fn calc_next_entry_long(
    exchange_params: &ExchangeParams,
    state_params: &StateParams,
    bot_params: &BotSideConfig,
    position: &Position,
    trailing_price_bundle: &TrailingPriceBundle,
) -> (r: GridOrder)
    requires
        exchange_params_wf(*exchange_params),
        state_params_wf(*state_params),
        position_wf(*position),
        bot_params_wf(*bot_params),
        trailing_bundle_wf(*trailing_price_bundle),
    ensures
        (r.qty as int, r.price as int, r.order_type) == s_next_entry_long(
            *exchange_params,
            *bot_params,
            state_params.balance as int,
            state_params.order_book.spec_best_bid(),
            state_params.ema_bands.lower as int,
            position.size as int,
            position.price as int,
            *trailing_price_bundle,
        ),
        fx_ok(r.qty),
        fx_ok(r.price),
{
    next_entry_long_at(
        exchange_params,
        bot_params,
        state_params.balance,
        state_params.order_book.best_bid(),
        state_params.ema_bands.lower,
        position.size,
        position.price,
        trailing_price_bundle,
    )
}

/// Scalar-state core of [`calc_next_entry_short`], reused by the unroller.
fn next_entry_short_at(
    exchange_params: &ExchangeParams,
    bot_params: &BotSideConfig,
    balance: i64,
    ob_ask: i64,
    ema_upper: i64,
    psize: i64,
    pprice: i64,
    trailing_price_bundle: &TrailingPriceBundle,
) -> (r: GridOrder)
    requires
        exchange_params_wf(*exchange_params),
        bot_params_wf(*bot_params),
        trailing_bundle_wf(*trailing_price_bundle),
        fx_ok(balance),
        fx_ok(ob_ask),
        fx_ok(ema_upper),
        fx_ok(psize),
        fx_ok(pprice),
    ensures
        (r.qty as int, r.price as int, r.order_type) == s_next_entry_short(
            *exchange_params,
            *bot_params,
            balance as int,
            ob_ask as int,
            ema_upper as int,
            psize as int,
            pprice as int,
            *trailing_price_bundle,
        ),
        fx_ok(r.qty),
        fx_ok(r.price),
{
    proof {
        reveal(s_next_entry_short);
    }
    if bot_params.total_wallet_exposure_limit == 0 || balance <= 0 {
        return GridOrder::default();
    }
    if bot_params.entry_trailing_grid_ratio >= SCALE || bot_params.entry_trailing_grid_ratio
        <= -SCALE {
        return trailing_entry_short_at(
            exchange_params,
            bot_params,
            balance,
            ob_ask,
            ema_upper,
            psize,
            pprice,
            trailing_price_bundle,
        );
    } else if bot_params.entry_trailing_grid_ratio == 0 {
        return grid_entry_short_at(
            exchange_params,
            bot_params,
            balance,
            ob_ask,
            ema_upper,
            psize,
            pprice,
        );
    }
    let wallet_exposure: i64 = calc_wallet_exposure(
        exchange_params.c_mult,
        balance,
        fx_abs(psize),
        pprice,
        exchange_params.inverse,
    );
    let wallet_exposure_ratio: i64 = fx_div(
        wallet_exposure,
        bot_params.total_wallet_exposure_limit,
    );
    if bot_params.entry_trailing_grid_ratio > 0 {
        if wallet_exposure_ratio < bot_params.entry_trailing_grid_ratio {
            if wallet_exposure == 0 {
                trailing_entry_short_at(
                    exchange_params,
                    bot_params,
                    balance,
                    ob_ask,
                    ema_upper,
                    psize,
                    pprice,
                    trailing_price_bundle,
                )
            } else {
                let modified = scaled_limit(bot_params, bot_params.entry_trailing_grid_ratio);
                trailing_entry_short_at(
                    exchange_params,
                    &modified,
                    balance,
                    ob_ask,
                    ema_upper,
                    psize,
                    pprice,
                    trailing_price_bundle,
                )
            }
        } else {
            grid_entry_short_at(exchange_params, bot_params, balance, ob_ask, ema_upper, psize, pprice)
        }
    } else {
        if wallet_exposure_ratio < fx_add(SCALE, bot_params.entry_trailing_grid_ratio) {
            if wallet_exposure == 0 {
                grid_entry_short_at(
                    exchange_params,
                    bot_params,
                    balance,
                    ob_ask,
                    ema_upper,
                    psize,
                    pprice,
                )
            } else {
                let modified = scaled_limit(
                    bot_params,
                    fx_add(SCALE, bot_params.entry_trailing_grid_ratio),
                );
                grid_entry_short_at(
                    exchange_params,
                    &modified,
                    balance,
                    ob_ask,
                    ema_upper,
                    psize,
                    pprice,
                )
            }
        } else {
            trailing_entry_short_at(
                exchange_params,
                bot_params,
                balance,
                ob_ask,
                ema_upper,
                psize,
                pprice,
                trailing_price_bundle,
            )
        }
    }
}

/// Chooses between a grid and a trailing entry for a short position.
pub fn calc_next_entry_short(
    exchange_params: &ExchangeParams,
    state_params: &StateParams,
    bot_params: &BotSideConfig,
    position: &Position,
    trailing_price_bundle: &TrailingPriceBundle,
) -> (r: GridOrder)
    requires
        exchange_params_wf(*exchange_params),
        state_params_wf(*state_params),
        position_wf(*position),
        bot_params_wf(*bot_params),
        trailing_bundle_wf(*trailing_price_bundle),
    ensures
        (r.qty as int, r.price as int, r.order_type) == s_next_entry_short(
            *exchange_params,
            *bot_params,
            state_params.balance as int,
            state_params.order_book.spec_best_ask(),
            state_params.ema_bands.upper as int,
            position.size as int,
            position.price as int,
            *trailing_price_bundle,
        ),
        fx_ok(r.qty),
        fx_ok(r.price),
{
    next_entry_short_at(
        exchange_params,
        bot_params,
        state_params.balance,
        state_params.order_book.best_ask(),
        state_params.ema_bands.upper,
        position.size,
        position.price,
        trailing_price_bundle,
    )
}

/// Integer view of an emitted order list.
pub open spec fn orders_view(s: Seq<GridOrder>) -> Seq<(int, int, OrderType)> {
    s.map_values(|o: GridOrder| (o.qty as int, o.price as int, o.order_type))
}

/// Every order of the list holds well-formed fixed-point values.
pub open spec fn orders_fx_ok(s: Seq<GridOrder>) -> bool {
    forall|i: int|
        0 <= i < s.len() ==> fx_ok(#[trigger] s[i].qty) && fx_ok(s[i].price)
}

/// Unrolls future long entries from a simulated position: stop on a zero
/// quantity; once an order exists, also stop on a trailing order or on a
/// repeated price; otherwise record the order, merge the simulated fill and
/// walk the simulated bid down to the order's price.
pub open spec fn s_entries_long_rec(
    ep: ExchangeParams,
    bp: BotSideConfig,
    tb: TrailingPriceBundle,
    balance: int,
    ema_lower: int,
    psize: int,
    pprice: int,
    bid: int,
    last: Option<int>,
    fuel: nat,
) -> Seq<(int, int, OrderType)>
    decreases fuel,
{
    if fuel == 0 {
        Seq::empty()
    } else {
        let e = s_next_entry_long(ep, bp, balance, bid, ema_lower, psize, pprice, tb);
        if e.0 == 0 {
            Seq::empty()
        } else {
            let blocked = match last {
                Option::Some(lp) => (e.2 == OrderType::EntryTrailingNormalLong || e.2
                    == OrderType::EntryTrailingCroppedLong) || lp == e.1,
                Option::None => false,
            };
            if blocked {
                Seq::empty()
            } else {
                let np = s_new_psize_pprice(psize, pprice, e.0, e.1, ep.qty_step as int);
                seq![e] + s_entries_long_rec(
                    ep,
                    bp,
                    tb,
                    balance,
                    ema_lower,
                    np.0,
                    np.1,
                    s_min(bid, e.1),
                    Option::Some(e.1),
                    (fuel - 1) as nat,
                )
            }
        }
    }
}

/// One unfolding of [`s_entries_long_rec`], packaged so the unroller's
/// loop can use it without expanding the router's definition in place.
proof fn lemma_entries_long_rec_step(
    ep: ExchangeParams,
    bp: BotSideConfig,
    tb: TrailingPriceBundle,
    balance: int,
    ema_lower: int,
    psize: int,
    pprice: int,
    bid: int,
    last: Option<int>,
    fuel: nat,
)
    requires
        fuel > 0,
    ensures
        ({
            let e = s_next_entry_long(ep, bp, balance, bid, ema_lower, psize, pprice, tb);
            let blocked = match last {
                Option::Some(lp) => (e.2 == OrderType::EntryTrailingNormalLong || e.2
                    == OrderType::EntryTrailingCroppedLong) || lp == e.1,
                Option::None => false,
            };
            let np = s_new_psize_pprice(psize, pprice, e.0, e.1, ep.qty_step as int);
            s_entries_long_rec(ep, bp, tb, balance, ema_lower, psize, pprice, bid, last, fuel)
                == if e.0 == 0 || blocked {
                Seq::<(int, int, OrderType)>::empty()
            } else {
                seq![e] + s_entries_long_rec(
                    ep,
                    bp,
                    tb,
                    balance,
                    ema_lower,
                    np.0,
                    np.1,
                    s_min(bid, e.1),
                    Option::Some(e.1),
                    (fuel - 1) as nat,
                )
            }
        }),
{
}

/// Whether the long auto-unstuck entry leads the list: the unrealized loss
/// exceeds the threshold while the bid has risen past the lower EMA band by
/// more than the configured distance.
pub open spec fn s_unstuck_entry_long_fires(
    ep: ExchangeParams,
    bp: BotSideConfig,
    balance: int,
    ob_bid: int,
    ema_lower: int,
    psize: int,
    pprice: int,
) -> bool {
    let pos_pnl_pct = s_div(
        s_pnl_long(pprice, ob_bid, psize, ep.inverse, ep.c_mult as int),
        balance,
    );
    -pos_pnl_pct > bp.unstuck_threshold && s_clamp(
        s_div(ob_bid, ema_lower) - (SCALE as int),
    ) > bp.unstuck_ema_dist
}

/// The full unrolled list of long entries: the auto-unstuck order when it
/// fires, then up to 500 simulated grid entries.
pub open spec fn s_entries_long(
    ep: ExchangeParams,
    bp: BotSideConfig,
    tb: TrailingPriceBundle,
    balance: int,
    ob_bid: int,
    ema_lower: int,
    psize: int,
    pprice: int,
) -> Seq<(int, int, OrderType)> {
    let au = s_auto_unstuck_entry_long(ep, bp, balance, ob_bid, ema_lower, psize, pprice);
    let fires = s_unstuck_entry_long_fires(ep, bp, balance, ob_bid, ema_lower, psize, pprice);
    let head = if fires {
        seq![au]
    } else {
        Seq::empty()
    };
    let last0 = if fires {
        Option::Some(au.1)
    } else {
        Option::<int>::None
    };
    head + s_entries_long_rec(ep, bp, tb, balance, ema_lower, psize, pprice, ob_bid, last0, 500)
}

/// Unrolls the list of future long entry orders for the current snapshot.
#[verifier::rlimit(100)]
pub fn calc_entries_long(
    exchange_params: &ExchangeParams,
    state_params: &StateParams,
    bot_params: &BotSideConfig,
    position: &Position,
    trailing_price_bundle: &TrailingPriceBundle,
) -> (r: Vec<GridOrder>)
    requires
        exchange_params_wf(*exchange_params),
        state_params_wf(*state_params),
        position_wf(*position),
        bot_params_wf(*bot_params),
        trailing_bundle_wf(*trailing_price_bundle),
    ensures
        orders_view(r@) == s_entries_long(
            *exchange_params,
            *bot_params,
            *trailing_price_bundle,
            state_params.balance as int,
            state_params.order_book.spec_best_bid(),
            state_params.ema_bands.lower as int,
            position.size as int,
            position.price as int,
        ),
        orders_fx_ok(r@),
{
    let balance: i64 = state_params.balance;
    let ob_bid: i64 = state_params.order_book.best_bid();
    let ema_lower: i64 = state_params.ema_bands.lower;
    let ghost full = s_entries_long(
        *exchange_params,
        *bot_params,
        *trailing_price_bundle,
        balance as int,
        ob_bid as int,
        ema_lower as int,
        position.size as int,
        position.price as int,
    );
    let mut entries: Vec<GridOrder> = Vec::new();

    let pos_pnl_pct: i64 = fx_div(
        calc_pnl_long(position.price, ob_bid, position.size, exchange_params.inverse, exchange_params.c_mult),
        balance,
    );
    if -pos_pnl_pct > bot_params.unstuck_threshold && fx_sub(fx_div(ob_bid, ema_lower), SCALE)
        > bot_params.unstuck_ema_dist {
        let au = calc_auto_unstuck_entry_long(exchange_params, bot_params, state_params, position);
        entries.push(au);
    }
    proof {
        assert(orders_view(entries@) =~= full.subrange(0, entries@.len() as int));
    }

    let mut psize: i64 = position.size;
    let mut pprice: i64 = position.price;
    let mut bid: i64 = ob_bid;
    let mut i: usize = 0;
    let mut stop: bool = false;
    while i < 500 && !stop
        invariant
            exchange_params_wf(*exchange_params),
            bot_params_wf(*bot_params),
            trailing_bundle_wf(*trailing_price_bundle),
            fx_ok(balance),
            fx_ok(ob_bid),
            fx_ok(ema_lower),
            fx_ok(psize),
            fx_ok(pprice),
            fx_ok(bid),
            i <= 500,
            orders_fx_ok(entries@),
            orders_view(entries@) + s_entries_long_rec(
                *exchange_params,
                *bot_params,
                *trailing_price_bundle,
                balance as int,
                ema_lower as int,
                psize as int,
                pprice as int,
                bid as int,
                (if entries@.len() == 0 {
                    Option::<int>::None
                } else {
                    Option::Some(entries@[entries@.len() - 1].price as int)
                }),
                (500 - i) as nat,
            ) == full,
            stop ==> s_entries_long_rec(
                *exchange_params,
                *bot_params,
                *trailing_price_bundle,
                balance as int,
                ema_lower as int,
                psize as int,
                pprice as int,
                bid as int,
                (if entries@.len() == 0 {
                    Option::<int>::None
                } else {
                    Option::Some(entries@[entries@.len() - 1].price as int)
                }),
                (500 - i) as nat,
            ) =~= Seq::<(int, int, OrderType)>::empty(),
        decreases 500 - i, (if stop { 0int } else { 1int }),
    {
        let ghost last = if entries@.len() == 0 {
            Option::<int>::None
        } else {
            Option::Some(entries@[entries@.len() - 1].price as int)
        };
        proof {
            lemma_entries_long_rec_step(
                *exchange_params,
                *bot_params,
                *trailing_price_bundle,
                balance as int,
                ema_lower as int,
                psize as int,
                pprice as int,
                bid as int,
                last,
                (500 - i) as nat,
            );
        }
        let entry: GridOrder = next_entry_long_at(
            exchange_params,
            bot_params,
            balance,
            bid,
            ema_lower,
            psize,
            pprice,
            trailing_price_bundle,
        );
        let mut halt: bool = false;
        if entry.qty == 0 {
            halt = true;
        } else if entries.len() > 0 {
            if entry.order_type == OrderType::EntryTrailingNormalLong || entry.order_type
                == OrderType::EntryTrailingCroppedLong {
                halt = true;
            } else if entries[entries.len() - 1].price == entry.price {
                halt = true;
            }
        }
        if halt {
            stop = true;
        } else {
            let np = calc_new_psize_pprice(
                psize,
                pprice,
                entry.qty,
                entry.price,
                exchange_params.qty_step,
            );
            let ghost entries_old = entries@;
            let ghost rec_old = s_entries_long_rec(
                *exchange_params,
                *bot_params,
                *trailing_price_bundle,
                balance as int,
                ema_lower as int,
                psize as int,
                pprice as int,
                bid as int,
                last,
                (500 - i) as nat,
            );
            psize = np.0;
            pprice = np.1;
            bid = fx_min(bid, entry.price);
            entries.push(entry);
            i = i + 1;
            proof {
                let e = (entry.qty as int, entry.price as int, entry.order_type);
                let rec_new = s_entries_long_rec(
                    *exchange_params,
                    *bot_params,
                    *trailing_price_bundle,
                    balance as int,
                    ema_lower as int,
                    psize as int,
                    pprice as int,
                    bid as int,
                    Option::Some(e.1),
                    (500 - i) as nat,
                );
                assert(rec_old =~= seq![e] + rec_new);
                assert(orders_view(entries@) =~= orders_view(entries_old) + seq![e]);
                assert(orders_view(entries@) + rec_new =~= (orders_view(entries_old) + seq![e])
                    + rec_new);
                assert((orders_view(entries_old) + seq![e]) + rec_new =~= orders_view(entries_old)
                    + (seq![e] + rec_new));
            }
        }
    }
    proof {
        if !stop {
            assert(s_entries_long_rec(
                *exchange_params,
                *bot_params,
                *trailing_price_bundle,
                balance as int,
                ema_lower as int,
                psize as int,
                pprice as int,
                bid as int,
                (if entries@.len() == 0 {
                    Option::<int>::None
                } else {
                    Option::Some(entries@[entries@.len() - 1].price as int)
                }),
                (500 - i) as nat,
            ) =~= Seq::<(int, int, OrderType)>::empty());
        }
        assert(orders_view(entries@) + Seq::<(int, int, OrderType)>::empty() =~= orders_view(
            entries@,
        ));
    }
    entries
}

/// Unrolls future short entries; mirror of [`s_entries_long_rec`] with the
/// simulated ask walked up.
pub open spec fn s_entries_short_rec(
    ep: ExchangeParams,
    bp: BotSideConfig,
    tb: TrailingPriceBundle,
    balance: int,
    ema_upper: int,
    psize: int,
    pprice: int,
    ask: int,
    last: Option<int>,
    fuel: nat,
) -> Seq<(int, int, OrderType)>
    decreases fuel,
{
    if fuel == 0 {
        Seq::empty()
    } else {
        let e = s_next_entry_short(ep, bp, balance, ask, ema_upper, psize, pprice, tb);
        if e.0 == 0 {
            Seq::empty()
        } else {
            let blocked = match last {
                Option::Some(lp) => (e.2 == OrderType::EntryTrailingNormalShort || e.2
                    == OrderType::EntryTrailingCroppedShort) || lp == e.1,
                Option::None => false,
            };
            if blocked {
                Seq::empty()
            } else {
                let np = s_new_psize_pprice(psize, pprice, e.0, e.1, ep.qty_step as int);
                seq![e] + s_entries_short_rec(
                    ep,
                    bp,
                    tb,
                    balance,
                    ema_upper,
                    np.0,
                    np.1,
                    s_max(ask, e.1),
                    Option::Some(e.1),
                    (fuel - 1) as nat,
                )
            }
        }
    }
}

/// One unfolding of [`s_entries_short_rec`], packaged so the unroller's
/// loop can use it without expanding the router's definition in place.
proof fn lemma_entries_short_rec_step(
    ep: ExchangeParams,
    bp: BotSideConfig,
    tb: TrailingPriceBundle,
    balance: int,
    ema_upper: int,
    psize: int,
    pprice: int,
    ask: int,
    last: Option<int>,
    fuel: nat,
)
    requires
        fuel > 0,
    ensures
        ({
            let e = s_next_entry_short(ep, bp, balance, ask, ema_upper, psize, pprice, tb);
            let blocked = match last {
                Option::Some(lp) => (e.2 == OrderType::EntryTrailingNormalShort || e.2
                    == OrderType::EntryTrailingCroppedShort) || lp == e.1,
                Option::None => false,
            };
            let np = s_new_psize_pprice(psize, pprice, e.0, e.1, ep.qty_step as int);
            s_entries_short_rec(ep, bp, tb, balance, ema_upper, psize, pprice, ask, last, fuel)
                == if e.0 == 0 || blocked {
                Seq::<(int, int, OrderType)>::empty()
            } else {
                seq![e] + s_entries_short_rec(
                    ep,
                    bp,
                    tb,
                    balance,
                    ema_upper,
                    np.0,
                    np.1,
                    s_max(ask, e.1),
                    Option::Some(e.1),
                    (fuel - 1) as nat,
                )
            }
        }),
{
}

/// Whether the short auto-unstuck entry leads the list.
pub open spec fn s_unstuck_entry_short_fires(
    ep: ExchangeParams,
    bp: BotSideConfig,
    balance: int,
    ob_ask: int,
    ema_upper: int,
    psize: int,
    pprice: int,
) -> bool {
    let pos_pnl_pct = s_div(
        s_pnl_short(pprice, ob_ask, psize, ep.inverse, ep.c_mult as int),
        balance,
    );
    -pos_pnl_pct > bp.unstuck_threshold && s_clamp(
        s_div(ema_upper, ob_ask) - (SCALE as int),
    ) > bp.unstuck_ema_dist
}

/// The full unrolled list of short entries.
pub open spec fn s_entries_short(
    ep: ExchangeParams,
    bp: BotSideConfig,
    tb: TrailingPriceBundle,
    balance: int,
    ob_ask: int,
    ema_upper: int,
    psize: int,
    pprice: int,
) -> Seq<(int, int, OrderType)> {
    let au = s_auto_unstuck_entry_short(ep, bp, balance, ob_ask, ema_upper, psize, pprice);
    let fires = s_unstuck_entry_short_fires(ep, bp, balance, ob_ask, ema_upper, psize, pprice);
    let head = if fires {
        seq![au]
    } else {
        Seq::empty()
    };
    let last0 = if fires {
        Option::Some(au.1)
    } else {
        Option::<int>::None
    };
    head + s_entries_short_rec(ep, bp, tb, balance, ema_upper, psize, pprice, ob_ask, last0, 500)
}

/// Unrolls the list of future short entry orders for the current snapshot.
#[verifier::rlimit(100)]
pub fn calc_entries_short(
    exchange_params: &ExchangeParams,
    state_params: &StateParams,
    bot_params: &BotSideConfig,
    position: &Position,
    trailing_price_bundle: &TrailingPriceBundle,
) -> (r: Vec<GridOrder>)
    requires
        exchange_params_wf(*exchange_params),
        state_params_wf(*state_params),
        position_wf(*position),
        bot_params_wf(*bot_params),
        trailing_bundle_wf(*trailing_price_bundle),
    ensures
        orders_view(r@) == s_entries_short(
            *exchange_params,
            *bot_params,
            *trailing_price_bundle,
            state_params.balance as int,
            state_params.order_book.spec_best_ask(),
            state_params.ema_bands.upper as int,
            position.size as int,
            position.price as int,
        ),
        orders_fx_ok(r@),
{
    let balance: i64 = state_params.balance;
    let ob_ask: i64 = state_params.order_book.best_ask();
    let ema_upper: i64 = state_params.ema_bands.upper;
    let ghost full = s_entries_short(
        *exchange_params,
        *bot_params,
        *trailing_price_bundle,
        balance as int,
        ob_ask as int,
        ema_upper as int,
        position.size as int,
        position.price as int,
    );
    let mut entries: Vec<GridOrder> = Vec::new();

    let pos_pnl_pct: i64 = fx_div(
        calc_pnl_short(position.price, ob_ask, position.size, exchange_params.inverse, exchange_params.c_mult),
        balance,
    );
    if -pos_pnl_pct > bot_params.unstuck_threshold && fx_sub(fx_div(ema_upper, ob_ask), SCALE)
        > bot_params.unstuck_ema_dist {
        let au = calc_auto_unstuck_entry_short(exchange_params, bot_params, state_params, position);
        entries.push(au);
    }
    proof {
        assert(orders_view(entries@) =~= full.subrange(0, entries@.len() as int));
    }

    let mut psize: i64 = position.size;
    let mut pprice: i64 = position.price;
    let mut ask: i64 = ob_ask;
    let mut i: usize = 0;
    let mut stop: bool = false;
    while i < 500 && !stop
        invariant
            exchange_params_wf(*exchange_params),
            bot_params_wf(*bot_params),
            trailing_bundle_wf(*trailing_price_bundle),
            fx_ok(balance),
            fx_ok(ob_ask),
            fx_ok(ema_upper),
            fx_ok(psize),
            fx_ok(pprice),
            fx_ok(ask),
            i <= 500,
            orders_fx_ok(entries@),
            orders_view(entries@) + s_entries_short_rec(
                *exchange_params,
                *bot_params,
                *trailing_price_bundle,
                balance as int,
                ema_upper as int,
                psize as int,
                pprice as int,
                ask as int,
                (if entries@.len() == 0 {
                    Option::<int>::None
                } else {
                    Option::Some(entries@[entries@.len() - 1].price as int)
                }),
                (500 - i) as nat,
            ) == full,
            stop ==> s_entries_short_rec(
                *exchange_params,
                *bot_params,
                *trailing_price_bundle,
                balance as int,
                ema_upper as int,
                psize as int,
                pprice as int,
                ask as int,
                (if entries@.len() == 0 {
                    Option::<int>::None
                } else {
                    Option::Some(entries@[entries@.len() - 1].price as int)
                }),
                (500 - i) as nat,
            ) =~= Seq::<(int, int, OrderType)>::empty(),
        decreases 500 - i, (if stop { 0int } else { 1int }),
    {
        let ghost last = if entries@.len() == 0 {
            Option::<int>::None
        } else {
            Option::Some(entries@[entries@.len() - 1].price as int)
        };
        proof {
            lemma_entries_short_rec_step(
                *exchange_params,
                *bot_params,
                *trailing_price_bundle,
                balance as int,
                ema_upper as int,
                psize as int,
                pprice as int,
                ask as int,
                last,
                (500 - i) as nat,
            );
        }
        let entry: GridOrder = next_entry_short_at(
            exchange_params,
            bot_params,
            balance,
            ask,
            ema_upper,
            psize,
            pprice,
            trailing_price_bundle,
        );
        let mut halt: bool = false;
        if entry.qty == 0 {
            halt = true;
        } else if entries.len() > 0 {
            if entry.order_type == OrderType::EntryTrailingNormalShort || entry.order_type
                == OrderType::EntryTrailingCroppedShort {
                halt = true;
            } else if entries[entries.len() - 1].price == entry.price {
                halt = true;
            }
        }
        if halt {
            stop = true;
        } else {
            let np = calc_new_psize_pprice(
                psize,
                pprice,
                entry.qty,
                entry.price,
                exchange_params.qty_step,
            );
            let ghost entries_old = entries@;
            let ghost rec_old = s_entries_short_rec(
                *exchange_params,
                *bot_params,
                *trailing_price_bundle,
                balance as int,
                ema_upper as int,
                psize as int,
                pprice as int,
                ask as int,
                last,
                (500 - i) as nat,
            );
            psize = np.0;
            pprice = np.1;
            ask = fx_max(ask, entry.price);
            entries.push(entry);
            i = i + 1;
            proof {
                let e = (entry.qty as int, entry.price as int, entry.order_type);
                let rec_new = s_entries_short_rec(
                    *exchange_params,
                    *bot_params,
                    *trailing_price_bundle,
                    balance as int,
                    ema_upper as int,
                    psize as int,
                    pprice as int,
                    ask as int,
                    Option::Some(e.1),
                    (500 - i) as nat,
                );
                assert(rec_old =~= seq![e] + rec_new);
                assert(orders_view(entries@) =~= orders_view(entries_old) + seq![e]);
                assert(orders_view(entries@) + rec_new =~= (orders_view(entries_old) + seq![e])
                    + rec_new);
                assert((orders_view(entries_old) + seq![e]) + rec_new =~= orders_view(entries_old)
                    + (seq![e] + rec_new));
            }
        }
    }
    proof {
        if !stop {
            assert(s_entries_short_rec(
                *exchange_params,
                *bot_params,
                *trailing_price_bundle,
                balance as int,
                ema_upper as int,
                psize as int,
                pprice as int,
                ask as int,
                (if entries@.len() == 0 {
                    Option::<int>::None
                } else {
                    Option::Some(entries@[entries@.len() - 1].price as int)
                }),
                (500 - i) as nat,
            ) =~= Seq::<(int, int, OrderType)>::empty());
        }
        assert(orders_view(entries@) + Seq::<(int, int, OrderType)>::empty() =~= orders_view(
            entries@,
        ));
    }
    entries
}

} // verus!
