//! Iterative wallet-exposure solvers.
//!
//! Each solver keeps parallel histories of guesses, projected exposures and
//! relative errors, refines the guess by two-point interpolation, and
//! returns the guess with the smallest error seen. The spec models
//! (`s_*_solver`) replay the iteration exactly, so each solver's contract is
//! an equality with its model.

use vstd::prelude::*;
use crate::fixed::{fx_ok, s_abs, s_add, s_clamp, s_div, s_max, s_min, s_mul, s_round_nr, FX_MAX,
    SCALE};
use crate::types::{ExchangeParams, exchange_params_wf};
use crate::utils::{
    calc_wallet_exposure, calc_wallet_exposure_if_filled, calc_pnl_long, calc_pnl_short,
    fx_cap, interp_two, qty_to_cost, s_interp_two, s_pnl_long, s_pnl_short,
    s_qty_to_cost, s_wallet_exposure, s_wallet_exposure_if_filled,
};
use crate::fixed::{fx_add, fx_div, fx_max, fx_min, fx_mul, fx_round_nr, fx_sub, fx_abs};

verus! {

/// Relative error of a projected exposure `v` against target `t`.
pub open spec fn s_rel_err(v: int, t: int) -> int {
    s_div(s_abs(s_sub_i(v, t)), t)
}

/// Plain saturating difference, spelled out for use inside spec models.
pub open spec fn s_sub_i(a: int, b: int) -> int {
    s_clamp(a - b)
}

/// Index of the smallest value among the first `n` entries of `evals`,
/// earliest index on ties (the element a stable ascending sort puts first).
pub open spec fn s_best_idx(evals: Seq<int>, n: int) -> int
    decreases n,
{
    if n <= 1 {
        0
    } else {
        let b = s_best_idx(evals, n - 1);
        if evals[n - 1] < evals[b] {
            n - 1
        } else {
            b
        }
    }
}

pub(crate) proof fn lemma_best_idx_in_range(evals: Seq<int>, n: int)
    requires
        n >= 1,
    ensures
        0 <= s_best_idx(evals, n) < n,
    decreases n,
{
    if n > 1 {
        lemma_best_idx_in_range(evals, n - 1);
    }
}

/// Index of the smallest value among the first `n` entries other than
/// `excl`, earliest on ties (the element a stable sort puts right after the
/// global minimum when `excl` is that minimum's index).
pub open spec fn s_best_idx_excl(evals: Seq<int>, n: int, excl: int) -> int
    decreases n,
{
    if n <= 0 {
        0
    } else if n - 1 == excl {
        s_best_idx_excl(evals, n - 1, excl)
    } else {
        let b = s_best_idx_excl(evals, n - 1, excl);
        if b == excl || b >= n - 1 {
            n - 1
        } else if evals[n - 1] < evals[b] {
            n - 1
        } else {
            b
        }
    }
}

proof fn lemma_best_idx_excl_out(evals: Seq<int>, n: int, excl: int)
    requires
        n >= 1,
        excl >= n,
    ensures
        0 <= s_best_idx_excl(evals, n, excl) < n,
    decreases n,
{
    if n == 1 {
        assert(s_best_idx_excl(evals, 0, excl) == 0);
        assert(s_best_idx_excl(evals, 1, excl) == 0);
    } else {
        lemma_best_idx_excl_out(evals, n - 1, excl);
    }
}

proof fn lemma_best_idx_excl_in_range(evals: Seq<int>, n: int, excl: int)
    requires
        n >= 2,
        0 <= excl < n,
    ensures
        0 <= s_best_idx_excl(evals, n, excl) < n,
        s_best_idx_excl(evals, n, excl) != excl,
    decreases n,
{
    if excl == n - 1 {
        lemma_best_idx_excl_out(evals, n - 1, excl);
        assert(s_best_idx_excl(evals, n, excl) == s_best_idx_excl(evals, n - 1, excl));
    } else if n == 2 {
        assert(s_best_idx_excl(evals, 0, excl) == 0);
        assert(s_best_idx_excl(evals, 1, excl) == 0);
        assert(s_best_idx_excl(evals, 2, excl) == 1);
    } else {
        lemma_best_idx_excl_in_range(evals, n - 1, excl);
    }
}

/// The integer views of a vector of fixed-point values.
pub open spec fn view64(s: Seq<i64>) -> Seq<int> {
    s.map_values(|x: i64| x as int)
}

/// Linear scan for the best (smallest error, earliest) guess.
pub(crate) fn pick_best_guess(evals: &Vec<i64>, guesses: &Vec<i64>) -> (r: i64)
    requires
        evals@.len() >= 1,
        guesses@.len() >= evals@.len(),
    ensures
        r as int == view64(guesses@)[s_best_idx(view64(evals@), evals@.len() as int)],
{
    let mut best_i: usize = 0;
    let mut i: usize = 1;
    while i < evals.len()
        invariant
            1 <= i <= evals@.len(),
            evals@.len() <= guesses@.len(),
            0 <= best_i < i,
            best_i as int == s_best_idx(view64(evals@), i as int),
        decreases evals@.len() - i,
    {
        if evals[i] < evals[best_i] {
            best_i = i;
        }
        i = i + 1;
    }
    guesses[best_i]
}

/// State of a solver iteration: the three parallel histories and whether
/// the error threshold has been reached.
pub struct SolverState {
    pub guesses: Seq<int>,
    pub vals: Seq<int>,
    pub evals: Seq<int>,
}

/// Solver context shared by every iteration of the entry solver.
pub struct EntryCtx {
    pub balance: int,
    pub psize: int,
    pub pprice: int,
    pub target: int,
    pub entry_price: int,
    pub inverse: bool,
    pub ep: ExchangeParams,
}

/// Projected wallet exposure for a guessed entry quantity.
pub open spec fn s_entry_val(c: EntryCtx, guess: int) -> int {
    s_wallet_exposure_if_filled(c.balance, c.psize, c.pprice, guess, c.entry_price, c.inverse, c.ep)
}

/// One refinement step of the standalone entry solver: bump a stagnated
/// guess (recording no error for it), interpolate the last two samples
/// toward the target, clamp below at zero, round, and sample.
pub open spec fn s_entry_step(c: EntryCtx, st: SolverState) -> SolverState {
    let st1 = if st.guesses[st.guesses.len() - 1] == st.guesses[st.guesses.len() - 2] {
        let last = st.guesses[st.guesses.len() - 1];
        let gb = s_clamp(s_max(s_mul(last, 1_100_000_000), s_add(last, c.ep.qty_step as int)));
        SolverState {
            guesses: st.guesses.push(gb),
            vals: st.vals.push(s_entry_val(c, gb)),
            evals: st.evals,
        }
    } else {
        st
    };
    let m = st1.guesses.len();
    let interp = s_interp_two(
        c.target,
        st1.vals[m - 2],
        st1.vals[m - 1],
        st1.guesses[m - 2],
        st1.guesses[m - 1],
    );
    let g = s_clamp(s_round_nr(s_max(interp, 0), c.ep.qty_step as int));
    let v = s_entry_val(c, g);
    SolverState {
        guesses: st1.guesses.push(g),
        vals: st1.vals.push(v),
        evals: st1.evals.push(s_rel_err(v, c.target)),
    }
}

/// Whether the last recorded error is under the 1% stop threshold.
pub open spec fn s_converged(st: SolverState) -> bool {
    st.evals[st.evals.len() - 1] < 10_000_000
}

/// Run up to `k` entry-solver steps, stopping once converged.
pub open spec fn s_entry_iter(c: EntryCtx, st: SolverState, k: nat) -> SolverState
    decreases k,
{
    if k == 0 || s_converged(st) {
        st
    } else {
        s_entry_iter(c, s_entry_step(c, st), (k - 1) as nat)
    }
}

proof fn lemma_entry_iter_converged(c: EntryCtx, st: SolverState, k: nat)
    requires
        s_converged(st),
    ensures
        s_entry_iter(c, st, k) == st,
{
}

proof fn lemma_entry_iter_unfold(c: EntryCtx, st: SolverState, k: nat)
    requires
        k > 0,
        !s_converged(st),
    ensures
        s_entry_iter(c, st, k) == s_entry_iter(c, s_entry_step(c, st), (k - 1) as nat),
{
}

/// Initial two-sample state of the standalone entry solver.
pub open spec fn s_entry_init(c: EntryCtx, we: int) -> SolverState {
    let g0 = s_clamp(s_round_nr(
        s_div(s_mul(s_abs(c.psize), c.target), s_max(10_000_000, we)),
        c.ep.qty_step as int,
    ));
    let v0 = s_entry_val(c, g0);
    let g1 = s_clamp(s_max(
        s_max(s_mul(g0, 1_200_000_000), s_add(g0, c.ep.qty_step as int)),
        0,
    ));
    let v1 = s_entry_val(c, g1);
    SolverState {
        guesses: seq![g0, g1],
        vals: seq![v0, v1],
        evals: seq![s_rel_err(v0, c.target), s_rel_err(v1, c.target)],
    }
}

/// The quantity the standalone entry solver returns: zero when the target
/// is zero or the exposure is already within 1% of it, else the
/// best-error guess after up to 15 refinement steps.
pub open spec fn s_entry_solver(c: EntryCtx) -> int {
    if c.target == 0 {
        0
    } else {
        let we = s_wallet_exposure(c.ep.c_mult as int, c.balance, c.psize, c.pprice, c.inverse);
        if we >= s_mul(c.target, 990_000_000) {
            0
        } else {
            let st = s_entry_iter(c, s_entry_init(c, we), 15);
            st.guesses[s_best_idx(st.evals, st.evals.len() as int)]
        }
    }
}

/// Invariants every reachable entry-solver state satisfies.
pub open spec fn s_entry_state_wf(st: SolverState) -> bool {
    &&& st.guesses.len() == st.vals.len()
    &&& 2 <= st.evals.len() <= st.guesses.len()
    &&& forall|i: int| 0 <= i < st.guesses.len() ==> -FX_MAX <= #[trigger] st.guesses[i] <= FX_MAX
    &&& forall|i: int| 0 <= i < st.vals.len() ==> -FX_MAX <= #[trigger] st.vals[i] <= FX_MAX
    &&& forall|i: int| 0 <= i < st.evals.len() ==> -FX_MAX <= #[trigger] st.evals[i] <= FX_MAX
}

proof fn lemma_entry_step_wf(c: EntryCtx, st: SolverState)
    requires
        s_entry_state_wf(st),
    ensures
        s_entry_state_wf(s_entry_step(c, st)),
{
}

/// Finds the entry quantity whose fill would bring wallet exposure to the
/// target, by interpolation search; returns the best-error guess observed.
pub fn find_entry_qty_bringing_wallet_exposure_to_target(
    balance: i64,
    psize: i64,
    pprice: i64,
    wallet_exposure_target: i64,
    entry_price: i64,
    inverse: bool,
    exchange_params: &ExchangeParams,
) -> (r: i64)
    requires
        fx_ok(balance),
        fx_ok(psize),
        fx_ok(pprice),
        fx_ok(entry_price),
        fx_ok(wallet_exposure_target),
        exchange_params_wf(*exchange_params),
    ensures
        r as int == s_entry_solver(
            EntryCtx {
                balance: balance as int,
                psize: psize as int,
                pprice: pprice as int,
                target: wallet_exposure_target as int,
                entry_price: entry_price as int,
                inverse,
                ep: *exchange_params,
            },
        ),
        fx_ok(r),
{
    let ghost c = EntryCtx {
        balance: balance as int,
        psize: psize as int,
        pprice: pprice as int,
        target: wallet_exposure_target as int,
        entry_price: entry_price as int,
        inverse,
        ep: *exchange_params,
    };
    if wallet_exposure_target == 0 {
        return 0;
    }
    let wallet_exposure: i64 = calc_wallet_exposure(
        exchange_params.c_mult,
        balance,
        psize,
        pprice,
        inverse,
    );
    if wallet_exposure >= fx_mul(wallet_exposure_target, 990_000_000) {
        return 0;
    }
    let qty_step: i64 = exchange_params.qty_step;

    let mut guesses: Vec<i64> = Vec::new();
    let mut vals: Vec<i64> = Vec::new();
    let mut evals: Vec<i64> = Vec::new();

    let g0: i64 = fx_cap(fx_round_nr(
        fx_div(fx_mul(fx_abs(psize), wallet_exposure_target), fx_max(10_000_000, wallet_exposure)),
        qty_step,
    ));
    let v0: i64 = calc_wallet_exposure_if_filled(
        balance,
        psize,
        pprice,
        g0,
        entry_price,
        inverse,
        exchange_params,
    );
    guesses.push(g0);
    vals.push(v0);
    evals.push(fx_div(fx_abs(fx_sub(v0, wallet_exposure_target)), wallet_exposure_target));

    let g1: i64 = fx_cap(fx_max(fx_max(fx_mul(g0, 1_200_000_000), fx_add(g0, qty_step)), 0));
    let v1: i64 = calc_wallet_exposure_if_filled(
        balance,
        psize,
        pprice,
        g1,
        entry_price,
        inverse,
        exchange_params,
    );
    guesses.push(g1);
    vals.push(v1);
    evals.push(fx_div(fx_abs(fx_sub(v1, wallet_exposure_target)), wallet_exposure_target));

    proof {
        assert(view64(guesses@) =~= s_entry_init(c, wallet_exposure as int).guesses);
        assert(view64(vals@) =~= s_entry_init(c, wallet_exposure as int).vals);
        assert(view64(evals@) =~= s_entry_init(c, wallet_exposure as int).evals);
    }

    let ghost init = s_entry_init(c, wallet_exposure as int);
    let mut k: usize = 0;
    let mut stop: bool = evals[1] < 10_000_000;
    proof {
        assert(stop == s_converged(init));
    }
    while k < 15 && !stop
        invariant
            fx_ok(balance),
            fx_ok(psize),
            fx_ok(pprice),
            fx_ok(entry_price),
            fx_ok(wallet_exposure_target),
            wallet_exposure_target != 0,
            exchange_params_wf(*exchange_params),
            qty_step == exchange_params.qty_step,
            c == (EntryCtx {
                balance: balance as int,
                psize: psize as int,
                pprice: pprice as int,
                target: wallet_exposure_target as int,
                entry_price: entry_price as int,
                inverse,
                ep: *exchange_params,
            }),
            k <= 15,
            s_entry_state_wf(s_entry_iter(c, init, k as nat)),
            view64(guesses@) == s_entry_iter(c, init, k as nat).guesses,
            view64(vals@) == s_entry_iter(c, init, k as nat).vals,
            view64(evals@) == s_entry_iter(c, init, k as nat).evals,
            guesses@.len() == vals@.len(),
            2 <= evals@.len() <= guesses@.len(),
            stop == s_converged(s_entry_iter(c, init, k as nat)),
            s_entry_state_wf(init),
        decreases 15 - k,
    {
        let ghost st = s_entry_iter(c, init, k as nat);
        let n: usize = guesses.len();
        if guesses[n - 1] == guesses[n - 2] {
            let last: i64 = guesses[n - 1];
            let gb: i64 = fx_cap(fx_max(fx_mul(last, 1_100_000_000), fx_add(last, qty_step)));
            let vb: i64 = calc_wallet_exposure_if_filled(
                balance,
                psize,
                pprice,
                gb,
                entry_price,
                inverse,
                exchange_params,
            );
            guesses.push(gb);
            vals.push(vb);
        }
        let ghost st1 = if st.guesses[st.guesses.len() - 1] == st.guesses[st.guesses.len() - 2] {
            SolverState {
                guesses: st.guesses.push(
                    s_clamp(s_max(
                        s_mul(st.guesses[st.guesses.len() - 1], 1_100_000_000),
                        s_add(st.guesses[st.guesses.len() - 1], c.ep.qty_step as int),
                    )),
                ),
                vals: st.vals.push(
                    s_entry_val(
                        c,
                        s_clamp(s_max(
                            s_mul(st.guesses[st.guesses.len() - 1], 1_100_000_000),
                            s_add(st.guesses[st.guesses.len() - 1], c.ep.qty_step as int),
                        )),
                    ),
                ),
                evals: st.evals,
            }
        } else {
            st
        };
        proof {
            assert(view64(guesses@) =~= st1.guesses);
            assert(view64(vals@) =~= st1.vals);
        }
        let m: usize = guesses.len();
        let interp: i64 = interp_two(
            wallet_exposure_target,
            vals[m - 2],
            vals[m - 1],
            guesses[m - 2],
            guesses[m - 1],
        );
        let g: i64 = fx_cap(fx_round_nr(fx_max(interp, 0), qty_step));
        let v: i64 = calc_wallet_exposure_if_filled(
            balance,
            psize,
            pprice,
            g,
            entry_price,
            inverse,
            exchange_params,
        );
        let e: i64 = fx_div(fx_abs(fx_sub(v, wallet_exposure_target)), wallet_exposure_target);
        guesses.push(g);
        vals.push(v);
        evals.push(e);
        proof {
            lemma_entry_step_wf(c, st);
            assert(view64(guesses@) =~= s_entry_step(c, st).guesses);
            assert(view64(vals@) =~= s_entry_step(c, st).vals);
            assert(view64(evals@) =~= s_entry_step(c, st).evals);
            lemma_entry_iter_unfold(c, st, (15 - k) as nat);
        }
        stop = e < 10_000_000;
        k = k + 1;
        proof {
            assert(s_entry_iter(c, init, k as nat) == s_entry_step(c, st)) by {
                lemma_entry_iter_step_count(c, init, k as nat);
            }
        }
    }
    proof {
        let fin = s_entry_iter(c, init, k as nat);
        if k < 15 {
            lemma_entry_iter_converged(c, fin, (15 - k) as nat);
            lemma_entry_iter_add(c, init, k as nat, (15 - k) as nat);
        }
        assert(s_entry_iter(c, init, 15) == fin);
        lemma_best_idx_in_range(fin.evals, fin.evals.len() as int);
    }
    pick_best_guess(&evals, &guesses)
}

/// Context of a close solver; `long` selects the PnL formula and whether
/// the raw or absolute position size caps the guesses.
pub struct CloseCtx {
    pub balance: int,
    pub psize: int,
    pub pprice: int,
    pub target: int,
    pub close_price: int,
    pub inverse: bool,
    pub long: bool,
    pub ep: ExchangeParams,
}

/// Upper clamp for close guesses: the raw size for the long solver, the
/// absolute size for the short solver.
pub open spec fn s_close_cap(c: CloseCtx) -> int {
    if c.long {
        c.psize
    } else {
        s_abs(c.psize)
    }
}

/// Wallet exposure left after closing `guess` at the close price, with the
/// realized PnL added to the balance first. A zero adjusted balance yields
/// zero (saturating-division convention).
pub open spec fn s_close_val(c: CloseCtx, guess: int) -> int {
    let pnl = if c.long {
        s_pnl_long(c.pprice, c.close_price, guess, c.inverse, c.ep.c_mult as int)
    } else {
        s_pnl_short(c.pprice, c.close_price, guess, c.inverse, c.ep.c_mult as int)
    };
    let new_balance = s_add(c.balance, pnl);
    s_div(
        s_qty_to_cost(s_sub_i(s_close_cap(c), guess), c.pprice, c.inverse, c.ep.c_mult as int),
        new_balance,
    )
}

/// Clamp a candidate guess into `[0, cap]` the way the solver does
/// (`max` with zero first, then `min` with the cap).
pub open spec fn s_close_clip(c: CloseCtx, g: int) -> int {
    s_min(s_max(g, 0), s_close_cap(c))
}

/// Initial two-sample state of a close solver.
pub open spec fn s_close_init(c: CloseCtx, we: int) -> SolverState {
    let g0 = s_close_clip(
        c,
        s_round_nr(
            s_mul(s_close_cap(c), s_sub_i(SCALE as int, s_div(c.target, we))),
            c.ep.qty_step as int,
        ),
    );
    let v0 = s_close_val(c, g0);
    let next0 = s_max(s_mul(g0, 1_200_000_000), s_add(g0, c.ep.qty_step as int));
    let next = if next0 == g0 {
        s_min(s_mul(g0, 800_000_000), s_sub_i(g0, c.ep.qty_step as int))
    } else {
        next0
    };
    let g1 = s_close_clip(c, next);
    let v1 = s_close_val(c, g1);
    SolverState {
        guesses: seq![g0, g1],
        vals: seq![v0, v1],
        evals: seq![s_rel_err(v0, c.target), s_rel_err(v1, c.target)],
    }
}

/// One refinement step of a close solver: interpolate the two best-error
/// samples toward the target, clip and round, perturb by one step down or
/// two steps up if the guess was already tried, and sample; a guess that is
/// still a duplicate leaves the state unchanged.
pub open spec fn s_close_step(c: CloseCtx, st: SolverState) -> SolverState {
    let n = st.evals.len() as int;
    let b1 = s_best_idx(st.evals, n);
    let b2 = s_best_idx_excl(st.evals, n, b1);
    let interp = s_interp_two(c.target, st.vals[b1], st.vals[b2], st.guesses[b1], st.guesses[b2]);
    let g0 = s_close_clip(c, s_round_nr(interp, c.ep.qty_step as int));
    let g1 = if st.guesses.contains(g0) {
        s_close_clip(c, s_sub_i(g0, c.ep.qty_step as int))
    } else {
        g0
    };
    let g2 = if st.guesses.contains(g0) && st.guesses.contains(g1) {
        s_close_clip(c, s_add(g1, 2 * (c.ep.qty_step as int)))
    } else {
        g1
    };
    if st.guesses.contains(g2) {
        st
    } else {
        let v = s_close_val(c, g2);
        SolverState {
            guesses: st.guesses.push(g2),
            vals: st.vals.push(v),
            evals: st.evals.push(s_rel_err(v, c.target)),
        }
    }
}

/// Run up to `k` close-solver steps, stopping once converged.
pub open spec fn s_close_iter(c: CloseCtx, st: SolverState, k: nat) -> SolverState
    decreases k,
{
    if k == 0 || s_converged(st) {
        st
    } else {
        s_close_iter(c, s_close_step(c, st), (k - 1) as nat)
    }
}

proof fn lemma_close_iter_converged(c: CloseCtx, st: SolverState, k: nat)
    requires
        s_converged(st),
    ensures
        s_close_iter(c, st, k) == st,
{
}

proof fn lemma_close_iter_unfold(c: CloseCtx, st: SolverState, k: nat)
    requires
        k > 0,
        !s_converged(st),
    ensures
        s_close_iter(c, st, k) == s_close_iter(c, s_close_step(c, st), (k - 1) as nat),
{
}

proof fn lemma_close_iter_add(c: CloseCtx, st: SolverState, k: nat, j: nat)
    ensures
        s_close_iter(c, st, k + j) == s_close_iter(c, s_close_iter(c, st, k), j),
    decreases k,
{
    if k == 0 {
    } else if s_converged(st) {
        lemma_close_iter_converged(c, st, k + j);
        lemma_close_iter_converged(c, st, k);
        lemma_close_iter_converged(c, st, j);
    } else {
        lemma_close_iter_add(c, s_close_step(c, st), (k - 1) as nat, j);
    }
}

proof fn lemma_close_iter_step_count(c: CloseCtx, st: SolverState, k: nat)
    requires
        k > 0,
        !s_converged(s_close_iter(c, st, (k - 1) as nat)),
    ensures
        s_close_iter(c, st, k) == s_close_step(c, s_close_iter(c, st, (k - 1) as nat)),
    decreases k,
{
    if s_converged(st) {
        lemma_close_iter_converged(c, st, (k - 1) as nat);
        assert(false);
    }
    if k == 1 {
        lemma_close_iter_unfold(c, st, 1);
        assert(s_close_iter(c, s_close_step(c, st), 0) == s_close_step(c, st));
        assert(s_close_iter(c, st, 0) == st);
    } else {
        lemma_close_iter_unfold(c, st, (k - 1) as nat);
        lemma_close_iter_step_count(c, s_close_step(c, st), (k - 1) as nat);
        lemma_close_iter_unfold(c, st, k);
    }
}

/// A state the step function leaves unchanged stays unchanged forever.
proof fn lemma_close_iter_fixpoint(c: CloseCtx, st: SolverState, k: nat)
    requires
        s_close_step(c, st) == st,
    ensures
        s_close_iter(c, st, k) == st,
    decreases k,
{
    if k > 0 && !s_converged(st) {
        lemma_close_iter_fixpoint(c, st, (k - 1) as nat);
    }
}

/// The quantity a close solver returns: the full cap when the target is
/// zero, zero when the exposure is already within 0.1% above the target,
/// else the best-error guess after up to 15 refinement steps.
pub open spec fn s_close_solver(c: CloseCtx) -> int {
    if c.target == 0 {
        s_close_cap(c)
    } else {
        let we = s_wallet_exposure(c.ep.c_mult as int, c.balance, c.psize, c.pprice, c.inverse);
        if we <= s_mul(c.target, 1_001_000_000) {
            0
        } else {
            let st = s_close_iter(c, s_close_init(c, we), 15);
            st.guesses[s_best_idx(st.evals, st.evals.len() as int)]
        }
    }
}

/// Invariants every reachable close-solver state satisfies.
pub open spec fn s_close_state_wf(st: SolverState) -> bool {
    &&& st.guesses.len() == st.vals.len()
    &&& st.evals.len() == st.guesses.len()
    &&& 2 <= st.evals.len()
    &&& forall|i: int| 0 <= i < st.guesses.len() ==> -FX_MAX <= #[trigger] st.guesses[i] <= FX_MAX
}

proof fn lemma_close_step_wf(c: CloseCtx, st: SolverState)
    requires
        s_close_state_wf(st),
        fx_ok_int(s_close_cap(c)),
    ensures
        s_close_state_wf(s_close_step(c, st)),
{
    let n = st.evals.len() as int;
    lemma_best_idx_in_range(st.evals, n);
    lemma_best_idx_excl_in_range(st.evals, n, s_best_idx(st.evals, n));
}

/// Range predicate on unbounded integers mirroring [`fx_ok`].
pub open spec fn fx_ok_int(v: int) -> bool {
    -FX_MAX <= v <= FX_MAX
}

/// Membership scan.
fn vec_contains(v: &Vec<i64>, x: i64) -> (r: bool)
    ensures
        r == view64(v@).contains(x as int),
{
    let mut i: usize = 0;
    while i < v.len()
        invariant
            0 <= i <= v@.len(),
            forall|j: int| 0 <= j < i ==> view64(v@)[j] != x as int,
        decreases v@.len() - i,
    {
        if v[i] == x {
            assert(view64(v@)[i as int] == x as int);
            return true;
        }
        i = i + 1;
    }
    false
}

/// Linear scan for the earliest index of the smallest error.
fn best_err_idx(evals: &Vec<i64>) -> (r: usize)
    requires
        evals@.len() >= 1,
    ensures
        r as int == s_best_idx(view64(evals@), evals@.len() as int),
        r < evals@.len(),
{
    let mut best_i: usize = 0;
    let mut i: usize = 1;
    while i < evals.len()
        invariant
            1 <= i <= evals@.len(),
            0 <= best_i < i,
            best_i as int == s_best_idx(view64(evals@), i as int),
        decreases evals@.len() - i,
    {
        if evals[i] < evals[best_i] {
            best_i = i;
        }
        i = i + 1;
    }
    best_i
}

/// Linear scan for the earliest index of the smallest error other than `excl`.
fn best_err_idx_excl(evals: &Vec<i64>, excl: usize) -> (r: usize)
    requires
        evals@.len() >= 2,
        excl < evals@.len(),
    ensures
        r as int == s_best_idx_excl(view64(evals@), evals@.len() as int, excl as int),
        r < evals@.len(),
        r != excl,
{
    proof {
        lemma_best_idx_excl_in_range(view64(evals@), evals@.len() as int, excl as int);
    }
    let mut best_i: usize = if excl == 0 { 1 } else { 0 };
    proof {
        if excl == 0 {
            assert(s_best_idx_excl(view64(evals@), 0, 0) == 0);
            assert(s_best_idx_excl(view64(evals@), 1, 0) == 0);
            assert(s_best_idx_excl(view64(evals@), 2, 0) == 1);
        } else {
            assert(s_best_idx_excl(view64(evals@), 0, excl as int) == 0);
            assert(s_best_idx_excl(view64(evals@), 1, excl as int) == 0);
        }
    }
    let start: usize = if excl == 0 { 2 } else { 1 };
    let mut i: usize = start;
    while i < evals.len()
        invariant
            evals@.len() >= 2,
            excl < evals@.len(),
            start <= i <= evals@.len(),
            start == (if excl == 0 { 2int } else { 1int }),
            0 <= best_i < i,
            best_i != excl,
            best_i as int == s_best_idx_excl(view64(evals@), i as int, excl as int),
        decreases evals@.len() - i,
    {
        if i != excl {
            if evals[i] < evals[best_i] {
                best_i = i;
            }
        }
        i = i + 1;
    }
    best_i
}

/// Iteratively finds the close quantity whose fill would bring wallet
/// exposure down to the target; shared core of the long and short solvers.
#[verifier::rlimit(60)]
fn close_solver_core(
    balance: i64,
    psize: i64,
    pprice: i64,
    wallet_exposure_target: i64,
    close_price: i64,
    inverse: bool,
    long: bool,
    exchange_params: &ExchangeParams,
) -> (r: i64)
    requires
        fx_ok(balance),
        fx_ok(psize),
        fx_ok(pprice),
        fx_ok(close_price),
        fx_ok(wallet_exposure_target),
        exchange_params_wf(*exchange_params),
    ensures
        r as int == s_close_solver(
            CloseCtx {
                balance: balance as int,
                psize: psize as int,
                pprice: pprice as int,
                target: wallet_exposure_target as int,
                close_price: close_price as int,
                inverse,
                long,
                ep: *exchange_params,
            },
        ),
        fx_ok(r),
{
    let ghost c = CloseCtx {
        balance: balance as int,
        psize: psize as int,
        pprice: pprice as int,
        target: wallet_exposure_target as int,
        close_price: close_price as int,
        inverse,
        long,
        ep: *exchange_params,
    };
    let cap: i64 = if long { psize } else { fx_abs(psize) };
    if wallet_exposure_target == 0 {
        return cap;
    }
    let wallet_exposure: i64 = calc_wallet_exposure(
        exchange_params.c_mult,
        balance,
        psize,
        pprice,
        inverse,
    );
    if wallet_exposure <= fx_mul(wallet_exposure_target, 1_001_000_000) {
        return 0;
    }
    let qty_step: i64 = exchange_params.qty_step;

    let mut guesses: Vec<i64> = Vec::new();
    let mut vals: Vec<i64> = Vec::new();
    let mut evals: Vec<i64> = Vec::new();

    let g0: i64 = fx_min(
        fx_max(
            fx_round_nr(
                fx_mul(cap, fx_sub(SCALE, fx_div(wallet_exposure_target, wallet_exposure))),
                qty_step,
            ),
            0,
        ),
        cap,
    );
    let v0: i64 = close_eval(balance, psize, pprice, close_price, inverse, long, exchange_params, g0);
    guesses.push(g0);
    vals.push(v0);
    evals.push(fx_div(fx_abs(fx_sub(v0, wallet_exposure_target)), wallet_exposure_target));

    let next0: i64 = fx_max(fx_mul(g0, 1_200_000_000), fx_add(g0, qty_step));
    let next: i64 = if next0 == g0 {
        fx_min(fx_mul(g0, 800_000_000), fx_sub(g0, qty_step))
    } else {
        next0
    };
    let g1: i64 = fx_min(fx_max(next, 0), cap);
    let v1: i64 = close_eval(balance, psize, pprice, close_price, inverse, long, exchange_params, g1);
    guesses.push(g1);
    vals.push(v1);
    evals.push(fx_div(fx_abs(fx_sub(v1, wallet_exposure_target)), wallet_exposure_target));

    proof {
        assert(view64(guesses@) =~= s_close_init(c, wallet_exposure as int).guesses);
        assert(view64(vals@) =~= s_close_init(c, wallet_exposure as int).vals);
        assert(view64(evals@) =~= s_close_init(c, wallet_exposure as int).evals);
    }

    let ghost init = s_close_init(c, wallet_exposure as int);
    let mut k: usize = 0;
    let mut stop: bool = evals[1] < 10_000_000;
    let two_step: i64 = qty_step + qty_step;
    while k < 15 && !stop
        invariant
            fx_ok(balance),
            fx_ok(psize),
            fx_ok(pprice),
            fx_ok(close_price),
            fx_ok(wallet_exposure_target),
            wallet_exposure_target != 0,
            exchange_params_wf(*exchange_params),
            qty_step == exchange_params.qty_step,
            two_step == 2 * qty_step,
            cap as int == s_close_cap(c),
            fx_ok(cap),
            c == (CloseCtx {
                balance: balance as int,
                psize: psize as int,
                pprice: pprice as int,
                target: wallet_exposure_target as int,
                close_price: close_price as int,
                inverse,
                long,
                ep: *exchange_params,
            }),
            k <= 15,
            s_close_state_wf(s_close_iter(c, init, k as nat)),
            view64(guesses@) == s_close_iter(c, init, k as nat).guesses,
            view64(vals@) == s_close_iter(c, init, k as nat).vals,
            view64(evals@) == s_close_iter(c, init, k as nat).evals,
            guesses@.len() == vals@.len(),
            evals@.len() == guesses@.len(),
            2 <= evals@.len(),
            stop ==> s_converged(s_close_iter(c, init, k as nat)) || s_close_step(
                c,
                s_close_iter(c, init, k as nat),
            ) == s_close_iter(c, init, k as nat),
            !stop ==> !s_converged(s_close_iter(c, init, k as nat)),
            s_close_state_wf(init),
        decreases 15 - k, (if stop { 0int } else { 1int }),
    {
        let ghost st = s_close_iter(c, init, k as nat);
        let n: usize = evals.len();
        let b1: usize = best_err_idx(&evals);
        let b2: usize = best_err_idx_excl(&evals, b1);
        let interp: i64 = interp_two(
            wallet_exposure_target,
            vals[b1],
            vals[b2],
            guesses[b1],
            guesses[b2],
        );
        let mut g: i64 = fx_min(fx_max(fx_round_nr(interp, qty_step), 0), cap);
        let ghost g0s = s_close_clip(c, s_round_nr(interp as int, c.ep.qty_step as int));
        assert(g as int == g0s);
        let mut give_up: bool = false;
        if vec_contains(&guesses, g) {
            g = fx_min(fx_max(fx_sub(g, qty_step), 0), cap);
            if vec_contains(&guesses, g) {
                g = fx_min(fx_max(fx_add(g, two_step), 0), cap);
                if vec_contains(&guesses, g) {
                    give_up = true;
                }
            }
        }
        if give_up {
            proof {
                assert(s_close_step(c, st) == st);
            }
            stop = true;
        } else {
            let v: i64 = close_eval(
                balance,
                psize,
                pprice,
                close_price,
                inverse,
                long,
                exchange_params,
                g,
            );
            let e: i64 = fx_div(fx_abs(fx_sub(v, wallet_exposure_target)), wallet_exposure_target);
            guesses.push(g);
            vals.push(v);
            evals.push(e);
            proof {
                lemma_close_step_wf(c, st);
                assert(view64(guesses@) =~= s_close_step(c, st).guesses);
                assert(view64(vals@) =~= s_close_step(c, st).vals);
                assert(view64(evals@) =~= s_close_step(c, st).evals);
            }
            stop = e < 10_000_000;
            k = k + 1;
            proof {
                lemma_close_iter_step_count_from(c, init, st, k as nat);
            }
        }
    }
    proof {
        let fin = s_close_iter(c, init, k as nat);
        if k < 15 {
            if s_converged(fin) {
                lemma_close_iter_converged(c, fin, (15 - k) as nat);
            } else {
                lemma_close_iter_fixpoint(c, fin, (15 - k) as nat);
            }
            lemma_close_iter_add(c, init, k as nat, (15 - k) as nat);
        }
        assert(s_close_iter(c, init, 15) == fin);
        lemma_best_idx_in_range(fin.evals, fin.evals.len() as int);
    }
    pick_best_guess(&evals, &guesses)
}

/// Wrapper for the step-count argument inside the loop.
proof fn lemma_close_iter_step_count_from(c: CloseCtx, init: SolverState, st: SolverState, k: nat)
    requires
        k > 0,
        st == s_close_iter(c, init, (k - 1) as nat),
        !s_converged(st),
    ensures
        s_close_iter(c, init, k) == s_close_step(c, st),
{
    lemma_close_iter_step_count(c, init, k);
}

/// Exposure left after closing `guess`, with realized PnL credited first.
fn close_eval(
    balance: i64,
    psize: i64,
    pprice: i64,
    close_price: i64,
    inverse: bool,
    long: bool,
    exchange_params: &ExchangeParams,
    guess: i64,
) -> (r: i64)
    requires
        fx_ok(psize),
        fx_ok(guess),
    ensures
        r as int == s_close_val(
            CloseCtx {
                balance: balance as int,
                psize: psize as int,
                pprice: pprice as int,
                target: 0,
                close_price: close_price as int,
                inverse,
                long,
                ep: *exchange_params,
            },
            guess as int,
        ),
        fx_ok(r),
{
    let pnl: i64 = if long {
        calc_pnl_long(pprice, close_price, guess, inverse, exchange_params.c_mult)
    } else {
        calc_pnl_short(pprice, close_price, guess, inverse, exchange_params.c_mult)
    };
    let new_balance: i64 = fx_add(balance, pnl);
    let cap: i64 = if long { psize } else { fx_abs(psize) };
    fx_div(qty_to_cost(fx_sub(cap, guess), pprice, inverse, exchange_params.c_mult), new_balance)
}

/// Finds the close quantity for a long position that brings wallet exposure
/// down to the target; returns the best-error guess observed, the full
/// position for a zero target, and zero when already within 0.1% above.
pub fn find_close_qty_long_bringing_wallet_exposure_to_target(
    balance: i64,
    psize: i64,
    pprice: i64,
    wallet_exposure_target: i64,
    close_price: i64,
    inverse: bool,
    exchange_params: &ExchangeParams,
) -> (r: i64)
    requires
        fx_ok(balance),
        fx_ok(psize),
        fx_ok(pprice),
        fx_ok(close_price),
        fx_ok(wallet_exposure_target),
        exchange_params_wf(*exchange_params),
    ensures
        r as int == s_close_solver(
            CloseCtx {
                balance: balance as int,
                psize: psize as int,
                pprice: pprice as int,
                target: wallet_exposure_target as int,
                close_price: close_price as int,
                inverse,
                long: true,
                ep: *exchange_params,
            },
        ),
        fx_ok(r),
{
    close_solver_core(
        balance,
        psize,
        pprice,
        wallet_exposure_target,
        close_price,
        inverse,
        true,
        exchange_params,
    )
}

/// Finds the close quantity for a short position (as a positive value) that
/// brings wallet exposure down to the target; mirror of the long solver
/// over the absolute position size.
pub fn find_close_qty_short_bringing_wallet_exposure_to_target(
    balance: i64,
    psize: i64,
    pprice: i64,
    wallet_exposure_target: i64,
    close_price: i64,
    inverse: bool,
    exchange_params: &ExchangeParams,
) -> (r: i64)
    requires
        fx_ok(balance),
        fx_ok(psize),
        fx_ok(pprice),
        fx_ok(close_price),
        fx_ok(wallet_exposure_target),
        exchange_params_wf(*exchange_params),
    ensures
        r as int == s_close_solver(
            CloseCtx {
                balance: balance as int,
                psize: psize as int,
                pprice: pprice as int,
                target: wallet_exposure_target as int,
                close_price: close_price as int,
                inverse,
                long: false,
                ep: *exchange_params,
            },
        ),
        fx_ok(r),
{
    close_solver_core(
        balance,
        psize,
        pprice,
        wallet_exposure_target,
        close_price,
        inverse,
        false,
        exchange_params,
    )
}

/// Iteration counts compose: running `k + j` steps equals running `k`
/// steps and then `j` more.
proof fn lemma_entry_iter_add(c: EntryCtx, st: SolverState, k: nat, j: nat)
    ensures
        s_entry_iter(c, st, k + j) == s_entry_iter(c, s_entry_iter(c, st, k), j),
    decreases k,
{
    if k == 0 {
    } else if s_converged(st) {
        lemma_entry_iter_converged(c, st, k + j);
        lemma_entry_iter_converged(c, st, k);
        lemma_entry_iter_converged(c, st, j);
    } else {
        lemma_entry_iter_add(c, s_entry_step(c, st), (k - 1) as nat, j);
    }
}

/// After `k > 0` steps from a non-converged state, the result is one step
/// past `k - 1` steps (when those did not converge).
proof fn lemma_entry_iter_step_count(c: EntryCtx, st: SolverState, k: nat)
    requires
        k > 0,
        !s_converged(s_entry_iter(c, st, (k - 1) as nat)),
    ensures
        s_entry_iter(c, st, k) == s_entry_step(c, s_entry_iter(c, st, (k - 1) as nat)),
    decreases k,
{
    if s_converged(st) {
        lemma_entry_iter_converged(c, st, (k - 1) as nat);
        assert(false);
    }
    if k == 1 {
        lemma_entry_iter_unfold(c, st, 1);
        assert(s_entry_iter(c, s_entry_step(c, st), 0) == s_entry_step(c, st));
        assert(s_entry_iter(c, st, 0) == st);
    } else {
        lemma_entry_iter_unfold(c, st, (k - 1) as nat);
        lemma_entry_iter_step_count(c, s_entry_step(c, st), (k - 1) as nat);
        lemma_entry_iter_unfold(c, st, k);
    }
}

} // verus!
