//! Engine-wide laws, stated over the spec models and proved here: close
//! grids conserve the position size exactly, frontwards grids keep every
//! quantity on the quantity step and every price on the price step in
//! strictly increasing order, and the unrolled entry lists walk their
//! prices strictly downward (long) or upward (short).

use vstd::prelude::*;
use crate::fixed::{
    lemma_multiple_add_sub, lemma_round_dn_props, lemma_round_multiple_identity,
    lemma_round_up_props, s_abs, s_clamp, s_divt, s_max, s_min, s_round_dn, s_round_nr,
    s_round_up, FX_MAX, SCALE,
};
use crate::types::{BotSideConfig, ExchangeParams, OrderType, TrailingPriceBundle};
use crate::utils::s_min_entry_qty_parts;
use crate::closes::{
    s_close_grid_frontwards_long, s_close_grid_frontwards_short, s_count_of, s_front_emit,
    s_front_prices_long, s_front_prices_short,
};

verus! {

/// Sum of absolute quantities over a close list, from index `i` on.
pub open spec fn s_sum_abs_qty(s: Seq<(int, int, OrderType)>, i: int) -> int
    decreases s.len() - i,
{
    if i < 0 || i >= s.len() {
        0
    } else {
        s_abs(s[i].0) + s_sum_abs_qty(s, i + 1)
    }
}

proof fn lemma_sum_shift(x: (int, int, OrderType), s: Seq<(int, int, OrderType)>, j: int)
    requires
        0 <= j <= s.len(),
    ensures
        s_sum_abs_qty(seq![x] + s, j + 1) == s_sum_abs_qty(s, j),
    decreases s.len() - j,
{
    let t = seq![x] + s;
    if j >= s.len() {
        assert(s_sum_abs_qty(t, j + 1) == 0);
    } else {
        lemma_sum_shift(x, s, j + 1);
        assert(t[j + 1] == s[j]);
    }
}

proof fn lemma_sum_cons(x: (int, int, OrderType), s: Seq<(int, int, OrderType)>)
    ensures
        s_sum_abs_qty(seq![x] + s, 0) == s_abs(x.0) + s_sum_abs_qty(s, 0),
{
    let t = seq![x] + s;
    assert(t[0] == x);
    lemma_sum_shift(x, s, 0);
}

proof fn lemma_sum_push(s: Seq<(int, int, OrderType)>, x: (int, int, OrderType), i: int)
    requires
        0 <= i <= s.len(),
    ensures
        s_sum_abs_qty(s.push(x), i) == s_sum_abs_qty(s, i) + s_abs(x.0),
    decreases s.len() - i,
{
    if i == s.len() {
        assert(s.push(x)[i] == x);
        assert(s_sum_abs_qty(s.push(x), i + 1) == 0);
        assert(s_sum_abs_qty(s, i) == 0);
    } else {
        assert(s.push(x)[i] == s[i]);
        lemma_sum_push(s, x, i + 1);
    }
}

proof fn lemma_sum_update_last(s: Seq<(int, int, OrderType)>, x: (int, int, OrderType), i: int)
    requires
        s.len() >= 1,
        0 <= i < s.len(),
    ensures
        s_sum_abs_qty(s.update(s.len() - 1, x), i) == s_sum_abs_qty(s, i) - s_abs(
            s[s.len() - 1].0,
        ) + s_abs(x.0),
    decreases s.len() - i,
{
    let t = s.update(s.len() - 1, x);
    if i == s.len() - 1 {
        assert(t[i] == x);
        assert(s_sum_abs_qty(t, i + 1) == 0);
        assert(s_sum_abs_qty(s, i + 1) == 0);
    } else {
        assert(t[i] == s[i]);
        lemma_sum_update_last(s, x, i + 1);
    }
}

/// Each term of the absolute-quantity sum is bounded by the whole sum,
/// since every term is non-negative.
proof fn lemma_sum_elem_le(s: Seq<(int, int, OrderType)>, k: int, i: int)
    requires
        0 <= i <= k < s.len(),
    ensures
        s_abs(s[k].0) <= s_sum_abs_qty(s, i),
        s_sum_abs_qty(s, i) >= 0,
    decreases s.len() - i,
{
    if i == k {
        lemma_sum_nonneg(s, i + 1);
    } else {
        lemma_sum_elem_le(s, k, i + 1);
    }
}

proof fn lemma_sum_nonneg(s: Seq<(int, int, OrderType)>, i: int)
    requires
        0 <= i <= s.len(),
    ensures
        s_sum_abs_qty(s, i) >= 0,
    decreases s.len() - i,
{
    if i < s.len() {
        lemma_sum_nonneg(s, i + 1);
    }
}

/// The minimum entry quantity is non-negative and a multiple of `qty_step`
/// whenever the exchange minima are.
proof fn lemma_meq_legal(
    price: int,
    inverse: bool,
    c_mult: int,
    qty_step: int,
    min_qty: int,
    min_cost: int,
)
    requires
        0 < qty_step <= FX_MAX,
        0 <= min_qty,
        min_qty % qty_step == 0,
    ensures
        s_min_entry_qty_parts(price, inverse, c_mult, qty_step, min_qty, min_cost) >= 0,
        s_min_entry_qty_parts(price, inverse, c_mult, qty_step, min_qty, min_cost) % qty_step
            == 0,
{
    if !inverse {
        let ru = s_round_up(
            crate::utils::s_cost_to_qty(min_cost, price, inverse, c_mult),
            qty_step,
        );
        lemma_round_up_props(
            crate::utils::s_cost_to_qty(min_cost, price, inverse, c_mult),
            qty_step,
        );
    }
}

/// The frontwards emission walk conserves quantity exactly: the emitted
/// absolute quantities and the residual sum to the size it started from;
/// every emitted quantity is a positive multiple of `qty_step` at or above
/// the level's minimum, and the emitted prices are the walked levels in
/// order.
proof fn lemma_front_emit_conserves(
    prices: Seq<int>,
    i: int,
    endi: int,
    rem: int,
    dflt: int,
    inverse: bool,
    c_mult: int,
    qty_step: int,
    min_qty: int,
    min_cost: int,
    long: bool,
    tag: OrderType,
)
    requires
        0 <= i <= endi,
        endi <= prices.len(),
        0 < qty_step <= FX_MAX,
        0 <= min_qty,
        min_qty % qty_step == 0,
        0 <= rem <= FX_MAX,
        rem % qty_step == 0,
        0 <= dflt <= FX_MAX,
        dflt % qty_step == 0,
    ensures
        ({
            let em = s_front_emit(
                prices,
                i,
                endi,
                rem,
                dflt,
                inverse,
                c_mult,
                qty_step,
                min_qty,
                min_cost,
                long,
                tag,
            );
            &&& s_sum_abs_qty(em.0, 0) + em.1 == rem
            &&& 0 <= em.1 <= rem
            &&& em.1 % qty_step == 0
            &&& em.0.len() <= endi - i
            &&& (em.0.len() == 0 ==> em.1 == rem)
            &&& (em.0.len() == 0 && i < endi ==> rem < s_min_entry_qty_parts(
                prices[i],
                inverse,
                c_mult,
                qty_step,
                min_qty,
                min_cost,
            ))
            &&& forall|k: int|
                0 <= k < em.0.len() ==> (#[trigger] em.0[k]).1 == prices[i + k] && s_abs(
                    em.0[k].0,
                ) % qty_step == 0 && s_abs(em.0[k].0) >= s_min_entry_qty_parts(
                    prices[i + k],
                    inverse,
                    c_mult,
                    qty_step,
                    min_qty,
                    min_cost,
                )
        }),
    decreases endi - i,
{
    if i >= endi {
    } else {
        let meq = s_min_entry_qty_parts(prices[i], inverse, c_mult, qty_step, min_qty, min_cost);
        lemma_meq_legal(prices[i], inverse, c_mult, qty_step, min_qty, min_cost);
        if rem < meq {
        } else {
            let q = s_min(rem, s_max(dflt, meq));
            assert(q % qty_step == 0);
            assert(meq <= q <= rem);
            let e = (
                if long {
                    s_clamp(-q)
                } else {
                    s_clamp(q)
                },
                prices[i],
                tag,
            );
            assert(s_abs(e.0) == q);
            let rem1 = s_clamp(s_round_nr(s_clamp(rem - q), qty_step));
            lemma_multiple_add_sub(rem, q, qty_step);
            lemma_round_multiple_identity(rem - q, qty_step);
            assert(rem1 == rem - q);
            lemma_front_emit_conserves(
                prices,
                i + 1,
                endi,
                rem1,
                dflt,
                inverse,
                c_mult,
                qty_step,
                min_qty,
                min_cost,
                long,
                tag,
            );
            let r = s_front_emit(
                prices,
                i + 1,
                endi,
                rem1,
                dflt,
                inverse,
                c_mult,
                qty_step,
                min_qty,
                min_cost,
                long,
                tag,
            );
            lemma_sum_cons(e, r.0);
            let em = s_front_emit(
                prices,
                i,
                endi,
                rem,
                dflt,
                inverse,
                c_mult,
                qty_step,
                min_qty,
                min_cost,
                long,
                tag,
            );
            assert(em.0 == seq![e] + r.0);
            assert forall|k: int| 0 <= k < em.0.len() implies (#[trigger] em.0[k]).1 == prices[i
                + k] && s_abs(em.0[k].0) % qty_step == 0 && s_abs(em.0[k].0)
                >= s_min_entry_qty_parts(
                prices[i + k],
                inverse,
                c_mult,
                qty_step,
                min_qty,
                min_cost,
            ) by {
                if k == 0 {
                    assert(em.0[0] == e);
                } else {
                    assert(em.0[k] == r.0[k - 1]);
                }
            }
        }
    }
}

/// Close-grid conservation, frontwards long: with auto-unstuck off, the
/// exchange minimum quantity on the quantity step, and a long position that
/// is itself step-aligned and covers the first level's minimum, the
/// absolute quantities of the emitted close grid sum exactly to the
/// position size, and every quantity is a multiple of the quantity step.
pub proof fn lemma_close_grid_frontwards_long_conserves(
    balance: int,
    psize: int,
    pprice: int,
    lowest_ask: int,
    ema_band_upper: int,
    inverse: bool,
    qty_step: int,
    price_step: int,
    min_qty: int,
    min_cost: int,
    c_mult: int,
    wallet_exposure_limit: int,
    min_markup: int,
    markup_range: int,
    n_close_orders: int,
)
    requires
        0 < qty_step <= FX_MAX,
        0 < price_step <= FX_MAX,
        0 <= min_qty,
        min_qty % qty_step == 0,
        0 <= psize <= FX_MAX,
        psize % qty_step == 0,
        ({
            let n = s_count_of(n_close_orders);
            let cps = s_front_prices_long(
                pprice,
                min_markup,
                markup_range,
                n,
                price_step,
                lowest_ask,
                0,
            );
            cps.len() >= 1 ==> psize >= s_min_entry_qty_parts(
                cps[0],
                inverse,
                c_mult,
                qty_step,
                min_qty,
                min_cost,
            )
        }),
    ensures
        ({
            let r = s_close_grid_frontwards_long(
                balance,
                psize,
                pprice,
                lowest_ask,
                ema_band_upper,
                0,
                0,
                inverse,
                qty_step,
                price_step,
                min_qty,
                min_cost,
                c_mult,
                wallet_exposure_limit,
                min_markup,
                markup_range,
                n_close_orders,
                0,
                0,
                0,
                0,
            );
            &&& s_sum_abs_qty(r, 0) == psize
            &&& forall|k: int| 0 <= k < r.len() ==> s_abs((#[trigger] r[k]).0) % qty_step == 0
        }),
{
    lemma_round_multiple_identity(psize, qty_step);
    let psize_0 = s_clamp(s_round_dn(psize, qty_step));
    assert(psize_0 == psize);
    let r = s_close_grid_frontwards_long(
        balance,
        psize,
        pprice,
        lowest_ask,
        ema_band_upper,
        0,
        0,
        inverse,
        qty_step,
        price_step,
        min_qty,
        min_cost,
        c_mult,
        wallet_exposure_limit,
        min_markup,
        markup_range,
        n_close_orders,
        0,
        0,
        0,
        0,
    );
    if psize_0 == 0 {
        assert(r == seq![(0int, 0int, OrderType::Empty)]);
        assert(s_sum_abs_qty(r, 1) == 0);
    } else {
        let n = s_count_of(n_close_orders);
        let cps = s_front_prices_long(
            pprice,
            min_markup,
            markup_range,
            n,
            price_step,
            lowest_ask,
            0,
        );
        if cps.len() == 0 {
            assert(r == seq![(s_clamp(-psize), lowest_ask, OrderType::CloseNormalLong)]);
            assert(s_abs(r[0].0) == psize);
            assert(s_sum_abs_qty(r, 1) == 0);
        } else {
            let meq0 = s_min_entry_qty_parts(cps[0], inverse, c_mult, qty_step, min_qty, min_cost);
            lemma_meq_legal(cps[0], inverse, c_mult, qty_step, min_qty, min_cost);
            if cps.len() == 1 {
                assert(r == seq![(s_clamp(-psize), cps[0], OrderType::CloseNormalLong)]);
                assert(s_abs(r[0].0) == psize);
                assert(s_sum_abs_qty(r, 1) == 0);
            } else {
                let dflt = s_clamp(s_round_dn(s_divt(psize, cps.len() as int), qty_step));
                assert(0 <= s_divt(psize, cps.len() as int) <= psize) by {
                    vstd::arithmetic::div_mod::lemma_div_pos_is_pos(psize, cps.len() as int);
                    vstd::arithmetic::div_mod::lemma_div_nonincreasing(psize, cps.len() as int);
                }
                lemma_round_dn_props(s_divt(psize, cps.len() as int), qty_step);
                assert(dflt % qty_step == 0 && 0 <= dflt <= FX_MAX);
                lemma_front_emit_conserves(
                    cps,
                    0,
                    cps.len() - 1,
                    psize,
                    dflt,
                    inverse,
                    c_mult,
                    qty_step,
                    min_qty,
                    min_cost,
                    true,
                    OrderType::CloseNormalLong,
                );
                let em = s_front_emit(
                    cps,
                    0,
                    cps.len() - 1,
                    psize,
                    dflt,
                    inverse,
                    c_mult,
                    qty_step,
                    min_qty,
                    min_cost,
                    true,
                    OrderType::CloseNormalLong,
                );
                let lastp = cps[cps.len() - 1];
                let meql = s_min_entry_qty_parts(
                    lastp,
                    inverse,
                    c_mult,
                    qty_step,
                    min_qty,
                    min_cost,
                );
                lemma_meq_legal(lastp, inverse, c_mult, qty_step, min_qty, min_cost);
                if em.1 >= meql {
                    let e = (s_clamp(-em.1), lastp, OrderType::CloseNormalLong);
                    lemma_sum_push(em.0, e, 0);
                    assert(r == em.0.push(e));
                    assert(s_abs(e.0) == em.1);
                    assert forall|k: int| 0 <= k < r.len() implies s_abs(
                        (#[trigger] r[k]).0,
                    ) % qty_step == 0 by {
                        if k < em.0.len() {
                            assert(r[k] == em.0[k]);
                        } else {
                            assert(r[k] == e);
                        }
                    }
                } else {
                    if em.0.len() == 0 {
                        assert(em.1 == psize);
                        assert(psize < meq0);
                        assert(false);
                    }
                    let last = em.0[em.0.len() - 1];
                    let merged = s_round_nr(s_abs(last.0) + em.1, qty_step);
                    lemma_multiple_add_sub(s_abs(last.0), em.1, qty_step);
                    lemma_sum_elem_le(em.0, em.0.len() - 1, 0);
                    assert(s_abs(last.0) + em.1 <= psize);
                    lemma_round_multiple_identity(s_abs(last.0) + em.1, qty_step);
                    assert(merged == s_abs(last.0) + em.1);
                    let x = (s_clamp(-merged), last.1, last.2);
                    assert(s_abs(x.0) == merged);
                    assert(r == em.0.update(em.0.len() - 1, x));
                    lemma_sum_update_last(em.0, x, 0);
                    assert forall|k: int| 0 <= k < r.len() implies s_abs(
                        (#[trigger] r[k]).0,
                    ) % qty_step == 0 by {
                        if k < em.0.len() - 1 {
                            assert(r[k] == em.0[k]);
                        } else {
                            assert(r[k] == x);
                        }
                    }
                }
            }
        }
    }
}

/// Close-grid conservation, frontwards short: mirror of
/// [`lemma_close_grid_frontwards_long_conserves`] over the absolute
/// position size.
pub proof fn lemma_close_grid_frontwards_short_conserves(
    balance: int,
    psize: int,
    pprice: int,
    highest_bid: int,
    ema_band_lower: int,
    inverse: bool,
    qty_step: int,
    price_step: int,
    min_qty: int,
    min_cost: int,
    c_mult: int,
    wallet_exposure_limit: int,
    min_markup: int,
    markup_range: int,
    n_close_orders: int,
)
    requires
        0 < qty_step <= FX_MAX,
        0 < price_step <= FX_MAX,
        0 <= min_qty,
        min_qty % qty_step == 0,
        -FX_MAX <= psize <= FX_MAX,
        s_abs(psize) % qty_step == 0,
        ({
            let n = s_count_of(n_close_orders);
            let cps = s_front_prices_short(
                pprice,
                min_markup,
                markup_range,
                n,
                price_step,
                highest_bid,
                0,
            );
            cps.len() >= 1 ==> s_abs(psize) >= s_min_entry_qty_parts(
                cps[0],
                inverse,
                c_mult,
                qty_step,
                min_qty,
                min_cost,
            )
        }),
    ensures
        ({
            let r = s_close_grid_frontwards_short(
                balance,
                psize,
                pprice,
                highest_bid,
                ema_band_lower,
                0,
                0,
                inverse,
                qty_step,
                price_step,
                min_qty,
                min_cost,
                c_mult,
                wallet_exposure_limit,
                min_markup,
                markup_range,
                n_close_orders,
                0,
                0,
                0,
                0,
            );
            &&& s_sum_abs_qty(r, 0) == s_abs(psize)
            &&& forall|k: int| 0 <= k < r.len() ==> s_abs((#[trigger] r[k]).0) % qty_step == 0
        }),
{
    let pa = s_abs(psize);
    lemma_round_multiple_identity(pa, qty_step);
    let psize_0 = s_clamp(s_round_dn(pa, qty_step));
    assert(psize_0 == pa);
    let r = s_close_grid_frontwards_short(
        balance,
        psize,
        pprice,
        highest_bid,
        ema_band_lower,
        0,
        0,
        inverse,
        qty_step,
        price_step,
        min_qty,
        min_cost,
        c_mult,
        wallet_exposure_limit,
        min_markup,
        markup_range,
        n_close_orders,
        0,
        0,
        0,
        0,
    );
    if psize_0 == 0 {
        assert(r == seq![(0int, 0int, OrderType::Empty)]);
        assert(s_sum_abs_qty(r, 1) == 0);
    } else {
        let n = s_count_of(n_close_orders);
        let cps = s_front_prices_short(
            pprice,
            min_markup,
            markup_range,
            n,
            price_step,
            highest_bid,
            0,
        );
        if cps.len() == 0 {
            assert(r == seq![(pa, highest_bid, OrderType::CloseNormalShort)]);
            assert(s_sum_abs_qty(r, 1) == 0);
        } else {
            let meq0 = s_min_entry_qty_parts(cps[0], inverse, c_mult, qty_step, min_qty, min_cost);
            lemma_meq_legal(cps[0], inverse, c_mult, qty_step, min_qty, min_cost);
            if cps.len() == 1 {
                assert(r == seq![(pa, cps[0], OrderType::CloseNormalShort)]);
                assert(s_sum_abs_qty(r, 1) == 0);
            } else {
                let dflt = s_clamp(s_round_dn(s_divt(pa, cps.len() as int), qty_step));
                assert(0 <= s_divt(pa, cps.len() as int) <= pa) by {
                    vstd::arithmetic::div_mod::lemma_div_pos_is_pos(pa, cps.len() as int);
                    vstd::arithmetic::div_mod::lemma_div_nonincreasing(pa, cps.len() as int);
                }
                lemma_round_dn_props(s_divt(pa, cps.len() as int), qty_step);
                assert(dflt % qty_step == 0 && 0 <= dflt <= FX_MAX);
                lemma_front_emit_conserves(
                    cps,
                    0,
                    cps.len() - 1,
                    pa,
                    dflt,
                    inverse,
                    c_mult,
                    qty_step,
                    min_qty,
                    min_cost,
                    false,
                    OrderType::CloseNormalShort,
                );
                let em = s_front_emit(
                    cps,
                    0,
                    cps.len() - 1,
                    pa,
                    dflt,
                    inverse,
                    c_mult,
                    qty_step,
                    min_qty,
                    min_cost,
                    false,
                    OrderType::CloseNormalShort,
                );
                let lastp = cps[cps.len() - 1];
                let meql = s_min_entry_qty_parts(
                    lastp,
                    inverse,
                    c_mult,
                    qty_step,
                    min_qty,
                    min_cost,
                );
                lemma_meq_legal(lastp, inverse, c_mult, qty_step, min_qty, min_cost);
                if em.1 >= meql {
                    let e = (em.1, lastp, OrderType::CloseNormalShort);
                    lemma_sum_push(em.0, e, 0);
                    assert(r == em.0.push(e));
                    assert forall|k: int| 0 <= k < r.len() implies s_abs(
                        (#[trigger] r[k]).0,
                    ) % qty_step == 0 by {
                        if k < em.0.len() {
                            assert(r[k] == em.0[k]);
                        } else {
                            assert(r[k] == e);
                        }
                    }
                } else {
                    if em.0.len() == 0 {
                        assert(em.1 == pa);
                        assert(pa < meq0);
                        assert(false);
                    }
                    let last = em.0[em.0.len() - 1];
                    let merged = s_round_nr(s_abs(last.0) + em.1, qty_step);
                    lemma_multiple_add_sub(s_abs(last.0), em.1, qty_step);
                    lemma_sum_elem_le(em.0, em.0.len() - 1, 0);
                    assert(s_abs(last.0) + em.1 <= pa);
                    lemma_round_multiple_identity(s_abs(last.0) + em.1, qty_step);
                    assert(merged == s_abs(last.0) + em.1);
                    let x = (s_clamp(merged), last.1, last.2);
                    assert(s_abs(x.0) == merged);
                    assert(r == em.0.update(em.0.len() - 1, x));
                    lemma_sum_update_last(em.0, x, 0);
                    assert forall|k: int| 0 <= k < r.len() implies s_abs(
                        (#[trigger] r[k]).0,
                    ) % qty_step == 0 by {
                        if k < em.0.len() - 1 {
                            assert(r[k] == em.0[k]);
                        } else {
                            assert(r[k] == x);
                        }
                    }
                }
            }
        }
    }
}

/// A non-empty order from the long entry router is priced at or below the
/// best bid it was quoted against, and is never the unstuck tag.
#[verifier::rlimit(100)]
proof fn lemma_next_entry_long_price_le_bid(
    ep: ExchangeParams,
    bp: BotSideConfig,
    balance: int,
    bid: int,
    ema_lower: int,
    psize: int,
    pprice: int,
    tb: TrailingPriceBundle,
)
    requires
        -FX_MAX <= bid <= FX_MAX,
    ensures
        ({
            let e = crate::entries::s_next_entry_long(
                ep,
                bp,
                balance,
                bid,
                ema_lower,
                psize,
                pprice,
                tb,
            );
            e.0 != 0 ==> -FX_MAX <= e.1 <= bid && e.2 != OrderType::EntryUnstuckLong
        }),
{
    reveal(crate::entries::s_next_entry_long);
    lemma_grid_entry_long_price_le_bid(ep, bp, balance, bid, ema_lower, psize, pprice);
    lemma_trailing_entry_long_price_le_bid(ep, bp, balance, bid, ema_lower, psize, pprice, tb);
    let ratio = bp.entry_trailing_grid_ratio as int;
    if !(bp.total_wallet_exposure_limit == 0 || balance <= 0) && !(ratio >= SCALE || ratio
        <= -SCALE) && ratio != 0 {
        let bp2a = crate::entries::s_scaled_limit(bp, ratio);
        let bp2b = crate::entries::s_scaled_limit(bp, s_clamp((SCALE as int) + ratio));
        lemma_grid_entry_long_price_le_bid(ep, bp2b, balance, bid, ema_lower, psize, pprice);
        lemma_trailing_entry_long_price_le_bid(
            ep,
            bp2a,
            balance,
            bid,
            ema_lower,
            psize,
            pprice,
            tb,
        );
    }
}

proof fn lemma_grid_entry_long_price_le_bid(
    ep: ExchangeParams,
    bp: BotSideConfig,
    balance: int,
    bid: int,
    ema_lower: int,
    psize: int,
    pprice: int,
)
    requires
        -FX_MAX <= bid <= FX_MAX,
    ensures
        ({
            let e = crate::entries::s_grid_entry_long(ep, bp, balance, bid, ema_lower, psize, pprice);
            e.0 != 0 ==> -FX_MAX <= e.1 <= bid && e.2 != OrderType::EntryUnstuckLong
        }),
{
}

proof fn lemma_trailing_entry_long_price_le_bid(
    ep: ExchangeParams,
    bp: BotSideConfig,
    balance: int,
    bid: int,
    ema_lower: int,
    psize: int,
    pprice: int,
    tb: TrailingPriceBundle,
)
    requires
        -FX_MAX <= bid <= FX_MAX,
    ensures
        ({
            let e = crate::entries::s_trailing_entry_long(
                ep,
                bp,
                balance,
                bid,
                ema_lower,
                psize,
                pprice,
                tb,
            );
            e.0 != 0 ==> -FX_MAX <= e.1 <= bid && e.2 != OrderType::EntryUnstuckLong
        }),
{
}

/// Simulated long entries walk the price strictly downward, and stay at or
/// below the bid they started from; once an order exists, a new order at
/// the previous order's price ends the walk instead of repeating it.
proof fn lemma_entries_long_rec_decreasing(
    ep: ExchangeParams,
    bp: BotSideConfig,
    tb: TrailingPriceBundle,
    balance: int,
    ema_lower: int,
    psize: int,
    pprice: int,
    bid: int,
    last: Option<int>,
    fuel: nat,
)
    requires
        -FX_MAX <= bid <= FX_MAX,
    ensures
        ({
            let r = crate::entries::s_entries_long_rec(
                ep,
                bp,
                tb,
                balance,
                ema_lower,
                psize,
                pprice,
                bid,
                last,
                fuel,
            );
            &&& forall|k: int| 0 <= k < r.len() ==> (#[trigger] r[k]).1 <= bid
            &&& forall|k: int| 0 <= k && k + 1 < r.len() ==> (#[trigger] r[k + 1]).1 < r[k].1
            &&& match last {
                Option::Some(lp) => r.len() > 0 ==> r[0].1 != lp,
                Option::None => true,
            }
        }),
    decreases fuel,
{
    if fuel == 0 {
    } else {
        let e = crate::entries::s_next_entry_long(ep, bp, balance, bid, ema_lower, psize, pprice, tb);
        lemma_next_entry_long_price_le_bid(ep, bp, balance, bid, ema_lower, psize, pprice, tb);
        let r = crate::entries::s_entries_long_rec(
            ep,
            bp,
            tb,
            balance,
            ema_lower,
            psize,
            pprice,
            bid,
            last,
            fuel,
        );
        if e.0 == 0 {
        } else {
            let blocked = match last {
                Option::Some(lp) => (e.2 == OrderType::EntryTrailingNormalLong || e.2
                    == OrderType::EntryTrailingCroppedLong) || lp == e.1,
                Option::None => false,
            };
            if blocked {
            } else {
                let np = crate::utils::s_new_psize_pprice(psize, pprice, e.0, e.1, ep.qty_step as int);
                let bid2 = s_min(bid, e.1);
                lemma_entries_long_rec_decreasing(
                    ep,
                    bp,
                    tb,
                    balance,
                    ema_lower,
                    np.0,
                    np.1,
                    bid2,
                    Option::Some(e.1),
                    (fuel - 1) as nat,
                );
                let rest = crate::entries::s_entries_long_rec(
                    ep,
                    bp,
                    tb,
                    balance,
                    ema_lower,
                    np.0,
                    np.1,
                    bid2,
                    Option::Some(e.1),
                    (fuel - 1) as nat,
                );
                assert(r == seq![e] + rest);
                assert forall|k: int| 0 <= k < r.len() implies (#[trigger] r[k]).1 <= bid by {
                    if k == 0 {
                        assert(r[0] == e);
                    } else {
                        assert(r[k] == rest[k - 1]);
                    }
                }
                assert forall|k: int| 0 <= k && k + 1 < r.len() implies (#[trigger] r[k + 1]).1
                    < r[k].1 by {
                    if k == 0 {
                        assert(r[0] == e);
                        assert(r[1] == rest[0]);
                        assert(rest[0].1 <= bid2 <= e.1);
                        assert(rest[0].1 != e.1);
                    } else {
                        assert(r[k] == rest[k - 1]);
                        assert(r[k + 1] == rest[k]);
                        assert(rest[(k - 1) + 1] == rest[k]);
                    }
                }
            }
        }
    }
}

/// Grid monotonicity, long entries: in the unrolled entry list, each order
/// after a non-unstuck order is priced strictly below it (the unstuck
/// order, when present, leads the list and is exempt).
pub proof fn lemma_entries_long_prices_decrease(
    ep: ExchangeParams,
    bp: BotSideConfig,
    tb: TrailingPriceBundle,
    balance: int,
    ob_bid: int,
    ema_lower: int,
    psize: int,
    pprice: int,
)
    requires
        -FX_MAX <= ob_bid <= FX_MAX,
    ensures
        ({
            let r = crate::entries::s_entries_long(
                ep,
                bp,
                tb,
                balance,
                ob_bid,
                ema_lower,
                psize,
                pprice,
            );
            forall|k: int|
                0 <= k && k + 1 < r.len() && (#[trigger] r[k]).2 != OrderType::EntryUnstuckLong
                    ==> r[k + 1].1 < r[k].1
        }),
{
    let au = crate::entries::s_auto_unstuck_entry_long(ep, bp, balance, ob_bid, ema_lower, psize, pprice);
    let fires = crate::entries::s_unstuck_entry_long_fires(
        ep,
        bp,
        balance,
        ob_bid,
        ema_lower,
        psize,
        pprice,
    );
    let last0 = if fires {
        Option::Some(au.1)
    } else {
        Option::<int>::None
    };
    lemma_entries_long_rec_decreasing(
        ep,
        bp,
        tb,
        balance,
        ema_lower,
        psize,
        pprice,
        ob_bid,
        last0,
        500,
    );
    let rec = crate::entries::s_entries_long_rec(
        ep,
        bp,
        tb,
        balance,
        ema_lower,
        psize,
        pprice,
        ob_bid,
        last0,
        500,
    );
    let r = crate::entries::s_entries_long(ep, bp, tb, balance, ob_bid, ema_lower, psize, pprice);
    assert forall|k: int|
        0 <= k && k + 1 < r.len() && (#[trigger] r[k]).2 != OrderType::EntryUnstuckLong implies r[
        k + 1].1 < r[k].1 by {
        if fires {
            assert(r == seq![au] + rec);
            if k == 0 {
                assert(r[0] == au);
                assert(au.2 == OrderType::EntryUnstuckLong);
            } else {
                assert(r[k] == rec[k - 1]);
                assert(r[k + 1] == rec[k]);
                assert(rec[(k - 1) + 1] == rec[k]);
            }
        } else {
            assert(r =~= rec);
            assert(r[(k) + 1] == rec[k + 1]);
            assert(rec[(k) + 1] == r[k + 1]);
        }
    }
}

/// Concatenating onto the empty head leaves a close list unchanged, both
/// for an appended entry and for an updated last entry.
proof fn proof_front_tail_shapes(s: Seq<(int, int, OrderType)>, e: (int, int, OrderType))
    ensures
        Seq::<(int, int, OrderType)>::empty() + s =~= s,
        (Seq::<(int, int, OrderType)>::empty() + s) + seq![e] =~= s.push(e),
{
}

proof fn proof_front_tail_update_shape(s: Seq<(int, int, OrderType)>, x: (int, int, OrderType))
    requires
        s.len() >= 1,
    ensures
        Seq::<(int, int, OrderType)>::empty() + s =~= s,
        (Seq::<(int, int, OrderType)>::empty() + s).update(s.len() - 1, x) =~= s.update(
            s.len() - 1,
            x,
        ),
{
    assert(Seq::<(int, int, OrderType)>::empty() + s =~= s);
}

/// With raw levels spaced at least one price step apart and no rounding
/// saturation, the accepted long close prices are strictly increasing, and
/// each is at least the rounded first raw level of its suffix.
proof fn lemma_front_prices_long_sorted(
    pprice: int,
    min_markup: int,
    markup_range: int,
    n: int,
    price_step: int,
    lowest_ask: int,
    i: int,
)
    requires
        0 <= i,
        0 < price_step,
        forall|j: int|
            0 <= j < n - 1 ==> #[trigger] crate::closes::s_raw_close_price(
                pprice,
                min_markup,
                markup_range,
                n,
                crate::types::LONG as int,
                j,
            ) + price_step <= crate::closes::s_raw_close_price(
                pprice,
                min_markup,
                markup_range,
                n,
                crate::types::LONG as int,
                j + 1,
            ),
        forall|j: int|
            0 <= j < n ==> s_round_up(
                #[trigger] crate::closes::s_raw_close_price(
                    pprice,
                    min_markup,
                    markup_range,
                    n,
                    crate::types::LONG as int,
                    j,
                ),
                price_step,
            ) <= FX_MAX,
    ensures
        ({
            let cps = s_front_prices_long(
                pprice,
                min_markup,
                markup_range,
                n,
                price_step,
                lowest_ask,
                i,
            );
            &&& forall|a: int, b: int| 0 <= a < b < cps.len() ==> #[trigger] cps[a] < #[trigger] cps[b]
            &&& forall|a: int| 0 <= a < cps.len() ==> (#[trigger] cps[a]) % price_step == 0
            &&& i < n ==> forall|a: int|
                0 <= a < cps.len() ==> #[trigger] cps[a] >= s_round_up(
                    crate::closes::s_raw_close_price(
                        pprice,
                        min_markup,
                        markup_range,
                        n,
                        crate::types::LONG as int,
                        i,
                    ),
                    price_step,
                )
        }),
    decreases n - i,
{
    if i >= n {
    } else {
        let raw_i = crate::closes::s_raw_close_price(
            pprice,
            min_markup,
            markup_range,
            n,
            crate::types::LONG as int,
            i,
        );
        lemma_round_up_props(raw_i, price_step);
        let p = s_clamp(s_round_up(raw_i, price_step));
        assert(p == s_round_up(raw_i, price_step));
        lemma_front_prices_long_sorted(
            pprice,
            min_markup,
            markup_range,
            n,
            price_step,
            lowest_ask,
            i + 1,
        );
        let rest = s_front_prices_long(
            pprice,
            min_markup,
            markup_range,
            n,
            price_step,
            lowest_ask,
            i + 1,
        );
        let cps = s_front_prices_long(
            pprice,
            min_markup,
            markup_range,
            n,
            price_step,
            lowest_ask,
            i,
        );
        if i + 1 < n {
            let raw_n = crate::closes::s_raw_close_price(
                pprice,
                min_markup,
                markup_range,
                n,
                crate::types::LONG as int,
                i + 1,
            );
            lemma_round_up_props(raw_n, price_step);
            assert(p < raw_i + price_step);
            assert(raw_i + price_step <= raw_n);
            assert(raw_n <= s_round_up(raw_n, price_step));
            assert forall|a: int| 0 <= a < rest.len() implies #[trigger] rest[a] > p by {
                assert(rest[a] >= s_round_up(raw_n, price_step));
            }
        } else {
            assert(rest.len() == 0);
        }
        if p >= lowest_ask {
            assert(cps == seq![p] + rest);
            assert forall|a: int| 0 <= a < cps.len() implies (#[trigger] cps[a]) % price_step
                == 0 by {
                if a == 0 {
                    assert(cps[0] == p);
                } else {
                    assert(cps[a] == rest[a - 1]);
                }
            }
            assert forall|a: int, b: int| 0 <= a < b < cps.len() implies #[trigger] cps[a]
                < #[trigger] cps[b] by {
                if a == 0 {
                    assert(cps[0] == p);
                    assert(cps[b] == rest[b - 1]);
                } else {
                    assert(cps[a] == rest[a - 1]);
                    assert(cps[b] == rest[b - 1]);
                }
            }
            assert forall|a: int| 0 <= a < cps.len() implies #[trigger] cps[a] >= s_round_up(
                raw_i,
                price_step,
            ) by {
                if a == 0 {
                    assert(cps[0] == p);
                } else {
                    assert(cps[a] == rest[a - 1]);
                }
            }
        } else {
            assert(cps == rest);
            assert forall|a: int| 0 <= a < cps.len() implies #[trigger] cps[a] >= s_round_up(
                raw_i,
                price_step,
            ) by {
                assert(cps[a] == rest[a]);
            }
            assert forall|a: int| 0 <= a < cps.len() implies (#[trigger] cps[a]) % price_step
                == 0 by {
                assert(cps[a] == rest[a]);
            }
        }
    }
}

/// Grid monotonicity, frontwards long closes: under the conservation
/// conditions, with raw levels spaced at least one price step apart and
/// rounding away from saturation, the emitted close prices are strictly
/// increasing.
pub proof fn lemma_close_grid_frontwards_long_prices_increase(
    balance: int,
    psize: int,
    pprice: int,
    lowest_ask: int,
    ema_band_upper: int,
    inverse: bool,
    qty_step: int,
    price_step: int,
    min_qty: int,
    min_cost: int,
    c_mult: int,
    wallet_exposure_limit: int,
    min_markup: int,
    markup_range: int,
    n_close_orders: int,
)
    requires
        0 < qty_step <= FX_MAX,
        0 < price_step <= FX_MAX,
        0 <= min_qty,
        min_qty % qty_step == 0,
        0 < psize <= FX_MAX,
        psize % qty_step == 0,
        lowest_ask % price_step == 0,
        forall|j: int|
            0 <= j < s_count_of(n_close_orders) - 1 ==> #[trigger] crate::closes::s_raw_close_price(
                pprice,
                min_markup,
                markup_range,
                s_count_of(n_close_orders),
                crate::types::LONG as int,
                j,
            ) + price_step <= crate::closes::s_raw_close_price(
                pprice,
                min_markup,
                markup_range,
                s_count_of(n_close_orders),
                crate::types::LONG as int,
                j + 1,
            ),
        forall|j: int|
            0 <= j < s_count_of(n_close_orders) ==> s_round_up(
                #[trigger] crate::closes::s_raw_close_price(
                    pprice,
                    min_markup,
                    markup_range,
                    s_count_of(n_close_orders),
                    crate::types::LONG as int,
                    j,
                ),
                price_step,
            ) <= FX_MAX,
        ({
            let n = s_count_of(n_close_orders);
            let cps = s_front_prices_long(
                pprice,
                min_markup,
                markup_range,
                n,
                price_step,
                lowest_ask,
                0,
            );
            cps.len() >= 1 ==> psize >= s_min_entry_qty_parts(
                cps[0],
                inverse,
                c_mult,
                qty_step,
                min_qty,
                min_cost,
            )
        }),
    ensures
        ({
            let r = s_close_grid_frontwards_long(
                balance,
                psize,
                pprice,
                lowest_ask,
                ema_band_upper,
                0,
                0,
                inverse,
                qty_step,
                price_step,
                min_qty,
                min_cost,
                c_mult,
                wallet_exposure_limit,
                min_markup,
                markup_range,
                n_close_orders,
                0,
                0,
                0,
                0,
            );
            &&& forall|a: int, b: int|
                0 <= a < b < r.len() ==> (#[trigger] r[a]).1 < (#[trigger] r[b]).1
            &&& forall|a: int| 0 <= a < r.len() ==> (#[trigger] r[a]).1 % price_step == 0
        }),
{
    let n = s_count_of(n_close_orders);
    lemma_front_prices_long_sorted(pprice, min_markup, markup_range, n, price_step, lowest_ask, 0);
    lemma_round_multiple_identity(psize, qty_step);
    let psize_0 = s_clamp(s_round_dn(psize, qty_step));
    assert(psize_0 == psize);
    let cps = s_front_prices_long(pprice, min_markup, markup_range, n, price_step, lowest_ask, 0);
    let r = s_close_grid_frontwards_long(
        balance,
        psize,
        pprice,
        lowest_ask,
        ema_band_upper,
        0,
        0,
        inverse,
        qty_step,
        price_step,
        min_qty,
        min_cost,
        c_mult,
        wallet_exposure_limit,
        min_markup,
        markup_range,
        n_close_orders,
        0,
        0,
        0,
        0,
    );
    if cps.len() == 0 {
        assert(r.len() == 1);
    } else if cps.len() == 1 {
        assert forall|a: int| 0 <= a < r.len() implies (#[trigger] r[a]).1 % price_step == 0 by {
            assert(r[a].1 == cps[0]);
        }
    } else {
        let dflt = s_clamp(s_round_dn(s_divt(psize, cps.len() as int), qty_step));
        assert(0 <= s_divt(psize, cps.len() as int) <= psize) by {
            vstd::arithmetic::div_mod::lemma_div_pos_is_pos(psize, cps.len() as int);
            vstd::arithmetic::div_mod::lemma_div_nonincreasing(psize, cps.len() as int);
        }
        lemma_round_dn_props(s_divt(psize, cps.len() as int), qty_step);
        lemma_front_emit_conserves(
            cps,
            0,
            cps.len() - 1,
            psize,
            dflt,
            inverse,
            c_mult,
            qty_step,
            min_qty,
            min_cost,
            true,
            OrderType::CloseNormalLong,
        );
        let em = s_front_emit(
            cps,
            0,
            cps.len() - 1,
            psize,
            dflt,
            inverse,
            c_mult,
            qty_step,
            min_qty,
            min_cost,
            true,
            OrderType::CloseNormalLong,
        );
        let lastp = cps[cps.len() - 1];
        let meql = s_min_entry_qty_parts(lastp, inverse, c_mult, qty_step, min_qty, min_cost);
        if em.1 >= meql {
            let e0 = (s_clamp(-em.1), lastp, OrderType::CloseNormalLong);
            let t = em.0.push(e0);
            proof_front_tail_shapes(em.0, e0);
            assert forall|a: int| 0 <= a < r.len() implies (#[trigger] r[a]).1 % price_step
                == 0 by {
                assert(r =~= t);
                if a < em.0.len() {
                    assert(r[a].1 == cps[0 + a]);
                } else {
                    assert(r[a].1 == lastp);
                    assert(cps[cps.len() - 1] == lastp);
                }
            }
            assert forall|a: int, b: int| 0 <= a < b < r.len() implies (#[trigger] r[a]).1 < (
            #[trigger] r[b]).1 by {
                assert(r =~= t);
                if b < em.0.len() {
                    assert(r[a].1 == cps[a]);
                    assert(r[b].1 == cps[b]);
                    assert(em.0[a].1 == cps[0 + a]);
                    assert(em.0[b].1 == cps[0 + b]);
                } else {
                    assert(r[b].1 == lastp);
                    assert(r[a].1 == cps[a]);
                    assert(em.0[a].1 == cps[0 + a]);
                    assert(a < cps.len() - 1);
                }
            }
        } else {
            if em.0.len() == 0 {
                assert(em.1 == psize);
                assert(false);
            }
            let last = em.0[em.0.len() - 1];
            lemma_sum_elem_le(em.0, em.0.len() - 1, 0);
            assert(s_abs(last.0) + em.1 <= psize);
            assert(crate::fixed::s_add(s_abs(last.0), em.1) == s_abs(last.0) + em.1);
            let merged = s_round_nr(s_abs(last.0) + em.1, qty_step);
            let x = (s_clamp(-merged), last.1, last.2);
            let t = em.0.update(em.0.len() - 1, x);
            proof_front_tail_update_shape(em.0, x);
            assert forall|a: int| 0 <= a < r.len() implies (#[trigger] r[a]).1 % price_step
                == 0 by {
                assert(r =~= t);
                assert(em.0[a].1 == cps[0 + a]);
                assert(r[a].1 == em.0[a].1);
            }
            assert forall|a: int, b: int| 0 <= a < b < r.len() implies (#[trigger] r[a]).1 < (
            #[trigger] r[b]).1 by {
                assert(r =~= t);
                assert(em.0[a].1 == cps[0 + a]);
                assert(em.0[b].1 == cps[0 + b]);
                assert(r[a].1 == em.0[a].1);
                assert(r[b].1 == em.0[b].1);
            }
        }
    }
}

proof fn lemma_sum_drop_last(s: Seq<(int, int, OrderType)>)
    requires
        s.len() >= 1,
    ensures
        s_sum_abs_qty(s, 0) == s_sum_abs_qty(s.drop_last(), 0) + s_abs(s.last().0),
{
    assert(s =~= s.drop_last().push(s.last()));
    lemma_sum_push(s.drop_last(), s.last(), 0);
}

/// Stable insertion adds exactly the inserted entry's quantity to the sum.
proof fn lemma_sum_ins(s: Seq<(int, int, OrderType)>, x: (int, int, OrderType), asc: bool)
    ensures
        s_sum_abs_qty(crate::closes::s_ins_by_price(s, x, asc), 0) == s_sum_abs_qty(s, 0)
            + s_abs(x.0),
    decreases s.len(),
{
    let r = crate::closes::s_ins_by_price(s, x, asc);
    if s.len() == 0 {
        assert(r == seq![x]);
        assert(s_sum_abs_qty(r, 1) == 0);
        assert(s_sum_abs_qty(s, 0) == 0);
    } else if (if asc {
        s.last().1 <= x.1
    } else {
        s.last().1 >= x.1
    }) {
        lemma_sum_push(s, x, 0);
    } else {
        lemma_sum_ins(s.drop_last(), x, asc);
        lemma_sum_push(crate::closes::s_ins_by_price(s.drop_last(), x, asc), s.last(), 0);
        lemma_sum_drop_last(s);
    }
}

/// Sorting by price permutes the entries, so the quantity sum is unchanged.
proof fn lemma_sum_sort(s: Seq<(int, int, OrderType)>, asc: bool)
    ensures
        s_sum_abs_qty(crate::closes::s_sort_by_price(s, asc), 0) == s_sum_abs_qty(s, 0),
    decreases s.len(),
{
    if s.len() == 0 {
    } else {
        lemma_sum_sort(s.drop_last(), asc);
        lemma_sum_ins(crate::closes::s_sort_by_price(s.drop_last(), asc), s.last(), asc);
        lemma_sum_drop_last(s);
    }
}

/// The backwards emission walk conserves quantity exactly when it starts
/// from an empty list: the emitted absolute quantities and the residual sum
/// to the size it started from, and every quantity is a multiple of
/// `qty_step`.
proof fn lemma_back_emit_conserves(
    prices: Seq<int>,
    i: int,
    rem: int,
    closes: Seq<(int, int, OrderType)>,
    qty_per: int,
    inverse: bool,
    c_mult: int,
    qty_step: int,
    min_qty: int,
    min_cost: int,
    long: bool,
    tag: OrderType,
    total: int,
)
    requires
        i < prices.len(),
        0 < qty_step <= FX_MAX,
        0 <= min_qty,
        min_qty % qty_step == 0,
        0 <= rem <= total <= FX_MAX,
        rem % qty_step == 0,
        0 <= qty_per,
        qty_per % qty_step == 0,
        s_sum_abs_qty(closes, 0) + rem == total,
        forall|k: int| 0 <= k < closes.len() ==> s_abs((#[trigger] closes[k]).0) % qty_step == 0,
    ensures
        ({
            let em = crate::closes::s_back_emit(
                prices,
                i,
                rem,
                closes,
                qty_per,
                inverse,
                c_mult,
                qty_step,
                min_qty,
                min_cost,
                long,
                tag,
            );
            &&& s_sum_abs_qty(em.0, 0) + em.1 == total
            &&& 0 <= em.1 <= rem
            &&& em.1 % qty_step == 0
            &&& em.0.len() >= closes.len()
            &&& (i >= 0 ==> em.0.len() >= 1)
            &&& forall|k: int|
                0 <= k < em.0.len() ==> s_abs((#[trigger] em.0[k]).0) % qty_step == 0
        }),
    decreases i + 1,
{
    if i < 0 {
    } else {
        let meq = s_min_entry_qty_parts(prices[i], inverse, c_mult, qty_step, min_qty, min_cost);
        lemma_meq_legal(prices[i], inverse, c_mult, qty_step, min_qty, min_cost);
        let qty = s_min(rem, s_max(qty_per, meq));
        if qty < meq {
            if closes.len() > 0 {
                let last = closes[closes.len() - 1];
                lemma_sum_elem_le(closes, closes.len() - 1, 0);
                lemma_sum_nonneg(closes, 0);
                assert(s_abs(last.0) + rem <= total);
                lemma_multiple_add_sub(s_abs(last.0), rem, qty_step);
                lemma_round_multiple_identity(s_abs(last.0) + rem, qty_step);
                let merged = s_abs(last.0) + rem;
                let x = (
                    if long {
                        s_clamp(-merged)
                    } else {
                        s_clamp(merged)
                    },
                    last.1,
                    last.2,
                );
                assert(s_abs(x.0) == merged);
                lemma_sum_update_last(closes, x, 0);
                let r = crate::closes::s_absorb(closes, rem, qty_step, long);
                assert forall|k: int| 0 <= k < r.len() implies s_abs(
                    (#[trigger] r[k]).0,
                ) % qty_step == 0 by {
                    if k < closes.len() - 1 {
                        assert(r[k] == closes[k]);
                    } else {
                        assert(r[k] == x);
                    }
                }
            } else {
                let e = (
                    if long {
                        s_clamp(-rem)
                    } else {
                        s_clamp(rem)
                    },
                    prices[i],
                    tag,
                );
                assert(s_abs(e.0) == rem);
                lemma_sum_push(closes, e, 0);
                let r = closes.push(e);
                assert forall|k: int| 0 <= k < r.len() implies s_abs(
                    (#[trigger] r[k]).0,
                ) % qty_step == 0 by {
                    assert(r[k] == e);
                }
            }
        } else {
            assert(qty % qty_step == 0);
            assert(0 <= qty <= rem);
            let e = (
                if long {
                    s_clamp(-qty)
                } else {
                    s_clamp(qty)
                },
                prices[i],
                tag,
            );
            assert(s_abs(e.0) == qty);
            lemma_sum_push(closes, e, 0);
            let closes2 = closes.push(e);
            assert forall|k: int| 0 <= k < closes2.len() implies s_abs(
                (#[trigger] closes2[k]).0,
            ) % qty_step == 0 by {
                if k < closes.len() {
                    assert(closes2[k] == closes[k]);
                } else {
                    assert(closes2[k] == e);
                }
            }
            lemma_multiple_add_sub(rem, qty, qty_step);
            lemma_round_multiple_identity(rem - qty, qty_step);
            let rem2 = s_clamp(s_round_nr(s_clamp(rem - qty), qty_step));
            assert(rem2 == rem - qty);
            if rem2 <= 0 {
            } else {
                lemma_back_emit_conserves(
                    prices,
                    i - 1,
                    rem2,
                    closes2,
                    qty_per,
                    inverse,
                    c_mult,
                    qty_step,
                    min_qty,
                    min_cost,
                    long,
                    tag,
                    total,
                );
            }
        }
    }
}

/// Close-grid conservation, backwards long: with auto-unstuck off, the
/// exchange minimum and the per-level quantity on the quantity step, and a
/// step-aligned long position, the absolute quantities of the emitted
/// close grid sum exactly to the position size.
pub proof fn lemma_close_grid_backwards_long_conserves(
    balance: int,
    psize: int,
    pprice: int,
    lowest_ask: int,
    ema_band_upper: int,
    inverse: bool,
    qty_step: int,
    price_step: int,
    min_qty: int,
    min_cost: int,
    c_mult: int,
    wallet_exposure_limit: int,
    min_markup: int,
    markup_range: int,
    n_close_orders: int,
)
    requires
        0 < qty_step <= FX_MAX,
        0 < price_step <= FX_MAX,
        0 <= min_qty,
        min_qty % qty_step == 0,
        0 < psize <= FX_MAX,
        psize % qty_step == 0,
        ({
            // the per-level quantity rounds without saturating
            let full_psize = crate::utils::s_cost_to_qty(
                crate::fixed::s_mul(balance, wallet_exposure_limit),
                pprice,
                inverse,
                c_mult,
            );
            let sc = back_scan_of(
                balance,
                psize,
                pprice,
                lowest_ask,
                inverse,
                qty_step,
                price_step,
                min_qty,
                min_cost,
                c_mult,
                wallet_exposure_limit,
                min_markup,
                markup_range,
                n_close_orders,
            );
            s_round_up(
                s_max(s_divt(full_psize, sc.0.len() as int), min_qty),
                qty_step,
            ) <= FX_MAX
        }),
        ({
            let sc = back_scan_of(
                balance,
                psize,
                pprice,
                lowest_ask,
                inverse,
                qty_step,
                price_step,
                min_qty,
                min_cost,
                c_mult,
                wallet_exposure_limit,
                min_markup,
                markup_range,
                n_close_orders,
            );
            sc.1.len() == 1 ==> psize >= s_min_entry_qty_parts(
                sc.1[0],
                inverse,
                c_mult,
                qty_step,
                min_qty,
                min_cost,
            )
        }),
    ensures
        ({
            let r = crate::closes::s_close_grid_backwards_long(
                balance,
                psize,
                pprice,
                lowest_ask,
                ema_band_upper,
                0,
                0,
                inverse,
                qty_step,
                price_step,
                min_qty,
                min_cost,
                c_mult,
                wallet_exposure_limit,
                min_markup,
                markup_range,
                n_close_orders,
                0,
                0,
                0,
                0,
            );
            s_sum_abs_qty(r, 0) == psize
        }),
{
    lemma_round_multiple_identity(psize, qty_step);
    let psize_0 = s_clamp(s_round_dn(psize, qty_step));
    assert(psize_0 == psize);
    let sc = back_scan_of(
        balance,
        psize,
        pprice,
        lowest_ask,
        inverse,
        qty_step,
        price_step,
        min_qty,
        min_cost,
        c_mult,
        wallet_exposure_limit,
        min_markup,
        markup_range,
        n_close_orders,
    );
    let cps = sc.1;
    let r = crate::closes::s_close_grid_backwards_long(
        balance,
        psize,
        pprice,
        lowest_ask,
        ema_band_upper,
        0,
        0,
        inverse,
        qty_step,
        price_step,
        min_qty,
        min_cost,
        c_mult,
        wallet_exposure_limit,
        min_markup,
        markup_range,
        n_close_orders,
        0,
        0,
        0,
        0,
    );
    let full_psize = crate::utils::s_cost_to_qty(
        crate::fixed::s_mul(balance, wallet_exposure_limit),
        pprice,
        inverse,
        c_mult,
    );
    if cps.len() == 0 {
        assert(r == seq![(s_clamp(-psize), lowest_ask, OrderType::CloseNormalLong)]);
        assert(s_abs(r[0].0) == psize);
        assert(s_sum_abs_qty(r, 1) == 0);
    } else if cps.len() == 1 {
        assert(r == seq![(s_clamp(-psize), cps[0], OrderType::CloseNormalLong)]);
        assert(s_abs(r[0].0) == psize);
        assert(s_sum_abs_qty(r, 1) == 0);
    } else {
        let qty_per = s_clamp(s_round_up(
            s_max(s_divt(full_psize, sc.0.len() as int), min_qty),
            qty_step,
        ));
        lemma_round_up_props(s_max(s_divt(full_psize, sc.0.len() as int), min_qty), qty_step);
        assert(s_max(s_divt(full_psize, sc.0.len() as int), min_qty) >= 0) by {
            if s_divt(full_psize, sc.0.len() as int) < min_qty {
            }
        }
        assert(qty_per == s_round_up(
            s_max(s_divt(full_psize, sc.0.len() as int), min_qty),
            qty_step,
        ));
        assert(qty_per % qty_step == 0);
        assert(qty_per >= 0);
        assert(s_sum_abs_qty(Seq::<(int, int, OrderType)>::empty(), 0) == 0);
        lemma_back_emit_conserves(
            cps,
            cps.len() - 1,
            psize,
            Seq::empty(),
            qty_per,
            inverse,
            c_mult,
            qty_step,
            min_qty,
            min_cost,
            true,
            OrderType::CloseNormalLong,
            psize,
        );
        let em = crate::closes::s_back_emit(
            cps,
            cps.len() - 1,
            psize,
            Seq::empty(),
            qty_per,
            inverse,
            c_mult,
            qty_step,
            min_qty,
            min_cost,
            true,
            OrderType::CloseNormalLong,
        );
        let after = if em.1 > 0 && em.0.len() > 0 {
            let last = em.0[em.0.len() - 1];
            lemma_sum_elem_le(em.0, em.0.len() - 1, 0);
            lemma_multiple_add_sub(s_abs(last.0), em.1, qty_step);
            lemma_round_multiple_identity(s_abs(last.0) + em.1, qty_step);
            assert(crate::fixed::s_add(s_abs(last.0), em.1) == s_abs(last.0) + em.1);
            let x = (s_clamp(-(s_abs(last.0) + em.1)), last.1, last.2);
            assert(s_abs(x.0) == s_abs(last.0) + em.1);
            lemma_sum_update_last(em.0, x, 0);
            crate::closes::s_absorb(em.0, em.1, qty_step, true)
        } else {
            em.0
        };
        assert(s_sum_abs_qty(after, 0) == psize) by {
            if em.1 > 0 && em.0.len() > 0 {
            } else {
                if em.0.len() == 0 {
                    assert(em.1 == psize);
                    assert(psize > 0);
                    assert(false);
                }
            }
        }
        lemma_sum_sort(after, true);
        let sorted = crate::closes::s_sort_by_price(after, true);
        assert(sorted.len() == after.len()) by {
            lemma_sort_len(after, true);
        }
        assert(r == sorted);
    }
}

/// The deduplicating scan of the backwards long grid, with the level count
/// the grid derives from its configuration.
pub open spec fn back_scan_of(
    balance: int,
    psize: int,
    pprice: int,
    lowest_ask: int,
    inverse: bool,
    qty_step: int,
    price_step: int,
    min_qty: int,
    min_cost: int,
    c_mult: int,
    wallet_exposure_limit: int,
    min_markup: int,
    markup_range: int,
    n_close_orders: int,
) -> (Seq<int>, Seq<int>) {
    let full_psize = crate::utils::s_cost_to_qty(
        crate::fixed::s_mul(balance, wallet_exposure_limit),
        pprice,
        inverse,
        c_mult,
    );
    let n = crate::closes::s_clamp_count(
        s_count_of(
            s_max(
                s_min(
                    n_close_orders,
                    crate::fixed::s_div(
                        full_psize,
                        s_min_entry_qty_parts(pprice, inverse, c_mult, qty_step, min_qty, min_cost),
                    ),
                ),
                SCALE as int,
            ),
        ),
    );
    crate::closes::s_back_scan(
        pprice,
        min_markup,
        markup_range,
        n,
        price_step,
        lowest_ask,
        true,
        0,
        Seq::empty(),
        Seq::empty(),
    )
}

/// The deduplicating scan of the backwards short grid.
pub open spec fn back_scan_of_short(
    balance: int,
    psize: int,
    pprice: int,
    highest_bid: int,
    inverse: bool,
    qty_step: int,
    price_step: int,
    min_qty: int,
    min_cost: int,
    c_mult: int,
    wallet_exposure_limit: int,
    min_markup: int,
    markup_range: int,
    n_close_orders: int,
) -> (Seq<int>, Seq<int>) {
    let full_psize = crate::utils::s_cost_to_qty(
        crate::fixed::s_mul(balance, wallet_exposure_limit),
        pprice,
        inverse,
        c_mult,
    );
    let n = crate::closes::s_clamp_count(
        s_count_of(
            s_max(
                s_min(
                    n_close_orders,
                    crate::fixed::s_div(
                        full_psize,
                        s_min_entry_qty_parts(pprice, inverse, c_mult, qty_step, min_qty, min_cost),
                    ),
                ),
                SCALE as int,
            ),
        ),
    );
    crate::closes::s_back_scan(
        pprice,
        min_markup,
        markup_range,
        n,
        price_step,
        highest_bid,
        false,
        0,
        Seq::empty(),
        Seq::empty(),
    )
}

/// Close-grid conservation, backwards short: mirror of
/// [`lemma_close_grid_backwards_long_conserves`] over the absolute
/// position size.
pub proof fn lemma_close_grid_backwards_short_conserves(
    balance: int,
    psize: int,
    pprice: int,
    highest_bid: int,
    ema_band_lower: int,
    inverse: bool,
    qty_step: int,
    price_step: int,
    min_qty: int,
    min_cost: int,
    c_mult: int,
    wallet_exposure_limit: int,
    min_markup: int,
    markup_range: int,
    n_close_orders: int,
)
    requires
        0 < qty_step <= FX_MAX,
        0 < price_step <= FX_MAX,
        0 <= min_qty,
        min_qty % qty_step == 0,
        -FX_MAX <= psize <= FX_MAX,
        psize != 0,
        s_abs(psize) % qty_step == 0,
        ({
            let full_psize = crate::utils::s_cost_to_qty(
                crate::fixed::s_mul(balance, wallet_exposure_limit),
                pprice,
                inverse,
                c_mult,
            );
            let sc = back_scan_of_short(
                balance,
                psize,
                pprice,
                highest_bid,
                inverse,
                qty_step,
                price_step,
                min_qty,
                min_cost,
                c_mult,
                wallet_exposure_limit,
                min_markup,
                markup_range,
                n_close_orders,
            );
            s_round_up(
                s_max(s_divt(full_psize, sc.0.len() as int), min_qty),
                qty_step,
            ) <= FX_MAX
        }),
        ({
            let sc = back_scan_of_short(
                balance,
                psize,
                pprice,
                highest_bid,
                inverse,
                qty_step,
                price_step,
                min_qty,
                min_cost,
                c_mult,
                wallet_exposure_limit,
                min_markup,
                markup_range,
                n_close_orders,
            );
            sc.1.len() == 1 ==> s_abs(psize) >= s_min_entry_qty_parts(
                sc.1[0],
                inverse,
                c_mult,
                qty_step,
                min_qty,
                min_cost,
            )
        }),
    ensures
        ({
            let r = crate::closes::s_close_grid_backwards_short(
                balance,
                psize,
                pprice,
                highest_bid,
                ema_band_lower,
                0,
                0,
                inverse,
                qty_step,
                price_step,
                min_qty,
                min_cost,
                c_mult,
                wallet_exposure_limit,
                min_markup,
                markup_range,
                n_close_orders,
                0,
                0,
                0,
                0,
            );
            s_sum_abs_qty(r, 0) == s_abs(psize)
        }),
{
    let pa = s_abs(psize);
    lemma_round_multiple_identity(pa, qty_step);
    let psize_0 = s_clamp(s_round_dn(pa, qty_step));
    assert(psize_0 == pa);
    let sc = back_scan_of_short(
        balance,
        psize,
        pprice,
        highest_bid,
        inverse,
        qty_step,
        price_step,
        min_qty,
        min_cost,
        c_mult,
        wallet_exposure_limit,
        min_markup,
        markup_range,
        n_close_orders,
    );
    let cps = sc.1;
    let r = crate::closes::s_close_grid_backwards_short(
        balance,
        psize,
        pprice,
        highest_bid,
        ema_band_lower,
        0,
        0,
        inverse,
        qty_step,
        price_step,
        min_qty,
        min_cost,
        c_mult,
        wallet_exposure_limit,
        min_markup,
        markup_range,
        n_close_orders,
        0,
        0,
        0,
        0,
    );
    let full_psize = crate::utils::s_cost_to_qty(
        crate::fixed::s_mul(balance, wallet_exposure_limit),
        pprice,
        inverse,
        c_mult,
    );
    if cps.len() == 0 {
        assert(r == seq![(pa, highest_bid, OrderType::CloseNormalShort)]);
        assert(s_sum_abs_qty(r, 1) == 0);
    } else if cps.len() == 1 {
        assert(r == seq![(pa, cps[0], OrderType::CloseNormalShort)]);
        assert(s_sum_abs_qty(r, 1) == 0);
    } else {
        let qty_per = s_clamp(s_round_up(
            s_max(s_divt(full_psize, sc.0.len() as int), min_qty),
            qty_step,
        ));
        lemma_round_up_props(s_max(s_divt(full_psize, sc.0.len() as int), min_qty), qty_step);
        assert(s_max(s_divt(full_psize, sc.0.len() as int), min_qty) >= 0) by {
            if s_divt(full_psize, sc.0.len() as int) < min_qty {
            }
        }
        assert(qty_per == s_round_up(
            s_max(s_divt(full_psize, sc.0.len() as int), min_qty),
            qty_step,
        ));
        assert(qty_per % qty_step == 0);
        assert(qty_per >= 0);
        assert(s_sum_abs_qty(Seq::<(int, int, OrderType)>::empty(), 0) == 0);
        lemma_back_emit_conserves(
            cps,
            cps.len() - 1,
            pa,
            Seq::empty(),
            qty_per,
            inverse,
            c_mult,
            qty_step,
            min_qty,
            min_cost,
            false,
            OrderType::CloseNormalShort,
            pa,
        );
        let em = crate::closes::s_back_emit(
            cps,
            cps.len() - 1,
            pa,
            Seq::empty(),
            qty_per,
            inverse,
            c_mult,
            qty_step,
            min_qty,
            min_cost,
            false,
            OrderType::CloseNormalShort,
        );
        let after = if em.1 > 0 && em.0.len() > 0 {
            let last = em.0[em.0.len() - 1];
            lemma_sum_elem_le(em.0, em.0.len() - 1, 0);
            lemma_multiple_add_sub(s_abs(last.0), em.1, qty_step);
            lemma_round_multiple_identity(s_abs(last.0) + em.1, qty_step);
            assert(crate::fixed::s_add(s_abs(last.0), em.1) == s_abs(last.0) + em.1);
            let x = (s_clamp(s_abs(last.0) + em.1), last.1, last.2);
            assert(s_abs(x.0) == s_abs(last.0) + em.1);
            lemma_sum_update_last(em.0, x, 0);
            crate::closes::s_absorb(em.0, em.1, qty_step, false)
        } else {
            em.0
        };
        assert(s_sum_abs_qty(after, 0) == pa) by {
            if em.1 > 0 && em.0.len() > 0 {
            } else {
                if em.0.len() == 0 {
                    assert(false);
                }
            }
        }
        lemma_sum_sort(after, false);
        let sorted = crate::closes::s_sort_by_price(after, false);
        assert(sorted.len() == after.len()) by {
            lemma_sort_len(after, false);
        }
        assert(r == sorted);
    }
}

/// A non-empty order from the short entry router is priced at or above the
/// best ask it was quoted against (and within the fixed-point range), and
/// is never the unstuck tag.
#[verifier::rlimit(100)]
proof fn lemma_next_entry_short_price_ge_ask(
    ep: ExchangeParams,
    bp: BotSideConfig,
    balance: int,
    ask: int,
    ema_upper: int,
    psize: int,
    pprice: int,
    tb: TrailingPriceBundle,
)
    requires
        -FX_MAX <= ask <= FX_MAX,
    ensures
        ({
            let e = crate::entries::s_next_entry_short(
                ep,
                bp,
                balance,
                ask,
                ema_upper,
                psize,
                pprice,
                tb,
            );
            e.0 != 0 ==> ask <= e.1 <= FX_MAX && e.2 != OrderType::EntryUnstuckShort
        }),
{
    reveal(crate::entries::s_next_entry_short);
    lemma_grid_entry_short_price_ge_ask(ep, bp, balance, ask, ema_upper, psize, pprice);
    lemma_trailing_entry_short_price_ge_ask(ep, bp, balance, ask, ema_upper, psize, pprice, tb);
    let ratio = bp.entry_trailing_grid_ratio as int;
    if !(bp.total_wallet_exposure_limit == 0 || balance <= 0) && !(ratio >= SCALE || ratio
        <= -SCALE) && ratio != 0 {
        let bp2a = crate::entries::s_scaled_limit(bp, ratio);
        let bp2b = crate::entries::s_scaled_limit(bp, s_clamp((SCALE as int) + ratio));
        lemma_grid_entry_short_price_ge_ask(ep, bp2b, balance, ask, ema_upper, psize, pprice);
        lemma_trailing_entry_short_price_ge_ask(
            ep,
            bp2a,
            balance,
            ask,
            ema_upper,
            psize,
            pprice,
            tb,
        );
    }
}

proof fn lemma_grid_entry_short_price_ge_ask(
    ep: ExchangeParams,
    bp: BotSideConfig,
    balance: int,
    ask: int,
    ema_upper: int,
    psize: int,
    pprice: int,
)
    requires
        -FX_MAX <= ask <= FX_MAX,
    ensures
        ({
            let e = crate::entries::s_grid_entry_short(ep, bp, balance, ask, ema_upper, psize, pprice);
            e.0 != 0 ==> ask <= e.1 <= FX_MAX && e.2 != OrderType::EntryUnstuckShort
        }),
{
}

proof fn lemma_trailing_entry_short_price_ge_ask(
    ep: ExchangeParams,
    bp: BotSideConfig,
    balance: int,
    ask: int,
    ema_upper: int,
    psize: int,
    pprice: int,
    tb: TrailingPriceBundle,
)
    requires
        -FX_MAX <= ask <= FX_MAX,
    ensures
        ({
            let e = crate::entries::s_trailing_entry_short(
                ep,
                bp,
                balance,
                ask,
                ema_upper,
                psize,
                pprice,
                tb,
            );
            e.0 != 0 ==> ask <= e.1 <= FX_MAX && e.2 != OrderType::EntryUnstuckShort
        }),
{
}

/// Simulated short entries walk the price strictly upward, staying at or
/// above the ask they started from.
proof fn lemma_entries_short_rec_increasing(
    ep: ExchangeParams,
    bp: BotSideConfig,
    tb: TrailingPriceBundle,
    balance: int,
    ema_upper: int,
    psize: int,
    pprice: int,
    ask: int,
    last: Option<int>,
    fuel: nat,
)
    requires
        -FX_MAX <= ask <= FX_MAX,
    ensures
        ({
            let r = crate::entries::s_entries_short_rec(
                ep,
                bp,
                tb,
                balance,
                ema_upper,
                psize,
                pprice,
                ask,
                last,
                fuel,
            );
            &&& forall|k: int| 0 <= k < r.len() ==> (#[trigger] r[k]).1 >= ask
            &&& forall|k: int| 0 <= k && k + 1 < r.len() ==> (#[trigger] r[k + 1]).1 > r[k].1
            &&& match last {
                Option::Some(lp) => r.len() > 0 ==> r[0].1 != lp,
                Option::None => true,
            }
        }),
    decreases fuel,
{
    if fuel == 0 {
    } else {
        let e = crate::entries::s_next_entry_short(ep, bp, balance, ask, ema_upper, psize, pprice, tb);
        lemma_next_entry_short_price_ge_ask(ep, bp, balance, ask, ema_upper, psize, pprice, tb);
        let r = crate::entries::s_entries_short_rec(
            ep,
            bp,
            tb,
            balance,
            ema_upper,
            psize,
            pprice,
            ask,
            last,
            fuel,
        );
        if e.0 == 0 {
        } else {
            let blocked = match last {
                Option::Some(lp) => (e.2 == OrderType::EntryTrailingNormalShort || e.2
                    == OrderType::EntryTrailingCroppedShort) || lp == e.1,
                Option::None => false,
            };
            if blocked {
            } else {
                let np = crate::utils::s_new_psize_pprice(psize, pprice, e.0, e.1, ep.qty_step as int);
                let ask2 = s_max(ask, e.1);
                lemma_entries_short_rec_increasing(
                    ep,
                    bp,
                    tb,
                    balance,
                    ema_upper,
                    np.0,
                    np.1,
                    ask2,
                    Option::Some(e.1),
                    (fuel - 1) as nat,
                );
                let rest = crate::entries::s_entries_short_rec(
                    ep,
                    bp,
                    tb,
                    balance,
                    ema_upper,
                    np.0,
                    np.1,
                    ask2,
                    Option::Some(e.1),
                    (fuel - 1) as nat,
                );
                assert(r == seq![e] + rest);
                assert forall|k: int| 0 <= k < r.len() implies (#[trigger] r[k]).1 >= ask by {
                    if k == 0 {
                        assert(r[0] == e);
                    } else {
                        assert(r[k] == rest[k - 1]);
                    }
                }
                assert forall|k: int| 0 <= k && k + 1 < r.len() implies (#[trigger] r[k + 1]).1
                    > r[k].1 by {
                    if k == 0 {
                        assert(r[0] == e);
                        assert(r[1] == rest[0]);
                        assert(rest[0].1 >= ask2 >= e.1);
                        assert(rest[0].1 != e.1);
                    } else {
                        assert(r[k] == rest[k - 1]);
                        assert(r[k + 1] == rest[k]);
                        assert(rest[(k - 1) + 1] == rest[k]);
                    }
                }
            }
        }
    }
}

/// Grid monotonicity, short entries: in the unrolled entry list, each
/// order after a non-unstuck order is priced strictly above it (the
/// unstuck order, when present, leads the list and is exempt).
pub proof fn lemma_entries_short_prices_increase(
    ep: ExchangeParams,
    bp: BotSideConfig,
    tb: TrailingPriceBundle,
    balance: int,
    ob_ask: int,
    ema_upper: int,
    psize: int,
    pprice: int,
)
    requires
        -FX_MAX <= ob_ask <= FX_MAX,
    ensures
        ({
            let r = crate::entries::s_entries_short(
                ep,
                bp,
                tb,
                balance,
                ob_ask,
                ema_upper,
                psize,
                pprice,
            );
            forall|k: int|
                0 <= k && k + 1 < r.len() && (#[trigger] r[k]).2 != OrderType::EntryUnstuckShort
                    ==> r[k + 1].1 > r[k].1
        }),
{
    let au = crate::entries::s_auto_unstuck_entry_short(ep, bp, balance, ob_ask, ema_upper, psize, pprice);
    let fires = crate::entries::s_unstuck_entry_short_fires(
        ep,
        bp,
        balance,
        ob_ask,
        ema_upper,
        psize,
        pprice,
    );
    let last0 = if fires {
        Option::Some(au.1)
    } else {
        Option::<int>::None
    };
    lemma_entries_short_rec_increasing(
        ep,
        bp,
        tb,
        balance,
        ema_upper,
        psize,
        pprice,
        ob_ask,
        last0,
        500,
    );
    let rec = crate::entries::s_entries_short_rec(
        ep,
        bp,
        tb,
        balance,
        ema_upper,
        psize,
        pprice,
        ob_ask,
        last0,
        500,
    );
    let r = crate::entries::s_entries_short(ep, bp, tb, balance, ob_ask, ema_upper, psize, pprice);
    assert forall|k: int|
        0 <= k && k + 1 < r.len() && (#[trigger] r[k]).2 != OrderType::EntryUnstuckShort implies r[
        k + 1].1 > r[k].1 by {
        if fires {
            assert(r == seq![au] + rec);
            if k == 0 {
                assert(r[0] == au);
                assert(au.2 == OrderType::EntryUnstuckShort);
            } else {
                assert(r[k] == rec[k - 1]);
                assert(r[k + 1] == rec[k]);
                assert(rec[(k - 1) + 1] == rec[k]);
            }
        } else {
            assert(r =~= rec);
            assert(r[(k) + 1] == rec[k + 1]);
            assert(rec[(k) + 1] == r[k + 1]);
        }
    }
}

proof fn lemma_ins_len(s: Seq<(int, int, OrderType)>, x: (int, int, OrderType), asc: bool)
    ensures
        crate::closes::s_ins_by_price(s, x, asc).len() == s.len() + 1,
    decreases s.len(),
{
    if s.len() == 0 {
    } else if (if asc {
        s.last().1 <= x.1
    } else {
        s.last().1 >= x.1
    }) {
    } else {
        lemma_ins_len(s.drop_last(), x, asc);
    }
}

proof fn lemma_sort_len(s: Seq<(int, int, OrderType)>, asc: bool)
    ensures
        crate::closes::s_sort_by_price(s, asc).len() == s.len(),
    decreases s.len(),
{
    if s.len() == 0 {
    } else {
        lemma_sort_len(s.drop_last(), asc);
        lemma_ins_len(crate::closes::s_sort_by_price(s.drop_last(), asc), s.last(), asc);
    }
}

} // verus!
