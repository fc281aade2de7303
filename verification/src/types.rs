//! Data model of the order-generation engine.
//!
//! All scalar fields are fixed-point `i64` values (see [`crate::fixed`]).
//! `FX_MAX` doubles as the stand-in for an unboundedly large price: an empty
//! ask side quotes `FX_MAX`, and a fresh trailing bundle starts its running
//! minima there.

use vstd::prelude::*;
use crate::fixed::{fx_ok, FX_MAX};

verus! {

/// Identifies the long side in side-indexed helpers.
pub const LONG: usize = 0;

/// Identifies the short side in side-indexed helpers.
pub const SHORT: usize = 1;

/// Per-market exchange constraints.
#[derive(Clone, Copy, Debug)]
pub struct ExchangeParams {
    pub qty_step: i64,
    pub price_step: i64,
    pub min_qty: i64,
    pub min_cost: i64,
    pub c_mult: i64,
    pub inverse: bool,
}

/// Well-formed exchange parameters: positive quantization steps and
/// contract multiplier, non-negative minima, everything in fixed-point range.
pub open spec fn exchange_params_wf(ep: ExchangeParams) -> bool {
    &&& 0 < ep.qty_step <= FX_MAX
    &&& 0 < ep.price_step <= FX_MAX
    &&& 0 <= ep.min_qty <= FX_MAX
    &&& 0 <= ep.min_cost <= FX_MAX
    &&& 0 < ep.c_mult <= FX_MAX
}

impl Default for ExchangeParams {
    /// Conventional market defaults: steps and minimum quantity of 1e-5,
    /// minimum cost and contract multiplier of 1, linear contract.
    fn default() -> (r: Self)
        ensures
            r.qty_step == 10_000,
            r.price_step == 10_000,
            r.min_qty == 10_000,
            r.min_cost == 1_000_000_000,
            r.c_mult == 1_000_000_000,
            !r.inverse,
    {
        ExchangeParams {
            qty_step: 10_000,
            price_step: 10_000,
            min_qty: 10_000,
            min_cost: 1_000_000_000,
            c_mult: 1_000_000_000,
            inverse: false,
        }
    }
}

/// One price level of an order book side.
#[derive(Clone, Copy, Debug)]
pub struct BookLevel {
    pub price: i64,
    pub qty: i64,
}

/// Top-of-book snapshot; only the best bid and ask drive the engine.
#[derive(Clone, Debug)]
pub struct OrderBook {
    pub bids: Vec<BookLevel>,
    pub asks: Vec<BookLevel>,
}

pub open spec fn book_level_wf(l: BookLevel) -> bool {
    &&& 0 <= l.price <= FX_MAX
    &&& 0 <= l.qty <= FX_MAX
}

pub open spec fn order_book_wf(ob: OrderBook) -> bool {
    &&& forall|i: int| 0 <= i < ob.bids@.len() ==> book_level_wf(#[trigger] ob.bids@[i])
    &&& forall|i: int| 0 <= i < ob.asks@.len() ==> book_level_wf(#[trigger] ob.asks@[i])
}

impl OrderBook {
    /// Best bid, or zero when the bid side is empty.
    pub open spec fn spec_best_bid(&self) -> int {
        if self.bids@.len() == 0 {
            0
        } else {
            self.bids@[0].price as int
        }
    }

    /// Best ask, or `FX_MAX` (the unbounded stand-in) when the ask side is empty.
    pub open spec fn spec_best_ask(&self) -> int {
        if self.asks@.len() == 0 {
            FX_MAX as int
        } else {
            self.asks@[0].price as int
        }
    }

    pub fn best_bid(&self) -> (r: i64)
        ensures
            r as int == self.spec_best_bid(),
    {
        if self.bids.len() == 0 {
            0
        } else {
            self.bids[0].price
        }
    }

    pub fn best_ask(&self) -> (r: i64)
        ensures
            r as int == self.spec_best_ask(),
    {
        if self.asks.len() == 0 {
            FX_MAX
        } else {
            self.asks[0].price
        }
    }
}

impl Default for OrderBook {
    fn default() -> (r: Self)
        ensures
            r.bids@.len() == 0,
            r.asks@.len() == 0,
    {
        OrderBook { bids: Vec::new(), asks: Vec::new() }
    }
}

/// Exponentially-smoothed price bands.
#[derive(Clone, Copy, Debug)]
pub struct EMABands {
    pub upper: i64,
    pub lower: i64,
}

pub open spec fn ema_bands_wf(eb: EMABands) -> bool {
    &&& 0 <= eb.upper <= FX_MAX
    &&& 0 <= eb.lower <= FX_MAX
}

impl Default for EMABands {
    fn default() -> (r: Self)
        ensures
            r.upper == 0,
            r.lower == 0,
    {
        EMABands { upper: 0, lower: 0 }
    }
}

/// Per-tick market state handed to the engine.
#[derive(Clone, Debug)]
pub struct StateParams {
    pub balance: i64,
    pub order_book: OrderBook,
    pub ema_bands: EMABands,
}

pub open spec fn state_params_wf(sp: StateParams) -> bool {
    &&& fx_ok(sp.balance)
    &&& order_book_wf(sp.order_book)
    &&& ema_bands_wf(sp.ema_bands)
}

impl Default for StateParams {
    fn default() -> (r: Self)
        ensures
            r.balance == 0,
            r.order_book.bids@.len() == 0,
            r.order_book.asks@.len() == 0,
            r.ema_bands.upper == 0,
            r.ema_bands.lower == 0,
    {
        StateParams {
            balance: 0,
            order_book: OrderBook::default(),
            ema_bands: EMABands::default(),
        }
    }
}

/// Side configuration (one per long/short side).
#[derive(Clone, Copy, Debug)]
pub struct BotSideConfig {
    pub total_wallet_exposure_limit: i64,
    pub n_positions: i64,
    pub unstuck_loss_allowance_pct: i64,
    pub unstuck_close_pct: i64,
    pub unstuck_ema_dist: i64,
    pub unstuck_threshold: i64,
    pub filter_rolling_window: i64,
    pub filter_relative_volume_clip_pct: i64,
    pub ema_span_0: i64,
    pub ema_span_1: i64,
    pub entry_initial_qty_pct: i64,
    pub entry_initial_ema_dist: i64,
    pub entry_grid_spacing_pct: i64,
    pub entry_grid_spacing_weight: i64,
    pub entry_grid_double_down_factor: i64,
    pub entry_trailing_threshold_pct: i64,
    pub entry_trailing_retracement_pct: i64,
    pub entry_trailing_grid_ratio: i64,
    pub close_grid_min_markup: i64,
    pub close_grid_markup_range: i64,
    pub close_grid_qty_pct: i64,
    pub n_close_orders: i64,
    pub close_trailing_threshold_pct: i64,
    pub close_trailing_retracement_pct: i64,
    pub close_trailing_qty_pct: i64,
    pub close_trailing_grid_ratio: i64,
    pub backwards_tp: bool,
}

pub open spec fn bot_params_wf(bp: BotSideConfig) -> bool {
    &&& 0 <= bp.total_wallet_exposure_limit <= FX_MAX
    &&& fx_ok(bp.n_positions)
    &&& fx_ok(bp.unstuck_loss_allowance_pct)
    &&& fx_ok(bp.unstuck_close_pct)
    &&& fx_ok(bp.unstuck_ema_dist)
    &&& fx_ok(bp.unstuck_threshold)
    &&& fx_ok(bp.filter_rolling_window)
    &&& fx_ok(bp.filter_relative_volume_clip_pct)
    &&& fx_ok(bp.ema_span_0)
    &&& fx_ok(bp.ema_span_1)
    &&& fx_ok(bp.entry_initial_qty_pct)
    &&& fx_ok(bp.entry_initial_ema_dist)
    &&& fx_ok(bp.entry_grid_spacing_pct)
    &&& fx_ok(bp.entry_grid_spacing_weight)
    &&& fx_ok(bp.entry_grid_double_down_factor)
    &&& fx_ok(bp.entry_trailing_threshold_pct)
    &&& fx_ok(bp.entry_trailing_retracement_pct)
    &&& fx_ok(bp.entry_trailing_grid_ratio)
    &&& fx_ok(bp.close_grid_min_markup)
    &&& fx_ok(bp.close_grid_markup_range)
    &&& fx_ok(bp.close_grid_qty_pct)
    &&& 0 <= bp.n_close_orders <= FX_MAX
    &&& fx_ok(bp.close_trailing_threshold_pct)
    &&& fx_ok(bp.close_trailing_retracement_pct)
    &&& fx_ok(bp.close_trailing_qty_pct)
    &&& fx_ok(bp.close_trailing_grid_ratio)
}

impl Default for BotSideConfig {
    fn default() -> (r: Self)
        ensures
            r == (BotSideConfig {
                total_wallet_exposure_limit: 0,
                n_positions: 0,
                unstuck_loss_allowance_pct: 0,
                unstuck_close_pct: 0,
                unstuck_ema_dist: 0,
                unstuck_threshold: 0,
                filter_rolling_window: 0,
                filter_relative_volume_clip_pct: 0,
                ema_span_0: 0,
                ema_span_1: 0,
                entry_initial_qty_pct: 0,
                entry_initial_ema_dist: 0,
                entry_grid_spacing_pct: 0,
                entry_grid_spacing_weight: 0,
                entry_grid_double_down_factor: 0,
                entry_trailing_threshold_pct: 0,
                entry_trailing_retracement_pct: 0,
                entry_trailing_grid_ratio: 0,
                close_grid_min_markup: 0,
                close_grid_markup_range: 0,
                close_grid_qty_pct: 0,
                n_close_orders: 0,
                close_trailing_threshold_pct: 0,
                close_trailing_retracement_pct: 0,
                close_trailing_qty_pct: 0,
                close_trailing_grid_ratio: 0,
                backwards_tp: false,
            }),
    {
        BotSideConfig {
            total_wallet_exposure_limit: 0,
            n_positions: 0,
            unstuck_loss_allowance_pct: 0,
            unstuck_close_pct: 0,
            unstuck_ema_dist: 0,
            unstuck_threshold: 0,
            filter_rolling_window: 0,
            filter_relative_volume_clip_pct: 0,
            ema_span_0: 0,
            ema_span_1: 0,
            entry_initial_qty_pct: 0,
            entry_initial_ema_dist: 0,
            entry_grid_spacing_pct: 0,
            entry_grid_spacing_weight: 0,
            entry_grid_double_down_factor: 0,
            entry_trailing_threshold_pct: 0,
            entry_trailing_retracement_pct: 0,
            entry_trailing_grid_ratio: 0,
            close_grid_min_markup: 0,
            close_grid_markup_range: 0,
            close_grid_qty_pct: 0,
            n_close_orders: 0,
            close_trailing_threshold_pct: 0,
            close_trailing_retracement_pct: 0,
            close_trailing_qty_pct: 0,
            close_trailing_grid_ratio: 0,
            backwards_tp: false,
        }
    }
}

/// Pair of side configurations.
#[derive(Clone, Copy, Debug)]
pub struct BotParamsPair {
    pub long: BotSideConfig,
    pub short: BotSideConfig,
}

/// Signed position: positive size is long, negative short, zero flat.
#[derive(Clone, Copy, Debug)]
pub struct Position {
    pub size: i64,
    pub price: i64,
}

pub open spec fn position_wf(p: Position) -> bool {
    &&& fx_ok(p.size)
    &&& 0 <= p.price <= FX_MAX
}

impl Default for Position {
    fn default() -> (r: Self)
        ensures
            r.size == 0,
            r.price == 0,
    {
        Position { size: 0, price: 0 }
    }
}

/// Running extrema of the close price, maintained by the caller between
/// ticks and reset when the position goes flat.
#[derive(Clone, Copy, Debug)]
pub struct TrailingPriceBundle {
    pub min_since_open: i64,
    pub max_since_min: i64,
    pub max_since_open: i64,
    pub min_since_max: i64,
}

pub open spec fn trailing_bundle_wf(t: TrailingPriceBundle) -> bool {
    &&& 0 <= t.min_since_open <= FX_MAX
    &&& 0 <= t.max_since_min <= FX_MAX
    &&& 0 <= t.max_since_open <= FX_MAX
    &&& 0 <= t.min_since_max <= FX_MAX
}

impl Default for TrailingPriceBundle {
    /// Fresh bundle: minima start at the unbounded stand-in `FX_MAX`,
    /// maxima at zero.
    fn default() -> (r: Self)
        ensures
            r.min_since_open == FX_MAX,
            r.max_since_min == 0,
            r.max_since_open == 0,
            r.min_since_max == FX_MAX,
    {
        TrailingPriceBundle {
            min_since_open: FX_MAX,
            max_since_min: 0,
            max_since_open: 0,
            min_since_max: FX_MAX,
        }
    }
}

/// The bundle after observing one close price: running minimum and maximum
/// first, then the post-extremum extrema guarded by them.
pub open spec fn s_trailing_update(t: TrailingPriceBundle, p: i64) -> TrailingPriceBundle {
    let mn = if t.min_since_open <= p {
        t.min_since_open
    } else {
        p
    };
    let mx = if t.max_since_open >= p {
        t.max_since_open
    } else {
        p
    };
    TrailingPriceBundle {
        min_since_open: mn,
        max_since_open: mx,
        max_since_min: if mn < mx && t.max_since_min < p {
            p
        } else {
            t.max_since_min
        },
        min_since_max: if mx > mn && t.min_since_max > p {
            p
        } else {
            t.min_since_max
        },
    }
}

/// The bundle after observing the close prices `ps[i..]`, starting from `t`.
pub open spec fn s_trailing_run(t: TrailingPriceBundle, ps: Seq<i64>, i: int) -> TrailingPriceBundle
    decreases ps.len() - i,
{
    if i < 0 || i >= ps.len() {
        t
    } else {
        s_trailing_run(s_trailing_update(t, ps[i]), ps, i + 1)
    }
}

/// Smallest element of `ps[i..]` (`ps` non-empty at `i`).
pub open spec fn s_seq_min(ps: Seq<i64>, i: int) -> i64
    decreases ps.len() - i,
{
    if i + 1 >= ps.len() {
        ps[i]
    } else {
        let m = s_seq_min(ps, i + 1);
        if ps[i] <= m {
            ps[i]
        } else {
            m
        }
    }
}

/// Largest element of `ps[i..]` (`ps` non-empty at `i`).
pub open spec fn s_seq_max(ps: Seq<i64>, i: int) -> i64
    decreases ps.len() - i,
{
    if i + 1 >= ps.len() {
        ps[i]
    } else {
        let m = s_seq_max(ps, i + 1);
        if ps[i] >= m {
            ps[i]
        } else {
            m
        }
    }
}

impl TrailingPriceBundle {
    /// One step of the caller-side update protocol for an observed close
    /// price.
    pub fn update(&self, close_price: i64) -> (r: TrailingPriceBundle)
        ensures
            r == s_trailing_update(*self, close_price),
    {
        let mn: i64 = if self.min_since_open <= close_price {
            self.min_since_open
        } else {
            close_price
        };
        let mx: i64 = if self.max_since_open >= close_price {
            self.max_since_open
        } else {
            close_price
        };
        let max_since_min: i64 = if mn < mx && self.max_since_min < close_price {
            close_price
        } else {
            self.max_since_min
        };
        let min_since_max: i64 = if mx > mn && self.min_since_max > close_price {
            close_price
        } else {
            self.min_since_max
        };
        TrailingPriceBundle { min_since_open: mn, max_since_open: mx, max_since_min, min_since_max }
    }
}

/// Running the update protocol keeps `min_since_open` at the minimum of the
/// starting value and the observed prices, and `max_since_open` at the
/// maximum, whatever the stream.
proof fn lemma_trailing_run_extrema(t: TrailingPriceBundle, ps: Seq<i64>, i: int)
    requires
        0 <= i < ps.len(),
    ensures
        s_trailing_run(t, ps, i).min_since_open == (if t.min_since_open <= s_seq_min(ps, i) {
            t.min_since_open
        } else {
            s_seq_min(ps, i)
        }),
        s_trailing_run(t, ps, i).max_since_open == (if t.max_since_open >= s_seq_max(ps, i) {
            t.max_since_open
        } else {
            s_seq_max(ps, i)
        }),
    decreases ps.len() - i,
{
    if i + 1 >= ps.len() {
        assert(s_trailing_run(t, ps, i) == s_trailing_run(s_trailing_update(t, ps[i]), ps, i + 1));
        assert(s_trailing_run(s_trailing_update(t, ps[i]), ps, i + 1) == s_trailing_update(
            t,
            ps[i],
        ));
    } else {
        lemma_trailing_run_extrema(s_trailing_update(t, ps[i]), ps, i + 1);
    }
}

/// Trailing extrema track the price stream: starting from the fresh bundle,
/// after observing `ps`, `min_since_open` is the least price seen and
/// `max_since_open` the greatest, for every non-empty stream of prices in
/// the fixed-point range.
pub proof fn lemma_trailing_extrema_track_stream(ps: Seq<i64>)
    requires
        ps.len() >= 1,
        forall|i: int| 0 <= i < ps.len() ==> 0 <= #[trigger] ps[i] <= FX_MAX,
    ensures
        s_trailing_run(
            TrailingPriceBundle {
                min_since_open: FX_MAX,
                max_since_min: 0,
                max_since_open: 0,
                min_since_max: FX_MAX,
            },
            ps,
            0,
        ).min_since_open == s_seq_min(ps, 0),
        s_trailing_run(
            TrailingPriceBundle {
                min_since_open: FX_MAX,
                max_since_min: 0,
                max_since_open: 0,
                min_since_max: FX_MAX,
            },
            ps,
            0,
        ).max_since_open == s_seq_max(ps, 0),
{
    let t0 = TrailingPriceBundle {
        min_since_open: FX_MAX,
        max_since_min: 0,
        max_since_open: 0,
        min_since_max: FX_MAX,
    };
    lemma_trailing_run_extrema(t0, ps, 0);
    lemma_seq_min_max_in_range(ps, 0);
}

/// The suffix minimum and maximum are elements of the suffix, hence within
/// any range that bounds all elements.
proof fn lemma_seq_min_max_in_range(ps: Seq<i64>, i: int)
    requires
        0 <= i < ps.len(),
        forall|j: int| 0 <= j < ps.len() ==> 0 <= #[trigger] ps[j] <= FX_MAX,
    ensures
        0 <= s_seq_min(ps, i) <= FX_MAX,
        0 <= s_seq_max(ps, i) <= FX_MAX,
    decreases ps.len() - i,
{
    if i + 1 < ps.len() {
        lemma_seq_min_max_in_range(ps, i + 1);
    }
}

/// Tag attached to every emitted order.
#[derive(Clone, Copy, Debug, PartialEq, Eq, Structural)]
pub enum OrderType {
    EntryInitialNormalLong,
    EntryInitialPartialLong,
    EntryTrailingNormalLong,
    EntryTrailingCroppedLong,
    EntryGridNormalLong,
    EntryGridCroppedLong,
    EntryGridInflatedLong,
    EntryUnstuckLong,
    CloseGridLong,
    CloseTrailingLong,
    CloseNormalLong,
    CloseUnstuckLong,
    EntryInitialNormalShort,
    EntryInitialPartialShort,
    EntryTrailingNormalShort,
    EntryTrailingCroppedShort,
    EntryGridNormalShort,
    EntryGridCroppedShort,
    EntryGridInflatedShort,
    EntryUnstuckShort,
    CloseGridShort,
    CloseTrailingShort,
    CloseNormalShort,
    CloseUnstuckShort,
    Empty,
}

impl Default for OrderType {
    fn default() -> (r: Self)
        ensures
            r == OrderType::Empty,
    {
        OrderType::Empty
    }
}

/// One order of the emitted grid: signed quantity (buy positive, sell
/// negative), limit price, and tag.
#[derive(Clone, Copy, Debug, PartialEq, Eq, Structural)]
pub struct GridOrder {
    pub qty: i64,
    pub price: i64,
    pub order_type: OrderType,
}

impl Default for GridOrder {
    /// The empty order: zero quantity at price zero, tagged `Empty`.
    fn default() -> (r: Self)
        ensures
            r.qty == 0,
            r.price == 0,
            r.order_type == OrderType::Empty,
    {
        GridOrder { qty: 0, price: 0, order_type: OrderType::Empty }
    }
}

/// String equality via owned copies, with an exact view-level contract.
fn label_eq(a: &str, b: &str) -> (r: bool)
    ensures
        r == (a@ == b@),
{
    let sa: String = a.to_owned();
    let sb: String = b.to_owned();
    sa == sb
}

/// The label that [`OrderType::from_str`] maps back to each tag.
pub open spec fn spec_order_type_label(t: OrderType) -> Seq<char> {
    match t {
        OrderType::EntryInitialNormalLong => "entry_initial_normal_long"@,
        OrderType::EntryInitialPartialLong => "entry_initial_partial_long"@,
        OrderType::EntryTrailingNormalLong => "entry_trailing_normal_long"@,
        OrderType::EntryTrailingCroppedLong => "entry_trailing_cropped_long"@,
        OrderType::EntryGridNormalLong => "entry_grid_normal_long"@,
        OrderType::EntryGridCroppedLong => "entry_grid_cropped_long"@,
        OrderType::EntryGridInflatedLong => "entry_grid_inflated_long"@,
        OrderType::EntryUnstuckLong => "entry_unstuck_long"@,
        OrderType::CloseGridLong => "close_grid_long"@,
        OrderType::CloseTrailingLong => "close_trailing_long"@,
        OrderType::CloseNormalLong => "long_nclose"@,
        OrderType::CloseUnstuckLong => "unstuck_close_long"@,
        OrderType::EntryInitialNormalShort => "entry_initial_normal_short"@,
        OrderType::EntryInitialPartialShort => "entry_initial_partial_short"@,
        OrderType::EntryTrailingNormalShort => "entry_trailing_normal_short"@,
        OrderType::EntryTrailingCroppedShort => "entry_trailing_cropped_short"@,
        OrderType::EntryGridNormalShort => "entry_grid_normal_short"@,
        OrderType::EntryGridCroppedShort => "entry_grid_cropped_short"@,
        OrderType::EntryGridInflatedShort => "entry_grid_inflated_short"@,
        OrderType::EntryUnstuckShort => "entry_unstuck_short"@,
        OrderType::CloseGridShort => "close_grid_short"@,
        OrderType::CloseTrailingShort => "close_trailing_short"@,
        OrderType::CloseNormalShort => "short_nclose"@,
        OrderType::CloseUnstuckShort => "unstuck_close_short"@,
        OrderType::Empty => "empty"@,
    }
}

/// Which tag a label string names, if any: the `Empty` tag has no label of
/// its own and is never returned.
pub open spec fn spec_order_type_from_str(s: Seq<char>) -> Option<OrderType> {
    if s == "entry_initial_normal_long"@ {
        Some(OrderType::EntryInitialNormalLong)
    } else if s == "entry_initial_partial_long"@ {
        Some(OrderType::EntryInitialPartialLong)
    } else if s == "entry_trailing_normal_long"@ {
        Some(OrderType::EntryTrailingNormalLong)
    } else if s == "entry_trailing_cropped_long"@ {
        Some(OrderType::EntryTrailingCroppedLong)
    } else if s == "entry_grid_normal_long"@ {
        Some(OrderType::EntryGridNormalLong)
    } else if s == "entry_grid_cropped_long"@ {
        Some(OrderType::EntryGridCroppedLong)
    } else if s == "entry_grid_inflated_long"@ {
        Some(OrderType::EntryGridInflatedLong)
    } else if s == "entry_unstuck_long"@ {
        Some(OrderType::EntryUnstuckLong)
    } else if s == "close_grid_long"@ {
        Some(OrderType::CloseGridLong)
    } else if s == "close_trailing_long"@ {
        Some(OrderType::CloseTrailingLong)
    } else if s == "unstuck_close_long"@ {
        Some(OrderType::CloseUnstuckLong)
    } else if s == "long_nclose"@ {
        Some(OrderType::CloseNormalLong)
    } else if s == "entry_initial_normal_short"@ {
        Some(OrderType::EntryInitialNormalShort)
    } else if s == "entry_initial_partial_short"@ {
        Some(OrderType::EntryInitialPartialShort)
    } else if s == "entry_trailing_normal_short"@ {
        Some(OrderType::EntryTrailingNormalShort)
    } else if s == "entry_trailing_cropped_short"@ {
        Some(OrderType::EntryTrailingCroppedShort)
    } else if s == "entry_grid_normal_short"@ {
        Some(OrderType::EntryGridNormalShort)
    } else if s == "entry_grid_cropped_short"@ {
        Some(OrderType::EntryGridCroppedShort)
    } else if s == "entry_grid_inflated_short"@ {
        Some(OrderType::EntryGridInflatedShort)
    } else if s == "entry_unstuck_short"@ {
        Some(OrderType::EntryUnstuckShort)
    } else if s == "close_grid_short"@ {
        Some(OrderType::CloseGridShort)
    } else if s == "close_trailing_short"@ {
        Some(OrderType::CloseTrailingShort)
    } else if s == "unstuck_close_short"@ {
        Some(OrderType::CloseUnstuckShort)
    } else if s == "short_nclose"@ {
        Some(OrderType::CloseNormalShort)
    } else {
        None
    }
}

impl OrderType {
    /// Parses an order-type label; unknown labels yield `None`.
    pub fn from_str(s: &str) -> (r: Option<OrderType>)
        ensures
            r == spec_order_type_from_str(s@),
    {
        if label_eq(s, "entry_initial_normal_long") {
            Some(OrderType::EntryInitialNormalLong)
        } else if label_eq(s, "entry_initial_partial_long") {
            Some(OrderType::EntryInitialPartialLong)
        } else if label_eq(s, "entry_trailing_normal_long") {
            Some(OrderType::EntryTrailingNormalLong)
        } else if label_eq(s, "entry_trailing_cropped_long") {
            Some(OrderType::EntryTrailingCroppedLong)
        } else if label_eq(s, "entry_grid_normal_long") {
            Some(OrderType::EntryGridNormalLong)
        } else if label_eq(s, "entry_grid_cropped_long") {
            Some(OrderType::EntryGridCroppedLong)
        } else if label_eq(s, "entry_grid_inflated_long") {
            Some(OrderType::EntryGridInflatedLong)
        } else if label_eq(s, "entry_unstuck_long") {
            Some(OrderType::EntryUnstuckLong)
        } else if label_eq(s, "close_grid_long") {
            Some(OrderType::CloseGridLong)
        } else if label_eq(s, "close_trailing_long") {
            Some(OrderType::CloseTrailingLong)
        } else if label_eq(s, "unstuck_close_long") {
            Some(OrderType::CloseUnstuckLong)
        } else if label_eq(s, "long_nclose") {
            Some(OrderType::CloseNormalLong)
        } else if label_eq(s, "entry_initial_normal_short") {
            Some(OrderType::EntryInitialNormalShort)
        } else if label_eq(s, "entry_initial_partial_short") {
            Some(OrderType::EntryInitialPartialShort)
        } else if label_eq(s, "entry_trailing_normal_short") {
            Some(OrderType::EntryTrailingNormalShort)
        } else if label_eq(s, "entry_trailing_cropped_short") {
            Some(OrderType::EntryTrailingCroppedShort)
        } else if label_eq(s, "entry_grid_normal_short") {
            Some(OrderType::EntryGridNormalShort)
        } else if label_eq(s, "entry_grid_cropped_short") {
            Some(OrderType::EntryGridCroppedShort)
        } else if label_eq(s, "entry_grid_inflated_short") {
            Some(OrderType::EntryGridInflatedShort)
        } else if label_eq(s, "entry_unstuck_short") {
            Some(OrderType::EntryUnstuckShort)
        } else if label_eq(s, "close_grid_short") {
            Some(OrderType::CloseGridShort)
        } else if label_eq(s, "close_trailing_short") {
            Some(OrderType::CloseTrailingShort)
        } else if label_eq(s, "unstuck_close_short") {
            Some(OrderType::CloseUnstuckShort)
        } else if label_eq(s, "short_nclose") {
            Some(OrderType::CloseNormalShort)
        } else {
            None
        }
    }

    /// The telemetry label of this tag (inverse of [`OrderType::from_str`]
    /// for every tag but `Empty`).
    pub fn label(&self) -> (r: String)
        ensures
            r@ == spec_order_type_label(*self),
    {
        match self {
            OrderType::EntryInitialNormalLong => "entry_initial_normal_long".to_owned(),
            OrderType::EntryInitialPartialLong => "entry_initial_partial_long".to_owned(),
            OrderType::EntryTrailingNormalLong => "entry_trailing_normal_long".to_owned(),
            OrderType::EntryTrailingCroppedLong => "entry_trailing_cropped_long".to_owned(),
            OrderType::EntryGridNormalLong => "entry_grid_normal_long".to_owned(),
            OrderType::EntryGridCroppedLong => "entry_grid_cropped_long".to_owned(),
            OrderType::EntryGridInflatedLong => "entry_grid_inflated_long".to_owned(),
            OrderType::EntryUnstuckLong => "entry_unstuck_long".to_owned(),
            OrderType::CloseGridLong => "close_grid_long".to_owned(),
            OrderType::CloseTrailingLong => "close_trailing_long".to_owned(),
            OrderType::CloseNormalLong => "long_nclose".to_owned(),
            OrderType::CloseUnstuckLong => "unstuck_close_long".to_owned(),
            OrderType::EntryInitialNormalShort => "entry_initial_normal_short".to_owned(),
            OrderType::EntryInitialPartialShort => "entry_initial_partial_short".to_owned(),
            OrderType::EntryTrailingNormalShort => "entry_trailing_normal_short".to_owned(),
            OrderType::EntryTrailingCroppedShort => "entry_trailing_cropped_short".to_owned(),
            OrderType::EntryGridNormalShort => "entry_grid_normal_short".to_owned(),
            OrderType::EntryGridCroppedShort => "entry_grid_cropped_short".to_owned(),
            OrderType::EntryGridInflatedShort => "entry_grid_inflated_short".to_owned(),
            OrderType::EntryUnstuckShort => "entry_unstuck_short".to_owned(),
            OrderType::CloseGridShort => "close_grid_short".to_owned(),
            OrderType::CloseTrailingShort => "close_trailing_short".to_owned(),
            OrderType::CloseNormalShort => "short_nclose".to_owned(),
            OrderType::CloseUnstuckShort => "unstuck_close_short".to_owned(),
            OrderType::Empty => "empty".to_owned(),
        }
    }
}

} // verus!
