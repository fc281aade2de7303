//! Saturating fixed-point arithmetic over `i64`.
//!
//! A value `v: i64` stands for the real number `v / SCALE`. Multiplication
//! and division rescale and truncate toward zero; every operation saturates
//! into `[-FX_MAX, FX_MAX]`, so results always feed the next operation
//! without overflow. Step-rounding (down, up, to nearest) is exact integer
//! rounding onto multiples of a positive step.

use vstd::prelude::*;
use vstd::arithmetic::div_mod::*;
use vstd::arithmetic::mul::*;

verus! {

/// An `i64` value `v` stands for the real number `v / SCALE`.
pub const SCALE: i64 = 1_000_000_000;

/// Saturation bound: every arithmetic result is clamped into `[-FX_MAX, FX_MAX]`.
/// `FX_MAX` also serves as the engine's stand-in for an unboundedly large
/// value (an absent ask, an unset running minimum).
pub const FX_MAX: i64 = 1_000_000_000_000_000_000;

/// A well-formed fixed-point operand.
pub open spec fn fx_ok(v: i64) -> bool {
    -FX_MAX <= v <= FX_MAX
}

/// Saturate an unbounded integer into `[-FX_MAX, FX_MAX]`.
pub open spec fn s_clamp(v: int) -> int {
    if v > FX_MAX { FX_MAX as int } else if v < -(FX_MAX as int) { -(FX_MAX as int) } else { v }
}

pub open spec fn s_abs(v: int) -> int {
    if v >= 0 { v } else { -v }
}

/// Division truncating toward zero, total: a zero divisor yields zero.
pub open spec fn s_divt(a: int, b: int) -> int {
    if b == 0 {
        0
    } else if (a >= 0) == (b >= 0) {
        s_abs(a) / s_abs(b)
    } else {
        -(s_abs(a) / s_abs(b))
    }
}

pub open spec fn s_add(a: int, b: int) -> int {
    s_clamp(a + b)
}

pub open spec fn s_sub(a: int, b: int) -> int {
    s_clamp(a - b)
}

/// Fixed-point product `a * b / SCALE`, truncated toward zero, saturated.
pub open spec fn s_mul(a: int, b: int) -> int {
    s_clamp(s_divt(a * b, SCALE as int))
}

/// Fixed-point quotient `a * SCALE / b`, truncated toward zero, saturated;
/// zero when `b` is zero.
pub open spec fn s_div(a: int, b: int) -> int {
    s_clamp(s_divt(a * (SCALE as int), b))
}

pub open spec fn s_min(a: int, b: int) -> int {
    if a <= b { a } else { b }
}

pub open spec fn s_max(a: int, b: int) -> int {
    if a >= b { a } else { b }
}

/// Largest multiple of `step` at or below a non-negative `n`.
pub open spec fn s_rdn_nn(n: int, step: int) -> int {
    (n / step) * step
}

/// Smallest multiple of `step` at or above a non-negative `n`.
pub open spec fn s_rup_nn(n: int, step: int) -> int {
    ((n + step - 1) / step) * step
}

/// Multiple of `step` nearest to a non-negative `n`, ties rounding up.
pub open spec fn s_rnr_nn(n: int, step: int) -> int {
    ((2 * n + step) / (2 * step)) * step
}

/// Round down onto a multiple of `step` (identity when `step <= 0`).
pub open spec fn s_round_dn(n: int, step: int) -> int {
    if step <= 0 {
        n
    } else if n >= 0 {
        s_rdn_nn(n, step)
    } else {
        -s_rup_nn(-n, step)
    }
}

/// Round up onto a multiple of `step` (identity when `step <= 0`).
pub open spec fn s_round_up(n: int, step: int) -> int {
    if step <= 0 {
        n
    } else if n >= 0 {
        s_rup_nn(n, step)
    } else {
        -s_rdn_nn(-n, step)
    }
}

/// Round onto the nearest multiple of `step`, ties away from zero
/// (identity when `step <= 0`).
pub open spec fn s_round_nr(n: int, step: int) -> int {
    if step <= 0 {
        n
    } else if n >= 0 {
        s_rnr_nn(n, step)
    } else {
        -s_rnr_nn(-n, step)
    }
}

/// `v` is an integer multiple of `step`.
pub open spec fn is_multiple_of(v: int, step: int) -> bool {
    step > 0 && v % step == 0
}

proof fn lemma_rdn_nn_props(n: int, step: int)
    requires
        n >= 0,
        step > 0,
    ensures
        n - step < s_rdn_nn(n, step) <= n,
        is_multiple_of(s_rdn_nn(n, step), step),
        s_rdn_nn(n, step) >= 0,
{
    let q = n / step;
    lemma_fundamental_div_mod(n, step);
    lemma_mod_bound(n, step);
    lemma_mul_is_commutative(q, step);
    lemma_mod_multiples_basic(q, step);
    lemma_div_pos_is_pos(n, step);
    lemma_mul_nonnegative(q, step);
}

proof fn lemma_rup_nn_props(n: int, step: int)
    requires
        n >= 0,
        step > 0,
    ensures
        n <= s_rup_nn(n, step) < n + step,
        is_multiple_of(s_rup_nn(n, step), step),
        s_rup_nn(n, step) >= 0,
{
    lemma_rdn_nn_props(n + step - 1, step);
    assert(s_rup_nn(n, step) == s_rdn_nn(n + step - 1, step));
}

proof fn lemma_rnr_nn_props(n: int, step: int)
    requires
        n >= 0,
        step > 0,
    ensures
        2 * n - step < 2 * s_rnr_nn(n, step) <= 2 * n + step,
        is_multiple_of(s_rnr_nn(n, step), step),
        s_rnr_nn(n, step) >= 0,
{
    let t = 2 * n + step;
    let q = t / (2 * step);
    lemma_fundamental_div_mod(t, 2 * step);
    lemma_mod_division_less_than_divisor(t, 2 * step);
    lemma_mod_bound(t, 2 * step);
    lemma_div_pos_is_pos(t, 2 * step);
    assert(t - 2 * step < q * (2 * step) <= t) by {
        assert(q * (2 * step) == t - t % (2 * step));
    }
    assert(q * (2 * step) == 2 * (q * step)) by (nonlinear_arith);
    lemma_mod_multiples_basic(q, step);
    lemma_mul_nonnegative(q, step);
}

/// Properties of rounding down: the result is the greatest multiple of
/// `step` not exceeding `n`.
pub proof fn lemma_round_dn_props(n: int, step: int)
    requires
        step > 0,
    ensures
        n - step < s_round_dn(n, step) <= n,
        is_multiple_of(s_round_dn(n, step), step),
        n >= 0 ==> s_round_dn(n, step) >= 0,
{
    if n >= 0 {
        lemma_rdn_nn_props(n, step);
    } else {
        lemma_rup_nn_props(-n, step);
        lemma_mod_neg_neg(s_rup_nn(-n, step), step);
        lemma_mod_multiples_basic((-n + step - 1) / step, step);
        assert((-s_rup_nn(-n, step)) % step == 0) by {
            let q = (-n + step - 1) / step;
            assert(-(q * step) == (-q) * step) by (nonlinear_arith);
            lemma_mod_multiples_basic(-q, step);
        }
    }
}

/// Properties of rounding up: the result is the least multiple of `step`
/// at or above `n`.
pub proof fn lemma_round_up_props(n: int, step: int)
    requires
        step > 0,
    ensures
        n <= s_round_up(n, step) < n + step,
        is_multiple_of(s_round_up(n, step), step),
        n >= 0 ==> s_round_up(n, step) >= 0,
{
    if n >= 0 {
        lemma_rup_nn_props(n, step);
    } else {
        lemma_rdn_nn_props(-n, step);
        assert((-s_rdn_nn(-n, step)) % step == 0) by {
            let q = (-n) / step;
            assert(-(q * step) == (-q) * step) by (nonlinear_arith);
            lemma_mod_multiples_basic(-q, step);
        }
    }
}

/// Properties of rounding to nearest: the result is a multiple of `step`
/// within half a step of `n` (ties away from zero).
pub proof fn lemma_round_nr_props(n: int, step: int)
    requires
        step > 0,
    ensures
        2 * n - step <= 2 * s_round_nr(n, step) <= 2 * n + step,
        is_multiple_of(s_round_nr(n, step), step),
        n >= 0 ==> s_round_nr(n, step) >= 0,
{
    if n >= 0 {
        lemma_rnr_nn_props(n, step);
    } else {
        lemma_rnr_nn_props(-n, step);
        assert((-s_rnr_nn(-n, step)) % step == 0) by {
            let q = (2 * (-n) + step) / (2 * step);
            assert(-(q * step) == (-q) * step) by (nonlinear_arith);
            lemma_mod_multiples_basic(-q, step);
        }
    }
}

/// A multiple of `step` rounds to itself, in all three directions.
pub proof fn lemma_round_multiple_identity(n: int, step: int)
    requires
        step > 0,
        n % step == 0,
    ensures
        s_round_dn(n, step) == n,
        s_round_up(n, step) == n,
        s_round_nr(n, step) == n,
{
    lemma_round_dn_props(n, step);
    lemma_round_up_props(n, step);
    lemma_round_nr_props(n, step);
    let d = s_round_dn(n, step);
    let u = s_round_up(n, step);
    let r = s_round_nr(n, step);
    lemma_mod_equivalence(d, n, step);
    lemma_mod_equivalence(u, n, step);
    lemma_mod_equivalence(r, n, step);
    assert(d == n) by {
        if d != n {
            assert((n - d) % step == 0);
            lemma_small_mod((n - d) as nat, step as nat);
        }
    }
    assert(u == n) by {
        if u != n {
            assert((u - n) % step == 0);
            lemma_small_mod((u - n) as nat, step as nat);
        }
    }
    assert(r == n) by {
        if r != n {
            if r > n {
                assert((r - n) % step == 0);
                assert(2 * (r - n) <= step);
                lemma_small_mod((r - n) as nat, step as nat);
            } else {
                assert((n - r) % step == 0);
                assert(2 * (n - r) <= step);
                lemma_small_mod((n - r) as nat, step as nat);
            }
        }
    }
}

/// Helper: congruence of two values mod a positive step, from their difference.
proof fn lemma_mod_equivalence(a: int, b: int, step: int)
    requires
        step > 0,
        a % step == 0,
        b % step == 0,
    ensures
        (a - b) % step == 0,
        (b - a) % step == 0,
{
    lemma_sub_mod_noop(a, b, step);
    lemma_sub_mod_noop(b, a, step);
    lemma_mod_self_0(step);
    lemma_small_mod(0, step as nat);
}

/// Sums and differences of multiples of `step` are multiples of `step`.
pub proof fn lemma_multiple_add_sub(a: int, b: int, step: int)
    requires
        step > 0,
        a % step == 0,
        b % step == 0,
    ensures
        (a + b) % step == 0,
        (a - b) % step == 0,
        (-a) % step == 0,
{
    lemma_add_mod_noop(a, b, step);
    lemma_sub_mod_noop(a, b, step);
    lemma_sub_mod_noop(0, a, step);
    lemma_small_mod(0, step as nat);
}

/// A product of non-negative factors stays non-negative through the
/// saturating fixed-point multiplication.
pub proof fn lemma_s_mul_nonneg(a: int, b: int)
    requires
        a >= 0,
        b >= 0,
    ensures
        s_mul(a, b) >= 0,
        s_mul(a, b) <= FX_MAX,
{
    assert(a * b >= 0) by (nonlinear_arith)
        requires
            a >= 0,
            b >= 0,
    ;
    lemma_div_pos_is_pos(a * b, SCALE as int);
}

/// Saturating addition.
pub fn fx_add(a: i64, b: i64) -> (r: i64)
    ensures
        r == s_add(a as int, b as int),
        fx_ok(r),
{
    let s: i128 = (a as i128) + (b as i128);
    if s > (FX_MAX as i128) {
        FX_MAX
    } else if s < -(FX_MAX as i128) {
        -FX_MAX
    } else {
        s as i64
    }
}

/// Saturating subtraction.
pub fn fx_sub(a: i64, b: i64) -> (r: i64)
    ensures
        r == s_sub(a as int, b as int),
        fx_ok(r),
{
    let s: i128 = (a as i128) - (b as i128);
    if s > (FX_MAX as i128) {
        FX_MAX
    } else if s < -(FX_MAX as i128) {
        -FX_MAX
    } else {
        s as i64
    }
}

/// Truncating signed division on `i128`, total (zero divisor yields zero).
fn divt_i128(a: i128, b: i128) -> (r: i128)
    requires
        a != i128::MIN,
        b != i128::MIN,
    ensures
        r == s_divt(a as int, b as int),
        s_abs(r as int) <= s_abs(a as int),
{
    if b == 0 {
        return 0;
    }
    let ua: u128 = if a >= 0 { a as u128 } else { (-a) as u128 };
    let ub: u128 = if b >= 0 { b as u128 } else { (-b) as u128 };
    let q: u128 = ua / ub;
    proof {
        lemma_div_nonincreasing(ua as int, ub as int);
        lemma_div_pos_is_pos(ua as int, ub as int);
    }
    if (a >= 0) == (b >= 0) {
        q as i128
    } else {
        -(q as i128)
    }
}

/// Plain truncating division of a fixed-point value by a positive count.
pub fn fx_divt_count(a: i64, b: i64) -> (r: i64)
    requires
        fx_ok(a),
        b > 0,
    ensures
        r == s_divt(a as int, b as int),
        s_abs(r as int) <= s_abs(a as int),
{
    let neg: bool = a < 0;
    let mag: u64 = if neg {
        (-(a as i128)) as u64
    } else {
        a as u64
    };
    let q: u64 = mag / (b as u64);
    proof {
        lemma_div_nonincreasing(mag as int, b as int);
        lemma_div_pos_is_pos(mag as int, b as int);
    }
    if neg {
        (-(q as i128)) as i64
    } else {
        q as i64
    }
}

/// Saturating fixed-point multiplication: `a * b / SCALE`, truncated toward zero.
pub fn fx_mul(a: i64, b: i64) -> (r: i64)
    ensures
        r == s_mul(a as int, b as int),
        fx_ok(r),
{
    proof {
        let ai = a as int;
        let bi = b as int;
        assert(-0x40000000000000000000000000000000 <= ai * bi
            <= 0x40000000000000000000000000000000) by (nonlinear_arith)
            requires
                -0x8000000000000000 <= ai <= 0x7fffffffffffffff,
                -0x8000000000000000 <= bi <= 0x7fffffffffffffff,
        ;
    }
    let p: i128 = (a as i128) * (b as i128);
    let q: i128 = divt_i128(p, SCALE as i128);
    if q > (FX_MAX as i128) {
        FX_MAX
    } else if q < -(FX_MAX as i128) {
        -FX_MAX
    } else {
        q as i64
    }
}

/// Saturating fixed-point division: `a * SCALE / b`, truncated toward zero;
/// zero when `b` is zero.
pub fn fx_div(a: i64, b: i64) -> (r: i64)
    ensures
        r == s_div(a as int, b as int),
        fx_ok(r),
{
    proof {
        let ai = a as int;
        assert(-0x40000000000000000000000000000000 <= ai * (SCALE as int)
            <= 0x40000000000000000000000000000000) by (nonlinear_arith)
            requires
                -0x8000000000000000 <= ai <= 0x7fffffffffffffff,
        ;
    }
    let p: i128 = (a as i128) * (SCALE as i128);
    let q: i128 = divt_i128(p, b as i128);
    if q > (FX_MAX as i128) {
        FX_MAX
    } else if q < -(FX_MAX as i128) {
        -FX_MAX
    } else {
        q as i64
    }
}

/// Absolute value; well-formed inputs keep it in range.
pub fn fx_abs(a: i64) -> (r: i64)
    requires
        fx_ok(a),
    ensures
        r == s_abs(a as int),
        fx_ok(r),
{
    if a >= 0 { a } else { -a }
}

pub fn fx_min(a: i64, b: i64) -> (r: i64)
    ensures
        r == s_min(a as int, b as int),
{
    if a <= b { a } else { b }
}

pub fn fx_max(a: i64, b: i64) -> (r: i64)
    ensures
        r == s_max(a as int, b as int),
{
    if a >= b { a } else { b }
}

/// Round down onto a multiple of `step`.
pub fn fx_round_dn(n: i64, step: i64) -> (r: i64)
    requires
        fx_ok(n),
        0 < step <= FX_MAX,
    ensures
        r == s_round_dn(n as int, step as int),
        -FX_MAX - step <= r <= FX_MAX,
{
    if n >= 0 {
        let q: u128 = (n as u128) / (step as u128);
        proof {
            lemma_rdn_nn_props(n as int, step as int);
        }
        (q * (step as u128)) as i64
    } else {
        let m: u128 = (-(n as i128)) as u128;
        let q: u128 = (m + (step as u128) - 1) / (step as u128);
        proof {
            lemma_rup_nn_props(m as int, step as int);
        }
        (-((q * (step as u128)) as i128)) as i64
    }
}

/// Round up onto a multiple of `step`.
pub fn fx_round_up(n: i64, step: i64) -> (r: i64)
    requires
        fx_ok(n),
        0 < step <= FX_MAX,
    ensures
        r == s_round_up(n as int, step as int),
        -FX_MAX <= r <= FX_MAX + step,
{
    if n >= 0 {
        let m: u128 = n as u128;
        let q: u128 = (m + (step as u128) - 1) / (step as u128);
        proof {
            lemma_rup_nn_props(m as int, step as int);
        }
        (q * (step as u128)) as i64
    } else {
        let m: u128 = (-(n as i128)) as u128;
        let q: u128 = m / (step as u128);
        proof {
            lemma_rdn_nn_props(m as int, step as int);
        }
        (-((q * (step as u128)) as i128)) as i64
    }
}

/// Round onto the nearest multiple of `step`, ties away from zero.
pub fn fx_round_nr(n: i64, step: i64) -> (r: i64)
    requires
        fx_ok(n),
        0 < step <= FX_MAX,
    ensures
        r == s_round_nr(n as int, step as int),
        -FX_MAX - step <= r <= FX_MAX + step,
{
    if n >= 0 {
        let m: u128 = n as u128;
        let q: u128 = (2 * m + (step as u128)) / (2 * (step as u128));
        proof {
            lemma_rnr_nn_props(m as int, step as int);
        }
        (q * (step as u128)) as i64
    } else {
        let m: u128 = (-(n as i128)) as u128;
        let q: u128 = (2 * m + (step as u128)) / (2 * (step as u128));
        proof {
            lemma_rnr_nn_props(m as int, step as int);
        }
        (-((q * (step as u128)) as i128)) as i64
    }
}

} // verus!
