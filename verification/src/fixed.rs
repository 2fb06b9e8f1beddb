//! Fixed-point scalar arithmetic.
//!
//! A scalar is an `i64` whose value is the integer divided by [`SCALE`].
//! Multiplication and division rescale their double-width intermediate and
//! truncate toward zero, exactly as the specification functions state; every
//! operation saturates at the `i64` range instead of overflowing, so all
//! operations are total.

use vstd::prelude::*;

verus! {

/// The fixed-point unit: an `i64` scalar `v` denotes the value `v / SCALE`.
pub const SCALE: i64 = 65536;

/// Half of [`SCALE`]; the scalar one half.
pub const HALF_SCALE: i64 = 32768;

/// Saturation of an unbounded integer to the `i64` range.
pub open spec fn sat64(x: int) -> int {
    if x > i64::MAX {
        i64::MAX as int
    } else if x < i64::MIN {
        i64::MIN as int
    } else {
        x
    }
}

/// Division truncating toward zero, the semantics of Rust's `/` on
/// signed integers (spec-mode `/` alone is Euclidean).
pub open spec fn tdiv(a: int, b: int) -> int
    recommends
        b != 0,
{
    if a >= 0 {
        a / b
    } else {
        -((-a) / b)
    }
}

/// Saturating fixed-point addition.
pub open spec fn spec_add(a: int, b: int) -> int {
    sat64(a + b)
}

/// Saturating fixed-point subtraction.
pub open spec fn spec_sub(a: int, b: int) -> int {
    sat64(a - b)
}

/// Saturating fixed-point multiplication: the exact product, rescaled by
/// `SCALE` with truncation toward zero.
pub open spec fn spec_mul(a: int, b: int) -> int {
    sat64(tdiv(a * b, SCALE as int))
}

/// Saturating fixed-point division: `a / b` in fixed point, truncated
/// toward zero. Divisors are positive: every division in this library is
/// by a length, a radius or another quantity already known to be positive.
pub open spec fn spec_div(a: int, b: int) -> int
    recommends
        b > 0,
{
    sat64(tdiv(a * SCALE, b))
}

/// Truncating division by a positive divisor neither grows the magnitude
/// nor flips the sign.
pub proof fn lemma_tdiv_bounds(x: int, b: int)
    requires
        b >= 1,
    ensures
        x >= 0 ==> 0 <= tdiv(x, b) <= x,
        x < 0 ==> x <= tdiv(x, b) <= 0,
{
    if x >= 0 {
        vstd::arithmetic::div_mod::lemma_div_pos_is_pos(x, b);
        vstd::arithmetic::div_mod::lemma_div_nonincreasing(x, b);
    } else {
        vstd::arithmetic::div_mod::lemma_div_pos_is_pos(-x, b);
        vstd::arithmetic::div_mod::lemma_div_nonincreasing(-x, b);
    }
}

/// The floor of the real square root of a nonnegative integer.
pub open spec fn sqrt_floor(n: int) -> int
    recommends
        n >= 0,
{
    choose|r: int| 0 <= r && #[trigger] (r * r) <= n < (r + 1) * (r + 1)
}

/// Fixed-point square root: `sqrt(a / SCALE)` is `sqrt(a * SCALE) / SCALE`,
/// so the result is the integer square root of the rescaled argument.
pub open spec fn spec_sqrt(a: int) -> int
    recommends
        a >= 0,
{
    sqrt_floor(a * SCALE)
}

/// Clamping to a closed range.
pub open spec fn spec_clamp(x: int, lo: int, hi: int) -> int
    recommends
        lo <= hi,
{
    if x < lo {
        lo
    } else if x > hi {
        hi
    } else {
        x
    }
}

/// The integer square root is unique: two in-spec witnesses agree.
pub proof fn lemma_sqrt_unique(n: int, r1: int, r2: int)
    requires
        0 <= r1,
        r1 * r1 <= n < (r1 + 1) * (r1 + 1),
        0 <= r2,
        r2 * r2 <= n < (r2 + 1) * (r2 + 1),
    ensures
        r1 == r2,
{
    if r1 < r2 {
        assert((r1 + 1) * (r1 + 1) <= r2 * r2) by (nonlinear_arith)
            requires
                0 <= r1,
                r1 < r2,
        ;
    }
    if r2 < r1 {
        assert((r2 + 1) * (r2 + 1) <= r1 * r1) by (nonlinear_arith)
            requires
                0 <= r2,
                r2 < r1,
        ;
    }
}

/// Whatever satisfies the square-root window is the value of `sqrt_floor`.
pub proof fn lemma_sqrt_floor_is(n: int, r: int)
    requires
        0 <= r,
        r * r <= n < (r + 1) * (r + 1),
    ensures
        sqrt_floor(n) == r,
{
    assert(exists|q: int| 0 <= q && #[trigger] (q * q) <= n < (q + 1) * (q + 1)) by {
        assert(0 <= r && r * r <= n < (r + 1) * (r + 1));
    }
    let w = choose|q: int| 0 <= q && #[trigger] (q * q) <= n < (q + 1) * (q + 1);
    lemma_sqrt_unique(n, w, r);
}

/// Dividing by one changes nothing.
pub proof fn lemma_tdiv_one(x: int)
    ensures
        tdiv(x, 1) == x,
{
    if x >= 0 {
        vstd::arithmetic::div_mod::lemma_div_basics(x);
    } else {
        vstd::arithmetic::div_mod::lemma_div_basics(-x);
    }
}

/// Truncating division by a positive divisor is monotone in the numerator.
pub proof fn lemma_tdiv_mono_num(x: int, y: int, b: int)
    requires
        x <= y,
        b >= 1,
    ensures
        tdiv(x, b) <= tdiv(y, b),
{
    lemma_tdiv_bounds(x, b);
    lemma_tdiv_bounds(y, b);
    if x >= 0 {
        vstd::arithmetic::div_mod::lemma_div_is_ordered(x, y, b);
    } else if y < 0 {
        vstd::arithmetic::div_mod::lemma_div_is_ordered(-y, -x, b);
    }
}

/// The square of a cosine clamped to the unit range stays within the unit
/// range.
pub proof fn lemma_unit_cos_sq(cos: int)
    requires
        -SCALE <= cos <= SCALE,
    ensures
        0 <= spec_mul(cos, cos) <= SCALE,
{
    assert(0 <= cos * cos <= SCALE * SCALE) by (nonlinear_arith)
        requires
            -SCALE <= cos <= SCALE,
    ;
    vstd::arithmetic::div_mod::lemma_div_pos_is_pos(cos * cos, SCALE as int);
    vstd::arithmetic::div_mod::lemma_div_is_ordered(cos * cos, SCALE * SCALE, SCALE as int);
    assert(SCALE * SCALE == 4294967296int);
    assert(4294967296int / 65536int == 65536int);
}

/// Every nonnegative integer has an integer square root.
pub proof fn lemma_sqrt_exists(n: int)
    requires
        n >= 0,
    ensures
        exists|r: int| 0 <= r && #[trigger] (r * r) <= n < (r + 1) * (r + 1),
    decreases n,
{
    if n == 0 {
        assert(0int * 0int == 0 && (0int + 1) * (0int + 1) == 1) by (nonlinear_arith);
        assert(0 <= 0int && 0int * 0int <= n < (0int + 1) * (0int + 1));
    } else {
        lemma_sqrt_exists(n - 1);
        let r = choose|r: int| 0 <= r && #[trigger] (r * r) <= n - 1 < (r + 1) * (r + 1);
        if n < (r + 1) * (r + 1) {
            assert(r * r <= n < (r + 1) * (r + 1));
        } else {
            assert(n == (r + 1) * (r + 1));
            assert((r + 1) * (r + 1) < (r + 2) * (r + 2)) by (nonlinear_arith)
                requires
                    r >= 0,
            ;
            assert(0 <= r + 1 && (r + 1) * (r + 1) <= n < (r + 2) * (r + 2));
        }
    }
}

/// The defining window of `sqrt_floor`.
pub proof fn lemma_sqrt_floor_props(n: int)
    requires
        n >= 0,
    ensures
        0 <= sqrt_floor(n),
        sqrt_floor(n) * sqrt_floor(n) <= n,
        n < (sqrt_floor(n) + 1) * (sqrt_floor(n) + 1),
{
    lemma_sqrt_exists(n);
}

/// Saturating addition.
pub fn fx_add(a: i64, b: i64) -> (r: i64)
    ensures
        r == spec_add(a as int, b as int),
{
    let s: i128 = a as i128 + b as i128;
    if s > i64::MAX as i128 {
        i64::MAX
    } else if s < i64::MIN as i128 {
        i64::MIN
    } else {
        s as i64
    }
}

/// Saturating subtraction.
pub fn fx_sub(a: i64, b: i64) -> (r: i64)
    ensures
        r == spec_sub(a as int, b as int),
{
    let s: i128 = a as i128 - b as i128;
    if s > i64::MAX as i128 {
        i64::MAX
    } else if s < i64::MIN as i128 {
        i64::MIN
    } else {
        s as i64
    }
}

/// Saturating fixed-point multiplication.
pub fn fx_mul(a: i64, b: i64) -> (r: i64)
    ensures
        r == spec_mul(a as int, b as int),
{
    proof {
        assert((a as i128) * (b as i128) == a as int * b as int
            && i128::MIN < a as int * b as int <= i128::MAX) by (nonlinear_arith)
            requires
                i64::MIN <= a <= i64::MAX,
                i64::MIN <= b <= i64::MAX,
        ;
    }
    let p: i128 = (a as i128) * (b as i128);
    let q: i128 = p / (SCALE as i128);
    if q > i64::MAX as i128 {
        i64::MAX
    } else if q < i64::MIN as i128 {
        i64::MIN
    } else {
        q as i64
    }
}

/// Saturating fixed-point division by a positive divisor, truncating
/// toward zero.
pub fn fx_div(a: i64, b: i64) -> (r: i64)
    requires
        b > 0,
    ensures
        r == spec_div(a as int, b as int),
{
    proof {
        assert((a as i128) * (SCALE as i128) == a as int * SCALE
            && i128::MIN < a as int * SCALE < i128::MAX) by (nonlinear_arith)
            requires
                i64::MIN <= a <= i64::MAX,
        ;
        lemma_tdiv_bounds(a as int * SCALE, b as int);
    }
    let p: i128 = (a as i128) * (SCALE as i128);
    let q: i128 = p / (b as i128);
    if q > i64::MAX as i128 {
        i64::MAX
    } else if q < i64::MIN as i128 {
        i64::MIN
    } else {
        q as i64
    }
}

/// Fixed-point square root of a nonnegative scalar.
pub fn fx_sqrt(a: i64) -> (r: i64)
    requires
        a >= 0,
    ensures
        r == spec_sqrt(a as int),
        0 <= r,
        r * r <= a * SCALE < (r + 1) * (r + 1),
{
    proof {
        assert((a as u128) * (SCALE as u128) == a as int * SCALE
            && a as int * SCALE <= u128::MAX) by (nonlinear_arith)
            requires
                0 <= a <= i64::MAX,
        ;
    }
    let n: u128 = (a as u128) * (SCALE as u128);
    let mut lo: u128 = 0;
    let mut hi: u128 = 0x100_0000_0000;  // 2^40; its square exceeds any possible n
    proof {
        assert(n < hi * hi) by (nonlinear_arith)
            requires
                n == a as int * SCALE,
                0 <= a <= i64::MAX,
                hi == 0x100_0000_0000,
        ;
    }
    while lo + 1 < hi
        invariant
            lo < hi <= 0x100_0000_0000,
            lo * lo <= n,
            n < hi * hi,
            n == a as int * SCALE,
        decreases hi - lo,
    {
        let mid: u128 = lo + (hi - lo) / 2;
        proof {
            assert(mid * mid <= 0x100_0000_0000 * 0x100_0000_0000) by (nonlinear_arith)
                requires
                    0 <= mid <= 0x100_0000_0000,
            ;
        }
        if mid * mid <= n {
            lo = mid;
        } else {
            hi = mid;
        }
    }
    proof {
        assert(hi == lo + 1);
        assert(lo * lo <= n < (lo + 1) * (lo + 1));
        assert(lo < 0x100_0000_0000);
        lemma_sqrt_floor_is(n as int, lo as int);
    }
    lo as i64
}

/// Plain integer division by a positive divisor, truncating toward zero;
/// dividing a fixed-point scalar by an integer keeps the scale.
pub fn fx_idiv(a: i64, b: i64) -> (r: i64)
    requires
        b >= 1,
    ensures
        r == tdiv(a as int, b as int),
{
    proof {
        lemma_tdiv_bounds(a as int, b as int);
    }
    a / b
}

/// Clamping to a closed range.
pub fn fx_clamp(x: i64, lo: i64, hi: i64) -> (r: i64)
    requires
        lo <= hi,
    ensures
        r == spec_clamp(x as int, lo as int, hi as int),
{
    if x < lo {
        lo
    } else if x > hi {
        hi
    } else {
        x
    }
}

} // verus!
