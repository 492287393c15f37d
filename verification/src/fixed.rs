//! 16.16 fixed-point scalar arithmetic.
//!
//! A real quantity `q` is stored as the integer `q * SCALE` (truncated toward
//! zero).  All derived operations are specified exactly over the integers via
//! `tdiv`, truncating division, so every caller can reason about the precise
//! value that is computed.

use vstd::prelude::*;
use vstd::arithmetic::div_mod::{lemma_div_multiples_vanish, lemma_div_is_ordered, lemma_div_pos_is_pos};

verus! {

/// One fixed-point unit: the representation of the real number 1.
pub const SCALE: i64 = 65536;

/// The representation of pi (3.14159... * SCALE, truncated).
pub const PI_FX: i64 = 205887;

/// The representation of pi / 2, rounded up so that PI_FX - HALF_PI_FX <= HALF_PI_FX.
pub const HALF_PI_FX: i64 = 102944;

/// The representation of 2 * pi.
pub const TAU_FX: i64 = 411774;

/// Truncating (round-toward-zero) division, the semantics of Rust's `/` on
/// signed integers; `b` is expected to be positive.
pub open spec fn tdiv(a: int, b: int) -> int {
    if a >= 0 {
        a / b
    } else {
        -((-a) / b)
    }
}

/// Truncating division of a multiple recovers the factor.
pub proof fn lemma_tdiv_exact(c: int, b: int)
    requires
        b > 0,
    ensures
        tdiv(c * b, b) == c,
{
    assert(c * b == b * c && -(c * b) == b * (-c)) by (nonlinear_arith);
    if c >= 0 {
        lemma_div_multiples_vanish(c, b);
    } else {
        lemma_div_multiples_vanish(-c, b);
    }
}

/// Truncating division by a positive number never grows magnitude past `m`
/// when the numerator is at most `m * b` in magnitude.
pub proof fn lemma_tdiv_bound(a: int, b: int, m: int)
    requires
        b > 0,
        m >= 0,
        -(m * b) <= a <= m * b,
    ensures
        -m <= tdiv(a, b) <= m,
{
    assert(m * b == b * m) by (nonlinear_arith);
    if a >= 0 {
        lemma_div_pos_is_pos(a, b);
        lemma_div_is_ordered(a, m * b, b);
        lemma_div_multiples_vanish(m, b);
    } else {
        lemma_div_pos_is_pos(-a, b);
        lemma_div_is_ordered(-a, m * b, b);
        lemma_div_multiples_vanish(m, b);
    }
}

/// Truncating division leaves a remainder smaller than the divisor.
pub proof fn lemma_tdiv_remainder(a: int, b: int)
    requires
        b > 0,
    ensures
        -b < a - tdiv(a, b) * b < b,
{
    if a >= 0 {
        vstd::arithmetic::div_mod::lemma_fundamental_div_mod(a, b);
        vstd::arithmetic::div_mod::lemma_mod_bound(a, b);
        assert(b * (a / b) == (a / b) * b) by (nonlinear_arith);
    } else {
        vstd::arithmetic::div_mod::lemma_fundamental_div_mod(-a, b);
        vstd::arithmetic::div_mod::lemma_mod_bound(-a, b);
        assert(b * ((-a) / b) == ((-a) / b) * b && -((-a) / b) * b == -(((-a) / b) * b))
            by (nonlinear_arith);
    }
}

/// Truncating division of `a` by positive `b`, computed through unsigned
/// division so that the result is pinned to `tdiv`.
pub fn div_trunc(a: i128, b: i128) -> (r: i128)
    requires
        b > 0,
        a > i128::MIN,
    ensures
        r == tdiv(a as int, b as int),
{
    if a >= 0 {
        let q: u128 = (a as u128) / (b as u128);
        proof {
            lemma_div_pos_is_pos(a as int, b as int);
            lemma_div_is_ordered(a as int, a as int, b as int);
            vstd::arithmetic::div_mod::lemma_div_nonincreasing(a as int, b as int);
        }
        q as i128
    } else {
        let n: i128 = -a;
        let q: u128 = (n as u128) / (b as u128);
        proof {
            lemma_div_pos_is_pos(n as int, b as int);
            vstd::arithmetic::div_mod::lemma_div_nonincreasing(n as int, b as int);
        }
        -(q as i128)
    }
}

/// The exact value of a fixed-point product before truncation fits the
/// accumulator; callers bound the factors.
pub open spec fn fx_mul_spec(a: int, b: int) -> int {
    tdiv(a * b, SCALE as int)
}

/// Fixed-point multiplication: `(a * b) / SCALE`, truncated toward zero.
pub fn fx_mul(a: i64, b: i64) -> (r: i64)
    requires
        -0x8000000000 <= a <= 0x8000000000,
        -0x8000000000 <= b <= 0x8000000000,
    ensures
        r == fx_mul_spec(a as int, b as int),
        -0x4000000000000000 <= r <= 0x4000000000000000,
{
    proof {
        assert(-0x40000000000000000000 <= (a as int) * (b as int) <= 0x40000000000000000000)
            by (nonlinear_arith)
            requires
                -0x8000000000 <= a <= 0x8000000000,
                -0x8000000000 <= b <= 0x8000000000,
        ;
    }
    let p: i128 = (a as i128) * (b as i128);
    proof {
        assert(0x4000000000000000 * (SCALE as int) == 0x40000000000000000000);
        lemma_tdiv_bound(p as int, SCALE as int, 0x4000000000000000);
    }
    let q = div_trunc(p, SCALE as i128);
    q as i64
}

/// `r` is the integer square root (rounded down) of `x`.
pub open spec fn is_sqrt_floor(r: int, x: int) -> bool {
    0 <= r && r * r <= x && x < (r + 1) * (r + 1)
}

/// The integer square root of `x`, rounded down.
pub open spec fn sqrt_floor(x: int) -> int {
    choose|r: int| #[trigger] is_sqrt_floor(r, x)
}

proof fn lemma_sqrt_exists(x: int)
    requires
        x >= 0,
    ensures
        exists|r: int| #[trigger] is_sqrt_floor(r, x),
    decreases x,
{
    if x == 0 {
        assert(is_sqrt_floor(0, 0));
    } else {
        lemma_sqrt_exists(x - 1);
        let r = choose|r: int| #[trigger] is_sqrt_floor(r, x - 1);
        if x < (r + 1) * (r + 1) {
            assert(is_sqrt_floor(r, x));
        } else {
            assert(x == (r + 1) * (r + 1));
            assert((r + 1) * (r + 1) < (r + 2) * (r + 2)) by (nonlinear_arith)
                requires
                    r >= 0,
            ;
            assert(is_sqrt_floor(r + 1, x));
        }
    }
}

proof fn lemma_sqrt_unique(r1: int, r2: int, x: int)
    requires
        is_sqrt_floor(r1, x),
        is_sqrt_floor(r2, x),
    ensures
        r1 == r2,
{
    assert(r1 == r2) by (nonlinear_arith)
        requires
            0 <= r1 && r1 * r1 <= x && x < (r1 + 1) * (r1 + 1),
            0 <= r2 && r2 * r2 <= x && x < (r2 + 1) * (r2 + 1),
    ;
}

/// The square root facts hold of `sqrt_floor` itself.
pub proof fn lemma_sqrt_floor(x: int)
    requires
        x >= 0,
    ensures
        is_sqrt_floor(sqrt_floor(x), x),
{
    lemma_sqrt_exists(x);
}

/// Integer square root by bisection.
pub fn isqrt(x: u128) -> (r: u64)
    ensures
        r == sqrt_floor(x as int),
        is_sqrt_floor(r as int, x as int),
{
    let mut lo: u128 = 0;
    let mut hi: u128 = 0x10000000000000000;
    proof {
        assert((0x10000000000000000int) * (0x10000000000000000int)
            == 0x100000000000000000000000000000000int);
    }
    while hi - lo > 1
        invariant
            lo < hi <= 0x10000000000000000,
            lo * lo <= x,
            x < hi * hi,
        decreases hi - lo,
    {
        let mid: u128 = lo + (hi - lo) / 2;
        proof {
            assert(mid * mid < 0x100000000000000000000000000000000int) by (nonlinear_arith)
                requires
                    0 <= mid < 0x10000000000000000int,
            ;
        }
        if mid * mid <= x {
            lo = mid;
        } else {
            hi = mid;
        }
    }
    proof {
        assert(hi == lo + 1);
        lemma_sqrt_exists(x as int);
        let r0 = choose|r: int| #[trigger] is_sqrt_floor(r, x as int);
        lemma_sqrt_unique(lo as int, r0, x as int);
    }
    lo as u64
}

/// The rational sine approximation on `[0, pi]`, in fixed point:
/// `16 x (pi - x) / (5 pi^2 - 4 x (pi - x))`, scaled by `SCALE`.
pub open spec fn sin_core_spec(x: int) -> int {
    let t = x * (PI_FX - x);
    tdiv(16 * t * SCALE, 5 * PI_FX * PI_FX - 4 * t)
}

/// Sine of a fixed-point angle in `[0, pi]`, scaled by `SCALE`.
fn sin_zero_to_pi(x: i64) -> (r: i64)
    requires
        0 <= x <= PI_FX,
    ensures
        r == sin_core_spec(x as int),
        0 <= r <= SCALE,
{
    proof {
        assert(0 <= (x as int) * (PI_FX - x) && 4 * ((x as int) * (PI_FX - x))
            <= (PI_FX as int) * (PI_FX as int)) by (nonlinear_arith)
            requires
                0 <= x <= PI_FX,
        ;
    }
    let t: i128 = (x as i128) * ((PI_FX - x) as i128);
    let num: i128 = 16 * t * (SCALE as i128);
    let den: i128 = 5 * (PI_FX as i128) * (PI_FX as i128) - 4 * t;
    proof {
        assert((SCALE as int) * (den as int) >= num as int) by (nonlinear_arith)
            requires
                num == 16 * (t as int) * SCALE,
                den == 5 * PI_FX * PI_FX - 4 * (t as int),
                4 * (t as int) <= (PI_FX as int) * (PI_FX as int),
                t >= 0,
        ;
        lemma_tdiv_bound(num as int, den as int, SCALE as int);
    }
    let r = div_trunc(num, den);
    r as i64
}

/// On the first half-turn the sine approximation stays within the unit
/// range and is never negative.
pub proof fn lemma_sin_core_range(x: int)
    requires
        0 <= x <= PI_FX,
    ensures
        0 <= sin_core_spec(x) <= SCALE,
{
    let t = x * (PI_FX - x);
    assert(0 <= t && 4 * t <= (PI_FX as int) * (PI_FX as int)) by (nonlinear_arith)
        requires
            0 <= x <= PI_FX,
            t == x * (PI_FX - x),
    ;
    let num = 16 * t * SCALE;
    let den = 5 * (PI_FX as int) * (PI_FX as int) - 4 * t;
    assert(num >= 0 && den > 0 && (SCALE as int) * den >= num) by (nonlinear_arith)
        requires
            t >= 0,
            4 * t <= (PI_FX as int) * (PI_FX as int),
            num == 16 * t * SCALE,
            den == 5 * (PI_FX as int) * (PI_FX as int) - 4 * t,
    ;
    assert(den * (SCALE as int) == (SCALE as int) * den) by (nonlinear_arith);
    lemma_tdiv_bound(num, den, SCALE as int);
    lemma_div_pos_is_pos(num, den);
}

/// Sine over a full turn: the angle is a fixed-point value in `[0, 2 pi)`.
pub open spec fn sin_turn_spec(x: int) -> int {
    if x <= PI_FX {
        sin_core_spec(x)
    } else {
        -sin_core_spec(x - PI_FX)
    }
}

/// Cosine over a full turn, expressed as a quarter-turn phase shift of sine.
pub open spec fn cos_turn_spec(x: int) -> int {
    if x + HALF_PI_FX < TAU_FX {
        sin_turn_spec(x + HALF_PI_FX)
    } else {
        sin_turn_spec(x + HALF_PI_FX - TAU_FX)
    }
}

/// Sine of an angle in `[0, 2 pi)`.
pub fn fx_sin(x: i64) -> (r: i64)
    requires
        0 <= x < TAU_FX,
    ensures
        r == sin_turn_spec(x as int),
        -SCALE <= r <= SCALE,
{
    if x <= PI_FX {
        sin_zero_to_pi(x)
    } else {
        -sin_zero_to_pi(x - PI_FX)
    }
}

/// Cosine of an angle in `[0, 2 pi)`.
pub fn fx_cos(x: i64) -> (r: i64)
    requires
        0 <= x < TAU_FX,
    ensures
        r == cos_turn_spec(x as int),
        -SCALE <= r <= SCALE,
{
    if x + HALF_PI_FX < TAU_FX {
        fx_sin(x + HALF_PI_FX)
    } else {
        fx_sin(x + HALF_PI_FX - TAU_FX)
    }
}

/// Sine on the symmetric interval `[-pi, pi]`, for half-angle construction.
pub open spec fn sin_sym_spec(x: int) -> int {
    if x >= 0 {
        sin_core_spec(x)
    } else {
        -sin_core_spec(-x)
    }
}

/// Sine of an angle in `[-pi, pi]`.
pub fn fx_sin_sym(x: i64) -> (r: i64)
    requires
        -PI_FX <= x <= PI_FX,
    ensures
        r == sin_sym_spec(x as int),
        -SCALE <= r <= SCALE,
{
    if x >= 0 {
        sin_zero_to_pi(x)
    } else {
        -sin_zero_to_pi(-x)
    }
}

/// Cosine near zero: valid while the shifted angle stays inside `[0, pi]`.
pub open spec fn cos_sym_spec(x: int) -> int {
    sin_core_spec(x + HALF_PI_FX)
}

/// Cosine of an angle in `[-pi/2, pi - pi/2]`.
pub fn fx_cos_sym(x: i64) -> (r: i64)
    requires
        -HALF_PI_FX <= x <= PI_FX - HALF_PI_FX,
    ensures
        r == cos_sym_spec(x as int),
        0 <= r <= SCALE,
{
    sin_zero_to_pi(x + HALF_PI_FX)
}

/// Clamp a fixed-point value into the unit interval `[0, SCALE]`.
pub open spec fn clamp_spec(n: int) -> int {
    if n <= 0 {
        0
    } else if n >= SCALE {
        SCALE as int
    } else {
        n
    }
}

/// Clamp a fixed-point value to the unit interval, as the collision code does
/// with surface coordinates before a normal lookup.
pub fn clamp(n: i64) -> (r: i64)
    ensures
        r == clamp_spec(n as int),
{
    if n <= 0 {
        0
    } else if n >= SCALE {
        SCALE
    } else {
        n
    }
}

} // verus!
