//! Cubic Bernstein basis over exact fractions.
//!
//! A parameter `t` in the unit interval is represented as a fraction
//! `num / den`; the four Bernstein weights at `t` are then the integers
//! `C(3,k) * num^k * (den - num)^(3-k)`, which always sum to `den^3`.

use vstd::prelude::*;

verus! {

/// Mathematical factorial.
pub open spec fn fac_spec(n: int) -> int
    decreases n,
{
    if n <= 0 {
        1
    } else {
        n * fac_spec(n - 1)
    }
}

proof fn lemma_fac_pos(n: int)
    ensures
        fac_spec(n) >= 1,
    decreases n,
{
    if n > 0 {
        lemma_fac_pos(n - 1);
        assert(fac_spec(n) == n * fac_spec(n - 1));
        assert(n * fac_spec(n - 1) >= 1 * fac_spec(n - 1)) by (nonlinear_arith)
            requires
                n >= 1,
                fac_spec(n - 1) >= 1,
        ;
    }
}

proof fn lemma_fac_mono(a: int, b: int)
    requires
        0 <= a <= b,
    ensures
        fac_spec(a) <= fac_spec(b),
    decreases b - a,
{
    if a < b {
        lemma_fac_mono(a, b - 1);
        lemma_fac_pos(b - 1);
        assert(fac_spec(b) == b * fac_spec(b - 1));
        assert(b * fac_spec(b - 1) >= 1 * fac_spec(b - 1)) by (nonlinear_arith)
            requires
                b >= 1,
                fac_spec(b - 1) >= 1,
        ;
    }
}

proof fn lemma_fac_12()
    ensures
        fac_spec(12) == 479001600,
{
    reveal_with_fuel(fac_spec, 13);
    assert(fac_spec(0) == 1);
    assert(fac_spec(4) == 24);
    assert(fac_spec(8) == 40320);
    assert(fac_spec(12) == 479001600);
}

/// Factorial of a small non-negative integer.
pub fn fac(n: i32) -> (r: i32)
    requires
        0 <= n <= 12,
    ensures
        r == fac_spec(n as int),
{
    let mut m: i32 = 1;
    let mut i: i32 = 1;
    while i <= n
        invariant
            1 <= i <= n + 1,
            n <= 12,
            m == fac_spec(i - 1),
        decreases n + 1 - i,
    {
        proof {
            lemma_fac_mono(i as int, 12);
            lemma_fac_pos(i - 1);
            lemma_fac_12();
            assert(i * fac_spec(i - 1) == fac_spec(i as int));
            assert(m * i <= 479001600 && m * i >= 1) by (nonlinear_arith)
                requires
                    m == fac_spec(i - 1),
                    i * fac_spec(i - 1) == fac_spec(i as int),
                    fac_spec(i as int) <= 479001600,
                    fac_spec(i - 1) >= 1,
                    i >= 1,
            ;
        }
        m = m * i;
        i = i + 1;
    }
    m
}

/// Largest denominator a surface parameter may carry; keeps every blend
/// numerator inside the 128-bit accumulator.
pub const DEN_MAX: u32 = 32768;

/// An exact surface parameter in the unit interval: the fraction `num / den`.
#[derive(Clone, Copy, PartialEq, Eq, Structural, Debug)]
pub struct Frac {
    pub num: u32,
    pub den: u32,
}

impl Frac {
    /// The parameter is well formed: a fraction of `[0, 1]` with a bounded
    /// denominator.
    pub open spec fn wf(self) -> bool {
        1 <= self.den <= DEN_MAX && self.num <= self.den
    }

    /// Build the parameter `num / den`.
    pub fn new(num: u32, den: u32) -> (r: Frac)
        requires
            1 <= den <= DEN_MAX,
            num <= den,
        ensures
            r.num == num,
            r.den == den,
            r.wf(),
    {
        Frac { num, den }
    }

    /// Zero.
    pub fn zero() -> (r: Frac)
        ensures
            r == (Frac { num: 0u32, den: 1u32 }),
            r.wf(),
    {
        Frac { num: 0, den: 1 }
    }

    /// One.
    pub fn one() -> (r: Frac)
        ensures
            r == (Frac { num: 1u32, den: 1u32 }),
            r.wf(),
    {
        Frac { num: 1, den: 1 }
    }
}

/// The binomial coefficient `C(3, i)`.
pub open spec fn binom3_spec(i: int) -> int {
    if i == 0 || i == 3 {
        1
    } else {
        3
    }
}

/// `C(3, i)` computed as `3! / (i! (3 - i)!)`, as the basis definition reads.
pub fn binomial3(i: i32) -> (r: i64)
    requires
        0 <= i <= 3,
    ensures
        r == binom3_spec(i as int),
{
    proof {
        lemma_fac_small();
        assert(i == 0 || i == 1 || i == 2 || i == 3);
    }
    let d = fac(i) * fac(3 - i);
    (6 / d) as i64
}

/// The factorials that the cubic basis needs.
proof fn lemma_fac_small()
    ensures
        fac_spec(0) == 1,
        fac_spec(1) == 1,
        fac_spec(2) == 2,
        fac_spec(3) == 6,
{
    reveal_with_fuel(fac_spec, 5);
}

/// The integer numerator of the cubic Bernstein weight `B3(k, n/d)` over the
/// common denominator `d^3`: `C(3,k) * n^k * (d-n)^(3-k)`.
pub open spec fn bw(k: int, n: int, d: int) -> int {
    if k == 0 {
        (d - n) * (d - n) * (d - n)
    } else if k == 1 {
        3 * n * ((d - n) * (d - n))
    } else if k == 2 {
        3 * (n * n) * (d - n)
    } else {
        n * n * n
    }
}

/// Partition of unity: at any parameter the four Bernstein weights sum to the
/// whole, `B3(0,t) + B3(1,t) + B3(2,t) + B3(3,t) == 1`, here stated exactly
/// over the common denominator `d^3`.
pub proof fn lemma_bernstein_partition(n: int, d: int)
    ensures
        bw(0, n, d) + bw(1, n, d) + bw(2, n, d) + bw(3, n, d) == d * d * d,
{
    assert((d - n) * (d - n) * (d - n) + 3 * n * ((d - n) * (d - n)) + 3 * (n * n) * (d - n)
        + n * n * n == d * d * d) by (nonlinear_arith);
}

/// Each Bernstein weight is non-negative on the unit interval and at most
/// three times the common denominator `d^3`.
pub proof fn lemma_bw_range(k: int, n: int, d: int)
    requires
        0 <= n <= d,
    ensures
        0 <= bw(k, n, d) <= 3 * (d * d * d),
{
    assert(0 <= (d - n) * (d - n) * (d - n) <= d * d * d) by (nonlinear_arith)
        requires
            0 <= n <= d,
    ;
    assert(0 <= 3 * n * ((d - n) * (d - n)) <= 3 * (d * d * d)) by (nonlinear_arith)
        requires
            0 <= n <= d,
    ;
    assert(0 <= 3 * (n * n) * (d - n) <= 3 * (d * d * d)) by (nonlinear_arith)
        requires
            0 <= n <= d,
    ;
    assert(0 <= n * n * n <= d * d * d) by (nonlinear_arith)
        requires
            0 <= n <= d,
    ;
}

/// Each Bernstein weight is Lipschitz in the parameter numerator: moving
/// the parameter by `e / d` moves the weight numerator by at most
/// `9 d^2 e`.
pub proof fn lemma_bw_lipschitz(k: int, n1: int, n2: int, d: int)
    requires
        0 <= n2 <= n1 <= d,
    ensures
        -(9 * (d * d) * (n1 - n2)) <= bw(k, n1, d) - bw(k, n2, d) <= 9 * (d * d) * (n1 - n2),
{
    assert(-(9 * (d * d) * (n1 - n2)) <= (d - n1) * (d - n1) * (d - n1) - (d - n2) * (d - n2) * (d
        - n2) <= 9 * (d * d) * (n1 - n2)) by (nonlinear_arith)
        requires
            0 <= n2 <= n1 <= d,
    ;
    assert(-(9 * (d * d) * (n1 - n2)) <= 3 * n1 * ((d - n1) * (d - n1)) - 3 * n2 * ((d - n2) * (d
        - n2)) <= 9 * (d * d) * (n1 - n2)) by (nonlinear_arith)
        requires
            0 <= n2 <= n1 <= d,
    ;
    assert(-(9 * (d * d) * (n1 - n2)) <= 3 * (n1 * n1) * (d - n1) - 3 * (n2 * n2) * (d - n2) <= 9
        * (d * d) * (n1 - n2)) by (nonlinear_arith)
        requires
            0 <= n2 <= n1 <= d,
    ;
    assert(-(9 * (d * d) * (n1 - n2)) <= n1 * n1 * n1 - n2 * n2 * n2 <= 9 * (d * d) * (n1 - n2))
        by (nonlinear_arith)
        requires
            0 <= n2 <= n1 <= d,
    ;
}

/// At the ends of the unit interval a single weight carries everything.
pub proof fn lemma_bw_ends(k: int, d: int)
    ensures
        bw(0, 0, d) == d * d * d,
        bw(0, d, d) == 0,
        bw(3, d, d) == d * d * d,
        bw(3, 0, d) == 0,
        1 <= k <= 2 ==> bw(k, 0, d) == 0 && bw(k, d, d) == 0,
{
    assert((d - 0) * (d - 0) * (d - 0) == d * d * d) by (nonlinear_arith);
    assert(3 * 0 * ((d - 0) * (d - 0)) == 0) by (nonlinear_arith);
    assert(3 * (0 * 0) * (d - 0) == 0) by (nonlinear_arith);
    assert((d - d) * (d - d) * (d - d) == 0) by (nonlinear_arith);
    assert(3 * d * ((d - d) * (d - d)) == 0) by (nonlinear_arith);
    assert(3 * (d * d) * (d - d) == 0) by (nonlinear_arith);
}

/// The cubic Bernstein weight numerator at the parameter `t`:
/// `C(3,i) * num^i * (den-num)^(3-i)`, an exact integer.
pub fn bernstein3(i: i32, t: Frac) -> (r: i64)
    requires
        0 <= i <= 3,
        t.wf(),
    ensures
        r == bw(i as int, t.num as int, t.den as int),
        0 <= r <= 3 * ((t.den as int) * (t.den as int) * (t.den as int)),
{
    let n: i64 = t.num as i64;
    let m: i64 = (t.den - t.num) as i64;
    proof {
        lemma_bw_range(i as int, t.num as int, t.den as int);
        assert(m * m <= 0x40000000 && n * n <= 0x40000000 && n * m <= 0x40000000)
            by (nonlinear_arith)
            requires
                0 <= n <= 32768,
                0 <= m <= 32768,
        ;
        assert((m * m) * m <= 0x8000000000000 && n * (m * m) <= 0x8000000000000
            && (n * n) * m <= 0x8000000000000 && (n * n) * n <= 0x8000000000000
            && (m * m) * m >= 0 && n * (m * m) >= 0 && (n * n) * m >= 0 && (n * n) * n >= 0)
            by (nonlinear_arith)
            requires
                0 <= n <= 32768,
                0 <= m <= 32768,
                m * m <= 0x40000000,
                n * n <= 0x40000000,
        ;
    }
    if i == 0 {
        let r = (m * m) * m;
        proof {
            assert((m * m) * m == bw(0, n as int, m as int + n as int)) by (nonlinear_arith);
        }
        r
    } else if i == 1 {
        let r = 3 * (n * (m * m));
        proof {
            assert(3 * (n * (m * m)) == 3 * n * (m * m)) by (nonlinear_arith);
        }
        r
    } else if i == 2 {
        let r = 3 * ((n * n) * m);
        proof {
            assert(3 * ((n * n) * m) == 3 * (n * n) * m) by (nonlinear_arith);
        }
        r
    } else {
        (n * n) * n
    }
}

} // verus!
