//! Fixed-point arithmetic for normalized tensor values.
//!
//! A tensor element is an integer count of millionths: `ONE` stands for 1.0.
//! Angles are counted in milliradians and sines, approximated by Bhaskara I's
//! formula, in thousandths.
use vstd::prelude::*;

verus! {

/// The fixed-point value that stands for 1.0.
pub const ONE: i64 = 1_000_000;

/// Half a turn, in milliradians.
pub const PI_MILLI: u64 = 3142;

/// A full turn, in milliradians.
pub const TWO_PI_MILLI: u64 = 6284;

/// A quarter turn, in milliradians.
pub const HALF_PI_MILLI: u64 = 1571;

/// `v` limited to the unit interval `[0, ONE]`.
pub open spec fn clamp_spec(v: int) -> int {
    if v < 0 {
        0
    } else if v > ONE {
        ONE as int
    } else {
        v
    }
}

/// Limits `v` to `[0, ONE]`.
pub fn clamp_unit(v: i64) -> (r: i64)
    ensures
        r == clamp_spec(v as int),
        0 <= r <= ONE,
{
    if v < 0 {
        0
    } else if v > ONE {
        ONE
    } else {
        v
    }
}

/// Division rounding toward negative infinity.
pub fn div_floor(a: i64, b: i64) -> (r: i64)
    requires
        0 < b <= 0x4000_0000_0000_0000,
        -0x4000_0000_0000_0000 <= a <= 0x4000_0000_0000_0000,
    ensures
        r == a / b,
{
    if a >= 0 {
        ((a as u64) / (b as u64)) as i64
    } else {
        let n: u64 = (-(a as i128)) as u64;
        let bu: u64 = b as u64;
        let q: u64 = (n + bu - 1) / bu;
        proof {
            let ai = a as int;
            let bi = b as int;
            let qi = q as int;
            assert(qi == (-ai + bi - 1) / bi);
            assert(qi <= -ai) by (nonlinear_arith)
                requires qi == (-ai + bi - 1) / bi, bi > 0, ai < 0;
            assert(qi * bi <= -ai + bi - 1 < qi * bi + bi) by (nonlinear_arith)
                requires qi == (-ai + bi - 1) / bi, bi > 0;
            assert(-qi * bi <= ai < -qi * bi + bi) by (nonlinear_arith)
                requires qi * bi <= -ai + bi - 1 < qi * bi + bi;
            lemma_floor_unique(ai, bi, -qi);
        }
        -(q as i64)
    }
}

/// Dividing `d * q + r` by `d` gives back `q` and leaves `r`, for `0 <= r < d`.
pub proof fn lemma_split(q: int, r: int, d: int)
    requires
        0 <= r < d,
        0 <= q,
    ensures
        (d * q + r) / d == q,
        (d * q + r) % d == r,
{
    vstd::arithmetic::mul::lemma_mul_is_commutative(d, q);
    vstd::arithmetic::div_mod::lemma_fundamental_div_mod_converse(d * q + r, d, q, r);
}

/// A quotient bracketed by the dividend is the floor quotient.
proof fn lemma_floor_unique(a: int, b: int, q: int)
    requires
        b > 0,
        q * b <= a < q * b + b,
    ensures
        a / b == q,
{
    let d = a / b;
    let m = a % b;
    assert(a == d * b + m && 0 <= m < b) by {
        vstd::arithmetic::div_mod::lemma_fundamental_div_mod(a, b);
        vstd::arithmetic::mul::lemma_mul_is_commutative(b, d);
    }
    if d < q {
        assert(d * b + b <= q * b) by (nonlinear_arith)
            requires d < q, b > 0;
    } else if d > q {
        assert(q * b + b <= d * b) by (nonlinear_arith)
            requires d > q, b > 0;
    }
}

/// Bhaskara I's rational approximation of sine on `[0, PI_MILLI]`, in
/// thousandths: `16 a (pi - a) / (5 pi^2 - 4 a (pi - a))`, within about two
/// thousandths of the true sine.
pub open spec fn arch_spec(a: int) -> int {
    let g = a * (PI_MILLI - a);
    16000 * g / (5 * PI_MILLI * PI_MILLI - 4 * g)
}

/// An approximation of the sine of a nonnegative angle in milliradians, in
/// thousandths: the angle is reduced to one turn and each half turn is
/// approximated by `arch_spec`.
pub open spec fn sine_spec(a: int) -> int {
    let r = a % (TWO_PI_MILLI as int);
    if r < PI_MILLI {
        arch_spec(r)
    } else {
        -arch_spec(r - PI_MILLI)
    }
}

/// An approximation of the cosine of a nonnegative angle in milliradians, in
/// thousandths: the sine a quarter turn later.
pub open spec fn cosine_spec(a: int) -> int {
    sine_spec(a + HALF_PI_MILLI)
}

proof fn lemma_arch_bounds(a: int)
    requires
        0 <= a <= PI_MILLI,
    ensures
        0 <= arch_spec(a) <= 1000,
        0 <= a * (PI_MILLI - a) <= PI_MILLI * PI_MILLI / 4,
{
    let p = PI_MILLI as int;
    let g = a * (p - a);
    assert(0 <= g) by (nonlinear_arith)
        requires 0 <= a <= p, g == a * (p - a);
    assert(4 * g <= p * p) by (nonlinear_arith)
        requires g == a * (p - a);
    let d = 5 * p * p - 4 * g;
    assert(d >= 4 * p * p);
    assert(16000 * g <= 1000 * d);
    assert(0 <= 16000 * g / d <= 1000) by (nonlinear_arith)
        requires 0 <= 16000 * g <= 1000 * d, d > 0;
}

fn arch(a: u64) -> (r: i64)
    requires
        a <= PI_MILLI,
    ensures
        r == arch_spec(a as int),
        0 <= r <= 1000,
{
    proof {
        lemma_arch_bounds(a as int);
    }
    let g: u64 = a * (PI_MILLI - a);
    let num: u64 = 16000 * g;
    let den: u64 = 5 * PI_MILLI * PI_MILLI - 4 * g;
    (num / den) as i64
}

/// The approximate sine of `a` milliradians, in thousandths (see `sine_spec`).
pub fn sine_milli(a: u64) -> (r: i64)
    ensures
        r == sine_spec(a as int),
        -1000 <= r <= 1000,
{
    let r = a % TWO_PI_MILLI;
    if r < PI_MILLI {
        arch(r)
    } else {
        -arch(r - PI_MILLI)
    }
}

/// The approximate sine of `k * v` milliradians, in thousandths, for any `v`:
/// `v` is first reduced to one turn, so the product cannot overflow.
pub fn sine_of_multiple(k: u64, v: u64) -> (r: i64)
    requires
        k <= 20,
    ensures
        r == sine_spec(k * v),
        -1000 <= r <= 1000,
{
    let red: u64 = v % TWO_PI_MILLI;
    assert(k * red <= 20 * 6284) by (nonlinear_arith)
        requires k <= 20, red < 6284;
    let a: u64 = k * red;
    proof {
        vstd::arithmetic::div_mod::lemma_mul_mod_noop_right(k as int, v as int, TWO_PI_MILLI as int);
    }
    sine_milli(a)
}

/// The approximate cosine of `k * v` milliradians, in thousandths, for any `v`.
pub fn cosine_of_multiple(k: u64, v: u64) -> (r: i64)
    requires
        k <= 20,
    ensures
        r == cosine_spec(k * v),
        -1000 <= r <= 1000,
{
    let ghost m = TWO_PI_MILLI as int;
    let ghost h = HALF_PI_MILLI as int;
    let red: u64 = v % TWO_PI_MILLI;
    assert(k * red <= 20 * 6284) by (nonlinear_arith)
        requires k <= 20, red < 6284;
    let b: u64 = k * red;
    proof {
        vstd::arithmetic::div_mod::lemma_mul_mod_noop_right(k as int, v as int, m);
        vstd::arithmetic::div_mod::lemma_add_mod_noop_right(h, b as int, m);
        vstd::arithmetic::div_mod::lemma_add_mod_noop_right(h, k * v, m);
        assert((b + h) % m == (k * v + h) % m);
    }
    sine_milli(b + HALF_PI_MILLI)
}

} // verus!
