//! Saturating fixed-point arithmetic on `i64` values scaled by one million.
//!
//! Every executable operation here has an exact contract: its result equals a
//! spec-level function of its arguments. Results are clamped into
//! `[-FX_SAT, FX_SAT]`, so no operation can overflow or panic, and quotients
//! use truncating (round-toward-zero) division. The trigonometric functions
//! work internally at nano resolution (a thousandfold finer) and round their
//! result to the nearest micro value, so that the cardinal angles keep their
//! exact sines and cosines at micro resolution.

use vstd::prelude::*;

verus! {

/// One whole unit: fixed-point values carry six decimal places.
pub const SCALE: i64 = 1_000_000;

/// Saturation bound for every fixed-point result.
pub const FX_SAT: i64 = 1_000_000_000_000_000_000;

/// The lower saturation bound, `-FX_SAT`.
pub const FX_SAT_NEG: i64 = -1_000_000_000_000_000_000;

/// The circle constant, in micro-radians.
pub const PI_FX: i64 = 3_141_593;

/// Two pi, in micro-radians.
pub const TWO_PI_FX: i64 = 6_283_185;

/// Half pi, in micro-radians.
pub const HALF_PI_FX: i64 = 1_570_796;

/// 180 degrees in micro-degrees, the partner of `PI_FX` for angle conversion.
pub const DEG_180_FX: i64 = 180_000_000;

/// Absolute value on mathematical integers.
pub open spec fn iabs(a: int) -> int {
    if a >= 0 {
        a
    } else {
        -a
    }
}

/// Truncating (round-toward-zero) integer division; zero divisor gives zero.
pub open spec fn div_trunc(a: int, b: int) -> int {
    if b == 0 {
        0
    } else {
        let q = iabs(a) / iabs(b);
        if (a >= 0) == (b >= 0) {
            q
        } else {
            -q
        }
    }
}

/// Clamp a mathematical integer into the representable fixed-point range.
pub open spec fn fx_clamp(v: int) -> i64 {
    if v > FX_SAT as int {
        FX_SAT
    } else if v < FX_SAT_NEG as int {
        FX_SAT_NEG
    } else {
        v as i64
    }
}

/// Fixed-point product `a * b / SCALE`, clamped.
pub open spec fn spec_mul_fx(a: i64, b: i64) -> i64 {
    fx_clamp(div_trunc(a as int * b as int, SCALE as int))
}

/// Fixed-point quotient `a * SCALE / b`, clamped; zero divisor gives zero.
pub open spec fn spec_div_fx(a: i64, b: i64) -> i64 {
    fx_clamp(div_trunc(a as int * SCALE as int, b as int))
}

/// Clamped sum.
pub open spec fn spec_add_fx(a: i64, b: i64) -> i64 {
    fx_clamp(a as int + b as int)
}

/// Clamped difference.
pub open spec fn spec_sub_fx(a: i64, b: i64) -> i64 {
    fx_clamp(a as int - b as int)
}

/// Clamped negation.
pub open spec fn spec_neg_fx(a: i64) -> i64 {
    fx_clamp(-(a as int))
}

/// Combined multiply-then-divide `a * b / c` without an intermediate
/// rounding step, clamped; zero divisor gives zero.
pub open spec fn spec_mul_div_fx(a: i64, b: i64, c: i64) -> i64 {
    fx_clamp(div_trunc(a as int * b as int, c as int))
}

/// Clamp an `i128` intermediate into the fixed-point range.
fn clamp128(v: i128) -> (r: i64)
    ensures
        r == fx_clamp(v as int),
{
    if v > FX_SAT as i128 {
        FX_SAT
    } else if v < FX_SAT_NEG as i128 {
        FX_SAT_NEG
    } else {
        v as i64
    }
}

/// Truncating division of `i128` values through unsigned magnitudes.
fn div_trunc_i128(a: i128, b: i128) -> (r: i128)
    requires
        a != i128::MIN,
        b != i128::MIN,
    ensures
        r as int == div_trunc(a as int, b as int),
{
    if b == 0 {
        return 0;
    }
    let ua: u128 = if a >= 0 {
        a as u128
    } else {
        (-a) as u128
    };
    let ub: u128 = if b >= 0 {
        b as u128
    } else {
        (-b) as u128
    };
    assert(ua as int == iabs(a as int));
    assert(ub as int == iabs(b as int));
    let q: u128 = ua / ub;
    assert(q <= ua) by {
        vstd::arithmetic::div_mod::lemma_div_nonincreasing(ua as int, ub as int);
    }
    if (a >= 0) == (b >= 0) {
        q as i128
    } else {
        -(q as i128)
    }
}

/// Fixed-point multiplication.
pub fn fx_mul(a: i64, b: i64) -> (r: i64)
    ensures
        r == spec_mul_fx(a, b),
{
    let wa: i128 = a as i128;
    let wb: i128 = b as i128;
    assert(wa * wb <= i128::MAX && wa * wb >= i128::MIN + 1) by (nonlinear_arith)
        requires
            -(0x8000_0000_0000_0000i128) <= wa <= 0x8000_0000_0000_0000i128,
            -(0x8000_0000_0000_0000i128) <= wb <= 0x8000_0000_0000_0000i128,
    ;
    let p: i128 = wa * wb;
    clamp128(div_trunc_i128(p, SCALE as i128))
}

/// Fixed-point division; a zero divisor yields zero.
pub fn fx_div(a: i64, b: i64) -> (r: i64)
    ensures
        r == spec_div_fx(a, b),
{
    let wa: i128 = a as i128;
    assert(wa * (SCALE as i128) <= i128::MAX && wa * (SCALE as i128) >= i128::MIN + 1)
        by (nonlinear_arith)
        requires
            -(0x8000_0000_0000_0000i128) <= wa <= 0x8000_0000_0000_0000i128,
    ;
    let num: i128 = wa * SCALE as i128;
    clamp128(div_trunc_i128(num, b as i128))
}

/// Clamped addition.
pub fn fx_add(a: i64, b: i64) -> (r: i64)
    ensures
        r == spec_add_fx(a, b),
{
    clamp128(a as i128 + b as i128)
}

/// Clamped subtraction.
pub fn fx_sub(a: i64, b: i64) -> (r: i64)
    ensures
        r == spec_sub_fx(a, b),
{
    clamp128(a as i128 - b as i128)
}

/// Clamped negation.
pub fn fx_neg(a: i64) -> (r: i64)
    ensures
        r == spec_neg_fx(a),
{
    clamp128(-(a as i128))
}

/// Multiply-then-divide in one step, avoiding the intermediate rounding of
/// `fx_mul` followed by `fx_div`; a zero divisor yields zero.
pub fn fx_mul_div(a: i64, b: i64, c: i64) -> (r: i64)
    ensures
        r == spec_mul_div_fx(a, b, c),
{
    let wa: i128 = a as i128;
    let wb: i128 = b as i128;
    assert(wa * wb <= i128::MAX && wa * wb >= i128::MIN + 1) by (nonlinear_arith)
        requires
            -(0x8000_0000_0000_0000i128) <= wa <= 0x8000_0000_0000_0000i128,
            -(0x8000_0000_0000_0000i128) <= wb <= 0x8000_0000_0000_0000i128,
    ;
    let p: i128 = wa * wb;
    clamp128(div_trunc_i128(p, c as i128))
}

/// Integer square root, defined by counting up; `spec_isqrt(n)` is the
/// greatest `r >= 0` with `r * r <= n`.
pub open spec fn spec_isqrt(n: int) -> int
    decreases n,
{
    if n < 1 {
        0
    } else {
        let r = spec_isqrt(n - 1);
        if (r + 1) * (r + 1) <= n {
            r + 1
        } else {
            r
        }
    }
}

/// `spec_isqrt(n)` brackets `n` between consecutive squares.
pub proof fn lemma_isqrt_bounds(n: int)
    requires
        n >= 0,
    ensures
        spec_isqrt(n) >= 0,
        spec_isqrt(n) * spec_isqrt(n) <= n,
        n < (spec_isqrt(n) + 1) * (spec_isqrt(n) + 1),
    decreases n,
{
    if n == 0 {
    } else {
        lemma_isqrt_bounds(n - 1);
        let r = spec_isqrt(n - 1);
        if (r + 1) * (r + 1) <= n {
            assert((r + 1) * (r + 1) + 1 <= (r + 2) * (r + 2)) by (nonlinear_arith)
                requires
                    r >= 0,
            ;
        }
    }
}

/// Any `r` bracketed between consecutive squares around `n` is `spec_isqrt(n)`.
pub proof fn lemma_isqrt_unique(n: int, r: int)
    requires
        n >= 0,
        r >= 0,
        r * r <= n,
        n < (r + 1) * (r + 1),
    ensures
        r == spec_isqrt(n),
{
    lemma_isqrt_bounds(n);
    let s = spec_isqrt(n);
    if r < s {
        assert((r + 1) * (r + 1) <= s * s) by (nonlinear_arith)
            requires
                0 <= r + 1 <= s,
        ;
    }
    if s < r {
        assert((s + 1) * (s + 1) <= r * r) by (nonlinear_arith)
            requires
                0 <= s + 1 <= r,
        ;
    }
}

/// Binary-search integer square root on `u128`.
fn isqrt_u128(n: u128) -> (r: u128)
    ensures
        r as int == spec_isqrt(n as int),
{
    let mut lo: u128 = 0;
    let mut hi: u128 = if n > 0xFFFF_FFFF_FFFF_FFFF {
        0xFFFF_FFFF_FFFF_FFFF
    } else {
        n
    };
    proof {
        assert((hi as int + 1) * (hi as int + 1) > n as int) by (nonlinear_arith)
            requires
                hi as int == 0xFFFF_FFFF_FFFF_FFFFint && n as int <= u128::MAX as int || hi as int
                    == n as int && 0 <= n as int,
        ;
    }
    while lo < hi
        invariant
            0 <= lo <= hi <= 0xFFFF_FFFF_FFFF_FFFFu128,
            lo as int * lo as int <= n as int,
            (hi as int + 1) * (hi as int + 1) > n as int,
        decreases hi - lo,
    {
        let mid: u128 = lo + (hi - lo + 1) / 2;
        assert(lo < mid <= hi);
        assert(mid * mid <= u128::MAX) by (nonlinear_arith)
            requires
                mid <= 0xFFFF_FFFF_FFFF_FFFFu128,
        ;
        if mid * mid <= n {
            lo = mid;
        } else {
            hi = mid - 1;
        }
    }
    proof {
        lemma_isqrt_unique(n as int, lo as int);
    }
    lo
}

/// Fixed-point square root: `spec_sqrt_fx(a)` is the integer square root of
/// `a * SCALE`, so that the result is again scaled by `SCALE`.
#[verifier::opaque]
pub open spec fn spec_sqrt_fx(a: i64) -> i64 {
    if a <= 0 {
        0
    } else {
        spec_isqrt(a as int * SCALE as int) as i64
    }
}

/// Fixed-point square root of a non-negative value; non-positive input gives
/// zero.
pub fn fx_sqrt(a: i64) -> (r: i64)
    ensures
        r == spec_sqrt_fx(a),
        r >= 0,
{
    proof {
        reveal(spec_sqrt_fx);
    }
    if a <= 0 {
        return 0;
    }
    let wa: u128 = a as u128;
    assert(wa * 1_000_000u128 <= 9_223_372_036_854_775_807_000_000u128) by (nonlinear_arith)
        requires
            0 < wa <= 9_223_372_036_854_775_807u128,
    ;
    let n: u128 = wa * 1_000_000;
    let r: u128 = isqrt_u128(n);
    proof {
        lemma_isqrt_bounds(n as int);
        assert(r as int <= 4_000_000_000_000int) by (nonlinear_arith)
            requires
                r as int * r as int <= n as int,
                n as int <= 9_223_372_036_854_775_807_000_000int,
                r as int >= 0,
        ;
    }
    r as i64
}

/// Pi at nano resolution: the internal scale of the trigonometric kernel.
/// Sines and cosines are computed in nano-radians and nano-units and only
/// rounded to micro-units at the end, so values such as the sine of a
/// quarter turn come out exact at micro resolution.
pub const PI_NANO: i64 = 3_141_592_654;

/// Two pi at nano resolution; exactly twice `PI_NANO`, so that the
/// reduction window `(-PI_NANO, PI_NANO]` holds one representative per
/// angle.
pub const TWO_PI_NANO: i64 = 6_283_185_308;

/// Half pi at nano resolution; exactly half of `PI_NANO`.
pub const HALF_PI_NANO: i64 = 1_570_796_327;

/// Nano-scaled product `a * b / 1e9`, clamped.
pub open spec fn spec_mul_nano(a: i64, b: i64) -> i64 {
    fx_clamp(div_trunc(a as int * b as int, 1_000_000_000))
}

/// Nano-scaled multiplication.
fn fx_mul_nano(a: i64, b: i64) -> (r: i64)
    ensures
        r == spec_mul_nano(a, b),
{
    let wa: i128 = a as i128;
    let wb: i128 = b as i128;
    assert(wa * wb <= i128::MAX && wa * wb >= i128::MIN + 1) by (nonlinear_arith)
        requires
            -(0x8000_0000_0000_0000i128) <= wa <= 0x8000_0000_0000_0000i128,
            -(0x8000_0000_0000_0000i128) <= wb <= 0x8000_0000_0000_0000i128,
    ;
    let p: i128 = wa * wb;
    clamp128(div_trunc_i128(p, 1_000_000_000))
}

/// A nano value rounded to the nearest micro value, halves away from zero.
pub open spec fn spec_round_n2m(v: i64) -> i64 {
    if v >= 0 {
        ((v + 500) / 1000) as i64
    } else {
        (-((500 - v) / 1000)) as i64
    }
}

/// Round a nano value to the nearest micro value.
fn round_n2m(v: i64) -> (r: i64)
    ensures
        r == spec_round_n2m(v),
{
    if v >= 0 {
        (((v as u64) + 500) / 1000) as i64
    } else {
        let m: u64 = (-(v as i128)) as u64;
        -(((m + 500) / 1000) as i64)
    }
}

/// Reduce a nano-radian angle into the window `(-PI_NANO, PI_NANO]` by
/// shifting whole turns of `TWO_PI_NANO`.
pub open spec fn spec_reduce_nano(x: int) -> int
    decreases iabs(x) + if x < 0 {
        1int
    } else {
        0int
    },
{
    if x > PI_NANO as int {
        spec_reduce_nano(x - TWO_PI_NANO as int)
    } else if x <= -(PI_NANO as int) {
        spec_reduce_nano(x + TWO_PI_NANO as int)
    } else {
        x
    }
}

/// Any value in the window that differs from `x` by whole turns is the
/// reduction of `x`.
proof fn lemma_reduce_nano_unique(x: int, y: int, k: int)
    requires
        y == x - k * (TWO_PI_NANO as int),
        -(PI_NANO as int) < y <= PI_NANO as int,
    ensures
        y == spec_reduce_nano(x),
    decreases iabs(x) + if x < 0 {
        1int
    } else {
        0int
    },
{
    let t = TWO_PI_NANO as int;
    if x > PI_NANO as int {
        assert(k * t == x - y);
        assert((k - 1) * t == k * t - t);
        assert(y == (x - t) - (k - 1) * t);
        lemma_reduce_nano_unique(x - t, y, k - 1);
    } else if x <= -(PI_NANO as int) {
        assert(k * t == x - y);
        assert((k + 1) * t == k * t + t);
        assert(y == (x + t) - (k + 1) * t);
        lemma_reduce_nano_unique(x + t, y, k + 1);
    } else {
        assert(k * t == x - y);
        assert(-t < x - y < t);
        assert(k == 0);
    }
}

/// Executable angle reduction into `(-PI_NANO, PI_NANO]`.
fn reduce_nano(x: i128) -> (r: i64)
    requires
        x != i128::MIN,
    ensures
        r as int == spec_reduce_nano(x as int),
        -(PI_NANO as int) < r as int <= PI_NANO as int,
{
    let t: u128 = TWO_PI_NANO as u128;
    let r: i64 = if x >= 0 {
        let m0: u128 = (x as u128) % t;
        proof {
            vstd::arithmetic::div_mod::lemma_fundamental_div_mod(x as int, t as int);
            let q = x as int / t as int;
            lemma_reduce_nano_unique(
                x as int,
                if m0 as int > PI_NANO as int {
                    m0 as int - t as int
                } else {
                    m0 as int
                },
                if m0 as int > PI_NANO as int {
                    q + 1
                } else {
                    q
                },
            );
        }
        if m0 > PI_NANO as u128 {
            (m0 as i64) - TWO_PI_NANO
        } else {
            m0 as i64
        }
    } else {
        let mag: u128 = (-x) as u128;
        let m0: u128 = mag % t;
        let m: u128 = if m0 == 0 {
            0
        } else {
            t - m0
        };
        proof {
            vstd::arithmetic::div_mod::lemma_fundamental_div_mod(mag as int, t as int);
            let q = mag as int / t as int;
            if m0 == 0 {
                assert(x as int == (-q) * t as int) by (nonlinear_arith)
                    requires
                        x as int == -(q * t as int + m0 as int),
                        m0 as int == 0,
                ;
                lemma_reduce_nano_unique(x as int, 0, -q);
            } else {
                assert(m as int == x as int - (-(q + 1)) * t as int) by (nonlinear_arith)
                    requires
                        x as int == -(q * t as int + m0 as int),
                        m as int == t as int - m0 as int,
                ;
                lemma_reduce_nano_unique(
                    x as int,
                    if m as int > PI_NANO as int {
                        m as int - t as int
                    } else {
                        m as int
                    },
                    if m as int > PI_NANO as int {
                        -(q + 1) + 1
                    } else {
                        -(q + 1)
                    },
                );
            }
        }
        if m > PI_NANO as u128 {
            (m as i64) - TWO_PI_NANO
        } else {
            m as i64
        }
    };
    r
}

/// Taylor polynomial for the sine on `[-HALF_PI_NANO, HALF_PI_NANO]`,
/// eight terms past the linear one, in nano-units.
pub open spec fn spec_sin_taylor_nano(z: i64) -> i64 {
    let z2 = spec_mul_nano(z, z);
    let t1 = spec_neg_fx(spec_mul_div_fx(spec_mul_nano(z, z2), 1, 6));
    let t2 = spec_neg_fx(spec_mul_div_fx(spec_mul_nano(t1, z2), 1, 20));
    let t3 = spec_neg_fx(spec_mul_div_fx(spec_mul_nano(t2, z2), 1, 42));
    let t4 = spec_neg_fx(spec_mul_div_fx(spec_mul_nano(t3, z2), 1, 72));
    let t5 = spec_neg_fx(spec_mul_div_fx(spec_mul_nano(t4, z2), 1, 110));
    let t6 = spec_neg_fx(spec_mul_div_fx(spec_mul_nano(t5, z2), 1, 156));
    let t7 = spec_neg_fx(spec_mul_div_fx(spec_mul_nano(t6, z2), 1, 210));
    let t8 = spec_neg_fx(spec_mul_div_fx(spec_mul_nano(t7, z2), 1, 272));
    let a1 = spec_add_fx(z, t1);
    let a2 = spec_add_fx(a1, t2);
    let a3 = spec_add_fx(a2, t3);
    let a4 = spec_add_fx(a3, t4);
    let a5 = spec_add_fx(a4, t5);
    let a6 = spec_add_fx(a5, t6);
    let a7 = spec_add_fx(a6, t7);
    spec_add_fx(a7, t8)
}

/// The Taylor polynomial, executably.
fn sin_taylor_nano(z: i64) -> (r: i64)
    ensures
        r == spec_sin_taylor_nano(z),
{
    let z2: i64 = fx_mul_nano(z, z);
    let t1: i64 = fx_neg(fx_mul_div(fx_mul_nano(z, z2), 1, 6));
    let t2: i64 = fx_neg(fx_mul_div(fx_mul_nano(t1, z2), 1, 20));
    let t3: i64 = fx_neg(fx_mul_div(fx_mul_nano(t2, z2), 1, 42));
    let t4: i64 = fx_neg(fx_mul_div(fx_mul_nano(t3, z2), 1, 72));
    let t5: i64 = fx_neg(fx_mul_div(fx_mul_nano(t4, z2), 1, 110));
    let t6: i64 = fx_neg(fx_mul_div(fx_mul_nano(t5, z2), 1, 156));
    let t7: i64 = fx_neg(fx_mul_div(fx_mul_nano(t6, z2), 1, 210));
    let t8: i64 = fx_neg(fx_mul_div(fx_mul_nano(t7, z2), 1, 272));
    let mut acc: i64 = fx_add(z, t1);
    acc = fx_add(acc, t2);
    acc = fx_add(acc, t3);
    acc = fx_add(acc, t4);
    acc = fx_add(acc, t5);
    acc = fx_add(acc, t6);
    acc = fx_add(acc, t7);
    fx_add(acc, t8)
}

/// The sine of an arbitrary nano-radian angle: reduce into one turn, fold
/// into a quarter turn by symmetry, and evaluate the polynomial.
pub open spec fn spec_sin_wide(x: int) -> i64 {
    let y = spec_reduce_nano(x);
    let z = if y > HALF_PI_NANO as int {
        PI_NANO as int - y
    } else if y < -(HALF_PI_NANO as int) {
        -(PI_NANO as int) - y
    } else {
        y
    };
    spec_sin_taylor_nano(z as i64)
}

/// The sine of a wide nano-radian angle.
fn sin_wide(x: i128) -> (r: i64)
    requires
        x != i128::MIN,
    ensures
        r == spec_sin_wide(x as int),
{
    let y: i64 = reduce_nano(x);
    let z: i64 = if y > HALF_PI_NANO {
        PI_NANO - y
    } else if y < -HALF_PI_NANO {
        -PI_NANO - y
    } else {
        y
    };
    sin_taylor_nano(z)
}

/// Fixed-point sine of an angle in micro-radians: computed at nano
/// resolution and rounded to the nearest micro value.
#[verifier::opaque]
pub open spec fn spec_sin_fx(x: i64) -> i64 {
    spec_round_n2m(spec_sin_wide(x as int * 1000))
}

/// Fixed-point sine of an angle in micro-radians.
pub fn sin_fx(x: i64) -> (r: i64)
    ensures
        r == spec_sin_fx(x),
{
    proof {
        reveal(spec_sin_fx);
    }
    let wx: i128 = x as i128;
    assert(wx * 1000 <= i128::MAX && wx * 1000 >= i128::MIN + 1) by (nonlinear_arith)
        requires
            -(0x8000_0000_0000_0000i128) <= wx <= 0x8000_0000_0000_0000i128,
    ;
    round_n2m(sin_wide(wx * 1000))
}

/// Fixed-point cosine: the sine shifted by a quarter turn at nano
/// resolution.
#[verifier::opaque]
pub open spec fn spec_cos_fx(x: i64) -> i64 {
    spec_round_n2m(spec_sin_wide(x as int * 1000 + HALF_PI_NANO as int))
}

/// Fixed-point cosine of an angle in micro-radians.
pub fn cos_fx(x: i64) -> (r: i64)
    ensures
        r == spec_cos_fx(x),
{
    proof {
        reveal(spec_cos_fx);
    }
    let wx: i128 = x as i128;
    assert(wx * 1000 <= i128::MAX - 2_000_000_000 && wx * 1000 >= i128::MIN + 1)
        by (nonlinear_arith)
        requires
            -(0x8000_0000_0000_0000i128) <= wx <= 0x8000_0000_0000_0000i128,
    ;
    round_n2m(sin_wide(wx * 1000 + HALF_PI_NANO as i128))
}

/// The sine of an angle given in micro-degrees, converted to nano-radians
/// before evaluation so that right angles keep their exact values.
#[verifier::opaque]
pub open spec fn spec_sin_deg_fx(x: i64) -> i64 {
    spec_round_n2m(spec_sin_wide(div_trunc(x as int * PI_NANO as int, DEG_180_FX as int)))
}

/// The sine of an angle in micro-degrees, in micro-units.
pub fn sin_deg_fx(x: i64) -> (r: i64)
    ensures
        r == spec_sin_deg_fx(x),
{
    proof {
        reveal(spec_sin_deg_fx);
    }
    let rad: i128 = deg_to_nano_rad(x);
    round_n2m(sin_wide(rad))
}

/// The cosine of an angle given in micro-degrees.
#[verifier::opaque]
pub open spec fn spec_cos_deg_fx(x: i64) -> i64 {
    spec_round_n2m(
        spec_sin_wide(
            div_trunc(x as int * PI_NANO as int, DEG_180_FX as int) + HALF_PI_NANO as int,
        ),
    )
}

/// The cosine of an angle in micro-degrees, in micro-units.
pub fn cos_deg_fx(x: i64) -> (r: i64)
    ensures
        r == spec_cos_deg_fx(x),
{
    proof {
        reveal(spec_cos_deg_fx);
    }
    let rad: i128 = deg_to_nano_rad(x);
    round_n2m(sin_wide(rad + HALF_PI_NANO as i128))
}

/// Micro-degrees to nano-radians, truncating.
fn deg_to_nano_rad(x: i64) -> (r: i128)
    ensures
        r as int == div_trunc(x as int * PI_NANO as int, DEG_180_FX as int),
        -200_000_000_000_000_000_000i128 <= r <= 200_000_000_000_000_000_000i128,
{
    let wx: i128 = x as i128;
    assert(wx * (PI_NANO as i128) <= i128::MAX && wx * (PI_NANO as i128) >= i128::MIN + 1)
        by (nonlinear_arith)
        requires
            -(0x8000_0000_0000_0000i128) <= wx <= 0x8000_0000_0000_0000i128,
    ;
    let p: i128 = wx * PI_NANO as i128;
    let r: i128 = div_trunc_i128(p, DEG_180_FX as i128);
    proof {
        assert(iabs(p as int) <= 28_976_077_836_091_980_943_229_714_432int) by (nonlinear_arith)
            requires
                -(9_223_372_036_854_775_808int) <= wx as int <= 9_223_372_036_854_775_808int,
                p as int == wx as int * 3_141_592_654int,
        ;
        assert(iabs(div_trunc(p as int, DEG_180_FX as int)) == iabs(p as int) / (
        DEG_180_FX as int));
        vstd::arithmetic::div_mod::lemma_div_is_ordered(
            iabs(p as int),
            28_976_077_836_091_980_943_229_714_432int,
            DEG_180_FX as int,
        );
        assert(28_976_077_836_091_980_943_229_714_432int / 180_000_000int
            <= 200_000_000_000_000_000_000int);
    }
    r
}

/// The magnitude of a truncating quotient never exceeds the numerator's.
pub proof fn lemma_div_trunc_magnitude(a: int, b: int)
    requires
        b >= 1,
    ensures
        iabs(div_trunc(a, b)) <= iabs(a),
{
    vstd::arithmetic::div_mod::lemma_div_nonincreasing(iabs(a), b);
}

/// Bisection steps for the arcsine: narrow `[lo, hi]` around the angle whose
/// sine is `x`, `k` halvings deep.
pub open spec fn spec_asin_iter(x: i64, lo: i64, hi: i64, k: int) -> i64
    decreases k,
{
    if k <= 0 {
        lo
    } else {
        let mid = ((lo as int + hi as int) / 2) as i64;
        if spec_sin_fx(mid) < x {
            spec_asin_iter(x, mid, hi, k - 1)
        } else {
            spec_asin_iter(x, lo, mid, k - 1)
        }
    }
}

/// Fixed-point arcsine in micro-radians, by 22 bisection steps on
/// `[0, HALF_PI_FX]` and odd symmetry for negative arguments.
#[verifier::opaque]
pub open spec fn spec_asin_fx(x: i64) -> i64 {
    if x >= 0 {
        spec_asin_iter(x, 0, HALF_PI_FX, 22)
    } else {
        spec_neg_fx(spec_asin_iter(spec_neg_fx(x), 0, HALF_PI_FX, 22))
    }
}

/// Arcsine bisection on a non-negative argument.
fn asin_pos(x: i64) -> (r: i64)
    requires
        x >= 0,
    ensures
        r == spec_asin_iter(x, 0, HALF_PI_FX, 22),
        0 <= r <= HALF_PI_FX,
{
    let mut lo: i64 = 0;
    let mut hi: i64 = HALF_PI_FX;
    let mut k: u32 = 22;
    while k > 0
        invariant
            0 <= lo <= hi <= HALF_PI_FX,
            spec_asin_iter(x, lo, hi, k as int) == spec_asin_iter(x, 0, HALF_PI_FX, 22),
        decreases k,
    {
        let mid: i64 = (((lo as u64) + (hi as u64)) / 2) as i64;
        assert(mid as int == (lo as int + hi as int) / 2);
        assert(lo <= mid <= hi);
        if sin_fx(mid) < x {
            lo = mid;
        } else {
            hi = mid;
        }
        k = k - 1;
    }
    lo
}

/// Fixed-point arcsine of a value in micro-units; results lie in
/// `[-HALF_PI_FX, HALF_PI_FX]`.
pub fn asin_fx(x: i64) -> (r: i64)
    ensures
        r == spec_asin_fx(x),
        -HALF_PI_FX <= r <= HALF_PI_FX,
{
    proof {
        reveal(spec_asin_fx);
    }
    if x >= 0 {
        asin_pos(x)
    } else {
        fx_neg(asin_pos(fx_neg(x)))
    }
}

/// Bisection steps for the nano arcsine: narrow `[lo, hi]` around the
/// angle whose polynomial sine is `t`, `k` halvings deep. Angles below a
/// quarter turn need no reduction or folding.
pub open spec fn spec_asin_nano_iter(t: i64, lo: i64, hi: i64, k: int) -> i64
    decreases k,
{
    if k <= 0 {
        lo
    } else {
        let mid = ((lo as int + hi as int) / 2) as i64;
        if spec_sin_taylor_nano(mid) < t {
            spec_asin_nano_iter(t, mid, hi, k - 1)
        } else {
            spec_asin_nano_iter(t, lo, mid, k - 1)
        }
    }
}

/// The nano arcsine of a non-negative nano value, by forty bisection
/// steps on `[0, HALF_PI_NANO]`.
pub open spec fn spec_asin_nano(t: i64) -> i64 {
    spec_asin_nano_iter(t, 0, HALF_PI_NANO, 40)
}

/// Arcsine bisection at nano resolution.
fn asin_nano(t: i64) -> (r: i64)
    requires
        t >= 0,
    ensures
        r == spec_asin_nano(t),
        0 <= r <= HALF_PI_NANO,
{
    let mut lo: i64 = 0;
    let mut hi: i64 = HALF_PI_NANO;
    let mut k: u32 = 40;
    while k > 0
        invariant
            0 <= lo <= hi <= HALF_PI_NANO,
            spec_asin_nano_iter(t, lo, hi, k as int) == spec_asin_nano_iter(t, 0, HALF_PI_NANO, 40),
        decreases k,
    {
        let mid: i64 = (((lo as u64) + (hi as u64)) / 2) as i64;
        assert(mid as int == (lo as int + hi as int) / 2);
        assert(lo <= mid <= hi);
        if sin_taylor_nano(mid) < t {
            lo = mid;
        } else {
            hi = mid;
        }
        k = k - 1;
    }
    lo
}

/// The angle, in micro-degrees, whose cosine is `x` (micro-units):
/// computed entirely at nano resolution, so that a zero cosine gives an
/// exact right angle. Values beyond one in magnitude saturate to the
/// boundary angles.
#[verifier::opaque]
pub open spec fn spec_acos_deg_fx(x: i64) -> i64 {
    let t = if x > 2_000_000 {
        2_000_000_000i64
    } else if x < -2_000_000 {
        -2_000_000_000i64
    } else {
        (x as int * 1000) as i64
    };
    let a = if t >= 0 {
        HALF_PI_NANO as int - spec_asin_nano(t) as int
    } else {
        HALF_PI_NANO as int + spec_asin_nano((-(t as int)) as i64) as int
    };
    div_trunc(a * DEG_180_FX as int, PI_NANO as int) as i64
}

/// The angle in micro-degrees whose cosine is `x`, in `[0, 180]` degrees.
pub fn acos_deg_fx(x: i64) -> (r: i64)
    ensures
        r == spec_acos_deg_fx(x),
        0 <= r <= DEG_180_FX,
{
    proof {
        reveal(spec_acos_deg_fx);
    }
    let t: i64 = if x > 2_000_000 {
        2_000_000_000
    } else if x < -2_000_000 {
        -2_000_000_000
    } else {
        x * 1000
    };
    let a: i64 = if t >= 0 {
        HALF_PI_NANO - asin_nano(t)
    } else {
        HALF_PI_NANO + asin_nano(-t)
    };
    assert(0 <= a <= PI_NANO);
    let num: i128 = a as i128 * DEG_180_FX as i128;
    assert(num == a as i128 * 180_000_000) by (nonlinear_arith)
        requires
            num == a as i128 * (180_000_000i128),
    ;
    let q: i128 = div_trunc_i128(num, PI_NANO as i128);
    proof {
        assert(num as int <= 565_486_677_720_000_000int) by (nonlinear_arith)
            requires
                0 <= a as int <= 3_141_592_654int,
                num as int == a as int * 180_000_000int,
        ;
        crate::fx::lemma_div_trunc_nonneg(num as int, PI_NANO as int);
        assert(iabs(div_trunc(num as int, PI_NANO as int)) == iabs(num as int) / (
        PI_NANO as int));
        vstd::arithmetic::div_mod::lemma_div_is_ordered(
            num as int,
            565_486_677_720_000_000int,
            PI_NANO as int,
        );
        assert(565_486_677_720_000_000int / 3_141_592_654int <= 180_000_000int);
    }
    q as i64
}

/// Arguments at or above this threshold make the decaying exponential
/// indistinguishable from zero at the working resolution.
pub const EXP_CUT_FX: i64 = 14_000_000;

/// Taylor polynomial for `exp(-u)` with `u` in `[0, 1)`, twelve terms.
pub open spec fn spec_exp_taylor(u: i64) -> i64 {
    let t1 = spec_neg_fx(u);
    let t2 = spec_neg_fx(spec_div_fx(spec_mul_fx(t1, u), 2_000_000));
    let t3 = spec_neg_fx(spec_div_fx(spec_mul_fx(t2, u), 3_000_000));
    let t4 = spec_neg_fx(spec_div_fx(spec_mul_fx(t3, u), 4_000_000));
    let t5 = spec_neg_fx(spec_div_fx(spec_mul_fx(t4, u), 5_000_000));
    let t6 = spec_neg_fx(spec_div_fx(spec_mul_fx(t5, u), 6_000_000));
    let t7 = spec_neg_fx(spec_div_fx(spec_mul_fx(t6, u), 7_000_000));
    let t8 = spec_neg_fx(spec_div_fx(spec_mul_fx(t7, u), 8_000_000));
    let t9 = spec_neg_fx(spec_div_fx(spec_mul_fx(t8, u), 9_000_000));
    let t10 = spec_neg_fx(spec_div_fx(spec_mul_fx(t9, u), 10_000_000));
    let t11 = spec_neg_fx(spec_div_fx(spec_mul_fx(t10, u), 11_000_000));
    let t12 = spec_neg_fx(spec_div_fx(spec_mul_fx(t11, u), 12_000_000));
    let a1 = spec_add_fx(SCALE, t1);
    let a2 = spec_add_fx(a1, t2);
    let a3 = spec_add_fx(a2, t3);
    let a4 = spec_add_fx(a3, t4);
    let a5 = spec_add_fx(a4, t5);
    let a6 = spec_add_fx(a5, t6);
    let a7 = spec_add_fx(a6, t7);
    let a8 = spec_add_fx(a7, t8);
    let a9 = spec_add_fx(a8, t9);
    let a10 = spec_add_fx(a9, t10);
    let a11 = spec_add_fx(a10, t11);
    spec_add_fx(a11, t12)
}

/// `exp(-t)` for `t >= 0` in micro-units: scale the argument down sixteen
/// fold, evaluate the Taylor polynomial, and square four times.
#[verifier::opaque]
pub open spec fn spec_exp_neg_fx(t: i64) -> i64 {
    if t <= 0 {
        SCALE
    } else if t >= EXP_CUT_FX {
        0
    } else {
        let u = spec_div_fx(t, 16_000_000);
        let e1 = spec_exp_taylor(u);
        let e2 = spec_mul_fx(e1, e1);
        let e4 = spec_mul_fx(e2, e2);
        let e8 = spec_mul_fx(e4, e4);
        spec_mul_fx(e8, e8)
    }
}

/// Fixed-point `exp(-t)`; non-positive arguments give one, arguments past
/// `EXP_CUT_FX` give zero.
pub fn exp_neg_fx(t: i64) -> (r: i64)
    ensures
        r == spec_exp_neg_fx(t),
{
    proof {
        reveal(spec_exp_neg_fx);
    }
    if t <= 0 {
        return SCALE;
    }
    if t >= EXP_CUT_FX {
        return 0;
    }
    let u: i64 = fx_div(t, 16_000_000);
    let t1: i64 = fx_neg(u);
    let t2: i64 = fx_neg(fx_div(fx_mul(t1, u), 2_000_000));
    let t3: i64 = fx_neg(fx_div(fx_mul(t2, u), 3_000_000));
    let t4: i64 = fx_neg(fx_div(fx_mul(t3, u), 4_000_000));
    let t5: i64 = fx_neg(fx_div(fx_mul(t4, u), 5_000_000));
    let t6: i64 = fx_neg(fx_div(fx_mul(t5, u), 6_000_000));
    let t7: i64 = fx_neg(fx_div(fx_mul(t6, u), 7_000_000));
    let t8: i64 = fx_neg(fx_div(fx_mul(t7, u), 8_000_000));
    let t9: i64 = fx_neg(fx_div(fx_mul(t8, u), 9_000_000));
    let t10: i64 = fx_neg(fx_div(fx_mul(t9, u), 10_000_000));
    let t11: i64 = fx_neg(fx_div(fx_mul(t10, u), 11_000_000));
    let t12: i64 = fx_neg(fx_div(fx_mul(t11, u), 12_000_000));
    let mut acc: i64 = fx_add(SCALE, t1);
    acc = fx_add(acc, t2);
    acc = fx_add(acc, t3);
    acc = fx_add(acc, t4);
    acc = fx_add(acc, t5);
    acc = fx_add(acc, t6);
    acc = fx_add(acc, t7);
    acc = fx_add(acc, t8);
    acc = fx_add(acc, t9);
    acc = fx_add(acc, t10);
    acc = fx_add(acc, t11);
    acc = fx_add(acc, t12);
    let e2: i64 = fx_mul(acc, acc);
    let e4: i64 = fx_mul(e2, e2);
    let e8: i64 = fx_mul(e4, e4);
    fx_mul(e8, e8)
}

/// Every clamped value lies in the representable range.
pub proof fn lemma_clamp_range(v: int)
    ensures
        FX_SAT_NEG <= fx_clamp(v) <= FX_SAT,
{
}

/// Truncating division of non-negative values is non-negative.
pub proof fn lemma_div_trunc_nonneg(a: int, b: int)
    requires
        a >= 0,
        b >= 0,
    ensures
        div_trunc(a, b) >= 0,
{
    if b != 0 {
        vstd::arithmetic::div_mod::lemma_div_pos_is_pos(a, b);
    }
}

/// The product of non-negative values is non-negative in fixed point.
pub proof fn lemma_mul_fx_nonneg(a: i64, b: i64)
    requires
        a >= 0,
        b >= 0,
    ensures
        spec_mul_fx(a, b) >= 0,
{
    assert(a as int * b as int >= 0) by (nonlinear_arith)
        requires
            a as int >= 0,
            b as int >= 0,
    ;
    lemma_div_trunc_nonneg(a as int * b as int, SCALE as int);
}

/// A fixed-point square is non-negative.
pub proof fn lemma_square_fx_nonneg(a: i64)
    ensures
        spec_mul_fx(a, a) >= 0,
{
    assert(a as int * a as int >= 0) by (nonlinear_arith);
    lemma_div_trunc_nonneg(a as int * a as int, SCALE as int);
}

/// The quotient of non-negative values is non-negative in fixed point.
pub proof fn lemma_div_fx_nonneg(a: i64, b: i64)
    requires
        a >= 0,
        b >= 0,
    ensures
        spec_div_fx(a, b) >= 0,
{
    assert(a as int * SCALE as int >= 0) by (nonlinear_arith)
        requires
            a as int >= 0,
    ;
    lemma_div_trunc_nonneg(a as int * SCALE as int, b as int);
}

/// The sum of non-negative values is non-negative in fixed point.
pub proof fn lemma_add_fx_nonneg(a: i64, b: i64)
    requires
        a >= 0,
        b >= 0,
    ensures
        spec_add_fx(a, b) >= 0,
{
}

} // verus!
