//! Fixed-point scalar arithmetic.
//!
//! A scalar is an `i64` raw value standing for `raw / FX_ONE`. Every
//! operation computes its exact integer result in a wide intermediate type
//! and then saturates it into the symmetric range `[-FX_MAX, FX_MAX]`, so no
//! operation can overflow or panic. Each executable operation's result is
//! pinned exactly by a spec-level counterpart over mathematical integers.

use vstd::prelude::*;

verus! {

/// The raw value standing for the scalar one; also the fixed-point scale.
pub const FX_ONE: i64 = 65536;

/// The saturation bound of every fixed-point operation (2^46 raw).
pub const FX_MAX: i64 = 0x4000_0000_0000;

/// Saturate an unbounded integer into `[-FX_MAX, FX_MAX]`.
pub open spec fn spec_clip(x: int) -> int {
    if x > FX_MAX as int {
        FX_MAX as int
    } else if x < -(FX_MAX as int) {
        -(FX_MAX as int)
    } else {
        x
    }
}

/// Integer division truncated toward zero (for a nonzero divisor).
pub open spec fn tdiv(a: int, b: int) -> int {
    if a >= 0 && b > 0 {
        a / b
    } else if a < 0 && b > 0 {
        -((-a) / b)
    } else if a >= 0 && b < 0 {
        -(a / (-b))
    } else {
        (-a) / (-b)
    }
}

/// The exact value of fixed-point addition.
pub open spec fn spec_add(a: int, b: int) -> int {
    spec_clip(a + b)
}

/// The exact value of fixed-point subtraction.
pub open spec fn spec_sub(a: int, b: int) -> int {
    spec_clip(a - b)
}

/// The exact value of fixed-point multiplication: the product rescaled by
/// `FX_ONE`, truncated toward zero, then saturated.
pub open spec fn spec_mul(a: int, b: int) -> int {
    spec_clip(tdiv(a * b, FX_ONE as int))
}

/// The exact value of fixed-point division (zero divisor yields zero so the
/// function is total at the spec level; executable division requires a
/// nonzero divisor).
pub open spec fn spec_div(a: int, b: int) -> int {
    if b == 0 {
        0
    } else {
        spec_clip(tdiv(a * (FX_ONE as int), b))
    }
}

/// Fixed-point addition, saturating at `[-FX_MAX, FX_MAX]`.
pub fn fx_add(a: i64, b: i64) -> (r: i64)
    ensures
        r as int == spec_add(a as int, b as int),
{
    let s: i128 = a as i128 + b as i128;
    if s > FX_MAX as i128 {
        FX_MAX
    } else if s < -(FX_MAX as i128) {
        -FX_MAX
    } else {
        s as i64
    }
}

/// Fixed-point subtraction, saturating at `[-FX_MAX, FX_MAX]`.
pub fn fx_sub(a: i64, b: i64) -> (r: i64)
    ensures
        r as int == spec_sub(a as int, b as int),
{
    let s: i128 = a as i128 - b as i128;
    if s > FX_MAX as i128 {
        FX_MAX
    } else if s < -(FX_MAX as i128) {
        -FX_MAX
    } else {
        s as i64
    }
}

/// The magnitude of an `i64` as a `u128`.
fn abs_u128(a: i64) -> (r: u128)
    ensures
        r as int == if a >= 0 { a as int } else { -(a as int) },
        r <= 0x8000_0000_0000_0000u128,
{
    if a >= 0 {
        a as u128
    } else {
        (-(a as i128)) as u128
    }
}

/// Saturate a nonnegative magnitude at `FX_MAX` and reapply the sign.
fn clip_signed(mag: u128, neg: bool) -> (r: i64)
    ensures
        r as int == spec_clip(if neg { -(mag as int) } else { mag as int }),
{
    let m: i64 = if mag > FX_MAX as u128 {
        FX_MAX
    } else {
        mag as i64
    };
    if neg {
        -m
    } else {
        m
    }
}

/// Fixed-point multiplication, saturating at `[-FX_MAX, FX_MAX]`.
pub fn fx_mul(a: i64, b: i64) -> (r: i64)
    ensures
        r as int == spec_mul(a as int, b as int),
{
    let am = abs_u128(a);
    let bm = abs_u128(b);
    proof {
        assert(am as int * bm as int <= 0x8000_0000_0000_0000 * 0x8000_0000_0000_0000)
            by (nonlinear_arith)
            requires
                am as int <= 0x8000_0000_0000_0000 && bm as int <= 0x8000_0000_0000_0000 && am
                    as int >= 0 && bm as int >= 0,
        ;
    }
    let q: u128 = (am * bm) / (FX_ONE as u128);
    let neg: bool = (a < 0) != (b < 0) && q != 0;
    proof {
        lemma_tdiv_signs(a as int, b as int, am as int, bm as int, FX_ONE as int);
    }
    clip_signed(q, neg)
}

/// Fixed-point division, saturating at `[-FX_MAX, FX_MAX]`.
pub fn fx_div(a: i64, b: i64) -> (r: i64)
    requires
        b != 0,
    ensures
        r as int == spec_div(a as int, b as int),
{
    let am = abs_u128(a);
    let bm = abs_u128(b);
    let q: u128 = (am * (FX_ONE as u128)) / bm;
    let neg: bool = (a < 0) != (b < 0) && q != 0;
    proof {
        lemma_tdiv_signs(a as int, FX_ONE as int, am as int, FX_ONE as int, bm as int);
        assert(a as int * (FX_ONE as int) == (if a >= 0 { am as int } else { -(am as int) }) * (
        FX_ONE as int));
    }
    clip_signed(q, neg)
}

/// `r` is the integer square root of `n`, rounded down.
pub open spec fn is_isqrt(n: int, r: int) -> bool {
    r >= 0 && r * r <= n && n < (r + 1) * (r + 1)
}

/// The integer square root of a nonnegative integer, rounded down.
pub open spec fn spec_isqrt(n: int) -> int {
    choose|r: int| is_isqrt(n, r)
}

/// Every nonnegative integer has an integer square root.
pub proof fn lemma_isqrt_exists(n: int)
    requires
        n >= 0,
    ensures
        is_isqrt(n, spec_isqrt(n)),
    decreases n,
{
    if n == 0 {
        assert(is_isqrt(0, 0));
    } else {
        lemma_isqrt_exists(n - 1);
        let r = spec_isqrt(n - 1);
        if (r + 1) * (r + 1) <= n {
            assert(is_isqrt(n, r + 1)) by (nonlinear_arith)
                requires
                    is_isqrt(n - 1, r) && (r + 1) * (r + 1) <= n,
            ;
        } else {
            assert(is_isqrt(n, r));
        }
    }
    assert(exists|r: int| is_isqrt(n, r));
}

/// The integer square root is unique, so any value meeting `is_isqrt`
/// equals `spec_isqrt`.
pub proof fn lemma_isqrt_unique(n: int, r: int)
    requires
        is_isqrt(n, r),
    ensures
        r == spec_isqrt(n),
{
    assert(is_isqrt(n, spec_isqrt(n)));
    let r2 = spec_isqrt(n);
    assert(r == r2) by (nonlinear_arith)
        requires
            is_isqrt(n, r) && is_isqrt(n, r2),
    ;
}

/// The integer square root of a `u64`, rounded down, by binary search.
pub fn isqrt_u64(n: u64) -> (r: u64)
    ensures
        is_isqrt(n as int, r as int),
        r as int == spec_isqrt(n as int),
{
    let mut lo: u64 = 0;
    let mut hi: u64 = 0x1_0000_0000;
    proof {
        assert((0x1_0000_0000 as int) * (0x1_0000_0000 as int) > n as int);
    }
    while lo + 1 < hi
        invariant
            lo < hi,
            hi <= 0x1_0000_0000,
            (lo as int) * (lo as int) <= n as int,
            (n as int) < (hi as int) * (hi as int),
        decreases hi - lo,
    {
        let mid: u64 = lo + (hi - lo) / 2;
        proof {
            assert((mid as int) * (mid as int) <= 0x1_0000_0000 * 0x1_0000_0000)
                by (nonlinear_arith)
                requires
                    0 <= mid as int <= 0x1_0000_0000,
            ;
        }
        if (mid as u128) * (mid as u128) <= n as u128 {
            lo = mid;
        } else {
            hi = mid;
        }
    }
    proof {
        lemma_isqrt_unique(n as int, lo as int);
    }
    lo
}

/// The fixed-point square root of a nonnegative scalar: the rounded-down
/// square root of the rescaled raw value.
pub open spec fn spec_sqrt(x: int) -> int {
    if x <= 0 {
        0
    } else {
        spec_isqrt(x * (FX_ONE as int))
    }
}

/// Fixed-point square root. Every saturated scalar is within range.
pub fn fx_sqrt(x: i64) -> (r: i64)
    requires
        0 <= x <= FX_MAX,
    ensures
        r as int == spec_sqrt(x as int),
        0 <= r <= FX_MAX,
{
    if x == 0 {
        0
    } else {
        let m: u64 = (x as u64) * 65536;
        let r = isqrt_u64(m);
        proof {
            assert(is_isqrt(m as int, r as int));
            assert(r as int <= FX_MAX as int) by (nonlinear_arith)
                requires
                    is_isqrt(m as int, r as int) && m as int <= 0x4000_0000_0000_0000,
            ;
        }
        r as i64
    }
}

/// The raw value standing for the scalar two.
pub const FX_TWO: i64 = 131072;

/// The raw value standing for the scalar four.
pub const FX_FOUR: i64 = 262144;

/// The angle pi in fixed point, rounded down.
pub const FX_PI: i64 = 205887;

/// The angle pi/2 in fixed point, rounded down.
pub const FX_HALF_PI: i64 = 102943;

/// The angle 2*pi in fixed point: twice `FX_PI`.
pub const FX_TWO_PI: i64 = 411774;

/// A fixed-point product of nonnegative factors is nonnegative.
pub proof fn lemma_fx_mul_nonneg(a: int, b: int)
    requires
        a >= 0,
        b >= 0,
    ensures
        spec_mul(a, b) >= 0,
{
    assert(a * b >= 0) by (nonlinear_arith)
        requires
            a >= 0 && b >= 0,
    ;
    vstd::arithmetic::div_mod::lemma_div_pos_is_pos(a * b, FX_ONE as int);
}

/// A small whole number as a fixed-point scalar.
pub open spec fn spec_from_u32(v: int) -> int {
    spec_clip(v * (FX_ONE as int))
}

/// Convert a whole number into a fixed-point scalar (saturating).
pub fn fx_from_u32(v: u32) -> (r: i64)
    ensures
        r as int == spec_from_u32(v as int),
        r >= 0,
        v >= 1 ==> r >= FX_ONE,
{
    let t: i64 = (v as i64) * 65536;
    if t > FX_MAX {
        FX_MAX
    } else {
        t
    }
}

/// Fixed-point multiplication is commutative.
pub proof fn lemma_fx_mul_comm(a: int, b: int)
    ensures
        spec_mul(a, b) == spec_mul(b, a),
{
    assert(a * b == b * a) by (nonlinear_arith);
}

/// Multiplying by a whole number held in fixed point is exact up to
/// saturation: no precision is lost in the rescaling.
pub proof fn lemma_fx_mul_whole(a: int, k: int)
    ensures
        spec_mul(a, k * (FX_ONE as int)) == spec_clip(a * k),
{
    let s = FX_ONE as int;
    let v = a * k;
    assert(a * (k * s) == v * s) by (nonlinear_arith)
        requires
            v == a * k,
    ;
    assert(v * s == s * v) by (nonlinear_arith);
    vstd::arithmetic::div_mod::lemma_div_multiples_vanish(v, s);
    if v >= 0 {
        assert(v * s >= 0) by (nonlinear_arith)
            requires
                v >= 0 && s > 0,
        ;
        assert(tdiv(v * s, s) == v);
    } else {
        assert(v * s < 0) by (nonlinear_arith)
            requires
                v < 0 && s > 0,
        ;
        assert(-(v * s) == s * (-v)) by (nonlinear_arith);
        vstd::arithmetic::div_mod::lemma_div_multiples_vanish(-v, s);
        assert(tdiv(v * s, s) == v);
    }
}

/// Multiplying by the scalar one is exact up to saturation.
pub proof fn lemma_fx_mul_one(c: int)
    requires
        -FX_MAX <= c <= FX_MAX,
    ensures
        spec_mul(FX_ONE as int, c) == c,
{
    lemma_fx_mul_comm(FX_ONE as int, c);
    assert(1 * (FX_ONE as int) == FX_ONE as int);
    lemma_fx_mul_whole(c, 1);
    assert(c * 1 == c);
}

/// A fixed-point square is nonnegative.
pub proof fn lemma_fx_square_nonneg(a: int)
    ensures
        0 <= spec_mul(a, a) <= FX_MAX,
{
    assert(a * a >= 0) by (nonlinear_arith);
    vstd::arithmetic::div_mod::lemma_div_pos_is_pos(a * a, FX_ONE as int);
}

/// An angle reduced into `[0, FX_TWO_PI)`.
pub open spec fn spec_mod_2pi(x: int) -> int {
    x % (FX_TWO_PI as int)
}

/// Reduce an angle into `[0, FX_TWO_PI)`.
fn mod_2pi(x: i64) -> (m: i64)
    ensures
        m as int == spec_mod_2pi(x as int),
        0 <= m < FX_TWO_PI,
{
    let t: u64 = FX_TWO_PI as u64;
    if x >= 0 {
        let k: u64 = (x as u64) % t;
        k as i64
    } else {
        let k: u64 = ((-(x as i128)) as u64) % t;
        proof {
            vstd::arithmetic::div_mod::lemma_fundamental_div_mod(-(x as int), t as int);
            vstd::arithmetic::div_mod::lemma_fundamental_div_mod(x as int, t as int);
        }
        if k == 0 {
            0
        } else {
            (t - k) as i64
        }
    }
}

/// The sine polynomial `u - u^3/6 + u^5/120 - u^7/5040` over fixed-point
/// operations, for `u` in the first quadrant.
pub open spec fn spec_sin_poly(u: int) -> int {
    let u2 = spec_mul(u, u);
    let u3 = spec_mul(u2, u);
    let u5 = spec_mul(u3, u2);
    let u7 = spec_mul(u5, u2);
    spec_sub(spec_add(u, u5 / 120), spec_add(u3 / 6, u7 / 5040))
}

/// The cosine polynomial `1 - u^2/2 + u^4/24 - u^6/720` over fixed-point
/// operations, for `u` in the first quadrant.
pub open spec fn spec_cos_poly(u: int) -> int {
    let u2 = spec_mul(u, u);
    let u4 = spec_mul(u2, u2);
    let u6 = spec_mul(u4, u2);
    spec_sub(spec_add(FX_ONE as int, u4 / 24), spec_add(u2 / 2, u6 / 720))
}

fn sin_poly(u: i64) -> (r: i64)
    requires
        0 <= u <= FX_HALF_PI + 2,
    ensures
        r as int == spec_sin_poly(u as int),
        -FX_MAX <= r <= FX_MAX,
{
    let u2 = fx_mul(u, u);
    let u3 = fx_mul(u2, u);
    let u5 = fx_mul(u3, u2);
    let u7 = fx_mul(u5, u2);
    proof {
        lemma_fx_mul_nonneg(u as int, u as int);
        lemma_fx_mul_nonneg(u2 as int, u as int);
        lemma_fx_mul_nonneg(u3 as int, u2 as int);
        lemma_fx_mul_nonneg(u5 as int, u2 as int);
    }
    let t3: i64 = ((u3 as u64) / 6) as i64;
    let t5: i64 = ((u5 as u64) / 120) as i64;
    let t7: i64 = ((u7 as u64) / 5040) as i64;
    fx_sub(fx_add(u, t5), fx_add(t3, t7))
}

fn cos_poly(u: i64) -> (r: i64)
    requires
        0 <= u <= FX_HALF_PI + 2,
    ensures
        r as int == spec_cos_poly(u as int),
        -FX_MAX <= r <= FX_MAX,
{
    let u2 = fx_mul(u, u);
    let u4 = fx_mul(u2, u2);
    let u6 = fx_mul(u4, u2);
    proof {
        lemma_fx_mul_nonneg(u as int, u as int);
        lemma_fx_mul_nonneg(u2 as int, u2 as int);
        lemma_fx_mul_nonneg(u4 as int, u2 as int);
    }
    let t2: i64 = ((u2 as u64) / 2) as i64;
    let t4: i64 = ((u4 as u64) / 24) as i64;
    let t6: i64 = ((u6 as u64) / 720) as i64;
    fx_sub(fx_add(FX_ONE, t4), fx_add(t2, t6))
}

/// Fixed-point sine: quadrant reduction into the sine polynomial.
pub open spec fn spec_sin(x: int) -> int {
    let m = spec_mod_2pi(x);
    if m < FX_HALF_PI as int {
        spec_sin_poly(m)
    } else if m < FX_PI as int {
        spec_sin_poly(FX_PI as int - m)
    } else if m < FX_PI as int + FX_HALF_PI as int {
        -spec_sin_poly(m - FX_PI as int)
    } else {
        -spec_sin_poly(FX_TWO_PI as int - m)
    }
}

/// Fixed-point cosine: quadrant reduction into the cosine polynomial.
pub open spec fn spec_cos(x: int) -> int {
    let m = spec_mod_2pi(x);
    if m < FX_HALF_PI as int {
        spec_cos_poly(m)
    } else if m < FX_PI as int {
        -spec_cos_poly(FX_PI as int - m)
    } else if m < FX_PI as int + FX_HALF_PI as int {
        -spec_cos_poly(m - FX_PI as int)
    } else {
        spec_cos_poly(FX_TWO_PI as int - m)
    }
}

/// Fixed-point sine of any angle.
pub fn fx_sin(x: i64) -> (r: i64)
    ensures
        r as int == spec_sin(x as int),
        -FX_MAX <= r <= FX_MAX,
{
    let m = mod_2pi(x);
    if m < FX_HALF_PI {
        sin_poly(m)
    } else if m < FX_PI {
        sin_poly(FX_PI - m)
    } else if m < FX_PI + FX_HALF_PI {
        let p = sin_poly(m - FX_PI);
        -p
    } else {
        let p = sin_poly(FX_TWO_PI - m);
        -p
    }
}

/// Fixed-point cosine of any angle.
pub fn fx_cos(x: i64) -> (r: i64)
    ensures
        r as int == spec_cos(x as int),
        -FX_MAX <= r <= FX_MAX,
{
    let m = mod_2pi(x);
    if m < FX_HALF_PI {
        cos_poly(m)
    } else if m < FX_PI {
        let p = cos_poly(FX_PI - m);
        -p
    } else if m < FX_PI + FX_HALF_PI {
        let p = cos_poly(m - FX_PI);
        -p
    } else {
        cos_poly(FX_TWO_PI - m)
    }
}

/// Truncated division of a product relates to the division of magnitudes:
/// `tdiv(a * b, d)` is the magnitude quotient `(am * bm) / d` with the sign
/// of `a * b` reapplied.
proof fn lemma_tdiv_signs(a: int, b: int, am: int, bm: int, d: int)
    requires
        am == if a >= 0 { a } else { -a },
        bm == if b >= 0 { b } else { -b },
        d > 0,
    ensures
        tdiv(a * b, d) == if (a < 0) != (b < 0) { -((am * bm) / d) } else { (am * bm) / d },
{
    assert(a * b == if (a < 0) != (b < 0) { -(am * bm) } else { am * bm }) by (nonlinear_arith)
        requires
            am == if a >= 0 { a } else { -a },
            bm == if b >= 0 { b } else { -b },
    ;
    assert(am * bm >= 0) by (nonlinear_arith)
        requires
            am >= 0 && bm >= 0,
    ;
}

} // verus!
