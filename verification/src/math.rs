//! Three-dimensional vector and matrix arithmetic over fixed-point scalars.
//!
//! Each executable type has a ghost counterpart over unbounded integers
//! (`V3`, `M3`) reached through `@`, and every operation's result is pinned
//! by a spec-level function on that model.

use vstd::prelude::*;

use crate::fixed::{
    fx_add, fx_div, fx_mul, fx_sqrt, fx_sub, lemma_fx_square_nonneg, spec_add, spec_div, spec_mul,
    spec_sqrt, spec_sub, FX_MAX,
};

verus! {

/// A pair of fixed-point scalars.
#[derive(Clone, Copy, Debug, PartialEq, Eq, Structural)]
pub struct Vector2(pub i64, pub i64);

/// An ordered triple of fixed-point scalars: a position, direction or delta.
#[derive(Clone, Copy, Debug, PartialEq, Eq, Structural)]
pub struct Vector3(pub i64, pub i64, pub i64);

/// A 3x3 matrix of fixed-point scalars, used to build per-pixel rotations.
#[derive(Clone, Copy, Debug, PartialEq, Eq, Structural)]
pub struct Mat3 {
    pub m00: i64,
    pub m01: i64,
    pub m02: i64,
    pub m10: i64,
    pub m11: i64,
    pub m12: i64,
    pub m20: i64,
    pub m21: i64,
    pub m22: i64,
}

/// The mathematical model of a `Vector3`.
pub ghost struct V3 {
    pub x: int,
    pub y: int,
    pub z: int,
}

/// The mathematical model of a `Mat3`.
pub ghost struct M3 {
    pub m00: int,
    pub m01: int,
    pub m02: int,
    pub m10: int,
    pub m11: int,
    pub m12: int,
    pub m20: int,
    pub m21: int,
    pub m22: int,
}

impl View for Vector3 {
    type V = V3;

    open spec fn view(&self) -> V3 {
        V3 { x: self.0 as int, y: self.1 as int, z: self.2 as int }
    }
}

impl View for Mat3 {
    type V = M3;

    open spec fn view(&self) -> M3 {
        M3 {
            m00: self.m00 as int,
            m01: self.m01 as int,
            m02: self.m02 as int,
            m10: self.m10 as int,
            m11: self.m11 as int,
            m12: self.m12 as int,
            m20: self.m20 as int,
            m21: self.m21 as int,
            m22: self.m22 as int,
        }
    }
}

/// Componentwise vector sum.
pub open spec fn v_add(a: V3, b: V3) -> V3 {
    V3 { x: spec_add(a.x, b.x), y: spec_add(a.y, b.y), z: spec_add(a.z, b.z) }
}

/// Componentwise vector difference.
pub open spec fn v_sub(a: V3, b: V3) -> V3 {
    V3 { x: spec_sub(a.x, b.x), y: spec_sub(a.y, b.y), z: spec_sub(a.z, b.z) }
}

/// Vector scaled by a fixed-point scalar.
pub open spec fn v_scale(a: V3, k: int) -> V3 {
    V3 { x: spec_mul(a.x, k), y: spec_mul(a.y, k), z: spec_mul(a.z, k) }
}

/// Dot product over fixed-point operations.
pub open spec fn v_dot(a: V3, b: V3) -> int {
    spec_add(spec_add(spec_mul(a.x, b.x), spec_mul(a.y, b.y)), spec_mul(a.z, b.z))
}

/// Squared magnitude: the dot product of a vector with itself.
pub open spec fn v_absp2(a: V3) -> int {
    v_dot(a, a)
}

/// Magnitude: the fixed-point square root of the squared magnitude.
pub open spec fn v_abs(a: V3) -> int {
    spec_sqrt(v_absp2(a))
}

/// The vector rescaled to unit magnitude (meaningful when the magnitude is
/// nonzero; the executable counterpart requires that).
pub open spec fn v_normalised(a: V3) -> V3 {
    let m = v_abs(a);
    V3 { x: spec_div(a.x, m), y: spec_div(a.y, m), z: spec_div(a.z, m) }
}

/// A squared magnitude is nonnegative (and within the saturation bound).
pub proof fn lemma_absp2_nonneg(a: V3)
    ensures
        0 <= v_absp2(a) <= FX_MAX,
{
    lemma_fx_square_nonneg(a.x);
    lemma_fx_square_nonneg(a.y);
    lemma_fx_square_nonneg(a.z);
}

impl Vector3 {
    /// Componentwise vector sum.
    pub fn add(self, other: Vector3) -> (r: Vector3)
        ensures
            r@ == v_add(self@, other@),
    {
        Vector3(fx_add(self.0, other.0), fx_add(self.1, other.1), fx_add(self.2, other.2))
    }

    /// Componentwise vector difference.
    pub fn sub(self, other: Vector3) -> (r: Vector3)
        ensures
            r@ == v_sub(self@, other@),
    {
        Vector3(fx_sub(self.0, other.0), fx_sub(self.1, other.1), fx_sub(self.2, other.2))
    }

    /// The vector scaled by a fixed-point scalar.
    pub fn mul(self, k: i64) -> (r: Vector3)
        ensures
            r@ == v_scale(self@, k as int),
    {
        Vector3(fx_mul(self.0, k), fx_mul(self.1, k), fx_mul(self.2, k))
    }

    /// Dot product.
    pub fn dot(self, other: Vector3) -> (r: i64)
        ensures
            r as int == v_dot(self@, other@),
    {
        fx_add(fx_add(fx_mul(self.0, other.0), fx_mul(self.1, other.1)), fx_mul(self.2, other.2))
    }

    /// Squared magnitude.
    pub fn absp2(self) -> (r: i64)
        ensures
            r as int == v_absp2(self@),
            0 <= r <= FX_MAX,
    {
        proof {
            lemma_absp2_nonneg(self@);
        }
        self.dot(self)
    }

    /// Magnitude.
    pub fn abs(self) -> (r: i64)
        ensures
            r as int == v_abs(self@),
            0 <= r <= FX_MAX,
    {
        let p2 = self.absp2();
        fx_sqrt(p2)
    }

    /// The vector rescaled to unit magnitude. The squared magnitude must be
    /// nonzero, or the rescaling would be undefined.
    pub fn normalised(self) -> (r: Vector3)
        requires
            v_absp2(self@) != 0,
        ensures
            r@ == v_normalised(self@),
    {
        let m = self.abs();
        proof {
            lemma_absp2_nonneg(self@);
            let n = v_absp2(self@) * (crate::fixed::FX_ONE as int);
            crate::fixed::lemma_isqrt_exists(n);
            assert(crate::fixed::is_isqrt(n, v_abs(self@)));
            assert(n >= crate::fixed::FX_ONE as int);
            if v_abs(self@) == 0 {
                assert(n < (0 + 1) * (0 + 1));
                assert(false);
            }
        }
        Vector3(fx_div(self.0, m), fx_div(self.1, m), fx_div(self.2, m))
    }
}

/// Matrix product by row-times-column dot products.
pub open spec fn m3_mul(a: M3, b: M3) -> M3 {
    M3 {
        m00: spec_add(spec_add(spec_mul(a.m00, b.m00), spec_mul(a.m01, b.m10)), spec_mul(a.m02, b.m20)),
        m01: spec_add(spec_add(spec_mul(a.m00, b.m01), spec_mul(a.m01, b.m11)), spec_mul(a.m02, b.m21)),
        m02: spec_add(spec_add(spec_mul(a.m00, b.m02), spec_mul(a.m01, b.m12)), spec_mul(a.m02, b.m22)),
        m10: spec_add(spec_add(spec_mul(a.m10, b.m00), spec_mul(a.m11, b.m10)), spec_mul(a.m12, b.m20)),
        m11: spec_add(spec_add(spec_mul(a.m10, b.m01), spec_mul(a.m11, b.m11)), spec_mul(a.m12, b.m21)),
        m12: spec_add(spec_add(spec_mul(a.m10, b.m02), spec_mul(a.m11, b.m12)), spec_mul(a.m12, b.m22)),
        m20: spec_add(spec_add(spec_mul(a.m20, b.m00), spec_mul(a.m21, b.m10)), spec_mul(a.m22, b.m20)),
        m21: spec_add(spec_add(spec_mul(a.m20, b.m01), spec_mul(a.m21, b.m11)), spec_mul(a.m22, b.m21)),
        m22: spec_add(spec_add(spec_mul(a.m20, b.m02), spec_mul(a.m21, b.m12)), spec_mul(a.m22, b.m22)),
    }
}

/// Matrix applied to a column vector: one row-times-vector dot product per
/// output component.
pub open spec fn m3_apply(m: M3, v: V3) -> V3 {
    V3 {
        x: spec_add(spec_add(spec_mul(m.m00, v.x), spec_mul(m.m01, v.y)), spec_mul(m.m02, v.z)),
        y: spec_add(spec_add(spec_mul(m.m10, v.x), spec_mul(m.m11, v.y)), spec_mul(m.m12, v.z)),
        z: spec_add(spec_add(spec_mul(m.m20, v.x), spec_mul(m.m21, v.y)), spec_mul(m.m22, v.z)),
    }
}

impl Mat3 {
    /// Matrix product by standard row-times-column composition.
    pub fn mul(self, other: Mat3) -> (r: Mat3)
        ensures
            r@ == m3_mul(self@, other@),
    {
        Mat3 {
            m00: fx_add(fx_add(fx_mul(self.m00, other.m00), fx_mul(self.m01, other.m10)), fx_mul(self.m02, other.m20)),
            m01: fx_add(fx_add(fx_mul(self.m00, other.m01), fx_mul(self.m01, other.m11)), fx_mul(self.m02, other.m21)),
            m02: fx_add(fx_add(fx_mul(self.m00, other.m02), fx_mul(self.m01, other.m12)), fx_mul(self.m02, other.m22)),
            m10: fx_add(fx_add(fx_mul(self.m10, other.m00), fx_mul(self.m11, other.m10)), fx_mul(self.m12, other.m20)),
            m11: fx_add(fx_add(fx_mul(self.m10, other.m01), fx_mul(self.m11, other.m11)), fx_mul(self.m12, other.m21)),
            m12: fx_add(fx_add(fx_mul(self.m10, other.m02), fx_mul(self.m11, other.m12)), fx_mul(self.m12, other.m22)),
            m20: fx_add(fx_add(fx_mul(self.m20, other.m00), fx_mul(self.m21, other.m10)), fx_mul(self.m22, other.m20)),
            m21: fx_add(fx_add(fx_mul(self.m20, other.m01), fx_mul(self.m21, other.m11)), fx_mul(self.m22, other.m21)),
            m22: fx_add(fx_add(fx_mul(self.m20, other.m02), fx_mul(self.m21, other.m12)), fx_mul(self.m22, other.m22)),
        }
    }

    /// The matrix applied to a column vector: each output component is the
    /// dot product of the matching row with the vector.
    pub fn mul_vec(self, v: Vector3) -> (r: Vector3)
        ensures
            r@ == m3_apply(self@, v@),
    {
        Vector3(
            fx_add(fx_add(fx_mul(self.m00, v.0), fx_mul(self.m01, v.1)), fx_mul(self.m02, v.2)),
            fx_add(fx_add(fx_mul(self.m10, v.0), fx_mul(self.m11, v.1)), fx_mul(self.m12, v.2)),
            fx_add(fx_add(fx_mul(self.m20, v.0), fx_mul(self.m21, v.1)), fx_mul(self.m22, v.2)),
        )
    }
}

} // verus!
