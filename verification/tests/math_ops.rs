use raymarch::fixed::{FX_ONE, FX_TWO};
use raymarch::math::{Mat3, Vector2, Vector3};

fn fx(v: i64) -> i64 {
    v * FX_ONE
}

#[test]
fn vector_add_sub_scale() {
    let a = Vector3(fx(1), fx(2), fx(3));
    let b = Vector3(fx(4), fx(-5), fx(6));
    assert_eq!(a.add(b), Vector3(fx(5), fx(-3), fx(9)));
    assert_eq!(a.sub(b), Vector3(fx(-3), fx(7), fx(-3)));
    assert_eq!(a.mul(FX_TWO), Vector3(fx(2), fx(4), fx(6)));
}

#[test]
fn vector_dot_and_magnitude() {
    let a = Vector3(fx(3), fx(4), 0);
    assert_eq!(a.dot(a), fx(25));
    assert_eq!(a.absp2(), fx(25));
    assert_eq!(a.abs(), fx(5));
}

#[test]
fn vector_normalised_three_four_five() {
    let a = Vector3(fx(3), fx(4), 0);
    // 0.6 and 0.8 in fixed point, truncated.
    assert_eq!(a.normalised(), Vector3(39321, 52428, 0));
}

#[test]
fn vector_normalised_axis_is_exact() {
    let a = Vector3(0, fx(2), 0);
    assert_eq!(a.normalised(), Vector3(0, FX_ONE, 0));
}

#[test]
fn matrix_identity_mul() {
    let id = Mat3 {
        m00: FX_ONE,
        m01: 0,
        m02: 0,
        m10: 0,
        m11: FX_ONE,
        m12: 0,
        m20: 0,
        m21: 0,
        m22: FX_ONE,
    };
    let m = Mat3 {
        m00: fx(1),
        m01: fx(2),
        m02: fx(3),
        m10: fx(4),
        m11: fx(5),
        m12: fx(6),
        m20: fx(7),
        m21: fx(8),
        m22: fx(9),
    };
    assert_eq!(id.mul(m), m);
    assert_eq!(m.mul(id), m);
}

#[test]
fn matrix_vector_product_uses_each_row() {
    let m = Mat3 {
        m00: fx(1),
        m01: fx(2),
        m02: fx(3),
        m10: fx(4),
        m11: fx(5),
        m12: fx(6),
        m20: fx(7),
        m21: fx(8),
        m22: fx(9),
    };
    let v = Vector3(fx(1), fx(1), fx(1));
    // Each component is the full dot product of the matching row, the
    // third row included.
    assert_eq!(m.mul_vec(v), Vector3(fx(6), fx(15), fx(24)));
}

#[test]
fn vector2_holds_its_components() {
    let v = Vector2(fx(1), fx(-2));
    assert_eq!(v.0, fx(1));
    assert_eq!(v.1, fx(-2));
}
