//! Quaternion attitudes on the fixed-point scale.
//!
//! A rotation is carried as four components in millionths ([`crate::fixed::MICRO`]
//! parts make 1), so a unit attitude has squared norm close to
//! `MICRO * MICRO`.  Rotating a vector applies the rotation polynomial of
//! the quaternion sandwich `q * v * conj(q)` in exact integer arithmetic
//! and divides the result back down by `MICRO * MICRO`, rounding each
//! coordinate once.

use vstd::prelude::*;
use crate::fixed::{
    abs, lemma_abs_mul, lemma_round_div_bound, lemma_round_div_close, round_div, round_div_i128,
    MICRO, MICRO_SQ,
};
use crate::vec3::{Vec3, Vec3i, vec3i_within};

verus! {

/// Largest magnitude a component of an attitude quaternion may have:
/// twice the fixed-point unit, ample room for any unit quaternion.
pub const QUAT_COMPONENT_MAX: i64 = 2_000_000;

/// Largest coordinate magnitude [`Quat::rotate`] accepts.
pub const ROTATE_COORD_MAX: i64 = 10_000_000_000_000_000;

/// Mathematical model of a [`Quat`]: unbounded integer components on
/// the millionths scale.
pub ghost struct Quati {
    pub w: int,
    pub x: int,
    pub y: int,
    pub z: int,
}

/// Every component within `b` in magnitude.
pub open spec fn quati_within(q: Quati, b: int) -> bool {
    abs(q.w) <= b && abs(q.x) <= b && abs(q.y) <= b && abs(q.z) <= b
}

/// Conjugate: the vector part negated.  For a unit attitude this is the
/// inverse rotation.
pub open spec fn qconj(q: Quati) -> Quati {
    Quati { w: q.w, x: -q.x, y: -q.y, z: -q.z }
}

/// Squared norm.
pub open spec fn qnorm2(q: Quati) -> int {
    q.w * q.w + q.x * q.x + q.y * q.y + q.z * q.z
}

/// The exact (undivided) result of the quaternion sandwich
/// `q * v * conj(q)`, written out as the rotation polynomial: the
/// rotated vector on the `MICRO * MICRO` scale when `q` is a fixed-point
/// unit quaternion.
pub open spec fn qrot_num(q: Quati, v: Vec3i) -> Vec3i {
    Vec3i {
        x: (q.w * q.w + q.x * q.x - q.y * q.y - q.z * q.z) * v.x + 2 * (q.x * q.y - q.w * q.z)
            * v.y + 2 * (q.x * q.z + q.w * q.y) * v.z,
        y: 2 * (q.x * q.y + q.w * q.z) * v.x + (q.w * q.w - q.x * q.x + q.y * q.y - q.z * q.z)
            * v.y + 2 * (q.y * q.z - q.w * q.x) * v.z,
        z: 2 * (q.x * q.z - q.w * q.y) * v.x + 2 * (q.y * q.z + q.w * q.x) * v.y + (q.w * q.w - q.x
            * q.x - q.y * q.y + q.z * q.z) * v.z,
    }
}

/// The rotation as the fixed-point code performs it: the sandwich, then
/// one rounded division per coordinate.
pub open spec fn qrot_rounded(q: Quati, v: Vec3i) -> Vec3i {
    let n = qrot_num(q, v);
    Vec3i {
        x: round_div(n.x, MICRO_SQ as int),
        y: round_div(n.y, MICRO_SQ as int),
        z: round_div(n.z, MICRO_SQ as int),
    }
}

/// Rotating by `q` and then by its conjugate reproduces the vector,
/// scaled by the squared norm of `q` once per pass: on the ideal
/// (undivided) level, the composition is multiplication by
/// `|q|^2 * |q|^2`.  For a unit attitude each pass's scale is exactly
/// the fixed-point unit the code divides back out, so the round trip is
/// the identity up to one rounding step per pass.
pub proof fn lemma_rotation_roundtrip(q: Quati, v: Vec3i)
    ensures
        qrot_num(qconj(q), qrot_num(q, v)).x == qnorm2(q) * qnorm2(q) * v.x,
        qrot_num(qconj(q), qrot_num(q, v)).y == qnorm2(q) * qnorm2(q) * v.y,
        qrot_num(qconj(q), qrot_num(q, v)).z == qnorm2(q) * qnorm2(q) * v.z,
{
    let r1 = qrot_num(q, v);
    let r2 = qrot_num(qconj(q), r1);
    let n = qnorm2(q);
    let m00 = q.w * q.w + q.x * q.x - q.y * q.y - q.z * q.z;
    let m01 = 2 * (q.x * q.y - q.w * q.z);
    let m02 = 2 * (q.x * q.z + q.w * q.y);
    let m10 = 2 * (q.x * q.y + q.w * q.z);
    let m11 = q.w * q.w - q.x * q.x + q.y * q.y - q.z * q.z;
    let m12 = 2 * (q.y * q.z - q.w * q.x);
    let m20 = 2 * (q.x * q.z - q.w * q.y);
    let m21 = 2 * (q.y * q.z + q.w * q.x);
    let m22 = q.w * q.w - q.x * q.x - q.y * q.y + q.z * q.z;
    // The rotation polynomial of the conjugate is the transpose of the
    // rotation polynomial of `q`: flatten the products of negated
    // components.
    assert(r2.x == (q.w * q.w + q.x * q.x - q.y * q.y - q.z * q.z) * r1.x + 2 * (q.x * q.y + q.w
        * q.z) * r1.y + 2 * (q.x * q.z - q.w * q.y) * r1.z) by (nonlinear_arith)
        requires
            r2.x == (q.w * q.w + (-q.x) * (-q.x) - (-q.y) * (-q.y) - (-q.z) * (-q.z)) * r1.x + 2 * (
            (-q.x) * (-q.y) - q.w * (-q.z)) * r1.y + 2 * ((-q.x) * (-q.z) + q.w * (-q.y)) * r1.z,
    ;
    assert(r2.x == m00 * r1.x + m10 * r1.y + m20 * r1.z);
    assert(r2.y == 2 * (q.x * q.y - q.w * q.z) * r1.x + (q.w * q.w - q.x * q.x + q.y * q.y - q.z
        * q.z) * r1.y + 2 * (q.y * q.z + q.w * q.x) * r1.z) by (nonlinear_arith)
        requires
            r2.y == 2 * ((-q.x) * (-q.y) + q.w * (-q.z)) * r1.x + (q.w * q.w - (-q.x) * (-q.x) + (
            -q.y) * (-q.y) - (-q.z) * (-q.z)) * r1.y + 2 * ((-q.y) * (-q.z) - q.w * (-q.x)) * r1.z,
    ;
    assert(r2.y == m01 * r1.x + m11 * r1.y + m21 * r1.z);
    assert(r2.z == 2 * (q.x * q.z + q.w * q.y) * r1.x + 2 * (q.y * q.z - q.w * q.x) * r1.y + (q.w
        * q.w - q.x * q.x - q.y * q.y + q.z * q.z) * r1.z) by (nonlinear_arith)
        requires
            r2.z == 2 * ((-q.x) * (-q.z) - q.w * (-q.y)) * r1.x + 2 * ((-q.y) * (-q.z) + q.w * (
            -q.x)) * r1.y + (q.w * q.w - (-q.x) * (-q.x) - (-q.y) * (-q.y) + (-q.z) * (-q.z))
                * r1.z,
    ;
    assert(r2.z == m02 * r1.x + m12 * r1.y + m22 * r1.z);
    lemma_rotation_matrix_columns(q.w, q.x, q.y, q.z);
    assert(r1.x == m00 * v.x + m01 * v.y + m02 * v.z);
    assert(r1.y == m10 * v.x + m11 * v.y + m12 * v.z);
    assert(r1.z == m20 * v.x + m21 * v.y + m22 * v.z);
    // Distribute each row over the first rotation and regroup by the
    // coordinates of `v`: the diagonal coefficients are the column
    // norms, the others the vanishing column products.
    lemma_dist3(m00, m00 * v.x, m01 * v.y, m02 * v.z);
    lemma_dist3(m10, m10 * v.x, m11 * v.y, m12 * v.z);
    lemma_dist3(m20, m20 * v.x, m21 * v.y, m22 * v.z);
    lemma_dist3(m01, m00 * v.x, m01 * v.y, m02 * v.z);
    lemma_dist3(m11, m10 * v.x, m11 * v.y, m12 * v.z);
    lemma_dist3(m21, m20 * v.x, m21 * v.y, m22 * v.z);
    lemma_dist3(m02, m00 * v.x, m01 * v.y, m02 * v.z);
    lemma_dist3(m12, m10 * v.x, m11 * v.y, m12 * v.z);
    lemma_dist3(m22, m20 * v.x, m21 * v.y, m22 * v.z);
    vstd::arithmetic::mul::lemma_mul_is_associative(m00, m00, v.x);
    vstd::arithmetic::mul::lemma_mul_is_associative(m00, m01, v.y);
    vstd::arithmetic::mul::lemma_mul_is_associative(m00, m02, v.z);
    vstd::arithmetic::mul::lemma_mul_is_associative(m10, m10, v.x);
    vstd::arithmetic::mul::lemma_mul_is_associative(m10, m11, v.y);
    vstd::arithmetic::mul::lemma_mul_is_associative(m10, m12, v.z);
    vstd::arithmetic::mul::lemma_mul_is_associative(m20, m20, v.x);
    vstd::arithmetic::mul::lemma_mul_is_associative(m20, m21, v.y);
    vstd::arithmetic::mul::lemma_mul_is_associative(m20, m22, v.z);
    vstd::arithmetic::mul::lemma_mul_is_associative(m01, m00, v.x);
    vstd::arithmetic::mul::lemma_mul_is_associative(m01, m01, v.y);
    vstd::arithmetic::mul::lemma_mul_is_associative(m01, m02, v.z);
    vstd::arithmetic::mul::lemma_mul_is_associative(m11, m10, v.x);
    vstd::arithmetic::mul::lemma_mul_is_associative(m11, m11, v.y);
    vstd::arithmetic::mul::lemma_mul_is_associative(m11, m12, v.z);
    vstd::arithmetic::mul::lemma_mul_is_associative(m21, m20, v.x);
    vstd::arithmetic::mul::lemma_mul_is_associative(m21, m21, v.y);
    vstd::arithmetic::mul::lemma_mul_is_associative(m21, m22, v.z);
    vstd::arithmetic::mul::lemma_mul_is_associative(m02, m00, v.x);
    vstd::arithmetic::mul::lemma_mul_is_associative(m02, m01, v.y);
    vstd::arithmetic::mul::lemma_mul_is_associative(m02, m02, v.z);
    vstd::arithmetic::mul::lemma_mul_is_associative(m12, m10, v.x);
    vstd::arithmetic::mul::lemma_mul_is_associative(m12, m11, v.y);
    vstd::arithmetic::mul::lemma_mul_is_associative(m12, m12, v.z);
    vstd::arithmetic::mul::lemma_mul_is_associative(m22, m20, v.x);
    vstd::arithmetic::mul::lemma_mul_is_associative(m22, m21, v.y);
    vstd::arithmetic::mul::lemma_mul_is_associative(m22, m22, v.z);
    vstd::arithmetic::mul::lemma_mul_is_commutative(m01, m00);
    vstd::arithmetic::mul::lemma_mul_is_commutative(m11, m10);
    vstd::arithmetic::mul::lemma_mul_is_commutative(m21, m20);
    vstd::arithmetic::mul::lemma_mul_is_commutative(m02, m00);
    vstd::arithmetic::mul::lemma_mul_is_commutative(m12, m10);
    vstd::arithmetic::mul::lemma_mul_is_commutative(m22, m20);
    vstd::arithmetic::mul::lemma_mul_is_commutative(m02, m01);
    vstd::arithmetic::mul::lemma_mul_is_commutative(m12, m11);
    vstd::arithmetic::mul::lemma_mul_is_commutative(m22, m21);
    lemma_dist3r(m00 * m00, m10 * m10, m20 * m20, v.x);
    lemma_dist3r(m00 * m01, m10 * m11, m20 * m21, v.y);
    lemma_dist3r(m00 * m02, m10 * m12, m20 * m22, v.z);
    lemma_dist3r(m00 * m01, m10 * m11, m20 * m21, v.x);
    lemma_dist3r(m01 * m01, m11 * m11, m21 * m21, v.y);
    lemma_dist3r(m01 * m02, m11 * m12, m21 * m22, v.z);
    lemma_dist3r(m00 * m02, m10 * m12, m20 * m22, v.x);
    lemma_dist3r(m01 * m02, m11 * m12, m21 * m22, v.y);
    lemma_dist3r(m02 * m02, m12 * m12, m22 * m22, v.z);
    assert(r2.x == n * n * v.x);
    assert(r2.y == n * n * v.y);
    assert(r2.z == n * n * v.z);
}

/// Round-trip idempotence of the rounded rotation, as
/// [`crate::sky::Sky::with_attitude`] performs it: applying an attitude
/// and then its conjugate ([`Quat::conjugate`]) reproduces every
/// coordinate up to two fixed-point steps, plus a term proportional to
/// how far the attitude's squared norm lies from the fixed-point unit.
/// For a unit attitude stored in millionths (`eps` on the order of
/// `MICRO`) and star coordinates of a few units, the slack is a few
/// millionths of a unit.
pub proof fn lemma_rotation_roundtrip_rounded(q: Quati, v: Vec3i, bound: int, eps: int)
    requires
        quati_within(q, 2 * (MICRO as int)),
        vec3i_within(v, bound),
        0 <= bound,
        abs(qnorm2(q) - (MICRO_SQ as int)) <= eps,
        0 <= eps <= MICRO_SQ as int,
    ensures
        ({
            let r2 = qrot_rounded(qconj(q), qrot_rounded(q, v));
            let scale = (MICRO_SQ as int) * (MICRO_SQ as int);
            let slack = 2 * scale + 3 * ((eps * (MICRO_SQ as int)) * (bound + 1));
            &&& abs(scale * (r2.x - v.x)) <= slack
            &&& abs(scale * (r2.y - v.y)) <= slack
            &&& abs(scale * (r2.z - v.z)) <= slack
        }),
{
    let s2 = MICRO_SQ as int;
    let n = qnorm2(q);
    let n1 = qrot_num(q, v);
    let r1 = qrot_rounded(q, v);
    let n2 = qrot_num(qconj(q), r1);
    let r2 = qrot_rounded(qconj(q), r1);
    let m00 = q.w * q.w + q.x * q.x - q.y * q.y - q.z * q.z;
    let m01 = 2 * (q.x * q.y - q.w * q.z);
    let m02 = 2 * (q.x * q.z + q.w * q.y);
    let m10 = 2 * (q.x * q.y + q.w * q.z);
    let m11 = q.w * q.w - q.x * q.x + q.y * q.y - q.z * q.z;
    let m12 = 2 * (q.y * q.z - q.w * q.x);
    let m20 = 2 * (q.x * q.z - q.w * q.y);
    let m21 = 2 * (q.y * q.z + q.w * q.x);
    let m22 = q.w * q.w - q.x * q.x - q.y * q.y + q.z * q.z;
    // Per-coordinate rounding errors of the two passes.
    lemma_round_div_close(n1.x, s2);
    lemma_round_div_close(n1.y, s2);
    lemma_round_div_close(n1.z, s2);
    lemma_round_div_close(n2.x, s2);
    lemma_round_div_close(n2.y, s2);
    lemma_round_div_close(n2.z, s2);
    let ex = 2 * s2 * r1.x - 2 * n1.x;
    let ey = 2 * s2 * r1.y - 2 * n1.y;
    let ez = 2 * s2 * r1.z - 2 * n1.z;
    let fx = 2 * s2 * r2.x - 2 * n2.x;
    let fy = 2 * s2 * r2.y - 2 * n2.y;
    let fz = 2 * s2 * r2.z - 2 * n2.z;
    assert(abs(ex) <= s2 && abs(ey) <= s2 && abs(ez) <= s2);
    assert(abs(fx) <= s2 && abs(fy) <= s2 && abs(fz) <= s2);
    // The conjugate's rotation polynomial is the transpose of `q`'s,
    // applied here to the rounded first pass and to the exact one.
    assert(n2.x == m00 * r1.x + m10 * r1.y + m20 * r1.z) by (nonlinear_arith)
        requires
            n2.x == (q.w * q.w + (-q.x) * (-q.x) - (-q.y) * (-q.y) - (-q.z) * (-q.z)) * r1.x + 2 * (
            (-q.x) * (-q.y) - q.w * (-q.z)) * r1.y + 2 * ((-q.x) * (-q.z) + q.w * (-q.y)) * r1.z,
            m00 == q.w * q.w + q.x * q.x - q.y * q.y - q.z * q.z,
            m10 == 2 * (q.x * q.y + q.w * q.z),
            m20 == 2 * (q.x * q.z - q.w * q.y),
    ;
    assert(n2.y == m01 * r1.x + m11 * r1.y + m21 * r1.z) by (nonlinear_arith)
        requires
            n2.y == 2 * ((-q.x) * (-q.y) + q.w * (-q.z)) * r1.x + (q.w * q.w - (-q.x) * (-q.x) + (
            -q.y) * (-q.y) - (-q.z) * (-q.z)) * r1.y + 2 * ((-q.y) * (-q.z) - q.w * (-q.x)) * r1.z,
            m01 == 2 * (q.x * q.y - q.w * q.z),
            m11 == q.w * q.w - q.x * q.x + q.y * q.y - q.z * q.z,
            m21 == 2 * (q.y * q.z + q.w * q.x),
    ;
    assert(n2.z == m02 * r1.x + m12 * r1.y + m22 * r1.z) by (nonlinear_arith)
        requires
            n2.z == 2 * ((-q.x) * (-q.z) - q.w * (-q.y)) * r1.x + 2 * ((-q.y) * (-q.z) + q.w * (
            -q.x)) * r1.y + (q.w * q.w - (-q.x) * (-q.x) - (-q.y) * (-q.y) + (-q.z) * (-q.z))
                * r1.z,
            m02 == 2 * (q.x * q.z + q.w * q.y),
            m12 == 2 * (q.y * q.z - q.w * q.x),
            m22 == q.w * q.w - q.x * q.x - q.y * q.y + q.z * q.z,
    ;
    let w2 = qrot_num(qconj(q), n1);
    assert(w2.x == m00 * n1.x + m10 * n1.y + m20 * n1.z) by (nonlinear_arith)
        requires
            w2.x == (q.w * q.w + (-q.x) * (-q.x) - (-q.y) * (-q.y) - (-q.z) * (-q.z)) * n1.x + 2 * (
            (-q.x) * (-q.y) - q.w * (-q.z)) * n1.y + 2 * ((-q.x) * (-q.z) + q.w * (-q.y)) * n1.z,
            m00 == q.w * q.w + q.x * q.x - q.y * q.y - q.z * q.z,
            m10 == 2 * (q.x * q.y + q.w * q.z),
            m20 == 2 * (q.x * q.z - q.w * q.y),
    ;
    assert(w2.y == m01 * n1.x + m11 * n1.y + m21 * n1.z) by (nonlinear_arith)
        requires
            w2.y == 2 * ((-q.x) * (-q.y) + q.w * (-q.z)) * n1.x + (q.w * q.w - (-q.x) * (-q.x) + (
            -q.y) * (-q.y) - (-q.z) * (-q.z)) * n1.y + 2 * ((-q.y) * (-q.z) - q.w * (-q.x)) * n1.z,
            m01 == 2 * (q.x * q.y - q.w * q.z),
            m11 == q.w * q.w - q.x * q.x + q.y * q.y - q.z * q.z,
            m21 == 2 * (q.y * q.z + q.w * q.x),
    ;
    assert(w2.z == m02 * n1.x + m12 * n1.y + m22 * n1.z) by (nonlinear_arith)
        requires
            w2.z == 2 * ((-q.x) * (-q.z) - q.w * (-q.y)) * n1.x + 2 * ((-q.y) * (-q.z) + q.w * (
            -q.x)) * n1.y + (q.w * q.w - (-q.x) * (-q.x) - (-q.y) * (-q.y) + (-q.z) * (-q.z))
                * n1.z,
            m02 == 2 * (q.x * q.z + q.w * q.y),
            m12 == 2 * (q.y * q.z - q.w * q.x),
            m22 == q.w * q.w - q.x * q.x - q.y * q.y + q.z * q.z,
    ;
    lemma_rotation_roundtrip(q, v);
    assert(w2.x == n * n * v.x && w2.y == n * n * v.y && w2.z == n * n * v.z);
    // Every entry of the rotation polynomial is bounded by the squared
    // norm.
    assert(q.w * q.w >= 0 && q.x * q.x >= 0 && q.y * q.y >= 0 && q.z * q.z >= 0) by (
    nonlinear_arith);
    assert(2 * (q.x * q.y) <= q.x * q.x + q.y * q.y && -(q.x * q.x + q.y * q.y) <= 2 * (q.x * q.y))
        by (nonlinear_arith);
    assert(2 * (q.w * q.z) <= q.w * q.w + q.z * q.z && -(q.w * q.w + q.z * q.z) <= 2 * (q.w * q.z))
        by (nonlinear_arith);
    assert(2 * (q.x * q.z) <= q.x * q.x + q.z * q.z && -(q.x * q.x + q.z * q.z) <= 2 * (q.x * q.z))
        by (nonlinear_arith);
    assert(2 * (q.w * q.y) <= q.w * q.w + q.y * q.y && -(q.w * q.w + q.y * q.y) <= 2 * (q.w * q.y))
        by (nonlinear_arith);
    assert(2 * (q.y * q.z) <= q.y * q.y + q.z * q.z && -(q.y * q.y + q.z * q.z) <= 2 * (q.y * q.z))
        by (nonlinear_arith);
    assert(2 * (q.w * q.x) <= q.w * q.w + q.x * q.x && -(q.w * q.w + q.x * q.x) <= 2 * (q.w * q.x))
        by (nonlinear_arith);
    assert(abs(m00) <= n && abs(m01) <= n && abs(m02) <= n);
    assert(abs(m10) <= n && abs(m11) <= n && abs(m12) <= n);
    assert(abs(m20) <= n && abs(m21) <= n && abs(m22) <= n);
    // The deviation of the double scale from the squared norm squared.
    let d = n * n - s2 * s2;
    assert((n - s2) * (n + s2) == n * n - s2 * s2) by (nonlinear_arith);
    lemma_abs_mul(n - s2, n + s2, eps, 2 * s2 + eps);
    assert(eps * (2 * s2 + eps) <= 3 * (eps * s2)) by (nonlinear_arith)
        requires
            0 <= eps,
            eps <= s2,
    ;
    assert(abs(d) <= 3 * (eps * s2));
    lemma_rotation_roundtrip_rounded_coord(
        s2, n, v.x, n1.x, n1.y, n1.z, r1.x, r1.y, r1.z, n2.x, r2.x, m00, m10, m20, ex, ey, ez, fx,
        d, bound, eps,
    );
    lemma_rotation_roundtrip_rounded_coord(
        s2, n, v.y, n1.x, n1.y, n1.z, r1.x, r1.y, r1.z, n2.y, r2.y, m01, m11, m21, ex, ey, ez, fy,
        d, bound, eps,
    );
    lemma_rotation_roundtrip_rounded_coord(
        s2, n, v.z, n1.x, n1.y, n1.z, r1.x, r1.y, r1.z, n2.z, r2.z, m02, m12, m22, ex, ey, ez, fz,
        d, bound, eps,
    );
}

/// One coordinate of the rounded round-trip bound: from the transpose
/// row `(ma, mb, mc)`, the rounding errors of both passes and the
/// norm's deviation, the scaled difference to the original coordinate
/// stays within the stated slack.
proof fn lemma_rotation_roundtrip_rounded_coord(
    s2: int,
    n: int,
    vc: int,
    n1x: int,
    n1y: int,
    n1z: int,
    r1x: int,
    r1y: int,
    r1z: int,
    n2c: int,
    r2c: int,
    ma: int,
    mb: int,
    mc: int,
    ex: int,
    ey: int,
    ez: int,
    fc: int,
    d: int,
    bound: int,
    eps: int,
)
    requires
        n2c == ma * r1x + mb * r1y + mc * r1z,
        ma * n1x + mb * n1y + mc * n1z == n * n * vc,
        ex == 2 * s2 * r1x - 2 * n1x,
        ey == 2 * s2 * r1y - 2 * n1y,
        ez == 2 * s2 * r1z - 2 * n1z,
        fc == 2 * s2 * r2c - 2 * n2c,
        abs(ex) <= s2,
        abs(ey) <= s2,
        abs(ez) <= s2,
        abs(fc) <= s2,
        abs(ma) <= n,
        abs(mb) <= n,
        abs(mc) <= n,
        0 <= n <= s2 + eps,
        d == n * n - s2 * s2,
        abs(d) <= 3 * (eps * s2),
        abs(vc) <= bound,
        0 <= bound,
        0 <= eps <= s2,
    ensures
        abs(s2 * s2 * (r2c - vc)) <= 2 * (s2 * s2) + 3 * ((eps * s2) * (bound + 1)),
{
    let big_e = ma * ex + mb * ey + mc * ez;
    // Push the first pass's rounding errors through the second row.
    lemma_dist3(2 * s2, ma * r1x, mb * r1y, mc * r1z);
    lemma_mul_scale(2 * s2, ma, r1x);
    lemma_mul_scale(2 * s2, mb, r1y);
    lemma_mul_scale(2 * s2, mc, r1z);
    assert(ma * (2 * s2 * r1x) == ma * (2 * n1x + ex));
    assert(mb * (2 * s2 * r1y) == mb * (2 * n1y + ey));
    assert(mc * (2 * s2 * r1z) == mc * (2 * n1z + ez));
    lemma_dist2(ma, 2 * n1x, ex);
    lemma_dist2(mb, 2 * n1y, ey);
    lemma_dist2(mc, 2 * n1z, ez);
    lemma_mul_scale(2, ma, n1x);
    lemma_mul_scale(2, mb, n1y);
    lemma_mul_scale(2, mc, n1z);
    assert(2 * s2 * n2c == 2 * (n * n * vc) + big_e);
    lemma_abs_mul(ma, ex, n, s2);
    lemma_abs_mul(mb, ey, n, s2);
    lemma_abs_mul(mc, ez, n, s2);
    assert(abs(big_e) <= 3 * (n * s2));
    // The second pass's own rounding, regrouped around the original
    // coordinate.
    assert((2 * s2) * ((2 * s2) * r2c) == (2 * s2) * (2 * n2c + fc));
    vstd::arithmetic::mul::lemma_mul_is_associative(2 * s2, 2 * s2, r2c);
    assert((2 * s2) * (2 * s2) == 4 * (s2 * s2)) by (nonlinear_arith);
    vstd::arithmetic::mul::lemma_mul_is_associative(4, s2 * s2, r2c);
    lemma_dist2(2 * s2, 2 * n2c, fc);
    lemma_mul_scale(2, 2 * s2, n2c);
    vstd::arithmetic::mul::lemma_mul_is_associative(2, s2, fc);
    lemma_mul_scale(2, s2, fc);
    assert(4 * ((s2 * s2) * r2c) == 4 * (n * n * vc) + 2 * big_e + s2 * (2 * fc));
    lemma_dist2(s2 * s2, r2c, -vc);
    vstd::arithmetic::mul::lemma_mul_unary_negation(s2 * s2, vc);
    lemma_mul_dist_sub(n * n, s2 * s2, vc);
    assert(4 * ((s2 * s2) * (r2c - vc)) == 4 * (d * vc) + 2 * big_e + s2 * (2 * fc));
    // Bound each of the three contributions.
    lemma_abs_mul(d, vc, 3 * (eps * s2), bound);
    vstd::arithmetic::mul::lemma_mul_is_associative(3, eps * s2, bound);
    vstd::arithmetic::mul::lemma_mul_inequality(n, s2 + eps, s2);
    lemma_dist3r(s2, eps, 0, s2);
    lemma_abs_mul(s2, 2 * fc, s2, 2 * s2);
    lemma_mul_scale(2, s2, s2);
    lemma_dist2(eps * s2, bound, 1);
    vstd::arithmetic::mul::lemma_mul_nonnegative(eps, s2);
    assert(abs(4 * ((s2 * s2) * (r2c - vc))) <= 8 * (s2 * s2) + 12 * ((eps * s2) * (bound + 1)));
    assert(abs(s2 * s2 * (r2c - vc)) <= 2 * (s2 * s2) + 3 * ((eps * s2) * (bound + 1)));
}


/// A constant moved across a product.
proof fn lemma_mul_scale(k: int, a: int, b: int)
    by (nonlinear_arith)
    ensures
        k * (a * b) == a * (k * b),
{
}

/// A factor distributed over a two-part sum.
proof fn lemma_dist2(u: int, p1: int, p2: int)
    by (nonlinear_arith)
    ensures
        u * (p1 + p2) == u * p1 + u * p2,
{
}

/// A difference distributed over a factor.
proof fn lemma_mul_dist_sub(a: int, c: int, u: int)
    by (nonlinear_arith)
    ensures
        (a - c) * u == a * u - c * u,
{
}

/// The product of two four-part sums, written out.
proof fn lemma_expand4(a1: int, a2: int, a3: int, a4: int, b1: int, b2: int, b3: int, b4: int)
    ensures
        (a1 + a2 + a3 + a4) * (b1 + b2 + b3 + b4) == a1 * b1 + a1 * b2 + a1 * b3 + a1 * b4 + a2 * b1
            + a2 * b2 + a2 * b3 + a2 * b4 + a3 * b1 + a3 * b2 + a3 * b3 + a3 * b4 + a4 * b1 + a4
            * b2 + a4 * b3 + a4 * b4,
{
    let u = b1 + b2 + b3 + b4;
    lemma_dist2r(a1 + a2, a3 + a4, u);
    lemma_dist2r(a1, a2, u);
    lemma_dist2r(a3, a4, u);
    lemma_dist2(a1, b1 + b2, b3 + b4);
    lemma_dist2(a1, b1, b2);
    lemma_dist2(a1, b3, b4);
    lemma_dist2(a2, b1 + b2, b3 + b4);
    lemma_dist2(a2, b1, b2);
    lemma_dist2(a2, b3, b4);
    lemma_dist2(a3, b1 + b2, b3 + b4);
    lemma_dist2(a3, b1, b2);
    lemma_dist2(a3, b3, b4);
    lemma_dist2(a4, b1 + b2, b3 + b4);
    lemma_dist2(a4, b1, b2);
    lemma_dist2(a4, b3, b4);
}

/// A two-part sum distributed over a factor.
proof fn lemma_dist2r(p1: int, p2: int, u: int)
    by (nonlinear_arith)
    ensures
        (p1 + p2) * u == p1 * u + p2 * u,
{
}

/// A factor distributed over a three-part sum.
proof fn lemma_dist3(u: int, p1: int, p2: int, p3: int)
    by (nonlinear_arith)
    ensures
        u * (p1 + p2 + p3) == u * p1 + u * p2 + u * p3,
{
}

/// A three-part sum distributed over a factor.
proof fn lemma_dist3r(p1: int, p2: int, p3: int, u: int)
    by (nonlinear_arith)
    ensures
        (p1 + p2 + p3) * u == p1 * u + p2 * u + p3 * u,
{
}


/// The nine entries of the rotation polynomial of a quaternion, read as
/// a 3x3 matrix, have columns of squared norm `|q|^2 * |q|^2` that are
/// mutually orthogonal.
proof fn lemma_rotation_matrix_columns(w: int, x: int, y: int, z: int)
    ensures
        (w * w + x * x - y * y - z * z) * (w * w + x * x - y * y - z * z) + (2 * (x * y + w * z)) *
        (2 * (x * y + w * z)) + (2 * (x * z - w * y)) * (2 * (x * z - w * y)) == (w * w + x * x + y
            * y + z * z) * (w * w + x * x + y * y + z * z),
        (2 * (x * y - w * z)) * (2 * (x * y - w * z)) + (w * w - x * x + y * y - z * z) * (w * w - x
            * x + y * y - z * z) + (2 * (y * z + w * x)) * (2 * (y * z + w * x)) == (w * w + x * x
            + y * y + z * z) * (w * w + x * x + y * y + z * z),
        (2 * (x * z + w * y)) * (2 * (x * z + w * y)) + (2 * (y * z - w * x)) * (2 * (y * z - w * x))
            + (w * w - x * x - y * y + z * z) * (w * w - x * x - y * y + z * z) == (w * w + x * x
            + y * y + z * z) * (w * w + x * x + y * y + z * z),
        (w * w + x * x - y * y - z * z) * (2 * (x * y - w * z)) + (2 * (x * y + w * z)) * (w * w - x
            * x + y * y - z * z) + (2 * (x * z - w * y)) * (2 * (y * z + w * x)) == 0,
        (w * w + x * x - y * y - z * z) * (2 * (x * z + w * y)) + (2 * (x * y + w * z)) * (2 * (y * z
            - w * x)) + (2 * (x * z - w * y)) * (w * w - x * x - y * y + z * z) == 0,
        (2 * (x * y - w * z)) * (2 * (x * z + w * y)) + (w * w - x * x + y * y - z * z) * (2 * (y * z
            - w * x)) + (2 * (y * z + w * x)) * (w * w - x * x - y * y + z * z) == 0,
{
    lemma_rot_norm_x(w, x, y, z);
    lemma_rot_norm_y(w, x, y, z);
    lemma_rot_norm_z(w, x, y, z);
    lemma_rot_mixed_xy(w, x, y, z);
    lemma_rot_mixed_xz(w, x, y, z);
    lemma_rot_mixed_yz(w, x, y, z);
}
proof fn lemma_rot_norm_x(w: int, x: int, y: int, z: int)
    ensures
        (w * w + x * x - y * y - z * z) * (w * w + x * x - y * y - z * z) + (2 * (x * y + w * z)) * (2 * (x * y + w * z)) + (2 * (x * z - w * y)) * (2 * (x * z - w * y)) == (w * w + x * x + y * y + z * z) * (w * w + x * x + y * y + z * z),
{
    let a = w * w;
    let b = x * x;
    let c = y * y;
    let d = z * z;
    let e = x * y;
    let f = w * z;
    let g = x * z;
    let h = w * y;
    let k = y * z;
    let l = w * x;
    broadcast use vstd::arithmetic::mul::lemma_mul_unary_negation;

    assert(e * e == b * c) by (nonlinear_arith)
        requires
            b == x * x,
            c == y * y,
            e == x * y,
    ;
    assert(f * f == a * d) by (nonlinear_arith)
        requires
            a == w * w,
            d == z * z,
            f == w * z,
    ;
    assert(e * f == g * h) by (nonlinear_arith)
        requires
            e == x * y,
            f == w * z,
            g == x * z,
            h == w * y,
    ;
    assert(g * g == b * d) by (nonlinear_arith)
        requires
            b == x * x,
            d == z * z,
            g == x * z,
    ;
    assert(h * h == a * c) by (nonlinear_arith)
        requires
            a == w * w,
            c == y * y,
            h == w * y,
    ;
    lemma_expand4(a, b, -c, -d, a, b, -c, -d);
    lemma_expand4(e, e, f, f, e, e, f, f);
    lemma_expand4(g, g, -h, -h, g, g, -h, -h);
    lemma_expand4(a, b, c, d, a, b, c, d);
}

proof fn lemma_rot_norm_y(w: int, x: int, y: int, z: int)
    ensures
        (2 * (x * y - w * z)) * (2 * (x * y - w * z)) + (w * w - x * x + y * y - z * z) * (w * w - x * x + y * y - z * z) + (2 * (y * z + w * x)) * (2 * (y * z + w * x)) == (w * w + x * x + y * y + z * z) * (w * w + x * x + y * y + z * z),
{
    let a = w * w;
    let b = x * x;
    let c = y * y;
    let d = z * z;
    let e = x * y;
    let f = w * z;
    let g = x * z;
    let h = w * y;
    let k = y * z;
    let l = w * x;
    broadcast use vstd::arithmetic::mul::lemma_mul_unary_negation;

    assert(e * e == b * c) by (nonlinear_arith)
        requires
            b == x * x,
            c == y * y,
            e == x * y,
    ;
    assert(f * f == a * d) by (nonlinear_arith)
        requires
            a == w * w,
            d == z * z,
            f == w * z,
    ;
    assert(k * k == c * d) by (nonlinear_arith)
        requires
            c == y * y,
            d == z * z,
            k == y * z,
    ;
    assert(l * l == a * b) by (nonlinear_arith)
        requires
            a == w * w,
            b == x * x,
            l == w * x,
    ;
    assert(k * l == e * f) by (nonlinear_arith)
        requires
            e == x * y,
            f == w * z,
            k == y * z,
            l == w * x,
    ;
    lemma_expand4(e, e, -f, -f, e, e, -f, -f);
    lemma_expand4(a, -b, c, -d, a, -b, c, -d);
    lemma_expand4(k, k, l, l, k, k, l, l);
    lemma_expand4(a, b, c, d, a, b, c, d);
}

proof fn lemma_rot_norm_z(w: int, x: int, y: int, z: int)
    ensures
        (2 * (x * z + w * y)) * (2 * (x * z + w * y)) + (2 * (y * z - w * x)) * (2 * (y * z - w * x)) + (w * w - x * x - y * y + z * z) * (w * w - x * x - y * y + z * z) == (w * w + x * x + y * y + z * z) * (w * w + x * x + y * y + z * z),
{
    let a = w * w;
    let b = x * x;
    let c = y * y;
    let d = z * z;
    let e = x * y;
    let f = w * z;
    let g = x * z;
    let h = w * y;
    let k = y * z;
    let l = w * x;
    broadcast use vstd::arithmetic::mul::lemma_mul_unary_negation;

    assert(g * g == b * d) by (nonlinear_arith)
        requires
            b == x * x,
            d == z * z,
            g == x * z,
    ;
    assert(h * h == a * c) by (nonlinear_arith)
        requires
            a == w * w,
            c == y * y,
            h == w * y,
    ;
    assert(k * k == c * d) by (nonlinear_arith)
        requires
            c == y * y,
            d == z * z,
            k == y * z,
    ;
    assert(l * l == a * b) by (nonlinear_arith)
        requires
            a == w * w,
            b == x * x,
            l == w * x,
    ;
    assert(g * h == e * f) by (nonlinear_arith)
        requires
            e == x * y,
            f == w * z,
            g == x * z,
            h == w * y,
    ;
    assert(k * l == e * f) by (nonlinear_arith)
        requires
            e == x * y,
            f == w * z,
            k == y * z,
            l == w * x,
    ;
    lemma_expand4(g, g, h, h, g, g, h, h);
    lemma_expand4(k, k, -l, -l, k, k, -l, -l);
    lemma_expand4(a, -b, -c, d, a, -b, -c, d);
    lemma_expand4(a, b, c, d, a, b, c, d);
}

#[verifier::rlimit(100)]
proof fn lemma_rot_mixed_xy(w: int, x: int, y: int, z: int)
    ensures
        (w * w + x * x - y * y - z * z) * (2 * (x * y - w * z)) + (2 * (x * y + w * z)) * (w * w - x * x + y * y - z * z) + (2 * (x * z - w * y)) * (2 * (y * z + w * x)) == 0,
{
    let a = w * w;
    let b = x * x;
    let c = y * y;
    let d = z * z;
    let e = x * y;
    let f = w * z;
    let g = x * z;
    let h = w * y;
    let k = y * z;
    let l = w * x;
    broadcast use vstd::arithmetic::mul::lemma_mul_unary_negation;

    assert(g * k == d * e) by (nonlinear_arith)
        requires
            d == z * z,
            e == x * y,
            g == x * z,
            k == y * z,
    ;
    assert(g * l == b * f) by (nonlinear_arith)
        requires
            b == x * x,
            f == w * z,
            g == x * z,
            l == w * x,
    ;
    assert(h * k == c * f) by (nonlinear_arith)
        requires
            c == y * y,
            f == w * z,
            h == w * y,
            k == y * z,
    ;
    assert(h * l == a * e) by (nonlinear_arith)
        requires
            a == w * w,
            e == x * y,
            h == w * y,
            l == w * x,
    ;
    lemma_expand4(a, b, -c, -d, e, e, -f, -f);
    lemma_expand4(e, e, f, f, a, -b, c, -d);
    lemma_expand4(g, g, -h, -h, k, k, l, l);
}

proof fn lemma_rot_mixed_xz(w: int, x: int, y: int, z: int)
    ensures
        (w * w + x * x - y * y - z * z) * (2 * (x * z + w * y)) + (2 * (x * y + w * z)) * (2 * (y * z - w * x)) + (2 * (x * z - w * y)) * (w * w - x * x - y * y + z * z) == 0,
{
    let a = w * w;
    let b = x * x;
    let c = y * y;
    let d = z * z;
    let e = x * y;
    let f = w * z;
    let g = x * z;
    let h = w * y;
    let k = y * z;
    let l = w * x;
    broadcast use vstd::arithmetic::mul::lemma_mul_unary_negation;

    assert(e * k == c * g) by (nonlinear_arith)
        requires
            c == y * y,
            e == x * y,
            g == x * z,
            k == y * z,
    ;
    assert(e * l == b * h) by (nonlinear_arith)
        requires
            b == x * x,
            e == x * y,
            h == w * y,
            l == w * x,
    ;
    assert(f * k == d * h) by (nonlinear_arith)
        requires
            d == z * z,
            f == w * z,
            h == w * y,
            k == y * z,
    ;
    assert(f * l == a * g) by (nonlinear_arith)
        requires
            a == w * w,
            f == w * z,
            g == x * z,
            l == w * x,
    ;
    lemma_expand4(a, b, -c, -d, g, g, h, h);
    lemma_expand4(e, e, f, f, k, k, -l, -l);
    lemma_expand4(g, g, -h, -h, a, -b, -c, d);
}

#[verifier::rlimit(100)]
proof fn lemma_rot_mixed_yz(w: int, x: int, y: int, z: int)
    ensures
        (2 * (x * y - w * z)) * (2 * (x * z + w * y)) + (w * w - x * x + y * y - z * z) * (2 * (y * z - w * x)) + (2 * (y * z + w * x)) * (w * w - x * x - y * y + z * z) == 0,
{
    let a = w * w;
    let b = x * x;
    let c = y * y;
    let d = z * z;
    let e = x * y;
    let f = w * z;
    let g = x * z;
    let h = w * y;
    let k = y * z;
    let l = w * x;
    broadcast use vstd::arithmetic::mul::lemma_mul_unary_negation;

    assert(e * g == b * k) by (nonlinear_arith)
        requires
            b == x * x,
            e == x * y,
            g == x * z,
            k == y * z,
    ;
    assert(e * h == c * l) by (nonlinear_arith)
        requires
            c == y * y,
            e == x * y,
            h == w * y,
            l == w * x,
    ;
    assert(f * g == d * l) by (nonlinear_arith)
        requires
            d == z * z,
            f == w * z,
            g == x * z,
            l == w * x,
    ;
    assert(f * h == a * k) by (nonlinear_arith)
        requires
            a == w * w,
            f == w * z,
            h == w * y,
            k == y * z,
    ;
    lemma_expand4(e, e, -f, -f, g, g, h, h);
    lemma_expand4(a, -b, c, -d, k, k, -l, -l);
    lemma_expand4(k, k, l, l, a, -b, -c, d);
}


/// A quaternion attitude: four fixed-point components in millionths.
#[derive(Clone, Copy, Debug, PartialEq, Eq)]
pub struct Quat {
    pub w: i64,
    pub x: i64,
    pub y: i64,
    pub z: i64,
}

impl View for Quat {
    type V = Quati;

    open spec fn view(&self) -> Quati {
        Quati { w: self.w as int, x: self.x as int, y: self.y as int, z: self.z as int }
    }
}

impl Quat {
    /// Every component within `b` in magnitude.
    pub open spec fn within(self, b: int) -> bool {
        quati_within(self@, b)
    }

    pub fn new(w: i64, x: i64, y: i64, z: i64) -> (r: Quat)
        ensures
            r@ == (Quati { w: w as int, x: x as int, y: y as int, z: z as int }),
    {
        Quat { w, x, y, z }
    }

    /// The conjugate; the inverse rotation when `self` is a unit attitude.
    pub fn conjugate(&self) -> (r: Quat)
        requires
            self.within(QUAT_COMPONENT_MAX as int),
        ensures
            r@ == qconj(self@),
    {
        Quat { w: self.w, x: -self.x, y: -self.y, z: -self.z }
    }

    /// Rotate a vector by this attitude: the rotation polynomial of the
    /// quaternion sandwich `q * v * conj(q)` computed exactly, then one
    /// rounded division per coordinate to come back to the millionths
    /// scale.
    pub fn rotate(&self, v: &Vec3) -> (r: Vec3)
        requires
            self.within(QUAT_COMPONENT_MAX as int),
            v.within(ROTATE_COORD_MAX as int),
        ensures
            r@ == qrot_rounded(self@, v@),
            forall|b: int|
                0 <= b && #[trigger] vec3i_within(v@, b) ==> vec3i_within(r@, 64 * b),
    {
        let qw: i128 = self.w as i128;
        let qx: i128 = self.x as i128;
        let qy: i128 = self.y as i128;
        let qz: i128 = self.z as i128;
        let vx: i128 = v.x as i128;
        let vy: i128 = v.y as i128;
        let vz: i128 = v.z as i128;
        proof {
            let qb = QUAT_COMPONENT_MAX as int;
            lemma_abs_mul(qw as int, qw as int, qb, qb);
            lemma_abs_mul(qx as int, qx as int, qb, qb);
            lemma_abs_mul(qy as int, qy as int, qb, qb);
            lemma_abs_mul(qz as int, qz as int, qb, qb);
            lemma_abs_mul(qx as int, qy as int, qb, qb);
            lemma_abs_mul(qw as int, qz as int, qb, qb);
            lemma_abs_mul(qx as int, qz as int, qb, qb);
            lemma_abs_mul(qw as int, qy as int, qb, qb);
            lemma_abs_mul(qy as int, qz as int, qb, qb);
            lemma_abs_mul(qw as int, qx as int, qb, qb);
        }
        let m00: i128 = qw * qw + qx * qx - qy * qy - qz * qz;
        let m01: i128 = 2 * (qx * qy - qw * qz);
        let m02: i128 = 2 * (qx * qz + qw * qy);
        let m10: i128 = 2 * (qx * qy + qw * qz);
        let m11: i128 = qw * qw - qx * qx + qy * qy - qz * qz;
        let m12: i128 = 2 * (qy * qz - qw * qx);
        let m20: i128 = 2 * (qx * qz - qw * qy);
        let m21: i128 = 2 * (qy * qz + qw * qx);
        let m22: i128 = qw * qw - qx * qx - qy * qy + qz * qz;
        proof {
            let eb = 16_000_000_000_000;
            let vb = ROTATE_COORD_MAX as int;
            lemma_abs_mul(m00 as int, vx as int, eb, vb);
            lemma_abs_mul(m01 as int, vy as int, eb, vb);
            lemma_abs_mul(m02 as int, vz as int, eb, vb);
            lemma_abs_mul(m10 as int, vx as int, eb, vb);
            lemma_abs_mul(m11 as int, vy as int, eb, vb);
            lemma_abs_mul(m12 as int, vz as int, eb, vb);
            lemma_abs_mul(m20 as int, vx as int, eb, vb);
            lemma_abs_mul(m21 as int, vy as int, eb, vb);
            lemma_abs_mul(m22 as int, vz as int, eb, vb);
        }
        let nx: i128 = m00 * vx + m01 * vy + m02 * vz;
        let ny: i128 = m10 * vx + m11 * vy + m12 * vz;
        let nz: i128 = m20 * vx + m21 * vy + m22 * vz;
        let rx: i128 = round_div_i128(nx, MICRO_SQ as i128);
        let ry: i128 = round_div_i128(ny, MICRO_SQ as i128);
        let rz: i128 = round_div_i128(nz, MICRO_SQ as i128);
        proof {
            lemma_round_div_bound(nx as int, MICRO_SQ as int, 480_000_000_000_000_000);
            lemma_round_div_bound(ny as int, MICRO_SQ as int, 480_000_000_000_000_000);
            lemma_round_div_bound(nz as int, MICRO_SQ as int, 480_000_000_000_000_000);
        }
        let r = Vec3 { x: rx as i64, y: ry as i64, z: rz as i64 };
        proof {
            assert forall|b: int| 0 <= b && #[trigger] vec3i_within(v@, b) implies vec3i_within(
                r@,
                64 * b,
            ) by {
                let eb = 16_000_000_000_000;
                lemma_abs_mul(m00 as int, vx as int, eb, b);
                lemma_abs_mul(m01 as int, vy as int, eb, b);
                lemma_abs_mul(m02 as int, vz as int, eb, b);
                lemma_abs_mul(m10 as int, vx as int, eb, b);
                lemma_abs_mul(m11 as int, vy as int, eb, b);
                lemma_abs_mul(m12 as int, vz as int, eb, b);
                lemma_abs_mul(m20 as int, vx as int, eb, b);
                lemma_abs_mul(m21 as int, vy as int, eb, b);
                lemma_abs_mul(m22 as int, vz as int, eb, b);
                assert(48_000_000_000_000 * b == (48 * b) * (MICRO_SQ as int)) by (nonlinear_arith);
                lemma_round_div_bound(nx as int, MICRO_SQ as int, 48 * b);
                lemma_round_div_bound(ny as int, MICRO_SQ as int, 48 * b);
                lemma_round_div_bound(nz as int, MICRO_SQ as int, 48 * b);
            }
        }
        r
    }
}

} // verus!
