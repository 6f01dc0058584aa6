//! Exact 2D vectors over the scalars of [`crate::scalar`], with the spec-level
//! geometry (dot product, cross product, squared length, direction agreement)
//! that the movement and cursor-tracking contracts are stated in.

use vstd::prelude::*;

use crate::scalar::{
    qv_add, qv_eq, qv_in_range, qv_mul, qv_pos, qv_sub, qv_wf, qv_zero, Qv, Scalar,
};

verus! {

/// Mathematical model of a 2D vector: one model triple per component.
pub struct Qv2 {
    pub x: Qv,
    pub y: Qv,
}

pub open spec fn qv2_wf(v: Qv2) -> bool {
    qv_wf(v.x) && qv_wf(v.y)
}

/// Componentwise value equality.
pub open spec fn qv2_eq(u: Qv2, v: Qv2) -> bool {
    qv_eq(u.x, v.x) && qv_eq(u.y, v.y)
}

pub open spec fn qv2_is_zero(v: Qv2) -> bool {
    qv_eq(v.x, qv_zero()) && qv_eq(v.y, qv_zero())
}

pub open spec fn qv2_add(u: Qv2, v: Qv2) -> Qv2 {
    Qv2 { x: qv_add(u.x, v.x), y: qv_add(u.y, v.y) }
}

pub open spec fn qv2_sub(u: Qv2, v: Qv2) -> Qv2 {
    Qv2 { x: qv_sub(u.x, v.x), y: qv_sub(u.y, v.y) }
}

/// Both components scaled by the same factor.
pub open spec fn qv2_scale(k: Qv, v: Qv2) -> Qv2 {
    Qv2 { x: qv_mul(k, v.x), y: qv_mul(k, v.y) }
}

pub open spec fn qv2_dot(u: Qv2, v: Qv2) -> Qv {
    qv_add(qv_mul(u.x, v.x), qv_mul(u.y, v.y))
}

/// The planar cross product `u.x*v.y - u.y*v.x`; it vanishes exactly when the
/// vectors are parallel.
pub open spec fn qv2_cross(u: Qv2, v: Qv2) -> Qv {
    qv_sub(qv_mul(u.x, v.y), qv_mul(u.y, v.x))
}

/// Squared Euclidean length.
pub open spec fn qv2_norm_sq(v: Qv2) -> Qv {
    qv2_dot(v, v)
}

/// `u` and `v` point the same way: they are parallel and positively aligned.
pub open spec fn same_direction(u: Qv2, v: Qv2) -> bool {
    qv_eq(qv2_cross(u, v), qv_zero()) && qv_pos(qv2_dot(u, v))
}

/// An exact 2D vector.
#[derive(Clone, Copy, Debug, PartialEq, Eq, Structural)]
pub struct Vec2 {
    pub x: Scalar,
    pub y: Scalar,
}

impl View for Vec2 {
    type V = Qv2;

    open spec fn view(&self) -> Qv2 {
        Qv2 { x: self.x@, y: self.y@ }
    }
}

impl Vec2 {
    pub open spec fn wf(self) -> bool {
        self.x.wf() && self.y.wf()
    }

    pub fn new(x: Scalar, y: Scalar) -> (r: Vec2)
        ensures
            r@ == (Qv2 { x: x@, y: y@ }),
    {
        Vec2 { x, y }
    }

    pub fn zero() -> (r: Vec2)
        ensures
            r@ == (Qv2 { x: qv_zero(), y: qv_zero() }),
            r.wf(),
    {
        Vec2 { x: Scalar::zero(), y: Scalar::zero() }
    }

    pub fn add(&self, other: &Vec2) -> (r: Vec2)
        requires
            self.wf(),
            other.wf(),
            qv_in_range(qv_add(self@.x, other@.x)),
            qv_in_range(qv_add(self@.y, other@.y)),
        ensures
            r@ == qv2_add(self@, other@),
            r.wf(),
    {
        Vec2 { x: self.x.add(&other.x), y: self.y.add(&other.y) }
    }

    pub fn sub(&self, other: &Vec2) -> (r: Vec2)
        requires
            self.wf(),
            other.wf(),
            qv_in_range(qv_sub(self@.x, other@.x)),
            qv_in_range(qv_sub(self@.y, other@.y)),
        ensures
            r@ == qv2_sub(self@, other@),
            r.wf(),
    {
        Vec2 { x: self.x.sub(&other.x), y: self.y.sub(&other.y) }
    }

    /// Both components scaled by `k`.
    pub fn scale(&self, k: &Scalar) -> (r: Vec2)
        requires
            self.wf(),
            k.wf(),
            qv_in_range(qv_mul(k@, self@.x)),
            qv_in_range(qv_mul(k@, self@.y)),
        ensures
            r@ == qv2_scale(k@, self@),
            r.wf(),
    {
        Vec2 { x: k.mul(&self.x), y: k.mul(&self.y) }
    }

    pub fn is_zero(&self) -> (r: bool)
        requires
            self.wf(),
        ensures
            r == qv2_is_zero(self@),
    {
        self.x.is_zero() && self.y.is_zero()
    }

    /// Whether the two vectors are componentwise value-equal.
    pub fn value_eq(&self, other: &Vec2) -> (r: bool)
        requires
            self.wf(),
            other.wf(),
        ensures
            r == qv2_eq(self@, other@),
    {
        self.x.value_eq(&other.x) && self.y.value_eq(&other.y)
    }
}

/// No positive integers satisfy `a*a == 2*(b*b)`: the classical descent that
/// makes `sqrt(2)` irrational.  The sign analysis of [`qv_pos`] rests on it.
proof fn lemma_sqrt2_descent(a: nat, b: nat)
    requires
        b > 0,
    ensures
        a * a != 2 * (b * b),
    decreases b,
{
    if a * a == 2 * (b * b) {
        let k: nat = a / 2;
        if a % 2 == 1 {
            assert(a == 2 * k + 1);
            assert((2 * k + 1) * (2 * k + 1) == 4 * (k * k) + 4 * k + 1) by (nonlinear_arith);
            assert(false);
        } else {
            assert(a == 2 * k);
            assert((2 * k) * (2 * k) == 4 * (k * k)) by (nonlinear_arith);
            assert(b * b == 2 * (k * k));
            if k == 0 {
                assert(b * b == 0);
                assert(false) by (nonlinear_arith)
                    requires
                        b > 0,
                        b * b == 0,
                ;
            } else {
                assert(k < b) by (nonlinear_arith)
                    requires
                        b * b == 2 * (k * k),
                        k > 0,
                ;
                lemma_sqrt2_descent(b, k);
            }
        }
    }
}

/// `a*a == 2*(b*b)` forces `b == 0` over the integers.
pub proof fn lemma_no_rational_sqrt2(a: int, b: int)
    requires
        b != 0,
    ensures
        a * a != 2 * (b * b),
{
    let an: int = if a >= 0 { a } else { -a };
    let bn: int = if b >= 0 { b } else { -b };
    assert(a * a == an * an) by (nonlinear_arith)
        requires
            an == a || an == -a,
    ;
    assert(b * b == bn * bn) by (nonlinear_arith)
        requires
            bn == b || bn == -b,
    ;
    lemma_sqrt2_descent(an as nat, bn as nat);
}

/// Multiplying equal factors gives equal products.
proof fn lemma_mul_congr(x1: int, x2: int, y1: int, y2: int)
    requires
        x1 == x2,
        y1 == y2,
    ensures
        x1 * y1 == x2 * y2,
{
}

proof fn lemma_mul_comm(x: int, y: int)
    by (nonlinear_arith)
    ensures
        x * y == y * x,
{
}

/// `(x*y)^2 == x^2 * y^2`.
proof fn lemma_sq_of_prod(x: int, y: int)
    by (nonlinear_arith)
    ensures
        (x * y) * (x * y) == (x * x) * (y * y),
{
}

/// Rearranging a product of four factors.
proof fn lemma_prod_swap(x: int, y: int, z: int, w: int)
    by (nonlinear_arith)
    ensures
        (x * y) * (z * w) == (y * z) * (x * w),
{
}

proof fn lemma_diff_of_squares(x: int, y: int)
    by (nonlinear_arith)
    ensures
        x * x - y * y == (x + y) * (x - y),
{
}

proof fn lemma_prod_sums(x1: int, x2: int, y1: int, y2: int)
    by (nonlinear_arith)
    ensures
        (2 * (x1 + x2)) * (4 * (y1 + y2)) == 8 * (x1 * y1) + 8 * (x1 * y2) + 8 * (x2 * y1) + 8 * (
        x2 * y2),
{
}

proof fn lemma_sq_sum2(x: int, y: int)
    by (nonlinear_arith)
    ensures
        (2 * x + 2 * y) * (2 * x + 2 * y) == 4 * (x * x) + 8 * (x * y) + 4 * (y * y),
{
}

proof fn lemma_sq_diff(x: int, y: int)
    by (nonlinear_arith)
    ensures
        (x - y) * (x - y) == x * x - 2 * (x * y) + y * y,
{
}

proof fn lemma_distrib_2(u: int, w: int, t: int)
    by (nonlinear_arith)
    ensures
        (u + 2 * w) * t == u * t + 2 * (w * t),
{
}

proof fn lemma_scale2(u: int, w: int)
    by (nonlinear_arith)
    ensures
        (2 * u) * w == 2 * (u * w),
{
}

/// Clearing the denominator `t` out of one squared component: the rational
/// and `sqrt(2)` parts of `(xa + xb*s)^2 * t^2` written over `xa*t` and `xb*t`.
proof fn lemma_component_cleared(xa: int, xb: int, t: int, ba: int, bb: int)
    requires
        ba == xa * t,
        bb == xb * t,
    ensures
        (xa * xa + 2 * (xb * xb)) * (t * t) == ba * ba + 2 * (bb * bb),
        (xa * xb + xb * xa) * (t * t) == 2 * (ba * bb),
{
    lemma_distrib_2(xa * xa, xb * xb, t * t);
    lemma_sq_of_prod(xa, t);
    lemma_sq_of_prod(xb, t);
    assert(ba * ba == (xa * t) * (xa * t));
    assert(bb * bb == (xb * t) * (xb * t));

    lemma_mul_comm(xa, xb);
    assert((xa * xb + xb * xa) * (t * t) == (2 * (xa * xb)) * (t * t));
    lemma_scale2(xa * xb, t * t);
    lemma_prod_swap(xa, xb, t, t);
    lemma_mul_comm(xb * t, xa * t);
    assert(ba * bb == (xa * t) * (xb * t));
}

/// The key identity behind the sign analysis: for a value `p + q*sqrt(2)`
/// that is a sum of two squares of `Z[sqrt(2)]` numbers, `p^2 - 2*q^2` is
/// itself a sum of squares.  Stated over atoms `s1..s4, t1..t4` standing for
/// the products of the four cleared numerators.
proof fn lemma_dominance(s1: int, s2: int, s3: int, s4: int, t1: int, t2: int, t3: int, t4: int)
    requires
        t1 * t1 == s1 * s2,
        t2 * t2 == s3 * s4,
        t3 * t3 == s2 * s3,
        t4 * t4 == s1 * s4,
        t1 * t2 == t3 * t4,
    ensures
        (s1 + 2 * s2 + (s3 + 2 * s4)) * (s1 + 2 * s2 + (s3 + 2 * s4)) - 2 * ((2 * t1 + 2 * t2)
            * (2 * t1 + 2 * t2)) == (s1 - 2 * s2 + (s3 - 2 * s4)) * (s1 - 2 * s2 + (s3 - 2 * s4))
            + 8 * ((t3 - t4) * (t3 - t4)),
{
    let p: int = s1 + 2 * s2 + (s3 + 2 * s4);
    let m: int = s1 - 2 * s2 + (s3 - 2 * s4);
    lemma_diff_of_squares(p, m);
    assert(p * p - m * m == (p + m) * (p - m));
    lemma_mul_congr(p + m, 2 * (s1 + s3), p - m, 4 * (s2 + s4));
    lemma_prod_sums(s1, s3, s2, s4);
    assert(p * p - m * m == 8 * (s1 * s2) + 8 * (s1 * s4) + 8 * (s3 * s2) + 8 * (s3 * s4));
    lemma_sq_sum2(t1, t2);
    lemma_sq_diff(t3, t4);
    lemma_mul_comm(s3, s2);
}

/// A nonzero vector has strictly positive squared length, and its cross
/// product with itself vanishes: it points the same way as itself.
pub proof fn lemma_nonzero_self_direction(v: Qv2)
    requires
        qv2_wf(v),
        !qv2_is_zero(v),
    ensures
        same_direction(v, v),
{
    let a: int = v.x.a;
    let b: int = v.x.b;
    let dx: int = v.x.d;
    let c: int = v.y.a;
    let e: int = v.y.b;
    let dy: int = v.y.d;

    // The components of the self-dot product, written over the cleared
    // numerators big_a = a*dy, ..., big_e = e*dx.
    let big_a: int = a * dy;
    let big_b: int = b * dy;
    let big_c: int = c * dx;
    let big_e: int = e * dx;
    let dp = qv2_dot(v, v);

    lemma_component_cleared(a, b, dy, big_a, big_b);
    lemma_component_cleared(c, e, dx, big_c, big_e);
    assert(dp.a == (big_a * big_a + 2 * (big_b * big_b)) + (big_c * big_c + 2 * (big_e * big_e)));
    assert(dp.b == 2 * (big_a * big_b) + 2 * (big_c * big_e));

    // The vector is nonzero, so one cleared numerator is nonzero.
    assert(!(a == 0 && b == 0) || !(c == 0 && e == 0));
    if !(a == 0 && b == 0) {
        assert(big_a != 0 || big_b != 0) by (nonlinear_arith)
            requires
                big_a == a * dy,
                big_b == b * dy,
                dy >= 1,
                !(a == 0 && b == 0),
        ;
    } else {
        assert(big_c != 0 || big_e != 0) by (nonlinear_arith)
            requires
                big_c == c * dx,
                big_e == e * dx,
                dx >= 1,
                !(c == 0 && e == 0),
        ;
    }

    // Strictly positive rational part.
    assert(dp.a > 0) by (nonlinear_arith)
        requires
            dp.a == (big_a * big_a + 2 * (big_b * big_b)) + (big_c * big_c + 2 * (big_e * big_e)),
            big_a != 0 || big_b != 0 || big_c != 0 || big_e != 0,
    ;

    // Dominance of the rational part: dp.a^2 - 2*dp.b^2 is a sum of squares.
    let s1: int = big_a * big_a;
    let s2: int = big_b * big_b;
    let s3: int = big_c * big_c;
    let s4: int = big_e * big_e;
    let t1: int = big_a * big_b;
    let t2: int = big_c * big_e;
    let t3: int = big_b * big_c;
    let t4: int = big_a * big_e;
    lemma_sq_of_prod(big_a, big_b);
    lemma_sq_of_prod(big_c, big_e);
    lemma_sq_of_prod(big_b, big_c);
    lemma_sq_of_prod(big_a, big_e);
    lemma_prod_swap(big_a, big_b, big_c, big_e);
    lemma_dominance(s1, s2, s3, s4, t1, t2, t3, t4);
    let pt: int = s1 + 2 * s2 + (s3 + 2 * s4);
    let qt: int = 2 * t1 + 2 * t2;
    lemma_mul_congr(dp.a, pt, dp.a, pt);
    lemma_mul_congr(dp.b, qt, dp.b, qt);
    let m: int = s1 - 2 * s2 + (s3 - 2 * s4);
    let n: int = t3 - t4;
    assert(dp.a * dp.a - 2 * (dp.b * dp.b) == m * m + 8 * (n * n));
    assert(m * m >= 0) by (nonlinear_arith);
    assert(n * n >= 0) by (nonlinear_arith);
    assert(dp.a * dp.a >= 2 * (dp.b * dp.b));
    if dp.a * dp.a == 2 * (dp.b * dp.b) {
        if dp.b != 0 {
            lemma_no_rational_sqrt2(dp.a, dp.b);
            assert(false);
        } else {
            assert(dp.b * dp.b == 0) by (nonlinear_arith)
                requires
                    dp.b == 0,
            ;
            assert(false) by (nonlinear_arith)
                requires
                    dp.a > 0,
                    dp.a * dp.a == 0,
            ;
        }
    }
    assert(qv_pos(dp));

    // The cross product of a vector with itself is the zero value: the two
    // products it subtracts are the same by commutativity.
    let m1 = qv_mul(v.x, v.y);
    let m2 = qv_mul(v.y, v.x);
    lemma_mul_comm(a, c);
    lemma_mul_comm(b, e);
    lemma_mul_comm(a, e);
    lemma_mul_comm(b, c);
    lemma_mul_comm(dx, dy);
    assert(m1.a == m2.a && m1.b == m2.b && m1.d == m2.d);
    let cr = qv2_cross(v, v);
    lemma_mul_congr(m1.a, m2.a, m2.d, m1.d);
    lemma_mul_congr(m1.b, m2.b, m2.d, m1.d);
    assert(cr.a == 0 && cr.b == 0);
    assert(qv_eq(cr, qv_zero()));
}

} // verus!
