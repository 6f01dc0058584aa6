//! Exact scalar arithmetic in the field extension generated by `sqrt(2)`.
//!
//! A [`Scalar`] holds three machine integers `(a, b, d)` and stands for the
//! real number `(a + b * sqrt(2)) / d`.  Rational inputs (positions, window
//! sizes, elapsed time) have `b == 0`; the `sqrt(2)` part appears once a
//! diagonal key combination is normalized to unit length.  Because `sqrt(2)`
//! is irrational, two such triples denote the same real number exactly when
//! their rational parts and their `sqrt(2)` parts agree after clearing
//! denominators, which is how [`qv_eq`] defines value equality.

use vstd::prelude::*;

verus! {

/// Mathematical model of a scalar: the triple stands for `(a + b*sqrt(2)) / d`.
pub struct Qv {
    pub a: int,
    pub b: int,
    pub d: int,
}

/// A model triple is well formed when its denominator is positive.
pub open spec fn qv_wf(q: Qv) -> bool {
    q.d >= 1
}

/// The integer `n` as a model triple.
pub open spec fn qv_int(n: int) -> Qv {
    Qv { a: n, b: 0, d: 1 }
}

pub open spec fn qv_zero() -> Qv {
    qv_int(0)
}

pub open spec fn qv_one() -> Qv {
    qv_int(1)
}

/// Value equality of two triples: after clearing denominators the rational
/// parts and the `sqrt(2)` parts must agree separately.
pub open spec fn qv_eq(x: Qv, y: Qv) -> bool {
    &&& x.a * y.d == y.a * x.d
    &&& x.b * y.d == y.b * x.d
}

pub open spec fn qv_add(x: Qv, y: Qv) -> Qv {
    Qv { a: x.a * y.d + y.a * x.d, b: x.b * y.d + y.b * x.d, d: x.d * y.d }
}

pub open spec fn qv_sub(x: Qv, y: Qv) -> Qv {
    Qv { a: x.a * y.d - y.a * x.d, b: x.b * y.d - y.b * x.d, d: x.d * y.d }
}

/// `(a1 + b1*s) * (a2 + b2*s) == a1*a2 + 2*b1*b2 + (a1*b2 + b1*a2)*s` for `s = sqrt(2)`.
pub open spec fn qv_mul(x: Qv, y: Qv) -> Qv {
    Qv {
        a: x.a * y.a + 2 * (x.b * y.b),
        b: x.a * y.b + x.b * y.a,
        d: x.d * y.d,
    }
}

/// Half of a value, written without touching the numerators.
pub open spec fn qv_half(x: Qv) -> Qv {
    Qv { a: x.a, b: x.b, d: 2 * x.d }
}

/// Whether `(a + b*sqrt(2)) / d` is strictly positive, decided from the
/// integers alone (`d` is positive for well-formed triples, so only the
/// numerator matters): either both parts point up, or the dominant part does,
/// where `a` dominates `b*sqrt(2)` when `a*a > 2*b*b` (spelled
/// `a*a - b*b > b*b` so that the executable check can mirror it without its
/// products ever leaving `i128`).
pub open spec fn qv_pos(x: Qv) -> bool {
    ||| (x.a >= 0 && x.b >= 0 && (x.a > 0 || x.b > 0))
    ||| (x.a > 0 && x.a * x.a - x.b * x.b > x.b * x.b)
    ||| (x.b > 0 && x.b * x.b > x.a * x.a - x.b * x.b)
}

/// Whether every component of the triple fits the machine representation.
pub open spec fn qv_in_range(x: Qv) -> bool {
    &&& i64::MIN <= x.a <= i64::MAX
    &&& i64::MIN <= x.b <= i64::MAX
    &&& x.d <= i64::MAX
}

/// The product of two `i64`-sized integers stays well inside `i128`.
pub proof fn lemma_i64_mul_in_i128(x: int, y: int)
    by (nonlinear_arith)
    requires
        i64::MIN <= x <= i64::MAX,
        i64::MIN <= y <= i64::MAX,
    ensures
        -0x4000_0000_0000_0000_0000_0000_0000_0000 <= x * y,
        x * y <= 0x4000_0000_0000_0000_0000_0000_0000_0000,
{
}

/// An exact scalar quantity: `(a + b*sqrt(2)) / d` with `d >= 1`.
#[derive(Clone, Copy, Debug, PartialEq, Eq, Structural)]
pub struct Scalar {
    pub a: i64,
    pub b: i64,
    pub d: i64,
}

impl View for Scalar {
    type V = Qv;

    open spec fn view(&self) -> Qv {
        Qv { a: self.a as int, b: self.b as int, d: self.d as int }
    }
}

impl Scalar {
    /// The denominator must be positive.
    pub open spec fn wf(self) -> bool {
        self.d >= 1
    }

    /// Builds `(a + b*sqrt(2)) / d`.
    pub fn new(a: i64, b: i64, d: i64) -> (r: Scalar)
        requires
            d >= 1,
        ensures
            r@ == (Qv { a: a as int, b: b as int, d: d as int }),
            r.wf(),
    {
        Scalar { a, b, d }
    }

    /// The integer `n` as a scalar.
    pub fn from_int(n: i64) -> (r: Scalar)
        ensures
            r@ == qv_int(n as int),
            r.wf(),
    {
        Scalar { a: n, b: 0, d: 1 }
    }

    pub fn zero() -> (r: Scalar)
        ensures
            r@ == qv_zero(),
            r.wf(),
    {
        Scalar { a: 0, b: 0, d: 1 }
    }

    /// Exact sum; the result triple is the one `qv_add` describes.
    pub fn add(&self, other: &Scalar) -> (r: Scalar)
        requires
            self.wf(),
            other.wf(),
            qv_in_range(qv_add(self@, other@)),
        ensures
            r@ == qv_add(self@, other@),
            r.wf(),
    {
        proof {
            lemma_i64_mul_in_i128(self.a as int, other.d as int);
            lemma_i64_mul_in_i128(other.a as int, self.d as int);
            lemma_i64_mul_in_i128(self.b as int, other.d as int);
            lemma_i64_mul_in_i128(other.b as int, self.d as int);
            lemma_i64_mul_in_i128(self.d as int, other.d as int);
            assert((self.d as int) * (other.d as int) >= 1) by (nonlinear_arith)
                requires
                    self.d >= 1,
                    other.d >= 1,
            ;
        }
        let a: i128 = (self.a as i128) * (other.d as i128) + (other.a as i128) * (self.d as i128);
        let b: i128 = (self.b as i128) * (other.d as i128) + (other.b as i128) * (self.d as i128);
        let d: i128 = (self.d as i128) * (other.d as i128);
        Scalar { a: a as i64, b: b as i64, d: d as i64 }
    }

    /// Exact difference; the result triple is the one `qv_sub` describes.
    pub fn sub(&self, other: &Scalar) -> (r: Scalar)
        requires
            self.wf(),
            other.wf(),
            qv_in_range(qv_sub(self@, other@)),
        ensures
            r@ == qv_sub(self@, other@),
            r.wf(),
    {
        proof {
            lemma_i64_mul_in_i128(self.a as int, other.d as int);
            lemma_i64_mul_in_i128(other.a as int, self.d as int);
            lemma_i64_mul_in_i128(self.b as int, other.d as int);
            lemma_i64_mul_in_i128(other.b as int, self.d as int);
            lemma_i64_mul_in_i128(self.d as int, other.d as int);
            assert((self.d as int) * (other.d as int) >= 1) by (nonlinear_arith)
                requires
                    self.d >= 1,
                    other.d >= 1,
            ;
        }
        let a: i128 = (self.a as i128) * (other.d as i128) - (other.a as i128) * (self.d as i128);
        let b: i128 = (self.b as i128) * (other.d as i128) - (other.b as i128) * (self.d as i128);
        let d: i128 = (self.d as i128) * (other.d as i128);
        Scalar { a: a as i64, b: b as i64, d: d as i64 }
    }

    /// Exact product; the result triple is the one `qv_mul` describes.
    pub fn mul(&self, other: &Scalar) -> (r: Scalar)
        requires
            self.wf(),
            other.wf(),
            qv_in_range(qv_mul(self@, other@)),
        ensures
            r@ == qv_mul(self@, other@),
            r.wf(),
    {
        proof {
            lemma_i64_mul_in_i128(self.a as int, other.a as int);
            lemma_i64_mul_in_i128(self.b as int, other.b as int);
            lemma_i64_mul_in_i128(self.a as int, other.b as int);
            lemma_i64_mul_in_i128(self.b as int, other.a as int);
            lemma_i64_mul_in_i128(self.d as int, other.d as int);
            assert((self.d as int) * (other.d as int) >= 1) by (nonlinear_arith)
                requires
                    self.d >= 1,
                    other.d >= 1,
            ;
        }
        let pa: i128 = (self.a as i128) * (other.a as i128);
        let pb: i128 = (self.b as i128) * (other.b as i128);
        let a: i128 = pa + 2 * pb;
        let b: i128 = (self.a as i128) * (other.b as i128) + (self.b as i128) * (other.a as i128);
        let d: i128 = (self.d as i128) * (other.d as i128);
        Scalar { a: a as i64, b: b as i64, d: d as i64 }
    }

    /// Exact halving; only the denominator grows.
    pub fn half(&self) -> (r: Scalar)
        requires
            self.wf(),
            qv_in_range(qv_half(self@)),
        ensures
            r@ == qv_half(self@),
            r.wf(),
    {
        Scalar { a: self.a, b: self.b, d: 2 * self.d }
    }

    /// Whether the value is zero; with an irrational `sqrt(2)` this is
    /// exactly "both numerators vanish".
    pub fn is_zero(&self) -> (r: bool)
        requires
            self.wf(),
        ensures
            r == qv_eq(self@, qv_zero()),
    {
        self.a == 0 && self.b == 0
    }

    /// Whether two scalars denote the same real number, possibly through
    /// different triples.
    pub fn value_eq(&self, other: &Scalar) -> (r: bool)
        requires
            self.wf(),
            other.wf(),
        ensures
            r == qv_eq(self@, other@),
    {
        proof {
            lemma_i64_mul_in_i128(self.a as int, other.d as int);
            lemma_i64_mul_in_i128(other.a as int, self.d as int);
            lemma_i64_mul_in_i128(self.b as int, other.d as int);
            lemma_i64_mul_in_i128(other.b as int, self.d as int);
        }
        let la: i128 = (self.a as i128) * (other.d as i128);
        let ra: i128 = (other.a as i128) * (self.d as i128);
        let lb: i128 = (self.b as i128) * (other.d as i128);
        let rb: i128 = (other.b as i128) * (self.d as i128);
        la == ra && lb == rb
    }

    /// Whether the value is strictly positive.
    pub fn is_positive(&self) -> (r: bool)
        requires
            self.wf(),
        ensures
            r == qv_pos(self@),
    {
        if self.a >= 0 && self.b >= 0 {
            self.a > 0 || self.b > 0
        } else {
            proof {
                lemma_i64_mul_in_i128(self.a as int, self.a as int);
                lemma_i64_mul_in_i128(self.b as int, self.b as int);
                assert((self.a as int) * (self.a as int) >= 0) by (nonlinear_arith);
                assert((self.b as int) * (self.b as int) >= 0) by (nonlinear_arith);
            }
            let aa: i128 = (self.a as i128) * (self.a as i128);
            let bb: i128 = (self.b as i128) * (self.b as i128);
            (self.a > 0 && aa - bb > bb) || (self.b > 0 && bb > aa - bb)
        }
    }
}

} // verus!
