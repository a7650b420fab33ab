//! The numeric capability set matrix elements must provide.

use vstd::prelude::*;

verus! {

/// Truncating integer division: the quotient of `a` by `b` rounded toward
/// zero, as the primitive signed `/` computes it. Spec-mode `/` is Euclidean
/// division, so the two differ when exactly one operand is negative and the
/// division is inexact.
pub open spec fn trunc_div(a: int, b: int) -> int
    recommends
        b != 0,
{
    if a == 0 {
        0
    } else if a > 0 && b > 0 {
        a / b
    } else if a < 0 && b < 0 {
        (a * -1) / (b * -1)
    } else if a < 0 {
        ((a * -1) / b) * -1
    } else {
        (a / (b * -1)) * -1
    }
}

/// Exact division: when b divides a evenly, truncating division agrees with
/// Euclidean division, and multiplying the quotient back recovers a.
pub proof fn lemma_trunc_div_exact(a: int, b: int)
    requires
        b != 0,
        a % b == 0,
    ensures
        trunc_div(a, b) == a / b,
        b * trunc_div(a, b) == a,
{
    vstd::arithmetic::div_mod::lemma_fundamental_div_mod(a, b);
    let q = a / b;
    if a == 0 {
        assert(q == 0) by (nonlinear_arith)
            requires
                b != 0,
                b * q == 0,
        ;
    } else if a > 0 && b > 0 {
    } else if a < 0 && b < 0 {
        assert(a * -1 == (b * -1) * q) by (nonlinear_arith)
            requires
                b * q == a,
        ;
        vstd::arithmetic::div_mod::lemma_div_multiples_vanish(q, b * -1);
    } else if a < 0 {
        assert(a * -1 == b * (q * -1)) by (nonlinear_arith)
            requires
                b * q == a,
        ;
        vstd::arithmetic::div_mod::lemma_div_multiples_vanish(q * -1, b);
    } else {
        assert(a == (b * -1) * (q * -1)) by (nonlinear_arith)
            requires
                b * q == a,
        ;
        vstd::arithmetic::div_mod::lemma_div_multiples_vanish(q * -1, b * -1);
    }
}

/// The capability set a matrix element type must provide: designated zero and
/// one values, an additive inverse, the four arithmetic operators, equality,
/// and copy-by-value semantics. Each value stands for a mathematical integer
/// (`as_int`), bounded by the type's range, and every operation is exact on
/// that model wherever its result fits the range.
pub trait MatrixNumber: Sized + Copy {
    /// The mathematical integer a value stands for.
    spec fn as_int(self) -> int;

    /// The smallest integer the type can hold.
    spec fn min_int() -> int;

    /// The largest integer the type can hold.
    spec fn max_int() -> int;

    /// Every value lies within the type's range.
    proof fn lemma_in_range(self)
        ensures
            Self::min_int() <= self.as_int() <= Self::max_int(),
    ;

    /// The range admits the designated constants one and negative one
    /// (and with them zero).
    proof fn lemma_range_has_units()
        ensures
            Self::min_int() <= -1,
            1 <= Self::max_int(),
    ;

    /// Two values that stand for the same integer are the same value.
    proof fn lemma_as_int_injective(x: Self, y: Self)
        requires
            x.as_int() == y.as_int(),
        ensures
            x == y,
    ;

    /// The additive identity.
    fn zero() -> (r: Self)
        ensures
            r.as_int() == 0,
    ;

    /// The multiplicative identity.
    fn one() -> (r: Self)
        ensures
            r.as_int() == 1,
    ;

    /// Addition, exact whenever the sum fits the range.
    fn add_val(self, rhs: Self) -> (r: Self)
        requires
            Self::min_int() <= self.as_int() + rhs.as_int() <= Self::max_int(),
        ensures
            r.as_int() == self.as_int() + rhs.as_int(),
    ;

    /// Subtraction, exact whenever the difference fits the range.
    fn sub_val(self, rhs: Self) -> (r: Self)
        requires
            Self::min_int() <= self.as_int() - rhs.as_int() <= Self::max_int(),
        ensures
            r.as_int() == self.as_int() - rhs.as_int(),
    ;

    /// Multiplication, exact whenever the product fits the range.
    fn mul_val(self, rhs: Self) -> (r: Self)
        requires
            Self::min_int() <= self.as_int() * rhs.as_int() <= Self::max_int(),
        ensures
            r.as_int() == self.as_int() * rhs.as_int(),
    ;

    /// Division, truncating toward zero as the primitive `/` does.
    fn div_val(self, rhs: Self) -> (r: Self)
        requires
            rhs.as_int() != 0,
            Self::min_int() <= trunc_div(self.as_int(), rhs.as_int()) <= Self::max_int(),
        ensures
            r.as_int() == trunc_div(self.as_int(), rhs.as_int()),
    ;

    /// The additive inverse, exact whenever it fits the range.
    fn neg_val(self) -> (r: Self)
        requires
            Self::min_int() <= -self.as_int() <= Self::max_int(),
        ensures
            r.as_int() == -self.as_int(),
    ;

    /// Value equality.
    fn eq_val(self, rhs: Self) -> (r: bool)
        ensures
            r == (self.as_int() == rhs.as_int()),
    ;
}

impl MatrixNumber for i64 {
    open spec fn as_int(self) -> int {
        self as int
    }

    open spec fn min_int() -> int {
        i64::MIN as int
    }

    open spec fn max_int() -> int {
        i64::MAX as int
    }

    proof fn lemma_in_range(self) {
    }

    proof fn lemma_range_has_units() {
    }

    proof fn lemma_as_int_injective(x: Self, y: Self) {
    }

    fn zero() -> (r: Self) {
        0
    }

    fn one() -> (r: Self) {
        1
    }

    fn add_val(self, rhs: Self) -> (r: Self) {
        self + rhs
    }

    fn sub_val(self, rhs: Self) -> (r: Self) {
        self - rhs
    }

    fn mul_val(self, rhs: Self) -> (r: Self) {
        self * rhs
    }

    fn div_val(self, rhs: Self) -> (r: Self) {
        self.checked_div(rhs).unwrap()
    }

    fn neg_val(self) -> (r: Self) {
        -self
    }

    fn eq_val(self, rhs: Self) -> (r: bool) {
        self == rhs
    }
}

impl MatrixNumber for i8 {
    open spec fn as_int(self) -> int {
        self as int
    }

    open spec fn min_int() -> int {
        i8::MIN as int
    }

    open spec fn max_int() -> int {
        i8::MAX as int
    }

    proof fn lemma_in_range(self) {
    }

    proof fn lemma_range_has_units() {
    }

    proof fn lemma_as_int_injective(x: Self, y: Self) {
    }

    fn zero() -> (r: Self) {
        0
    }

    fn one() -> (r: Self) {
        1
    }

    fn add_val(self, rhs: Self) -> (r: Self) {
        self + rhs
    }

    fn sub_val(self, rhs: Self) -> (r: Self) {
        self - rhs
    }

    fn mul_val(self, rhs: Self) -> (r: Self) {
        self * rhs
    }

    fn div_val(self, rhs: Self) -> (r: Self) {
        self.checked_div(rhs).unwrap()
    }

    fn neg_val(self) -> (r: Self) {
        -self
    }

    fn eq_val(self, rhs: Self) -> (r: bool) {
        self == rhs
    }
}

impl MatrixNumber for i16 {
    open spec fn as_int(self) -> int {
        self as int
    }

    open spec fn min_int() -> int {
        i16::MIN as int
    }

    open spec fn max_int() -> int {
        i16::MAX as int
    }

    proof fn lemma_in_range(self) {
    }

    proof fn lemma_range_has_units() {
    }

    proof fn lemma_as_int_injective(x: Self, y: Self) {
    }

    fn zero() -> (r: Self) {
        0
    }

    fn one() -> (r: Self) {
        1
    }

    fn add_val(self, rhs: Self) -> (r: Self) {
        self + rhs
    }

    fn sub_val(self, rhs: Self) -> (r: Self) {
        self - rhs
    }

    fn mul_val(self, rhs: Self) -> (r: Self) {
        self * rhs
    }

    fn div_val(self, rhs: Self) -> (r: Self) {
        self.checked_div(rhs).unwrap()
    }

    fn neg_val(self) -> (r: Self) {
        -self
    }

    fn eq_val(self, rhs: Self) -> (r: bool) {
        self == rhs
    }
}

impl MatrixNumber for i32 {
    open spec fn as_int(self) -> int {
        self as int
    }

    open spec fn min_int() -> int {
        i32::MIN as int
    }

    open spec fn max_int() -> int {
        i32::MAX as int
    }

    proof fn lemma_in_range(self) {
    }

    proof fn lemma_range_has_units() {
    }

    proof fn lemma_as_int_injective(x: Self, y: Self) {
    }

    fn zero() -> (r: Self) {
        0
    }

    fn one() -> (r: Self) {
        1
    }

    fn add_val(self, rhs: Self) -> (r: Self) {
        self + rhs
    }

    fn sub_val(self, rhs: Self) -> (r: Self) {
        self - rhs
    }

    fn mul_val(self, rhs: Self) -> (r: Self) {
        self * rhs
    }

    fn div_val(self, rhs: Self) -> (r: Self) {
        self.checked_div(rhs).unwrap()
    }

    fn neg_val(self) -> (r: Self) {
        -self
    }

    fn eq_val(self, rhs: Self) -> (r: bool) {
        self == rhs
    }
}

impl MatrixNumber for i128 {
    open spec fn as_int(self) -> int {
        self as int
    }

    open spec fn min_int() -> int {
        i128::MIN as int
    }

    open spec fn max_int() -> int {
        i128::MAX as int
    }

    proof fn lemma_in_range(self) {
    }

    proof fn lemma_range_has_units() {
    }

    proof fn lemma_as_int_injective(x: Self, y: Self) {
    }

    fn zero() -> (r: Self) {
        0
    }

    fn one() -> (r: Self) {
        1
    }

    fn add_val(self, rhs: Self) -> (r: Self) {
        self + rhs
    }

    fn sub_val(self, rhs: Self) -> (r: Self) {
        self - rhs
    }

    fn mul_val(self, rhs: Self) -> (r: Self) {
        self * rhs
    }

    fn div_val(self, rhs: Self) -> (r: Self) {
        self.checked_div(rhs).unwrap()
    }

    fn neg_val(self) -> (r: Self) {
        -self
    }

    fn eq_val(self, rhs: Self) -> (r: bool) {
        self == rhs
    }
}

} // verus!
