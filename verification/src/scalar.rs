//! The numbers that the solver computes with.
use vstd::prelude::*;

verus! {

/// A scalar: a number with the arithmetic that the solver needs.
///
/// The library never looks inside a scalar. Every operation is total, and
/// the contracts of the library speak of an operation only by naming the
/// operands it was given and the value it returned.
pub trait Scalar: Copy {
    /// The additive identity.
    fn zero() -> Self;

    /// The multiplicative identity.
    fn one() -> Self;

    /// `self + rhs`.
    fn add(self, rhs: Self) -> Self;

    /// `self - rhs`.
    fn sub(self, rhs: Self) -> Self;

    /// `self * rhs`.
    fn mul(self, rhs: Self) -> Self;

    /// `self / rhs`.
    fn div(self, rhs: Self) -> Self;

    /// `-self`.
    fn neg(self) -> Self;

    /// The magnitude of `self`.
    fn abs(self) -> Self;

    /// The square root of `self`.
    fn sqrt(self) -> Self;

    /// The natural logarithm of `self`.
    fn ln(self) -> Self;

    /// Whether `self` is strictly below `rhs`.
    fn lt(self, rhs: Self) -> bool;

    /// Whether `self` is an ordinary number: neither infinite nor undefined.
    fn is_finite(self) -> bool;
}

/// `r` is a value that `Scalar::zero` returns.
#[verifier::inline]
pub open spec fn is_zero<T: Scalar>(r: T) -> bool {
    call_ensures(T::zero, (), r)
}

/// `r` is a value that `Scalar::one` returns.
#[verifier::inline]
pub open spec fn is_one<T: Scalar>(r: T) -> bool {
    call_ensures(T::one, (), r)
}

/// `r` is a value that `x.add(y)` returns.
#[verifier::inline]
pub open spec fn is_sum<T: Scalar>(x: T, y: T, r: T) -> bool {
    call_ensures(T::add, (x, y), r)
}

/// `r` is a value that `x.sub(y)` returns.
#[verifier::inline]
pub open spec fn is_diff<T: Scalar>(x: T, y: T, r: T) -> bool {
    call_ensures(T::sub, (x, y), r)
}

/// `r` is a value that `x.mul(y)` returns.
#[verifier::inline]
pub open spec fn is_product<T: Scalar>(x: T, y: T, r: T) -> bool {
    call_ensures(T::mul, (x, y), r)
}

/// `r` is a value that `x.div(y)` returns.
#[verifier::inline]
pub open spec fn is_quotient<T: Scalar>(x: T, y: T, r: T) -> bool {
    call_ensures(T::div, (x, y), r)
}

/// `r` is a value that `x.neg()` returns.
#[verifier::inline]
pub open spec fn is_negation<T: Scalar>(x: T, r: T) -> bool {
    call_ensures(T::neg, (x,), r)
}

/// `r` is a value that `x.abs()` returns.
#[verifier::inline]
pub open spec fn is_magnitude<T: Scalar>(x: T, r: T) -> bool {
    call_ensures(T::abs, (x,), r)
}

/// `r` is a value that `x.sqrt()` returns.
#[verifier::inline]
pub open spec fn is_root<T: Scalar>(x: T, r: T) -> bool {
    call_ensures(T::sqrt, (x,), r)
}

/// `r` is a value that `x.ln()` returns.
#[verifier::inline]
pub open spec fn is_log<T: Scalar>(x: T, r: T) -> bool {
    call_ensures(T::ln, (x,), r)
}

/// `b` is an answer that `x.lt(y)` gives.
#[verifier::inline]
pub open spec fn is_below<T: Scalar>(x: T, y: T, b: bool) -> bool {
    call_ensures(T::lt, (x, y), b)
}

/// `b` is an answer that `x.is_finite()` gives.
#[verifier::inline]
pub open spec fn is_finite_answer<T: Scalar>(x: T, b: bool) -> bool {
    call_ensures(T::is_finite, (x,), b)
}

/// Every operation of `T` is a function of its operands: asked again of
/// the same operands, it gives the same answer.
pub open spec fn is_deterministic<T: Scalar>() -> bool {
    &&& forall|r: T, s: T| is_zero(r) && is_zero(s) ==> r == s
    &&& forall|r: T, s: T| is_one(r) && is_one(s) ==> r == s
    &&& forall|x: T, y: T, r: T, s: T| is_sum(x, y, r) && is_sum(x, y, s) ==> r == s
    &&& forall|x: T, y: T, r: T, s: T| is_diff(x, y, r) && is_diff(x, y, s) ==> r == s
    &&& forall|x: T, y: T, r: T, s: T| is_product(x, y, r) && is_product(x, y, s) ==> r == s
    &&& forall|x: T, y: T, r: T, s: T| is_quotient(x, y, r) && is_quotient(x, y, s) ==> r == s
    &&& forall|x: T, r: T, s: T| is_negation(x, r) && is_negation(x, s) ==> r == s
    &&& forall|x: T, r: T, s: T| is_magnitude(x, r) && is_magnitude(x, s) ==> r == s
    &&& forall|x: T, r: T, s: T| is_root(x, r) && is_root(x, s) ==> r == s
    &&& forall|x: T, r: T, s: T| is_log(x, r) && is_log(x, s) ==> r == s
    &&& forall|x: T, y: T, b: bool, c: bool| is_below(x, y, b) && is_below(x, y, c) ==> b == c
    &&& forall|x: T, b: bool, c: bool|
        is_finite_answer(x, b) && is_finite_answer(x, c) ==> b == c
}

/// Squaring forgets the order of a subtraction: the square of `x - y` is
/// the square of `y - x`.
pub open spec fn squares_forget_order<T: Scalar>() -> bool {
    forall|x: T, y: T, u: T, v: T, s: T, t: T|
        is_diff(x, y, u) && is_diff(y, x, v) && is_product(u, u, s) && is_product(v, v, t) ==> s
            == t
}

/// Zero stays zero: the square of zero, the sum of two zeros and the
/// square root of zero are zero.
pub open spec fn zero_stays_zero<T: Scalar>() -> bool {
    &&& forall|z: T, r: T| is_zero(z) && is_product(z, z, r) ==> is_zero(r)
    &&& forall|z: T, w: T, r: T| is_zero(z) && is_zero(w) && is_sum(z, w, r) ==> is_zero(r)
    &&& forall|z: T, r: T| is_zero(z) && is_root(z, r) ==> is_zero(r)
}

/// No square root is below zero.
pub open spec fn roots_are_not_negative<T: Scalar>() -> bool {
    forall|x: T, r: T, z: T, b: bool| is_root(x, r) && is_zero(z) && is_below(r, z, b) ==> !b
}

} // verus!
