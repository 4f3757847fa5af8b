//! The numbers the engine computes with.
//!
//! The engine never looks inside a number. It obtains numbers from the
//! operations of [`Scalar`] and hands them back to those operations, so every
//! contract in this crate is stated over what those operations returned.

use vstd::prelude::*;

verus! {

/// The arithmetic an element type must offer.
///
/// The operations are total and carry no contract of their own: an
/// implementation may round, saturate, or return a different result on a
/// second call with the same arguments. The predicates below name "a value that
/// a call of this operation returned on these arguments", and the contracts of
/// the engine are built from them.
pub trait Scalar: Copy {
    /// The additive identity.
    fn zero() -> Self;

    /// The multiplicative identity.
    fn one() -> Self;

    /// The number that stands for a count of elements.
    fn from_count(n: usize) -> Self;

    fn add(self, rhs: Self) -> Self;

    fn sub(self, rhs: Self) -> Self;

    fn mul(self, rhs: Self) -> Self;

    fn div(self, rhs: Self) -> Self;

    fn neg(self) -> Self;

    /// The greater of the two.
    fn max(self, rhs: Self) -> Self;

    /// The exponential function.
    fn exp(self) -> Self;

    /// The natural logarithm.
    fn ln(self) -> Self;

    /// The hyperbolic tangent.
    fn tanh(self) -> Self;

    /// One with the sign of `self`.
    fn signum(self) -> Self;

    /// Whether `self` compares equal to zero.
    fn is_zero(self) -> bool;
}

/// `r` is a value of `Scalar::zero`.
pub open spec fn zero_value<T: Scalar>(r: T) -> bool {
    call_ensures(T::zero, (), r)
}

/// `r` is a value of `Scalar::one`.
pub open spec fn one_value<T: Scalar>(r: T) -> bool {
    call_ensures(T::one, (), r)
}

/// `r` is a value of `Scalar::from_count` on `n`.
pub open spec fn count_value<T: Scalar>(n: usize, r: T) -> bool {
    call_ensures(T::from_count, (n,), r)
}

/// `r` is a value of `a + b`.
pub open spec fn sum_of<T: Scalar>(a: T, b: T, r: T) -> bool {
    call_ensures(T::add, (a, b), r)
}

/// `r` is a value of `a - b`.
pub open spec fn difference_of<T: Scalar>(a: T, b: T, r: T) -> bool {
    call_ensures(T::sub, (a, b), r)
}

/// `r` is a value of `a * b`.
pub open spec fn product_of<T: Scalar>(a: T, b: T, r: T) -> bool {
    call_ensures(T::mul, (a, b), r)
}

/// `r` is a value of `a / b`.
pub open spec fn quotient_of<T: Scalar>(a: T, b: T, r: T) -> bool {
    call_ensures(T::div, (a, b), r)
}

/// `r` is a value of `-a`.
pub open spec fn negation_of<T: Scalar>(a: T, r: T) -> bool {
    call_ensures(T::neg, (a,), r)
}

/// `r` is a value of `max(a, b)`.
pub open spec fn max_of<T: Scalar>(a: T, b: T, r: T) -> bool {
    call_ensures(T::max, (a, b), r)
}

/// `r` is a value of `exp(a)`.
pub open spec fn exp_of<T: Scalar>(a: T, r: T) -> bool {
    call_ensures(T::exp, (a,), r)
}

/// `r` is a value of `ln(a)`.
pub open spec fn ln_of<T: Scalar>(a: T, r: T) -> bool {
    call_ensures(T::ln, (a,), r)
}

/// `r` is a value of `tanh(a)`.
pub open spec fn tanh_of<T: Scalar>(a: T, r: T) -> bool {
    call_ensures(T::tanh, (a,), r)
}

/// `r` is a value of `signum(a)`.
pub open spec fn signum_of<T: Scalar>(a: T, r: T) -> bool {
    call_ensures(T::signum, (a,), r)
}

/// `b` is an answer of `Scalar::is_zero` on `a`.
pub open spec fn zero_test_of<T: Scalar>(a: T, b: bool) -> bool {
    call_ensures(T::is_zero, (a,), b)
}

/// Every operation of `T` returns one value on given arguments: what it
/// returns is a function of what it is given.
///
/// The engine does not ask this of a scalar. Where it holds, what a contract
/// of the engine says of a result holds of one result only.
pub open spec fn single_valued<T: Scalar>() -> bool {
    &&& forall|r1: T, r2: T|
        #![trigger zero_value(r1), zero_value(r2)]
        zero_value(r1) && zero_value(r2) ==> r1 == r2
    &&& forall|r1: T, r2: T|
        #![trigger one_value(r1), one_value(r2)]
        one_value(r1) && one_value(r2) ==> r1 == r2
    &&& forall|n: usize, r1: T, r2: T|
        #![trigger count_value(n, r1), count_value(n, r2)]
        count_value(n, r1) && count_value(n, r2) ==> r1 == r2
    &&& forall|a: T, b: T, r1: T, r2: T|
        #![trigger sum_of(a, b, r1), sum_of(a, b, r2)]
        sum_of(a, b, r1) && sum_of(a, b, r2) ==> r1 == r2
    &&& forall|a: T, b: T, r1: T, r2: T|
        #![trigger difference_of(a, b, r1), difference_of(a, b, r2)]
        difference_of(a, b, r1) && difference_of(a, b, r2) ==> r1 == r2
    &&& forall|a: T, b: T, r1: T, r2: T|
        #![trigger product_of(a, b, r1), product_of(a, b, r2)]
        product_of(a, b, r1) && product_of(a, b, r2) ==> r1 == r2
    &&& forall|a: T, b: T, r1: T, r2: T|
        #![trigger quotient_of(a, b, r1), quotient_of(a, b, r2)]
        quotient_of(a, b, r1) && quotient_of(a, b, r2) ==> r1 == r2
    &&& forall|a: T, r1: T, r2: T|
        #![trigger negation_of(a, r1), negation_of(a, r2)]
        negation_of(a, r1) && negation_of(a, r2) ==> r1 == r2
    &&& forall|a: T, b: T, r1: T, r2: T|
        #![trigger max_of(a, b, r1), max_of(a, b, r2)]
        max_of(a, b, r1) && max_of(a, b, r2) ==> r1 == r2
    &&& forall|a: T, r1: T, r2: T|
        #![trigger exp_of(a, r1), exp_of(a, r2)]
        exp_of(a, r1) && exp_of(a, r2) ==> r1 == r2
    &&& forall|a: T, r1: T, r2: T|
        #![trigger ln_of(a, r1), ln_of(a, r2)]
        ln_of(a, r1) && ln_of(a, r2) ==> r1 == r2
    &&& forall|a: T, r1: T, r2: T|
        #![trigger tanh_of(a, r1), tanh_of(a, r2)]
        tanh_of(a, r1) && tanh_of(a, r2) ==> r1 == r2
    &&& forall|a: T, r1: T, r2: T|
        #![trigger signum_of(a, r1), signum_of(a, r2)]
        signum_of(a, r1) && signum_of(a, r2) ==> r1 == r2
    &&& forall|a: T, b1: bool, b2: bool|
        #![trigger zero_test_of(a, b1), zero_test_of(a, b2)]
        zero_test_of(a, b1) && zero_test_of(a, b2) ==> b1 == b2
}

} // verus!
