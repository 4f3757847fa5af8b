//! What the engine offers to the code that updates parameters: the interface
//! of an optimizer, and the penalties on a weight.

use crate::arena::Arena;
use crate::scalar::{
    count_value, product_of, signum_of, sum_of, zero_test_of, zero_value, Scalar,
};
use vstd::prelude::*;

verus! {

/// A parameter: the handles of its value cell and of its gradient cell.
#[derive(Debug, Clone, Copy, PartialEq, Eq)]
pub struct Param {
    pub data: usize,
    pub gradient: usize,
}

/// An optimizer over parameters of an arena. `T` is what the optimizer keeps
/// for each parameter.
///
/// After a backward pass, `step` updates the values of the parameters from
/// their gradients, and `zero_grad` makes their gradient cells ready for the
/// next pass. How it does either is the optimizer's own affair.
pub trait Optimizer<S: Scalar, T: From<Param>> {
    fn step(&mut self, arena: &mut Arena<S>);

    fn zero_grad(&mut self, arena: &mut Arena<S>);
}

/// A penalty on the size of a weight: what it adds to the weight's gradient.
pub trait Penalty<T: Scalar>: Send + Sync {
    fn penalise(&self, w: &T) -> T;
}

/// `r` is a value of `2 * lambda * w`.
pub open spec fn l2_penalty_of<T: Scalar>(lambda: T, w: T, r: T) -> bool {
    exists|two: T, p: T|
        #![trigger product_of(two, lambda, p)]
        {
            &&& count_value(2, two)
            &&& product_of(two, lambda, p)
            &&& product_of(p, w, r)
        }
}

/// `r` is a value of `lambda * signum(w)`.
pub open spec fn l1_slope_of<T: Scalar>(lambda: T, w: T, r: T) -> bool {
    exists|s: T| #[trigger] signum_of(w, s) && product_of(lambda, s, r)
}

/// `r` is a value of `lambda * signum(w)` where `w` is not zero, and a zero
/// where it is.
pub open spec fn l1_penalty_of<T: Scalar>(lambda: T, w: T, r: T) -> bool {
    exists|z: bool|
        {
            &&& #[trigger] zero_test_of(w, z)
            &&& if z {
                zero_value(r)
            } else {
                l1_slope_of(lambda, w, r)
            }
        }
}

/// `r` is a value of `lambda_l1 * signum(w) + 2 * lambda_l2 * w`.
pub open spec fn elastic_net_slope_of<T: Scalar>(lambda_l1: T, lambda_l2: T, w: T, r: T) -> bool {
    exists|a: T, b: T|
        #![trigger l1_slope_of(lambda_l1, w, a), l2_penalty_of(lambda_l2, w, b)]
        {
            &&& l1_slope_of(lambda_l1, w, a)
            &&& l2_penalty_of(lambda_l2, w, b)
            &&& sum_of(a, b, r)
        }
}

/// `r` is a value of `lambda_l1 * signum(w) + 2 * lambda_l2 * w` where `w` is
/// not zero, and a zero where it is.
pub open spec fn elastic_net_penalty_of<T: Scalar>(lambda_l1: T, lambda_l2: T, w: T, r: T) -> bool {
    exists|z: bool|
        {
            &&& #[trigger] zero_test_of(w, z)
            &&& if z {
                zero_value(r)
            } else {
                elastic_net_slope_of(lambda_l1, lambda_l2, w, r)
            }
        }
}

/// `2 * lambda * w`.
fn l2_term<T: Scalar>(lambda: T, w: T) -> (r: T)
    ensures
        l2_penalty_of(lambda, w, r),
{
    let two = T::from_count(2);
    let p = two.mul(lambda);
    let r = p.mul(w);
    assert(product_of(two, lambda, p));
    r
}

/// `lambda * signum(w)`.
fn l1_term<T: Scalar>(lambda: T, w: T) -> (r: T)
    ensures
        l1_slope_of(lambda, w, r),
{
    let s = w.signum();
    let r = lambda.mul(s);
    assert(signum_of(w, s));
    r
}

/// The L2 penalty, also known as weight decay.
#[derive(Debug, PartialEq)]
pub struct L2<T> {
    pub lambda: T,
}

/// The L1 penalty.
#[derive(Debug, PartialEq)]
pub struct L1<T> {
    pub lambda: T,
}

/// The elastic net penalty: the sum of an L1 and an L2 penalty.
#[derive(Debug, PartialEq)]
pub struct ElasticNet<T> {
    pub lambda_l1: T,
    pub lambda_l2: T,
}

impl<T: Scalar + Send + Sync> Penalty<T> for L2<T> {
    fn penalise(&self, w: &T) -> (r: T)
        ensures
            l2_penalty_of(self.lambda, *w, r),
    {
        l2_term(self.lambda, *w)
    }
}

impl<T: Scalar + Send + Sync> Penalty<T> for L1<T> {
    fn penalise(&self, w: &T) -> (r: T)
        ensures
            l1_penalty_of(self.lambda, *w, r),
    {
        let z = w.is_zero();
        assert(zero_test_of(*w, z));
        if !z {
            l1_term(self.lambda, *w)
        } else {
            T::zero()
        }
    }
}

impl<T: Scalar + Send + Sync> Penalty<T> for ElasticNet<T> {
    fn penalise(&self, w: &T) -> (r: T)
        ensures
            elastic_net_penalty_of(self.lambda_l1, self.lambda_l2, *w, r),
    {
        let z = w.is_zero();
        assert(zero_test_of(*w, z));
        if !z {
            let a = l1_term(self.lambda_l1, *w);
            let b = l2_term(self.lambda_l2, *w);
            let r = a.add(b);
            assert(elastic_net_slope_of(self.lambda_l1, self.lambda_l2, *w, r));
            r
        } else {
            T::zero()
        }
    }
}

} // verus!
