//! The scalar formulas of the operations, each with the relation between its
//! arguments and a value it returned.
//!
//! A formula is a fixed sequence of calls of [`Scalar`] operations. Its
//! relation says that there are intermediate values, each a value of its call,
//! that lead from the arguments to the result.

use crate::scalar::{
    difference_of, exp_of, ln_of, max_of, negation_of, one_value, product_of, quotient_of,
    single_valued, sum_of, zero_value, Scalar,
};
use vstd::prelude::*;

verus! {

/// `y` is a value of the logistic function `1 / (1 + exp(-x))`.
pub open spec fn sigmoid_of<T: Scalar>(x: T, y: T) -> bool {
    exists|nx: T, e: T, one: T, d: T|
        #![trigger negation_of(x, nx), exp_of(nx, e), sum_of(one, e, d)]
        {
            &&& negation_of(x, nx)
            &&& exp_of(nx, e)
            &&& one_value(one)
            &&& sum_of(one, e, d)
            &&& quotient_of(one, d, y)
        }
}

/// The logistic function `1 / (1 + exp(-x))`.
pub fn sigmoid<T: Scalar>(x: T) -> (y: T)
    ensures
        sigmoid_of(x, y),
{
    let nx = x.neg();
    let e = nx.exp();
    let one = T::one();
    let d = one.add(e);
    let y = one.div(d);
    assert(negation_of(x, nx) && exp_of(nx, e) && sum_of(one, e, d));
    y
}

/// `r` is a value of `g * y * (1 - y)`: the gradient `g` times the slope of the
/// logistic function where its value is `y`.
pub open spec fn sigmoid_slope_of<T: Scalar>(g: T, y: T, r: T) -> bool {
    exists|p: T, one: T, q: T|
        #![trigger product_of(g, y, p), difference_of(one, y, q)]
        {
            &&& product_of(g, y, p)
            &&& one_value(one)
            &&& difference_of(one, y, q)
            &&& product_of(p, q, r)
        }
}

/// `g * y * (1 - y)`.
pub fn sigmoid_slope<T: Scalar>(g: T, y: T) -> (r: T)
    ensures
        sigmoid_slope_of(g, y, r),
{
    let p = g.mul(y);
    let one = T::one();
    let q = one.sub(y);
    let r = p.mul(q);
    assert(product_of(g, y, p) && difference_of(one, y, q));
    r
}

/// `r` is a value of `g * (1 - y * y)`: the gradient `g` times the slope of the
/// hyperbolic tangent where its value is `y`.
pub open spec fn tanh_slope_of<T: Scalar>(g: T, y: T, r: T) -> bool {
    exists|sq: T, one: T, q: T|
        #![trigger product_of(y, y, sq), difference_of(one, sq, q)]
        {
            &&& product_of(y, y, sq)
            &&& one_value(one)
            &&& difference_of(one, sq, q)
            &&& product_of(g, q, r)
        }
}

/// `g * (1 - y * y)`.
pub fn tanh_slope<T: Scalar>(g: T, y: T) -> (r: T)
    ensures
        tanh_slope_of(g, y, r),
{
    let sq = y.mul(y);
    let one = T::one();
    let q = one.sub(sq);
    let r = g.mul(q);
    assert(product_of(y, y, sq) && difference_of(one, sq, q));
    r
}

/// `out` is a value of `-g * l / (r * r)`: the gradient `g` times the slope of
/// `l / r` in `r`.
pub open spec fn quotient_slope_of<T: Scalar>(g: T, l: T, r: T, out: T) -> bool {
    exists|ng: T, p: T, sq: T|
        #![trigger negation_of(g, ng), product_of(ng, l, p), product_of(r, r, sq)]
        {
            &&& negation_of(g, ng)
            &&& product_of(ng, l, p)
            &&& product_of(r, r, sq)
            &&& quotient_of(p, sq, out)
        }
}

/// `-g * l / (r * r)`.
pub fn quotient_slope<T: Scalar>(g: T, l: T, r: T) -> (out: T)
    ensures
        quotient_slope_of(g, l, r, out),
{
    let ng = g.neg();
    let p = ng.mul(l);
    let sq = r.mul(r);
    let out = p.div(sq);
    assert(negation_of(g, ng) && product_of(ng, l, p) && product_of(r, r, sq));
    out
}

/// `nx` is a value of `-x` and `m` one of `max(-x, 0)`.
pub open spec fn margin_of<T: Scalar>(x: T, nx: T, m: T) -> bool {
    exists|zero: T| #[trigger]
        max_of(nx, zero, m) && negation_of(x, nx) && zero_value(zero)
}

/// `l` is a value of `ln(exp(-m) + exp(nx - m))`.
pub open spec fn log_sum_of<T: Scalar>(nx: T, m: T, l: T) -> bool {
    exists|nm: T, e1: T, d: T, e2: T, s: T|
        #![trigger
            negation_of(m, nm),
            exp_of(nm, e1),
            difference_of(nx, m, d),
            exp_of(d, e2),
            sum_of(e1, e2, s),
        ]
        {
            &&& negation_of(m, nm)
            &&& exp_of(nm, e1)
            &&& difference_of(nx, m, d)
            &&& exp_of(d, e2)
            &&& sum_of(e1, e2, s)
            &&& ln_of(s, l)
        }
}

/// `c` is a value of the binary cross entropy of the logit `x` against the
/// target `t`, in the form that does not overflow: with `m = max(-x, 0)`,
/// `(1 - t) * x + m + ln(exp(-m) + exp(-x - m))`.
pub open spec fn cross_entropy_of<T: Scalar>(x: T, t: T, c: T) -> bool {
    exists|nx: T, m: T, one: T, a: T, b: T, s: T, l: T|
        #![trigger
            margin_of(x, nx, m),
            difference_of(one, t, a),
            product_of(a, x, b),
            sum_of(b, m, s),
            log_sum_of(nx, m, l),
        ]
        {
            &&& margin_of(x, nx, m)
            &&& one_value(one)
            &&& difference_of(one, t, a)
            &&& product_of(a, x, b)
            &&& sum_of(b, m, s)
            &&& log_sum_of(nx, m, l)
            &&& sum_of(s, l, c)
        }
}

/// The binary cross entropy of the logit `x` against the target `t`.
pub fn cross_entropy<T: Scalar>(x: T, t: T) -> (c: T)
    ensures
        cross_entropy_of(x, t, c),
{
    let nx = x.neg();
    let zero = T::zero();
    let m = nx.max(zero);
    assert(max_of(nx, zero, m));
    assert(margin_of(x, nx, m));
    let one = T::one();
    let a = one.sub(t);
    let b = a.mul(x);
    let s = b.add(m);
    let nm = m.neg();
    let e1 = nm.exp();
    let d = nx.sub(m);
    let e2 = d.exp();
    let es = e1.add(e2);
    let l = es.ln();
    assert(negation_of(m, nm) && exp_of(nm, e1) && difference_of(nx, m, d) && exp_of(d, e2)
        && sum_of(e1, e2, es));
    assert(log_sum_of(nx, m, l));
    let c = s.add(l);
    assert(difference_of(one, t, a) && product_of(a, x, b) && sum_of(b, m, s));
    c
}

/// `r` is a value of `(sigmoid(x) - t) * g`: the gradient `g` times the slope
/// of the cross entropy in the logit `x`.
pub open spec fn cross_entropy_slope_of<T: Scalar>(x: T, t: T, g: T, r: T) -> bool {
    exists|y: T, d: T|
        #![trigger sigmoid_of(x, y), difference_of(y, t, d)]
        {
            &&& sigmoid_of(x, y)
            &&& difference_of(y, t, d)
            &&& product_of(d, g, r)
        }
}

/// `(sigmoid(x) - t) * g`.
pub fn cross_entropy_slope<T: Scalar>(x: T, t: T, g: T) -> (r: T)
    ensures
        cross_entropy_slope_of(x, t, g, r),
{
    let y = sigmoid(x);
    let d = y.sub(t);
    let r = d.mul(g);
    assert(sigmoid_of(x, y) && difference_of(y, t, d));
    r
}

/// `r` is a value of `(sigmoid(x) - t) * g / n`.
pub open spec fn mean_cross_entropy_slope_of<T: Scalar>(x: T, t: T, g: T, n: T, r: T) -> bool {
    exists|p: T| #[trigger] cross_entropy_slope_of(x, t, g, p) && quotient_of(p, n, r)
}

/// `(sigmoid(x) - t) * g / n`.
pub fn mean_cross_entropy_slope<T: Scalar>(x: T, t: T, g: T, n: T) -> (r: T)
    ensures
        mean_cross_entropy_slope_of(x, t, g, n, r),
{
    let p = cross_entropy_slope(x, t, g);
    let r = p.div(n);
    assert(cross_entropy_slope_of(x, t, g, p));
    r
}

/// Over a single-valued scalar the logistic function has one value.
pub proof fn lemma_sigmoid_single_valued<T: Scalar>(x: T, y1: T, y2: T)
    requires
        single_valued::<T>(),
        sigmoid_of(x, y1),
        sigmoid_of(x, y2),
    ensures
        y1 == y2,
{
}

/// Over a single-valued scalar the slope term of the logistic function has
/// one value.
pub proof fn lemma_sigmoid_slope_single_valued<T: Scalar>(g: T, y: T, r1: T, r2: T)
    requires
        single_valued::<T>(),
        sigmoid_slope_of(g, y, r1),
        sigmoid_slope_of(g, y, r2),
    ensures
        r1 == r2,
{
}

/// Over a single-valued scalar the slope term of the hyperbolic tangent has
/// one value.
pub proof fn lemma_tanh_slope_single_valued<T: Scalar>(g: T, y: T, r1: T, r2: T)
    requires
        single_valued::<T>(),
        tanh_slope_of(g, y, r1),
        tanh_slope_of(g, y, r2),
    ensures
        r1 == r2,
{
}

/// Over a single-valued scalar the slope term of a quotient in its divisor has
/// one value.
pub proof fn lemma_quotient_slope_single_valued<T: Scalar>(g: T, l: T, r: T, o1: T, o2: T)
    requires
        single_valued::<T>(),
        quotient_slope_of(g, l, r, o1),
        quotient_slope_of(g, l, r, o2),
    ensures
        o1 == o2,
{
}

/// Over a single-valued scalar the cross entropy has one value.
pub proof fn lemma_cross_entropy_single_valued<T: Scalar>(x: T, t: T, c1: T, c2: T)
    requires
        single_valued::<T>(),
        cross_entropy_of(x, t, c1),
        cross_entropy_of(x, t, c2),
    ensures
        c1 == c2,
{
    let (nx1, m1, one1, a1, b1, s1, l1) = choose|nx: T, m: T, one: T, a: T, b: T, s: T, l: T|
        #![trigger
            margin_of(x, nx, m),
            difference_of(one, t, a),
            product_of(a, x, b),
            sum_of(b, m, s),
            log_sum_of(nx, m, l),
        ]
        {
            &&& margin_of(x, nx, m)
            &&& one_value(one)
            &&& difference_of(one, t, a)
            &&& product_of(a, x, b)
            &&& sum_of(b, m, s)
            &&& log_sum_of(nx, m, l)
            &&& sum_of(s, l, c1)
        };
    let (nx2, m2, one2, a2, b2, s2, l2) = choose|nx: T, m: T, one: T, a: T, b: T, s: T, l: T|
        #![trigger
            margin_of(x, nx, m),
            difference_of(one, t, a),
            product_of(a, x, b),
            sum_of(b, m, s),
            log_sum_of(nx, m, l),
        ]
        {
            &&& margin_of(x, nx, m)
            &&& one_value(one)
            &&& difference_of(one, t, a)
            &&& product_of(a, x, b)
            &&& sum_of(b, m, s)
            &&& log_sum_of(nx, m, l)
            &&& sum_of(s, l, c2)
        };
    assert(nx1 == nx2 && m1 == m2);
    assert(l1 == l2);
    assert(b1 == b2);
}

/// Over a single-valued scalar the slope term of the cross entropy has one
/// value.
pub proof fn lemma_cross_entropy_slope_single_valued<T: Scalar>(x: T, t: T, g: T, r1: T, r2: T)
    requires
        single_valued::<T>(),
        cross_entropy_slope_of(x, t, g, r1),
        cross_entropy_slope_of(x, t, g, r2),
    ensures
        r1 == r2,
{
    let (y1, d1) = choose|y: T, d: T|
        #![trigger sigmoid_of(x, y), difference_of(y, t, d)]
        sigmoid_of(x, y) && difference_of(y, t, d) && product_of(d, g, r1);
    let (y2, d2) = choose|y: T, d: T|
        #![trigger sigmoid_of(x, y), difference_of(y, t, d)]
        sigmoid_of(x, y) && difference_of(y, t, d) && product_of(d, g, r2);
    lemma_sigmoid_single_valued(x, y1, y2);
}

/// Over a single-valued scalar the slope term of the mean cross entropy has
/// one value.
pub proof fn lemma_mean_cross_entropy_slope_single_valued<T: Scalar>(
    x: T,
    t: T,
    g: T,
    n: T,
    r1: T,
    r2: T,
)
    requires
        single_valued::<T>(),
        mean_cross_entropy_slope_of(x, t, g, n, r1),
        mean_cross_entropy_slope_of(x, t, g, n, r2),
    ensures
        r1 == r2,
{
    let p1 = choose|p: T| #[trigger] cross_entropy_slope_of(x, t, g, p) && quotient_of(p, n, r1);
    let p2 = choose|p: T| #[trigger] cross_entropy_slope_of(x, t, g, p) && quotient_of(p, n, r2);
    lemma_cross_entropy_slope_single_valued(x, t, g, p1, p2);
}

} // verus!
