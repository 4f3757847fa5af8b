//! Binary cross entropy between logits and targets, reduced to one number.

use crate::arena::Arena;
use crate::formula::{
    cross_entropy, cross_entropy_of, cross_entropy_slope, cross_entropy_slope_of,
    lemma_cross_entropy_single_valued, lemma_cross_entropy_slope_single_valued,
    lemma_mean_cross_entropy_slope_single_valued, mean_cross_entropy_slope,
    mean_cross_entropy_slope_of,
};
use crate::gradient::pushed;
use crate::node::{receives, Backward, Data, Forward, Gradient, Overwrite, Reduction};
use crate::scalar::{count_value, quotient_of, single_valued, sum_of, zero_value, Scalar};
use crate::shape::{is_scalar_shape, same_shape, size};
use crate::tensor::Tensor;
use std::marker::PhantomData;
use vstd::prelude::*;

verus! {

/// `r` is a value of adding, in order and starting from a zero, the cross
/// entropies of the first `n` logits of `x` against the targets of `t`.
pub open spec fn total_cross_entropy<T: Scalar>(x: Seq<T>, t: Seq<T>, n: nat, r: T) -> bool
    decreases n,
{
    if n == 0 {
        zero_value(r)
    } else {
        exists|p: T, c: T|
            #![trigger sum_of(p, c, r)]
            {
                &&& total_cross_entropy(x, t, (n - 1) as nat, p)
                &&& cross_entropy_of(x[n - 1], t[n - 1], c)
                &&& sum_of(p, c, r)
            }
    }
}

/// A total over `n` terms extends by the cross entropy of term `n`.
pub proof fn lemma_total_extend<T: Scalar>(x: Seq<T>, t: Seq<T>, n: nat, p: T, c: T, r: T)
    requires
        total_cross_entropy(x, t, n, p),
        cross_entropy_of(x[n as int], t[n as int], c),
        sum_of(p, c, r),
    ensures
        total_cross_entropy(x, t, n + 1, r),
{
    let n1: nat = n + 1;
    assert((n1 - 1) as nat == n);
    assert(n1 - 1 == n as int);
}

/// `out` is a tensor without axes whose one element is a value of the loss of
/// the logits `x` against the targets `t`: the total of the cross entropies,
/// divided by their number where the reduction is the mean.
pub open spec fn loss_of<T: Scalar>(
    reduction: Reduction,
    x: Tensor<T>,
    t: Tensor<T>,
    out: Tensor<T>,
) -> bool {
    &&& out.wf()
    &&& out.dims() == Seq::<usize>::empty()
    &&& out@.len() == 1
    &&& match reduction {
        Reduction::Sum => total_cross_entropy(x@, t@, x@.len(), out@[0]),
        Reduction::Mean => exists|total: T, n: T|
            #![trigger quotient_of(total, n, out@[0])]
            {
                &&& total_cross_entropy(x@, t@, x@.len(), total)
                &&& count_value(x@.len() as usize, n)
                &&& quotient_of(total, n, out@[0])
            },
    }
}

/// `c` holds, at every position, a value of `(sigmoid(x) - t) * g` for the
/// logit `x` and the target `t` there and the one element `g` of the node's
/// gradient, divided by the number of logits where the reduction is the mean.
pub open spec fn loss_share<T: Scalar>(
    reduction: Reduction,
    g: Tensor<T>,
    x: Tensor<T>,
    t: Tensor<T>,
    c: Tensor<T>,
) -> bool {
    &&& c.wf()
    &&& c.dims() == x.dims()
    &&& match reduction {
        Reduction::Sum => forall|i: int|
            0 <= i < c@.len() ==> cross_entropy_slope_of(x@[i], t@[i], g@[0], #[trigger] c@[i]),
        Reduction::Mean => exists|n: T|
            {
                &&& #[trigger] count_value(x@.len() as usize, n)
                &&& forall|i: int|
                    0 <= i < c@.len() ==> mean_cross_entropy_slope_of(
                        x@[i],
                        t@[i],
                        g@[0],
                        n,
                        #[trigger] c@[i],
                    )
            },
    }
}

/// The shape without axes: that of a tensor of one element.
fn scalar_shape() -> (r: Vec<usize>)
    ensures
        r@ == Seq::<usize>::empty(),
        size(r@) == 1,
{
    Vec::new()
}

/// The loss of logits against targets. `input`, `target` and `data` are the
/// value cells of the logits, of the targets and of the node itself.
#[allow(clippy::upper_case_acronyms)]
#[derive(Debug, PartialEq, Eq)]
pub struct BCEWithLogitsLoss<T> {
    pub input: usize,
    pub target: usize,
    pub data: usize,
    pub reduction: Reduction,
    pub computed: bool,
    pub scalar: PhantomData<T>,
}

impl<T: Scalar> BCEWithLogitsLoss<T> {
    /// A node over the given operands, not yet computed, with a cell of its
    /// own that holds a zero.
    pub fn new(arena: &mut Arena<T>, input: usize, target: usize, reduction: Reduction) -> (r:
        Self)
        requires
            old(arena).wf(),
        ensures
            final(arena).wf(),
            r == (BCEWithLogitsLoss::<T> {
                input,
                target,
                data: old(arena).data@.len() as usize,
                reduction,
                computed: false,
                scalar: PhantomData,
            }),
            final(arena).gradients@ == old(arena).gradients@,
            final(arena).data@.len() == old(arena).data@.len() + 1,
            forall|k: int|
                0 <= k < old(arena).data@.len() ==> final(arena).data@[k] == old(arena).data@[k],
            final(arena).data@[r.data as int].dims() == Seq::<usize>::empty(),
            final(arena).data@[r.data as int]@.len() == 1,
            zero_value(final(arena).data@[r.data as int]@[0]),
    {
        let shape = scalar_shape();
        let zero = Tensor::zeros(&shape);
        let data = arena.insert_data(zero);
        BCEWithLogitsLoss { input, target, data, reduction, computed: false, scalar: PhantomData }
    }
}

impl<T: Scalar> Data<T> for BCEWithLogitsLoss<T> {
    open spec fn data_cell(&self) -> usize {
        self.data
    }

    fn data_id(&self) -> usize {
        self.data
    }
}

impl<T: Scalar> Forward<T> for BCEWithLogitsLoss<T> {
    /// The cells are there; logits and targets have one shape, and the node's
    /// own cell has no axes.
    open spec fn wf(&self, arena: Arena<T>) -> bool {
        &&& arena.wf()
        &&& arena.has_data(self.input)
        &&& arena.has_data(self.target)
        &&& arena.has_data(self.data)
        &&& arena.data@[self.input as int].dims() == arena.data@[self.target as int].dims()
        &&& arena.data@[self.data as int].dims() == Seq::<usize>::empty()
    }

    open spec fn computed(&self) -> bool {
        self.computed
    }

    /// `out` holds the loss of the operands as they are in `arena`.
    open spec fn computes(&self, arena: Arena<T>, out: Tensor<T>) -> bool {
        loss_of(
            self.reduction,
            arena.data@[self.input as int],
            arena.data@[self.target as int],
            out,
        )
    }

    proof fn lemma_wf(&self, arena: Arena<T>) {
    }

    proof fn lemma_wf_layout(&self, before: Arena<T>, after: Arena<T>) {
    }

    proof fn lemma_computes_single_valued(&self, arena: Arena<T>, o1: Tensor<T>, o2: Tensor<T>) {
        lemma_loss_single_valued(
            self.reduction,
            arena.data@[self.input as int],
            arena.data@[self.target as int],
            o1,
            o2,
        );
    }

    fn is_wf(&self, arena: &Arena<T>) -> (r: bool) {
        arena.is_wf() && self.input < arena.data.len() && self.target < arena.data.len()
            && self.data < arena.data.len() && same_shape(
            &arena.data[self.input].shape,
            &arena.data[self.target].shape,
        ) && is_scalar_shape(&arena.data[self.data].shape)
    }

    fn forward(&mut self, arena: &mut Arena<T>)
        ensures
            *final(self) == (BCEWithLogitsLoss { computed: true, ..*old(self) }),
    {
        if self.was_computed() {
            return ;
        }
        self.computed = true;
        let input = &arena.data[self.input];
        let target = &arena.data[self.target];
        let n: usize = input.data.len();
        let mut total = T::zero();
        let mut i: usize = 0;
        while i < n
            invariant
                i <= n,
                n == input@.len(),
                n == target@.len(),
                total_cross_entropy(input@, target@, i as nat, total),
            decreases n - i,
        {
            let c = cross_entropy(input.data[i], target.data[i]);
            let next = total.add(c);
            proof {
                lemma_total_extend(input@, target@, i as nat, total, c, next);
            }
            total = next;
            i += 1;
        }
        let out = match self.reduction {
            Reduction::Mean => {
                let count = T::from_count(n);
                let mean = total.div(count);
                let out = Tensor::filled(&scalar_shape(), mean);
                assert(count_value(input@.len() as usize, count));
                assert(quotient_of(total, count, out@[0]));
                out
            },
            Reduction::Sum => Tensor::filled(&scalar_shape(), total),
        };
        arena.data[self.data] = out;
    }

    fn was_computed(&self) -> (r: bool) {
        self.computed
    }

    fn reset_computation(&mut self)
        ensures
            *final(self) == (BCEWithLogitsLoss { computed: false, ..*old(self) }),
    {
        self.computed = false;
    }
}

/// The backward pass of the loss. `gradient` is the gradient cell of the node,
/// `diff_input` that of the logits, and `input` and `target` are the value
/// cells of the logits and of the targets.
#[allow(clippy::upper_case_acronyms)]
#[derive(Debug, PartialEq, Eq)]
pub struct BCEWithLogitsLossBackward<T> {
    pub gradient: usize,
    pub diff_input: usize,
    pub input: usize,
    pub target: usize,
    pub reduction: Reduction,
    pub scalar: PhantomData<T>,
}

impl<T: Scalar> BCEWithLogitsLossBackward<T> {
    /// A unit over the given operands, with a gradient cell of its own that
    /// holds a zero and is to be overwritten.
    pub fn new(
        arena: &mut Arena<T>,
        diff_input: usize,
        input: usize,
        target: usize,
        reduction: Reduction,
    ) -> (r: Self)
        requires
            old(arena).wf(),
        ensures
            final(arena).wf(),
            r == (BCEWithLogitsLossBackward::<T> {
                gradient: old(arena).gradients@.len() as usize,
                diff_input,
                input,
                target,
                reduction,
                scalar: PhantomData,
            }),
            final(arena).data@ == old(arena).data@,
            final(arena).gradients@.len() == old(arena).gradients@.len() + 1,
            forall|k: int|
                0 <= k < old(arena).gradients@.len() ==> final(arena).gradients@[k] == old(
                    arena,
                ).gradients@[k],
            final(arena).tracks(r.gradient),
            final(arena).gradients@[r.gradient as int].dims() == Seq::<usize>::empty(),
            final(arena).gradients@[r.gradient as int].overwrite,
            final(arena).gradients@[r.gradient as int].values().len() == 1,
            zero_value(final(arena).gradients@[r.gradient as int].values()[0]),
    {
        let shape = scalar_shape();
        let gradient = arena.insert_gradient(&shape);
        BCEWithLogitsLossBackward {
            gradient,
            diff_input,
            input,
            target,
            reduction,
            scalar: PhantomData,
        }
    }
}

impl<T: Scalar> Gradient<T> for BCEWithLogitsLossBackward<T> {
    open spec fn gradient_cell(&self) -> usize {
        self.gradient
    }

    fn gradient_id(&self) -> usize {
        self.gradient
    }
}

impl<T: Scalar> Overwrite<T> for BCEWithLogitsLossBackward<T> {
}

impl<T: Scalar> Backward<T> for BCEWithLogitsLossBackward<T> {
    /// The cells are there and both gradient cells track a gradient; logits,
    /// targets and the gradient of the logits have one shape, and the node's
    /// gradient has no axes.
    open spec fn ready(&self, arena: Arena<T>) -> bool {
        &&& arena.wf()
        &&& arena.tracks(self.gradient)
        &&& arena.tracks(self.diff_input)
        &&& arena.has_data(self.input)
        &&& arena.has_data(self.target)
        &&& arena.gradients@[self.gradient as int].dims() == Seq::<usize>::empty()
        &&& arena.data@[self.input as int].dims() == arena.data@[self.target as int].dims()
        &&& arena.gradients@[self.diff_input as int].dims() == arena.data@[self.input as int].dims()
    }

    /// `after` is `before` once the logits received their share: the slope of
    /// the loss in each logit times the one element of the node's gradient,
    /// written by the rule of the first write.
    open spec fn effect(&self, before: Arena<T>, after: Arena<T>) -> bool {
        receives(
            before,
            self.diff_input,
            after,
            |c: Tensor<T>|
                loss_share(
                    self.reduction,
                    before.gradients@[self.gradient as int].buffer->0,
                    before.data@[self.input as int],
                    before.data@[self.target as int],
                    c,
                ),
        )
    }

    proof fn lemma_ready(&self, arena: Arena<T>) {
    }

    proof fn lemma_ready_layout(&self, before: Arena<T>, after: Arena<T>) {
    }

    fn is_ready(&self, arena: &Arena<T>) -> (r: bool) {
        arena.is_wf() && arena.is_tracking(self.gradient) && arena.is_tracking(self.diff_input)
            && self.input < arena.data.len() && self.target < arena.data.len() && is_scalar_shape(
            &arena.gradients[self.gradient].shape,
        ) && same_shape(&arena.data[self.input].shape, &arena.data[self.target].shape)
            && same_shape(&arena.gradients[self.diff_input].shape, &arena.data[self.input].shape)
    }

    fn backward(&self, arena: &mut Arena<T>) {
        let g = arena.gradients[self.gradient].tensor();
        let seed = g.data[0];
        let x = &arena.data[self.input];
        let t = &arena.data[self.target];
        let c = match self.reduction {
            Reduction::Mean => {
                let n = T::from_count(x.data.len());
                let slope = |a: T, b: T| -> (r: T)
                    ensures
                        mean_cross_entropy_slope_of(a, b, seed, n, r),
                    { mean_cross_entropy_slope(a, b, seed, n) };
                let c = Tensor::zip(x, t, slope);
                assert(count_value(x@.len() as usize, n));
                c
            },
            Reduction::Sum => {
                let slope = |a: T, b: T| -> (r: T)
                    ensures
                        cross_entropy_slope_of(a, b, seed, r),
                    { cross_entropy_slope(a, b, seed) };
                Tensor::zip(x, t, slope)
            },
        };
        arena.gradients[self.diff_input].push(&c);
        assert(pushed(
            old(arena).gradients@[self.diff_input as int],
            c,
            arena.gradients@[self.diff_input as int],
        ));
    }
}

/// Over a single-valued scalar the total of the cross entropies has one value.
pub proof fn lemma_total_single_valued<T: Scalar>(x: Seq<T>, t: Seq<T>, n: nat, r1: T, r2: T)
    requires
        single_valued::<T>(),
        total_cross_entropy(x, t, n, r1),
        total_cross_entropy(x, t, n, r2),
    ensures
        r1 == r2,
    decreases n,
{
    if n > 0 {
        let (p1, c1) = choose|p: T, c: T|
            #![trigger sum_of(p, c, r1)]
            {
                &&& total_cross_entropy(x, t, (n - 1) as nat, p)
                &&& cross_entropy_of(x[n - 1], t[n - 1], c)
                &&& sum_of(p, c, r1)
            };
        let (p2, c2) = choose|p: T, c: T|
            #![trigger sum_of(p, c, r2)]
            {
                &&& total_cross_entropy(x, t, (n - 1) as nat, p)
                &&& cross_entropy_of(x[n - 1], t[n - 1], c)
                &&& sum_of(p, c, r2)
            };
        lemma_total_single_valued(x, t, (n - 1) as nat, p1, p2);
        lemma_cross_entropy_single_valued(x[n - 1], t[n - 1], c1, c2);
    }
}

/// Over a single-valued scalar the loss has one value.
pub proof fn lemma_loss_single_valued<T: Scalar>(
    reduction: Reduction,
    x: Tensor<T>,
    t: Tensor<T>,
    o1: Tensor<T>,
    o2: Tensor<T>,
)
    requires
        single_valued::<T>(),
        loss_of(reduction, x, t, o1),
        loss_of(reduction, x, t, o2),
    ensures
        o1@ == o2@,
        o1.dims() == o2.dims(),
{
    match reduction {
        Reduction::Sum => {
            lemma_total_single_valued(x@, t@, x@.len(), o1@[0], o2@[0]);
        },
        Reduction::Mean => {
            let (total1, n1) = choose|total: T, n: T|
                #![trigger quotient_of(total, n, o1@[0])]
                {
                    &&& total_cross_entropy(x@, t@, x@.len(), total)
                    &&& count_value(x@.len() as usize, n)
                    &&& quotient_of(total, n, o1@[0])
                };
            let (total2, n2) = choose|total: T, n: T|
                #![trigger quotient_of(total, n, o2@[0])]
                {
                    &&& total_cross_entropy(x@, t@, x@.len(), total)
                    &&& count_value(x@.len() as usize, n)
                    &&& quotient_of(total, n, o2@[0])
                };
            lemma_total_single_valued(x@, t@, x@.len(), total1, total2);
        },
    }
    assert(o1@ =~= o2@);
}

/// Over a single-valued scalar the logits' share of the gradient has one
/// value.
pub proof fn lemma_loss_share_single_valued<T: Scalar>(
    reduction: Reduction,
    g: Tensor<T>,
    x: Tensor<T>,
    t: Tensor<T>,
    c1: Tensor<T>,
    c2: Tensor<T>,
)
    requires
        single_valued::<T>(),
        loss_share(reduction, g, x, t, c1),
        loss_share(reduction, g, x, t, c2),
    ensures
        c1@ == c2@,
{
    match reduction {
        Reduction::Sum => {
            assert forall|i: int| 0 <= i < c1@.len() implies c1@[i] == c2@[i] by {
                lemma_cross_entropy_slope_single_valued(x@[i], t@[i], g@[0], c1@[i], c2@[i]);
            }
        },
        Reduction::Mean => {
            let n1 = choose|n: T|
                {
                    &&& #[trigger] count_value(x@.len() as usize, n)
                    &&& forall|i: int|
                        0 <= i < c1@.len() ==> mean_cross_entropy_slope_of(
                            x@[i],
                            t@[i],
                            g@[0],
                            n,
                            #[trigger] c1@[i],
                        )
                };
            let n2 = choose|n: T|
                {
                    &&& #[trigger] count_value(x@.len() as usize, n)
                    &&& forall|i: int|
                        0 <= i < c2@.len() ==> mean_cross_entropy_slope_of(
                            x@[i],
                            t@[i],
                            g@[0],
                            n,
                            #[trigger] c2@[i],
                        )
                };
            assert(n1 == n2);
            assert forall|i: int| 0 <= i < c1@.len() implies c1@[i] == c2@[i] by {
                lemma_mean_cross_entropy_slope_single_valued(
                    x@[i],
                    t@[i],
                    g@[0],
                    n1,
                    c1@[i],
                    c2@[i],
                );
            }
        },
    }
    assert(c1@ =~= c2@);
}

} // verus!
