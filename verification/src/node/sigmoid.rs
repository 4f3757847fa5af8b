//! The logistic function, element by element.

use crate::arena::Arena;
use crate::formula::{
    lemma_sigmoid_single_valued, lemma_sigmoid_slope_single_valued, sigmoid, sigmoid_of,
    sigmoid_slope, sigmoid_slope_of,
};
use crate::gradient::accumulated;
use crate::node::{gains, Backward, Data, Forward, Gradient, Overwrite};
use crate::scalar::{single_valued, Scalar};
use crate::shape::same_shape;
use crate::tensor::Tensor;
use std::marker::PhantomData;
use vstd::prelude::*;

verus! {

/// `out` holds, at every position, a value of the logistic function of the
/// element that `operand` has there.
pub open spec fn sigmoid_of_operand<T: Scalar>(operand: Tensor<T>, out: Tensor<T>) -> bool {
    &&& out.wf()
    &&& out.dims() == operand.dims()
    &&& forall|i: int| 0 <= i < out@.len() ==> sigmoid_of(operand@[i], #[trigger] out@[i])
}

/// `c` holds, at every position, a value of `g * y * (1 - y)` for the elements
/// that the gradient `g` and the node's output `y` have there.
pub open spec fn sigmoid_share<T: Scalar>(g: Tensor<T>, y: Tensor<T>, c: Tensor<T>) -> bool {
    &&& c.wf()
    &&& c.dims() == g.dims()
    &&& forall|i: int| 0 <= i < c@.len() ==> sigmoid_slope_of(g@[i], y@[i], #[trigger] c@[i])
}

/// The logistic function of an operand. `operand_data` and `data` are the
/// value cells of the operand and of the node itself.
#[derive(Debug, PartialEq, Eq)]
pub struct Sigmoid<T> {
    pub operand_data: usize,
    pub data: usize,
    pub computed: bool,
    pub scalar: PhantomData<T>,
}

impl<T: Scalar> Sigmoid<T> {
    /// A node over the given cells, not yet computed.
    pub fn new(operand_data: usize, data: usize) -> (r: Self)
        ensures
            r == (Sigmoid::<T> { operand_data, data, computed: false, scalar: PhantomData }),
    {
        Sigmoid { operand_data, data, computed: false, scalar: PhantomData }
    }
}

impl<T: Scalar> Data<T> for Sigmoid<T> {
    open spec fn data_cell(&self) -> usize {
        self.data
    }

    fn data_id(&self) -> usize {
        self.data
    }
}

impl<T: Scalar> Forward<T> for Sigmoid<T> {
    /// The cells are there and have one shape.
    open spec fn wf(&self, arena: Arena<T>) -> bool {
        &&& arena.wf()
        &&& arena.has_data(self.operand_data)
        &&& arena.has_data(self.data)
        &&& arena.data@[self.operand_data as int].dims() == arena.data@[self.data as int].dims()
    }

    open spec fn computed(&self) -> bool {
        self.computed
    }

    /// `out` holds the logistic function of the operand as it is in `arena`.
    open spec fn computes(&self, arena: Arena<T>, out: Tensor<T>) -> bool {
        sigmoid_of_operand(arena.data@[self.operand_data as int], out)
    }

    proof fn lemma_wf(&self, arena: Arena<T>) {
    }

    proof fn lemma_wf_layout(&self, before: Arena<T>, after: Arena<T>) {
    }

    proof fn lemma_computes_single_valued(&self, arena: Arena<T>, o1: Tensor<T>, o2: Tensor<T>) {
        lemma_sigmoid_of_operand_single_valued(arena.data@[self.operand_data as int], o1, o2);
    }

    fn is_wf(&self, arena: &Arena<T>) -> (r: bool) {
        arena.is_wf() && self.operand_data < arena.data.len() && self.data < arena.data.len()
            && same_shape(&arena.data[self.operand_data].shape, &arena.data[self.data].shape)
    }

    fn forward(&mut self, arena: &mut Arena<T>)
        ensures
            *final(self) == (Sigmoid { computed: true, ..*old(self) }),
    {
        if self.computed {
            return ;
        }
        let out = arena.data[self.operand_data].map(sigmoid::<T>);
        arena.data[self.data] = out;
        self.computed = true;
    }

    fn was_computed(&self) -> (r: bool) {
        self.computed
    }

    fn reset_computation(&mut self)
        ensures
            *final(self) == (Sigmoid { computed: false, ..*old(self) }),
    {
        self.computed = false;
    }
}

/// The backward pass of the logistic function. `gradient` is the gradient cell
/// of the node, `operand_gradient` that of the operand, and `data` the value
/// cell of the node, which holds what `forward` computed.
#[derive(Debug, PartialEq, Eq)]
pub struct SigmoidBackward<T> {
    pub operand_gradient: usize,
    pub data: usize,
    pub gradient: usize,
    pub scalar: PhantomData<T>,
}

impl<T: Scalar> SigmoidBackward<T> {
    /// A unit over the given cells.
    pub fn new(operand_gradient: usize, data: usize, gradient: usize) -> (r: Self)
        ensures
            r == (SigmoidBackward::<T> { operand_gradient, data, gradient, scalar: PhantomData }),
    {
        SigmoidBackward { operand_gradient, data, gradient, scalar: PhantomData }
    }
}

impl<T: Scalar> Gradient<T> for SigmoidBackward<T> {
    open spec fn gradient_cell(&self) -> usize {
        self.gradient
    }

    fn gradient_id(&self) -> usize {
        self.gradient
    }
}

impl<T: Scalar> Overwrite<T> for SigmoidBackward<T> {
}

impl<T: Scalar> Backward<T> for SigmoidBackward<T> {
    /// The cells are there, have one shape, and track a gradient.
    open spec fn ready(&self, arena: Arena<T>) -> bool {
        &&& arena.wf()
        &&& arena.tracks(self.gradient)
        &&& arena.tracks(self.operand_gradient)
        &&& arena.has_data(self.data)
        &&& arena.data@[self.data as int].dims() == arena.gradients@[self.gradient as int].dims()
        &&& arena.gradients@[self.operand_gradient as int].dims()
            == arena.gradients@[self.gradient as int].dims()
    }

    /// `after` is `before` once the operand received the node's gradient times
    /// the slope of the logistic function. The slope is taken from the node's
    /// output `y`, as `y * (1 - y)`; the operand's value is not read. The
    /// product is added to the operand's gradient, whatever its flag says.
    open spec fn effect(&self, before: Arena<T>, after: Arena<T>) -> bool {
        gains(
            before,
            self.operand_gradient,
            after,
            |c: Tensor<T>|
                sigmoid_share(
                    before.gradients@[self.gradient as int].buffer->0,
                    before.data@[self.data as int],
                    c,
                ),
        )
    }

    proof fn lemma_ready(&self, arena: Arena<T>) {
    }

    proof fn lemma_ready_layout(&self, before: Arena<T>, after: Arena<T>) {
    }

    fn is_ready(&self, arena: &Arena<T>) -> (r: bool) {
        arena.is_wf() && arena.is_tracking(self.gradient) && arena.is_tracking(
            self.operand_gradient,
        ) && self.data < arena.data.len() && same_shape(
            &arena.data[self.data].shape,
            &arena.gradients[self.gradient].shape,
        ) && same_shape(
            &arena.gradients[self.operand_gradient].shape,
            &arena.gradients[self.gradient].shape,
        )
    }

    fn backward(&self, arena: &mut Arena<T>) {
        let g = arena.gradients[self.gradient].tensor();
        let c = Tensor::zip(g, &arena.data[self.data], sigmoid_slope::<T>);
        arena.gradients[self.operand_gradient].accumulate(&c);
        assert(accumulated(
            old(arena).gradients@[self.operand_gradient as int],
            c,
            arena.gradients@[self.operand_gradient as int],
        ));
    }
}

/// Over a single-valued scalar the logistic function of an operand has one
/// value.
pub proof fn lemma_sigmoid_of_operand_single_valued<T: Scalar>(
    operand: Tensor<T>,
    o1: Tensor<T>,
    o2: Tensor<T>,
)
    requires
        single_valued::<T>(),
        sigmoid_of_operand(operand, o1),
        sigmoid_of_operand(operand, o2),
    ensures
        o1@ == o2@,
{
    assert forall|i: int| 0 <= i < o1@.len() implies o1@[i] == o2@[i] by {
        lemma_sigmoid_single_valued(operand@[i], o1@[i], o2@[i]);
    }
    assert(o1@ =~= o2@);
}

/// Over a single-valued scalar the operand's share of the gradient has one
/// value.
pub proof fn lemma_sigmoid_share_single_valued<T: Scalar>(
    g: Tensor<T>,
    y: Tensor<T>,
    c1: Tensor<T>,
    c2: Tensor<T>,
)
    requires
        single_valued::<T>(),
        sigmoid_share(g, y, c1),
        sigmoid_share(g, y, c2),
    ensures
        c1@ == c2@,
{
    assert forall|i: int| 0 <= i < c1@.len() implies c1@[i] == c2@[i] by {
        lemma_sigmoid_slope_single_valued(g@[i], y@[i], c1@[i], c2@[i]);
    }
    assert(c1@ =~= c2@);
}

} // verus!
