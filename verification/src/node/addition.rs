//! Elementwise addition of two operands that are stretched to a common shape.

use crate::arena::Arena;
use crate::gradient::pushed;
use crate::node::{receives, Backward, Data, Forward, Gradient, Overwrite};
use crate::scalar::{single_valued, sum_of, Scalar};
use crate::shape::{broadcasts_to, can_broadcast, source_index};
use crate::tensor::{reduction_of, Tensor};
use std::marker::PhantomData;
use vstd::prelude::*;

verus! {

/// `out` holds, at every position, a value of the sum of the elements that
/// `left` and `right`, stretched to its shape, have there.
pub open spec fn sum_of_operands<T: Scalar>(
    left: Tensor<T>,
    right: Tensor<T>,
    out: Tensor<T>,
) -> bool {
    &&& out.wf()
    &&& forall|i: int|
        0 <= i < out@.len() ==> sum_of(
            left@[source_index(left.dims(), out.dims(), i)],
            right@[source_index(right.dims(), out.dims(), i)],
            #[trigger] out@[i],
        )
}

/// The sum of two operands. `left`, `right` and `data` are the value cells of
/// the operands and of the node itself.
#[derive(Debug, PartialEq, Eq)]
pub struct Addition<T> {
    pub left: usize,
    pub right: usize,
    pub data: usize,
    pub computed: bool,
    pub scalar: PhantomData<T>,
}

impl<T: Scalar> Addition<T> {
    /// A node over the given cells, not yet computed.
    pub fn new(left: usize, right: usize, data: usize) -> (r: Self)
        ensures
            r == (Addition::<T> { left, right, data, computed: false, scalar: PhantomData }),
    {
        Addition { left, right, data, computed: false, scalar: PhantomData }
    }
}

impl<T: Scalar> Data<T> for Addition<T> {
    open spec fn data_cell(&self) -> usize {
        self.data
    }

    fn data_id(&self) -> usize {
        self.data
    }
}

impl<T: Scalar> Forward<T> for Addition<T> {
    /// The cells are there, and both operands can be stretched to the shape of
    /// the node's own cell.
    open spec fn wf(&self, arena: Arena<T>) -> bool {
        &&& arena.wf()
        &&& arena.has_data(self.left)
        &&& arena.has_data(self.right)
        &&& arena.has_data(self.data)
        &&& broadcasts_to(
            arena.data@[self.left as int].dims(),
            arena.data@[self.data as int].dims(),
        )
        &&& broadcasts_to(
            arena.data@[self.right as int].dims(),
            arena.data@[self.data as int].dims(),
        )
    }

    open spec fn computed(&self) -> bool {
        self.computed
    }

    /// `out` holds the sum of the operands as they are in `arena`.
    open spec fn computes(&self, arena: Arena<T>, out: Tensor<T>) -> bool {
        sum_of_operands(arena.data@[self.left as int], arena.data@[self.right as int], out)
    }

    proof fn lemma_wf(&self, arena: Arena<T>) {
    }

    proof fn lemma_wf_layout(&self, before: Arena<T>, after: Arena<T>) {
    }

    proof fn lemma_computes_single_valued(&self, arena: Arena<T>, o1: Tensor<T>, o2: Tensor<T>) {
        lemma_sum_of_operands_single_valued(
            arena.data@[self.left as int],
            arena.data@[self.right as int],
            o1,
            o2,
        );
    }

    fn is_wf(&self, arena: &Arena<T>) -> (r: bool) {
        arena.is_wf() && self.left < arena.data.len() && self.right < arena.data.len()
            && self.data < arena.data.len() && can_broadcast(
            &arena.data[self.left].shape,
            &arena.data[self.data].shape,
        ) && can_broadcast(&arena.data[self.right].shape, &arena.data[self.data].shape)
    }

    fn forward(&mut self, arena: &mut Arena<T>)
        ensures
            *final(self) == (Addition { computed: true, ..*old(self) }),
    {
        if self.computed {
            return ;
        }
        let out = Tensor::zip_broadcast(
            &arena.data[self.left],
            &arena.data[self.right],
            &arena.data[self.data].shape,
            T::add,
        );
        arena.data[self.data] = out;
        self.computed = true;
    }

    fn was_computed(&self) -> (r: bool) {
        self.computed
    }

    fn reset_computation(&mut self)
        ensures
            *final(self) == (Addition { computed: false, ..*old(self) }),
    {
        self.computed = false;
    }
}

/// `after` is `before` once an operand of an addition received its share of
/// the gradient in cell `gradient`: that gradient, summed down to the shape of
/// the operand's cell `operand`, written by the rule of the first write.
pub open spec fn addition_backward<T: Scalar>(
    before: Arena<T>,
    gradient: usize,
    operand: usize,
    after: Arena<T>,
) -> bool {
    receives(
        before,
        operand,
        after,
        |c: Tensor<T>|
            reduction_of(
                before.gradients@[gradient as int].buffer->0,
                before.gradients@[operand as int].dims(),
                c,
            ),
    )
}

/// What an operand's share of the backward pass of an addition needs: both
/// cells track a gradient, and the operand's shape can be stretched to the
/// node's.
pub open spec fn addition_backward_ready<T: Scalar>(
    arena: Arena<T>,
    gradient: usize,
    operand: usize,
) -> bool {
    &&& arena.wf()
    &&& arena.tracks(gradient)
    &&& arena.tracks(operand)
    &&& broadcasts_to(
        arena.gradients@[operand as int].dims(),
        arena.gradients@[gradient as int].dims(),
    )
}

/// Whether an operand's share of the backward pass of an addition can be
/// handed over.
fn is_addition_backward_ready<T: Scalar>(arena: &Arena<T>, gradient: usize, operand: usize) -> (r:
    bool)
    ensures
        r == addition_backward_ready(*arena, gradient, operand),
{
    arena.is_wf() && arena.is_tracking(gradient) && arena.is_tracking(operand) && can_broadcast(
        &arena.gradients[operand].shape,
        &arena.gradients[gradient].shape,
    )
}

/// Sums the gradient in cell `gradient` down to the shape of the cell
/// `operand` and writes it there.
fn push_reduced<T: Scalar>(arena: &mut Arena<T>, gradient: usize, operand: usize)
    requires
        addition_backward_ready(*old(arena), gradient, operand),
    ensures
        final(arena).wf(),
        addition_backward(*old(arena), gradient, operand, *final(arena)),
{
    let c = arena.gradients[gradient].tensor().reduce(&arena.gradients[operand].shape);
    arena.push(operand, &c);
    assert(pushed(old(arena).gradients@[operand as int], c, arena.gradients@[operand as int]));
}

/// The part of the backward pass of an addition that serves the left operand.
/// `gradient` is the gradient cell of the addition, `operand_gradient` that of
/// the operand.
#[derive(Debug, PartialEq, Eq)]
pub struct AdditionBackwardLeft<T> {
    pub operand_gradient: usize,
    pub gradient: usize,
    pub scalar: PhantomData<T>,
}

impl<T: Scalar> AdditionBackwardLeft<T> {
    /// A unit over the given cells.
    pub fn new(operand_gradient: usize, gradient: usize) -> (r: Self)
        ensures
            r == (AdditionBackwardLeft::<T> { operand_gradient, gradient, scalar: PhantomData }),
    {
        AdditionBackwardLeft { operand_gradient, gradient, scalar: PhantomData }
    }
}

impl<T: Scalar> Gradient<T> for AdditionBackwardLeft<T> {
    open spec fn gradient_cell(&self) -> usize {
        self.gradient
    }

    fn gradient_id(&self) -> usize {
        self.gradient
    }
}

impl<T: Scalar> Overwrite<T> for AdditionBackwardLeft<T> {
}

impl<T: Scalar> Backward<T> for AdditionBackwardLeft<T> {
    /// Both cells track a gradient, and the operand's shape can be stretched
    /// to the node's.
    open spec fn ready(&self, arena: Arena<T>) -> bool {
        addition_backward_ready(arena, self.gradient, self.operand_gradient)
    }

    /// `after` is `before` once the operand received its share: the node's
    /// gradient, summed down to the operand's shape, written by the rule of the
    /// first write.
    open spec fn effect(&self, before: Arena<T>, after: Arena<T>) -> bool {
        addition_backward(before, self.gradient, self.operand_gradient, after)
    }

    proof fn lemma_ready(&self, arena: Arena<T>) {
    }

    proof fn lemma_ready_layout(&self, before: Arena<T>, after: Arena<T>) {
    }

    fn is_ready(&self, arena: &Arena<T>) -> (r: bool) {
        is_addition_backward_ready(arena, self.gradient, self.operand_gradient)
    }

    fn backward(&self, arena: &mut Arena<T>) {
        push_reduced(arena, self.gradient, self.operand_gradient);
    }
}

/// The part of the backward pass of an addition that serves the right operand.
/// `gradient` is the gradient cell of the addition, `operand_gradient` that of
/// the operand.
#[derive(Debug, PartialEq, Eq)]
pub struct AdditionBackwardRight<T> {
    pub operand_gradient: usize,
    pub gradient: usize,
    pub scalar: PhantomData<T>,
}

impl<T: Scalar> AdditionBackwardRight<T> {
    /// A unit over the given cells.
    pub fn new(operand_gradient: usize, gradient: usize) -> (r: Self)
        ensures
            r == (AdditionBackwardRight::<T> { operand_gradient, gradient, scalar: PhantomData }),
    {
        AdditionBackwardRight { operand_gradient, gradient, scalar: PhantomData }
    }
}

impl<T: Scalar> Gradient<T> for AdditionBackwardRight<T> {
    open spec fn gradient_cell(&self) -> usize {
        self.gradient
    }

    fn gradient_id(&self) -> usize {
        self.gradient
    }
}

impl<T: Scalar> Overwrite<T> for AdditionBackwardRight<T> {
}

impl<T: Scalar> Backward<T> for AdditionBackwardRight<T> {
    /// Both cells track a gradient, and the operand's shape can be stretched
    /// to the node's.
    open spec fn ready(&self, arena: Arena<T>) -> bool {
        addition_backward_ready(arena, self.gradient, self.operand_gradient)
    }

    /// `after` is `before` once the operand received its share: the node's
    /// gradient, summed down to the operand's shape, written by the rule of the
    /// first write.
    open spec fn effect(&self, before: Arena<T>, after: Arena<T>) -> bool {
        addition_backward(before, self.gradient, self.operand_gradient, after)
    }

    proof fn lemma_ready(&self, arena: Arena<T>) {
    }

    proof fn lemma_ready_layout(&self, before: Arena<T>, after: Arena<T>) {
    }

    fn is_ready(&self, arena: &Arena<T>) -> (r: bool) {
        is_addition_backward_ready(arena, self.gradient, self.operand_gradient)
    }

    fn backward(&self, arena: &mut Arena<T>) {
        push_reduced(arena, self.gradient, self.operand_gradient);
    }
}

/// The backward pass of an addition: the left operand's share, then the
/// right's. Both units read the gradient cell of the addition.
#[derive(Debug, PartialEq, Eq)]
pub struct AdditionBackward<T> {
    pub left: AdditionBackwardLeft<T>,
    pub right: AdditionBackwardRight<T>,
}

impl<T: Scalar> AdditionBackward<T> {
    /// The two units, to be run in this order.
    pub fn new(left: AdditionBackwardLeft<T>, right: AdditionBackwardRight<T>) -> (r: Self)
        ensures
            r == (AdditionBackward { left, right }),
    {
        AdditionBackward { left, right }
    }
}

impl<T: Scalar> Gradient<T> for AdditionBackward<T> {
    open spec fn gradient_cell(&self) -> usize {
        self.left.gradient
    }

    fn gradient_id(&self) -> usize {
        self.left.gradient
    }
}

impl<T: Scalar> Overwrite<T> for AdditionBackward<T> {
}

impl<T: Scalar> Backward<T> for AdditionBackward<T> {
    /// Both units can run, and they read one gradient cell: the node's.
    open spec fn ready(&self, arena: Arena<T>) -> bool {
        &&& self.left.ready(arena)
        &&& self.right.ready(arena)
        &&& self.left.gradient == self.right.gradient
    }

    /// `after` is `before` once the left unit ran and then the right one.
    open spec fn effect(&self, before: Arena<T>, after: Arena<T>) -> bool {
        exists|mid: Arena<T>|
            #![trigger self.left.effect(before, mid)]
            self.left.effect(before, mid) && self.right.effect(mid, after)
    }

    proof fn lemma_ready(&self, arena: Arena<T>) {
    }

    proof fn lemma_ready_layout(&self, before: Arena<T>, after: Arena<T>) {
    }

    fn is_ready(&self, arena: &Arena<T>) -> (r: bool) {
        self.left.is_ready(arena) && self.right.is_ready(arena) && self.left.gradient
            == self.right.gradient
    }

    fn backward(&self, arena: &mut Arena<T>) {
        self.left.backward(arena);
        let ghost mid = *arena;
        self.right.backward(arena);
        assert(self.left.effect(*old(arena), mid));
    }
}

/// Over a single-valued scalar the sum of two operands, in a given shape, has
/// one value.
pub proof fn lemma_sum_of_operands_single_valued<T: Scalar>(
    left: Tensor<T>,
    right: Tensor<T>,
    o1: Tensor<T>,
    o2: Tensor<T>,
)
    requires
        single_valued::<T>(),
        o1.dims() == o2.dims(),
        sum_of_operands(left, right, o1),
        sum_of_operands(left, right, o2),
    ensures
        o1@ == o2@,
{
    assert(o1@ =~= o2@);
}

} // verus!
