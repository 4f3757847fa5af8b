//! Elementwise division of two operands that are stretched to a common shape.

use crate::arena::Arena;
use crate::formula::{lemma_quotient_slope_single_valued, quotient_slope, quotient_slope_of};
use crate::gradient::{pushed, received};
use crate::node::{Backward, Data, Forward, Gradient, Overwrite};
use crate::scalar::{quotient_of, single_valued, Scalar};
use crate::shape::{broadcasts_to, can_broadcast, lemma_source_index_same, same_shape, source_index};
use crate::tensor::{reduction_of, Tensor};
use std::marker::PhantomData;
use vstd::prelude::*;

verus! {

/// `out` holds, at every position, a value of the quotient of the elements
/// that `left` and `right`, stretched to its shape, have there.
pub open spec fn quotient_of_operands<T: Scalar>(
    left: Tensor<T>,
    right: Tensor<T>,
    out: Tensor<T>,
) -> bool {
    &&& out.wf()
    &&& forall|i: int|
        0 <= i < out@.len() ==> quotient_of(
            left@[source_index(left.dims(), out.dims(), i)],
            right@[source_index(right.dims(), out.dims(), i)],
            #[trigger] out@[i],
        )
}

/// `out` holds, at every position `i`, a value of `g[i] / r`, the gradient
/// times the slope of the quotient in its dividend, where `r` is the element
/// that `right`, stretched to the shape of `g`, has there.
pub open spec fn dividend_partial<T: Scalar>(
    g: Tensor<T>,
    right: Tensor<T>,
    out: Tensor<T>,
) -> bool {
    &&& out.wf()
    &&& out.dims() == g.dims()
    &&& forall|i: int|
        0 <= i < out@.len() ==> quotient_of(
            g@[i],
            right@[source_index(right.dims(), g.dims(), i)],
            #[trigger] out@[i],
        )
}

/// `out` holds, at every position `i`, a value of `-g[i] * l / (r * r)`, the
/// gradient times the slope of the quotient in its divisor, where `l` and `r`
/// are the elements that `left` and `right`, stretched to the shape of `g`,
/// have there.
pub open spec fn divisor_partial<T: Scalar>(
    g: Tensor<T>,
    left: Tensor<T>,
    right: Tensor<T>,
    out: Tensor<T>,
) -> bool {
    &&& out.wf()
    &&& out.dims() == g.dims()
    &&& forall|i: int|
        0 <= i < out@.len() ==> quotient_slope_of(
            g@[i],
            left@[source_index(left.dims(), g.dims(), i)],
            right@[source_index(right.dims(), g.dims(), i)],
            #[trigger] out@[i],
        )
}

/// The quotient of two operands. `left_data`, `right_data` and `data` are the
/// value cells of the operands and of the node itself.
#[derive(Debug, PartialEq, Eq)]
pub struct Division<T> {
    pub left_data: usize,
    pub right_data: usize,
    pub data: usize,
    pub computed: bool,
    pub scalar: PhantomData<T>,
}

impl<T: Scalar> Division<T> {
    /// A node over the given cells, not yet computed.
    pub fn new(left_data: usize, right_data: usize, data: usize) -> (r: Self)
        ensures
            r == (Division::<T> {
                left_data,
                right_data,
                data,
                computed: false,
                scalar: PhantomData,
            }),
    {
        Division { left_data, right_data, data, computed: false, scalar: PhantomData }
    }
}

impl<T: Scalar> Data<T> for Division<T> {
    open spec fn data_cell(&self) -> usize {
        self.data
    }

    fn data_id(&self) -> usize {
        self.data
    }
}

impl<T: Scalar> Forward<T> for Division<T> {
    /// The cells are there, and both operands can be stretched to the shape of
    /// the node's own cell.
    open spec fn wf(&self, arena: Arena<T>) -> bool {
        &&& arena.wf()
        &&& arena.has_data(self.left_data)
        &&& arena.has_data(self.right_data)
        &&& arena.has_data(self.data)
        &&& broadcasts_to(
            arena.data@[self.left_data as int].dims(),
            arena.data@[self.data as int].dims(),
        )
        &&& broadcasts_to(
            arena.data@[self.right_data as int].dims(),
            arena.data@[self.data as int].dims(),
        )
    }

    open spec fn computed(&self) -> bool {
        self.computed
    }

    /// `out` holds the quotient of the operands as they are in `arena`. A
    /// zero divisor is not an error: the quotient is whatever the scalar's
    /// division returns.
    open spec fn computes(&self, arena: Arena<T>, out: Tensor<T>) -> bool {
        quotient_of_operands(
            arena.data@[self.left_data as int],
            arena.data@[self.right_data as int],
            out,
        )
    }

    proof fn lemma_wf(&self, arena: Arena<T>) {
    }

    proof fn lemma_wf_layout(&self, before: Arena<T>, after: Arena<T>) {
    }

    proof fn lemma_computes_single_valued(&self, arena: Arena<T>, o1: Tensor<T>, o2: Tensor<T>) {
        lemma_quotient_of_operands_single_valued(
            arena.data@[self.left_data as int],
            arena.data@[self.right_data as int],
            o1,
            o2,
        );
    }

    fn is_wf(&self, arena: &Arena<T>) -> (r: bool) {
        arena.is_wf() && self.left_data < arena.data.len() && self.right_data < arena.data.len()
            && self.data < arena.data.len() && can_broadcast(
            &arena.data[self.left_data].shape,
            &arena.data[self.data].shape,
        ) && can_broadcast(&arena.data[self.right_data].shape, &arena.data[self.data].shape)
    }

    fn forward(&mut self, arena: &mut Arena<T>)
        ensures
            *final(self) == (Division { computed: true, ..*old(self) }),
    {
        if self.computed {
            return ;
        }
        let out = Tensor::zip_broadcast(
            &arena.data[self.left_data],
            &arena.data[self.right_data],
            &arena.data[self.data].shape,
            T::div,
        );
        arena.data[self.data] = out;
        self.computed = true;
    }

    fn was_computed(&self) -> (r: bool) {
        self.computed
    }

    fn reset_computation(&mut self)
        ensures
            *final(self) == (Division { computed: false, ..*old(self) }),
    {
        self.computed = false;
    }
}

/// `after` is `before` but for the value cell `buffer` and the gradient cell
/// `operand`, which both keep their shapes.
pub open spec fn wrote_staged<T: Scalar>(
    before: Arena<T>,
    buffer: usize,
    operand: usize,
    after: Arena<T>,
) -> bool {
    &&& after.data@.len() == before.data@.len()
    &&& forall|k: int|
        0 <= k < before.data@.len() && k != buffer ==> after.data@[k] == before.data@[k]
    &&& after.data@[buffer as int].dims() == before.data@[buffer as int].dims()
    &&& after.gradients@.len() == before.gradients@.len()
    &&& forall|k: int|
        0 <= k < before.gradients@.len() && k != operand ==> after.gradients@[k]
            == before.gradients@[k]
    &&& after.gradients@[operand as int].dims() == before.gradients@[operand as int].dims()
}

/// The part of the backward pass of a division that serves the dividend.
///
/// `gradient` is the gradient cell of the division, `left_gradient` that of the
/// dividend, `right_data` the value cell of the divisor, and `buffer` a value
/// cell of the division's shape in which the partial is staged before it is
/// summed down to the shape of the dividend.
#[derive(Debug, PartialEq, Eq)]
pub struct DivisionBackwardLeft<T> {
    pub left_gradient: usize,
    pub right_data: usize,
    pub gradient: usize,
    pub buffer: usize,
    pub scalar: PhantomData<T>,
}

impl<T: Scalar> DivisionBackwardLeft<T> {
    /// A unit over the given cells.
    pub fn new(left_gradient: usize, right_data: usize, gradient: usize, buffer: usize) -> (r:
        Self)
        ensures
            r == (DivisionBackwardLeft::<T> {
                left_gradient,
                right_data,
                gradient,
                buffer,
                scalar: PhantomData,
            }),
    {
        DivisionBackwardLeft { left_gradient, right_data, gradient, buffer, scalar: PhantomData }
    }
}

impl<T: Scalar> Gradient<T> for DivisionBackwardLeft<T> {
    open spec fn gradient_cell(&self) -> usize {
        self.gradient
    }

    fn gradient_id(&self) -> usize {
        self.gradient
    }
}

impl<T: Scalar> Overwrite<T> for DivisionBackwardLeft<T> {
}

impl<T: Scalar> Backward<T> for DivisionBackwardLeft<T> {
    /// The cells are there and track a gradient, the buffer has the shape of
    /// the node, and the operands can be stretched to it.
    open spec fn ready(&self, arena: Arena<T>) -> bool {
        &&& arena.wf()
        &&& arena.tracks(self.gradient)
        &&& arena.tracks(self.left_gradient)
        &&& arena.has_data(self.right_data)
        &&& arena.has_data(self.buffer)
        &&& arena.data@[self.buffer as int].dims() == arena.gradients@[self.gradient as int].dims()
        &&& broadcasts_to(
            arena.data@[self.right_data as int].dims(),
            arena.gradients@[self.gradient as int].dims(),
        )
        &&& broadcasts_to(
            arena.gradients@[self.left_gradient as int].dims(),
            arena.gradients@[self.gradient as int].dims(),
        )
    }

    /// `after` is `before` once the dividend received its share: the buffer
    /// holds the partial `gradient / right`, and that partial, summed down to
    /// the dividend's shape, was written to the dividend's gradient by the rule
    /// of the first write.
    open spec fn effect(&self, before: Arena<T>, after: Arena<T>) -> bool {
        &&& wrote_staged(before, self.buffer, self.left_gradient, after)
        &&& dividend_partial(
            before.gradients@[self.gradient as int].buffer->0,
            before.data@[self.right_data as int],
            after.data@[self.buffer as int],
        )
        &&& received(
            before.gradients@[self.left_gradient as int],
            after.gradients@[self.left_gradient as int],
            |c: Tensor<T>|
                reduction_of(
                    after.data@[self.buffer as int],
                    before.gradients@[self.left_gradient as int].dims(),
                    c,
                ),
        )
    }

    proof fn lemma_ready(&self, arena: Arena<T>) {
    }

    proof fn lemma_ready_layout(&self, before: Arena<T>, after: Arena<T>) {
    }

    fn is_ready(&self, arena: &Arena<T>) -> (r: bool) {
        arena.is_wf() && arena.is_tracking(self.gradient) && arena.is_tracking(self.left_gradient)
            && self.right_data < arena.data.len() && self.buffer < arena.data.len() && same_shape(
            &arena.data[self.buffer].shape,
            &arena.gradients[self.gradient].shape,
        ) && can_broadcast(
            &arena.data[self.right_data].shape,
            &arena.gradients[self.gradient].shape,
        ) && can_broadcast(
            &arena.gradients[self.left_gradient].shape,
            &arena.gradients[self.gradient].shape,
        )
    }

    fn backward(&self, arena: &mut Arena<T>) {
        let g = arena.gradients[self.gradient].tensor();
        let staged = Tensor::zip_broadcast(g, &arena.data[self.right_data], &g.shape, T::div);
        proof {
            assert forall|i: int| 0 <= i < staged@.len() implies quotient_of(
                g@[i],
                arena.data@[self.right_data as int]@[source_index(
                    arena.data@[self.right_data as int].dims(),
                    g.dims(),
                    i,
                )],
                #[trigger] staged@[i],
            ) by {
                lemma_source_index_same(g.dims(), i);
            }
        }
        let c = staged.reduce(&arena.gradients[self.left_gradient].shape);
        arena.data[self.buffer] = staged;
        arena.gradients[self.left_gradient].push(&c);
        assert(pushed(
            old(arena).gradients@[self.left_gradient as int],
            c,
            arena.gradients@[self.left_gradient as int],
        ));
    }
}

/// The part of the backward pass of a division that serves the divisor.
///
/// `gradient` is the gradient cell of the division, `right_gradient` that of
/// the divisor, `left_data` and `right_data` the value cells of the operands,
/// and `buffer` a value cell of the division's shape in which the partial is
/// staged before it is summed down to the shape of the divisor.
#[derive(Debug, PartialEq, Eq)]
pub struct DivisionBackwardRight<T> {
    pub left_data: usize,
    pub right_data: usize,
    pub right_gradient: usize,
    pub gradient: usize,
    pub buffer: usize,
    pub scalar: PhantomData<T>,
}

impl<T: Scalar> DivisionBackwardRight<T> {
    /// A unit over the given cells.
    pub fn new(
        left_data: usize,
        right_data: usize,
        right_gradient: usize,
        gradient: usize,
        buffer: usize,
    ) -> (r: Self)
        ensures
            r == (DivisionBackwardRight::<T> {
                left_data,
                right_data,
                right_gradient,
                gradient,
                buffer,
                scalar: PhantomData,
            }),
    {
        DivisionBackwardRight {
            left_data,
            right_data,
            right_gradient,
            gradient,
            buffer,
            scalar: PhantomData,
        }
    }
}

impl<T: Scalar> Gradient<T> for DivisionBackwardRight<T> {
    open spec fn gradient_cell(&self) -> usize {
        self.gradient
    }

    fn gradient_id(&self) -> usize {
        self.gradient
    }
}

impl<T: Scalar> Overwrite<T> for DivisionBackwardRight<T> {
}

impl<T: Scalar> Backward<T> for DivisionBackwardRight<T> {
    /// The cells are there and track a gradient, the buffer has the shape of
    /// the node, and the operands can be stretched to it.
    open spec fn ready(&self, arena: Arena<T>) -> bool {
        &&& arena.wf()
        &&& arena.tracks(self.gradient)
        &&& arena.tracks(self.right_gradient)
        &&& arena.has_data(self.left_data)
        &&& arena.has_data(self.right_data)
        &&& arena.has_data(self.buffer)
        &&& arena.data@[self.buffer as int].dims() == arena.gradients@[self.gradient as int].dims()
        &&& broadcasts_to(
            arena.data@[self.left_data as int].dims(),
            arena.gradients@[self.gradient as int].dims(),
        )
        &&& broadcasts_to(
            arena.data@[self.right_data as int].dims(),
            arena.gradients@[self.gradient as int].dims(),
        )
        &&& broadcasts_to(
            arena.gradients@[self.right_gradient as int].dims(),
            arena.gradients@[self.gradient as int].dims(),
        )
    }

    /// `after` is `before` once the divisor received its share: the buffer
    /// holds the partial `-gradient * left / (right * right)`, and that partial, summed
    /// down to the divisor's shape, was written to the divisor's gradient by
    /// the rule of the first write.
    open spec fn effect(&self, before: Arena<T>, after: Arena<T>) -> bool {
        &&& wrote_staged(before, self.buffer, self.right_gradient, after)
        &&& divisor_partial(
            before.gradients@[self.gradient as int].buffer->0,
            before.data@[self.left_data as int],
            before.data@[self.right_data as int],
            after.data@[self.buffer as int],
        )
        &&& received(
            before.gradients@[self.right_gradient as int],
            after.gradients@[self.right_gradient as int],
            |c: Tensor<T>|
                reduction_of(
                    after.data@[self.buffer as int],
                    before.gradients@[self.right_gradient as int].dims(),
                    c,
                ),
        )
    }

    proof fn lemma_ready(&self, arena: Arena<T>) {
    }

    proof fn lemma_ready_layout(&self, before: Arena<T>, after: Arena<T>) {
    }

    fn is_ready(&self, arena: &Arena<T>) -> (r: bool) {
        arena.is_wf() && arena.is_tracking(self.gradient) && arena.is_tracking(self.right_gradient)
            && self.left_data < arena.data.len() && self.right_data < arena.data.len()
            && self.buffer < arena.data.len() && same_shape(
            &arena.data[self.buffer].shape,
            &arena.gradients[self.gradient].shape,
        ) && can_broadcast(
            &arena.data[self.left_data].shape,
            &arena.gradients[self.gradient].shape,
        ) && can_broadcast(
            &arena.data[self.right_data].shape,
            &arena.gradients[self.gradient].shape,
        ) && can_broadcast(
            &arena.gradients[self.right_gradient].shape,
            &arena.gradients[self.gradient].shape,
        )
    }

    fn backward(&self, arena: &mut Arena<T>) {
        let g = arena.gradients[self.gradient].tensor();
        proof {
            assert(broadcasts_to(g.dims(), g.dims()));
        }
        let staged = Tensor::zip3_broadcast(
            g,
            &arena.data[self.left_data],
            &arena.data[self.right_data],
            &g.shape,
            quotient_slope::<T>,
        );
        proof {
            assert forall|i: int| 0 <= i < staged@.len() implies quotient_slope_of(
                g@[i],
                arena.data@[self.left_data as int]@[source_index(
                    arena.data@[self.left_data as int].dims(),
                    g.dims(),
                    i,
                )],
                arena.data@[self.right_data as int]@[source_index(
                    arena.data@[self.right_data as int].dims(),
                    g.dims(),
                    i,
                )],
                #[trigger] staged@[i],
            ) by {
                lemma_source_index_same(g.dims(), i);
            }
        }
        let c = staged.reduce(&arena.gradients[self.right_gradient].shape);
        arena.data[self.buffer] = staged;
        arena.gradients[self.right_gradient].push(&c);
        assert(pushed(
            old(arena).gradients@[self.right_gradient as int],
            c,
            arena.gradients@[self.right_gradient as int],
        ));
    }
}

/// The backward pass of a division: the dividend's share, then the divisor's.
/// Both units read the gradient cell of the division.
#[derive(Debug, PartialEq, Eq)]
pub struct DivisionBackward<T> {
    pub left: DivisionBackwardLeft<T>,
    pub right: DivisionBackwardRight<T>,
}

impl<T: Scalar> DivisionBackward<T> {
    /// The two units, to be run in this order.
    pub fn new(left: DivisionBackwardLeft<T>, right: DivisionBackwardRight<T>) -> (r: Self)
        ensures
            r == (DivisionBackward { left, right }),
    {
        DivisionBackward { left, right }
    }
}

impl<T: Scalar> Gradient<T> for DivisionBackward<T> {
    open spec fn gradient_cell(&self) -> usize {
        self.left.gradient
    }

    fn gradient_id(&self) -> usize {
        self.left.gradient
    }
}

impl<T: Scalar> Overwrite<T> for DivisionBackward<T> {
}

impl<T: Scalar> Backward<T> for DivisionBackward<T> {
    /// Both units can run, and they read one gradient cell: the node's.
    open spec fn ready(&self, arena: Arena<T>) -> bool {
        &&& self.left.ready(arena)
        &&& self.right.ready(arena)
        &&& self.left.gradient == self.right.gradient
    }

    /// `after` is `before` once the left unit ran and then the right one.
    open spec fn effect(&self, before: Arena<T>, after: Arena<T>) -> bool {
        exists|mid: Arena<T>|
            #![trigger self.left.effect(before, mid)]
            self.left.effect(before, mid) && self.right.effect(mid, after)
    }

    proof fn lemma_ready(&self, arena: Arena<T>) {
    }

    proof fn lemma_ready_layout(&self, before: Arena<T>, after: Arena<T>) {
    }

    fn is_ready(&self, arena: &Arena<T>) -> (r: bool) {
        self.left.is_ready(arena) && self.right.is_ready(arena) && self.left.gradient
            == self.right.gradient
    }

    fn backward(&self, arena: &mut Arena<T>) {
        self.left.backward(arena);
        let ghost mid = *arena;
        self.right.backward(arena);
        assert(self.left.effect(*old(arena), mid));
    }
}

/// Over a single-valued scalar the quotient of two operands, in a given shape,
/// has one value.
pub proof fn lemma_quotient_of_operands_single_valued<T: Scalar>(
    left: Tensor<T>,
    right: Tensor<T>,
    o1: Tensor<T>,
    o2: Tensor<T>,
)
    requires
        single_valued::<T>(),
        o1.dims() == o2.dims(),
        quotient_of_operands(left, right, o1),
        quotient_of_operands(left, right, o2),
    ensures
        o1@ == o2@,
{
    assert(o1@ =~= o2@);
}

/// Over a single-valued scalar the partial of a quotient in its dividend has
/// one value.
pub proof fn lemma_dividend_partial_single_valued<T: Scalar>(
    g: Tensor<T>,
    right: Tensor<T>,
    o1: Tensor<T>,
    o2: Tensor<T>,
)
    requires
        single_valued::<T>(),
        dividend_partial(g, right, o1),
        dividend_partial(g, right, o2),
    ensures
        o1@ == o2@,
{
    assert(o1@ =~= o2@);
}

/// Over a single-valued scalar the partial of a quotient in its divisor has
/// one value.
pub proof fn lemma_divisor_partial_single_valued<T: Scalar>(
    g: Tensor<T>,
    left: Tensor<T>,
    right: Tensor<T>,
    o1: Tensor<T>,
    o2: Tensor<T>,
)
    requires
        single_valued::<T>(),
        divisor_partial(g, left, right, o1),
        divisor_partial(g, left, right, o2),
    ensures
        o1@ == o2@,
{
    assert forall|i: int| 0 <= i < o1@.len() implies o1@[i] == o2@[i] by {
        lemma_quotient_slope_single_valued(
            g@[i],
            left@[source_index(left.dims(), g.dims(), i)],
            right@[source_index(right.dims(), g.dims(), i)],
            o1@[i],
            o2@[i],
        );
    }
    assert(o1@ =~= o2@);
}

} // verus!
