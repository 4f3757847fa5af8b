//! The nodes of a graph: what each computes going forward, and what each
//! hands to its operands going backward.
//!
//! A node that computes a value implements [`Data`] and [`Forward`]. A node
//! that hands gradient on implements [`Gradient`], [`Overwrite`] and
//! [`Backward`]. The contracts of these traits hold of every node.

pub mod addition;
pub mod bce_with_logits_loss;
pub mod division;
pub mod matrix_vector_mul;
pub mod sigmoid;
pub mod tanh;
pub mod vector_matrix_mul;

use crate::arena::{same_layout, wrote_data, wrote_gradient, Arena};
use crate::gradient::{gained, received, GradientCell};
use crate::scalar::{single_valued, zero_value, Scalar};
use crate::shape::size;
use crate::tensor::Tensor;
use vstd::prelude::*;

verus! {

/// How a loss is reduced to one number: the total of its terms, or their mean.
#[derive(Debug, Clone, Copy, PartialEq, Eq)]
pub enum Reduction {
    Mean,
    Sum,
}

/// One call of a memoizing `forward`.
///
/// `was` and `now` are the node's flag before and after the call, `before` and
/// `after` the arena, `id` the node's own value cell, and `fresh` says that the
/// cell holds what the node computes from its operands as they are in `before`.
/// A node that was computed changes nothing. One that was not writes its own
/// cell, and no other. Either way it is computed afterwards.
pub open spec fn forward_step<T: Scalar>(
    was: bool,
    before: Arena<T>,
    id: int,
    now: bool,
    after: Arena<T>,
    fresh: bool,
) -> bool {
    &&& now
    &&& if was {
        after == before
    } else {
        wrote_data(before, id, after) && fresh
    }
}

/// A node with a value cell of its own, which other nodes may read.
pub trait Data<T: Scalar> {
    /// The handle of the node's value cell.
    spec fn data_cell(&self) -> usize;

    /// The handle of the node's value cell.
    fn data_id(&self) -> (r: usize)
        ensures
            r == self.data_cell(),
    ;

    /// The node's value. Reading it computes nothing.
    fn data<'a>(&self, arena: &'a Arena<T>) -> (r: &'a Tensor<T>)
        requires
            arena.has_data(self.data_cell()),
        ensures
            *r == arena.data@[self.data_cell() as int],
    {
        arena.data(self.data_id())
    }

    /// The node's value, to be written to.
    fn data_mut<'a>(&self, arena: &'a mut Arena<T>) -> (r: &'a mut Tensor<T>)
        requires
            old(arena).has_data(self.data_cell()),
        ensures
            *r == old(arena).data@[self.data_cell() as int],
            final(arena).data@ == old(arena).data@.update(self.data_cell() as int, *final(r)),
            final(arena).gradients@ == old(arena).gradients@,
    {
        &mut arena.data[self.data_id()]
    }
}

/// A node that computes its value from the values of its operands, once.
pub trait Forward<T: Scalar>: Data<T> {
    /// The node's cells are there and fit in shape.
    spec fn wf(&self, arena: Arena<T>) -> bool;

    /// The node's value is the result of a `forward`.
    spec fn computed(&self) -> bool;

    /// `out` is a value of what the node computes from its operands as they
    /// are in `arena`.
    spec fn computes(&self, arena: Arena<T>, out: Tensor<T>) -> bool;

    /// A well-formed node lives in a well-formed arena that has its cell.
    proof fn lemma_wf(&self, arena: Arena<T>)
        requires
            self.wf(arena),
        ensures
            arena.wf(),
            arena.has_data(self.data_cell()),
    ;

    /// Whether a node is well formed depends on the shapes of the cells only.
    proof fn lemma_wf_layout(&self, before: Arena<T>, after: Arena<T>)
        requires
            self.wf(before),
            after.wf(),
            same_layout(before, after),
        ensures
            self.wf(after),
    ;

    /// Over a single-valued scalar, what the node computes into a cell of a
    /// given shape is one tensor's worth of values.
    proof fn lemma_computes_single_valued(&self, arena: Arena<T>, o1: Tensor<T>, o2: Tensor<T>)
        requires
            single_valued::<T>(),
            o1.dims() == o2.dims(),
            self.computes(arena, o1),
            self.computes(arena, o2),
        ensures
            o1@ == o2@,
    ;

    /// Whether the node is well formed in `arena`.
    fn is_wf(&self, arena: &Arena<T>) -> (r: bool)
        ensures
            r == self.wf(*arena),
    ;

    /// Computes the node's value from its operands, unless it was computed
    /// already: then nothing changes, and nothing is asked of the arena. Only
    /// the node's own cell is written.
    fn forward(&mut self, arena: &mut Arena<T>)
        requires
            !old(self).computed() ==> old(self).wf(*old(arena)),
        ensures
            old(self).wf(*old(arena)) ==> final(self).wf(*final(arena)),
            final(self).data_cell() == old(self).data_cell(),
            forward_step(
                old(self).computed(),
                *old(arena),
                old(self).data_cell() as int,
                final(self).computed(),
                *final(arena),
                old(self).computes(*old(arena), final(arena).data@[old(self).data_cell() as int]),
            ),
            forall|a: Arena<T>| #[trigger] final(self).wf(a) == old(self).wf(a),
            forall|a: Arena<T>, o: Tensor<T>| #[trigger]
                final(self).computes(a, o) == old(self).computes(a, o),
    ;

    /// Whether the node's value is the result of a `forward`.
    fn was_computed(&self) -> (r: bool)
        ensures
            r == self.computed(),
    ;

    /// Makes the next `forward` compute anew.
    fn reset_computation(&mut self)
        ensures
            !final(self).computed(),
            final(self).data_cell() == old(self).data_cell(),
            forall|a: Arena<T>| #[trigger] final(self).wf(a) == old(self).wf(a),
            forall|a: Arena<T>, o: Tensor<T>| #[trigger]
                final(self).computes(a, o) == old(self).computes(a, o),
    ;
}

/// A node with a gradient cell of its own, which the nodes that consume its
/// value write to.
pub trait Gradient<T: Scalar> {
    /// The handle of the node's gradient cell.
    spec fn gradient_cell(&self) -> usize;

    /// The handle of the node's gradient cell.
    fn gradient_id(&self) -> (r: usize)
        ensures
            r == self.gradient_cell(),
    ;

    /// The node's gradient, or `None` where the node tracks none.
    fn gradient<'a>(&self, arena: &'a Arena<T>) -> (r: Option<&'a Tensor<T>>)
        requires
            arena.has_gradient(self.gradient_cell()),
        ensures
            r is Some <==> arena.tracks(self.gradient_cell()),
            r matches Some(t) ==> *t == arena.gradients@[self.gradient_cell() as int].buffer->0,
    {
        arena.gradient(self.gradient_id())
    }

    /// The node's gradient, to be written to, as the start of a traversal
    /// does.
    fn gradient_mut<'a>(&self, arena: &'a mut Arena<T>) -> (r: &'a mut Tensor<T>)
        requires
            old(arena).tracks(self.gradient_cell()),
        ensures
            *r == old(arena).gradients@[self.gradient_cell() as int].buffer->0,
            final(arena).data@ == old(arena).data@,
            final(arena).gradients@ == old(arena).gradients@.update(
                self.gradient_cell() as int,
                GradientCell {
                    buffer: Some(*final(r)),
                    ..old(arena).gradients@[self.gradient_cell() as int]
                },
            ),
    {
        arena.gradients[self.gradient_id()].buffer.as_mut().unwrap()
    }
}

/// A node whose gradient cell carries the flag of the first write.
pub trait Overwrite<T: Scalar>: Gradient<T> {
    /// Whether the next write to the node's gradient replaces its contents.
    fn can_overwrite(&self, arena: &Arena<T>) -> (r: bool)
        requires
            arena.has_gradient(self.gradient_cell()),
        ensures
            r == arena.gradients@[self.gradient_cell() as int].overwrite,
    {
        arena.can_overwrite(self.gradient_id())
    }

    /// Sets whether the next write to the node's gradient replaces its
    /// contents.
    fn set_overwrite(&self, arena: &mut Arena<T>, overwrite: bool)
        requires
            old(arena).wf(),
            old(arena).has_gradient(self.gradient_cell()),
        ensures
            final(arena).wf(),
            wrote_gradient(*old(arena), self.gradient_cell() as int, *final(arena)),
            final(arena).gradients@[self.gradient_cell() as int].overwrite == overwrite,
            final(arena).gradients@[self.gradient_cell() as int].buffer == old(
                arena,
            ).gradients@[self.gradient_cell() as int].buffer,
    {
        arena.set_overwrite(self.gradient_id(), overwrite);
    }
}

/// A node that hands its gradient on to its operands.
pub trait Backward<T: Scalar>: Gradient<T> {
    /// The node's cells are there, fit in shape, and track a gradient where
    /// `backward` reads or writes one.
    spec fn ready(&self, arena: Arena<T>) -> bool;

    /// `after` is `before` once the operands received their shares of the
    /// node's gradient.
    spec fn effect(&self, before: Arena<T>, after: Arena<T>) -> bool;

    /// A node that is ready lives in a well-formed arena and tracks a
    /// gradient.
    proof fn lemma_ready(&self, arena: Arena<T>)
        requires
            self.ready(arena),
        ensures
            arena.wf(),
            arena.tracks(self.gradient_cell()),
    ;

    /// Whether a node is ready depends on the shapes of the cells, and on which
    /// of them track a gradient, only.
    proof fn lemma_ready_layout(&self, before: Arena<T>, after: Arena<T>)
        requires
            self.ready(before),
            after.wf(),
            same_layout(before, after),
        ensures
            self.ready(after),
    ;

    /// Whether `backward` can run on `arena`.
    fn is_ready(&self, arena: &Arena<T>) -> (r: bool)
        ensures
            r == self.ready(*arena),
    ;

    /// Reads the node's gradient and writes to each operand's gradient the
    /// operand's share. No cell is added or dropped, and none changes shape,
    /// so the node can run again.
    fn backward(&self, arena: &mut Arena<T>)
        requires
            self.ready(*old(arena)),
        ensures
            final(arena).wf(),
            same_layout(*old(arena), *final(arena)),
            self.ready(*final(arena)),
            self.effect(*old(arena), *final(arena)),
    ;

    /// Drops the node's gradient: the node tracks none.
    fn no_grad(&self, arena: &mut Arena<T>)
        requires
            old(arena).wf(),
            old(arena).has_gradient(self.gradient_cell()),
        ensures
            final(arena).wf(),
            wrote_gradient(*old(arena), self.gradient_cell() as int, *final(arena)),
            !final(arena).tracks(self.gradient_cell()),
            final(arena).gradients@[self.gradient_cell() as int].overwrite == old(
                arena,
            ).gradients@[self.gradient_cell() as int].overwrite,
    {
        arena.no_grad(self.gradient_id());
    }

    /// Gives the node a gradient of zeros, of the shape of its gradient cell.
    fn with_grad(&self, arena: &mut Arena<T>)
        requires
            old(arena).wf(),
            old(arena).has_gradient(self.gradient_cell()),
        ensures
            final(arena).wf(),
            wrote_gradient(*old(arena), self.gradient_cell() as int, *final(arena)),
            final(arena).tracks(self.gradient_cell()),
            final(arena).gradients@[self.gradient_cell() as int].overwrite == old(
                arena,
            ).gradients@[self.gradient_cell() as int].overwrite,
            final(arena).gradients@[self.gradient_cell() as int].values().len() == size(
                old(arena).gradients@[self.gradient_cell() as int].dims(),
            ),
            forall|i: int|
                0 <= i < final(arena).gradients@[self.gradient_cell() as int].values().len()
                    ==> zero_value(
                    #[trigger] final(arena).gradients@[self.gradient_cell() as int].values()[i],
                ),
    {
        arena.with_grad(self.gradient_id());
    }
}

/// One call of a `backward` that writes to the gradient cell `operand` by the
/// rule of the first write.
///
/// Some contribution that is the operand's `share` was written: it stands in
/// place of the old contents where the cell's flag was set, and was added to
/// them where it was not, and the flag is cleared. No other cell changed.
pub open spec fn receives<T: Scalar>(
    before: Arena<T>,
    operand: usize,
    after: Arena<T>,
    share: spec_fn(Tensor<T>) -> bool,
) -> bool {
    &&& wrote_gradient(before, operand as int, after)
    &&& received(before.gradients@[operand as int], after.gradients@[operand as int], share)
}

/// One call of a `backward` that adds to the gradient cell `operand` whatever
/// its flag says.
///
/// Some contribution that is the operand's `share` was added to the old
/// contents, and the flag is as it was. No other cell changed.
pub open spec fn gains<T: Scalar>(
    before: Arena<T>,
    operand: usize,
    after: Arena<T>,
    share: spec_fn(Tensor<T>) -> bool,
) -> bool {
    &&& wrote_gradient(before, operand as int, after)
    &&& gained(before.gradients@[operand as int], after.gradients@[operand as int], share)
}

/// What one call of `forward` makes of a node and an arena: `node` and
/// `before` are what the call finds, `next` and `after` what it leaves.
pub open spec fn forwarded<T: Scalar, N: Forward<T>>(
    node: N,
    before: Arena<T>,
    next: N,
    after: Arena<T>,
) -> bool {
    &&& next.data_cell() == node.data_cell()
    &&& forward_step(
        node.computed(),
        before,
        node.data_cell() as int,
        next.computed(),
        after,
        node.computes(before, after.data@[node.data_cell() as int]),
    )
    &&& forall|a: Arena<T>, o: Tensor<T>| #[trigger] next.computes(a, o) == node.computes(a, o)
}

/// What one call of `reset_computation` makes of a node.
pub open spec fn reset<T: Scalar, N: Forward<T>>(node: N, next: N) -> bool {
    &&& !next.computed()
    &&& next.data_cell() == node.data_cell()
    &&& forall|a: Arena<T>, o: Tensor<T>| #[trigger] next.computes(a, o) == node.computes(a, o)
}

/// A computed node keeps its value.
///
/// Take two calls of `forward` on one node with no reset between them. Between
/// the calls any cell but the node's own may change: `a1` is the arena after
/// the first call and `b1` the arena that the second call finds. The second
/// call changes nothing, so the node's cell holds what the first call left.
pub proof fn lemma_forward_memoized<T: Scalar, N: Forward<T>>(
    n0: N,
    a0: Arena<T>,
    n1: N,
    a1: Arena<T>,
    b1: Arena<T>,
    n2: N,
    a2: Arena<T>,
)
    requires
        forwarded(n0, a0, n1, a1),
        a1.has_data(n1.data_cell()),
        b1.has_data(n1.data_cell()),
        b1.data@[n1.data_cell() as int] == a1.data@[n1.data_cell() as int],
        forwarded(n1, b1, n2, a2),
    ensures
        n1.computed(),
        n2.computed(),
        a2 == b1,
        a2.data@[n2.data_cell() as int] == a1.data@[n1.data_cell() as int],
{
}

/// After a reset, `forward` computes anew.
///
/// Take a node, reset it, and call `forward`. The call writes to the node's
/// cell what the node computes from its operands as the call finds them, and
/// to no other cell.
pub proof fn lemma_forward_after_reset<T: Scalar, N: Forward<T>>(
    n0: N,
    n1: N,
    before: Arena<T>,
    n2: N,
    after: Arena<T>,
)
    requires
        reset(n0, n1),
        forwarded(n1, before, n2, after),
    ensures
        n2.computed(),
        wrote_data(before, n0.data_cell() as int, after),
        n0.computes(before, after.data@[n0.data_cell() as int]),
{
}

/// Over a single-valued scalar, a `forward` that computes leaves one value.
///
/// Take two calls of `forward` that find the same node, not computed, and the
/// same arena. They leave the same values in the node's cell: computing again
/// from unchanged operands changes nothing.
pub proof fn lemma_forward_single_valued<T: Scalar, N: Forward<T>>(
    node: N,
    before: Arena<T>,
    n1: N,
    a1: Arena<T>,
    n2: N,
    a2: Arena<T>,
)
    requires
        single_valued::<T>(),
        !node.computed(),
        forwarded(node, before, n1, a1),
        forwarded(node, before, n2, a2),
    ensures
        a1.data@[node.data_cell() as int]@ == a2.data@[node.data_cell() as int]@,
        a1.data@[node.data_cell() as int].dims() == a2.data@[node.data_cell() as int].dims(),
{
    node.lemma_computes_single_valued(
        before,
        a1.data@[node.data_cell() as int],
        a2.data@[node.data_cell() as int],
    );
}

/// A `backward` leaves alone every gradient cell but the operand's: the
/// node's own gradient and flag are as they were, unless the node is its own
/// operand. No value cell changes.
pub proof fn lemma_receives_elsewhere<T: Scalar>(
    before: Arena<T>,
    operand: usize,
    after: Arena<T>,
    share: spec_fn(Tensor<T>) -> bool,
    other: usize,
)
    requires
        receives(before, operand, after, share) || gains(before, operand, after, share),
        before.has_gradient(other),
        other != operand,
    ensures
        after.gradients@[other as int] == before.gradients@[other as int],
        after.data@ == before.data@,
{
}

} // verus!
