//! The cells of a graph, held in one place and named by handles.
//!
//! A node does not own what it reads. The value cell of a node is read by
//! every node that consumes it, and its gradient cell is written by each of
//! them. The arena owns all cells; a node keeps the handles of the cells it
//! reads and writes, and is given the arena when it runs.

use crate::gradient::GradientCell;
use crate::scalar::{zero_value, Scalar};
use crate::shape::size;
use crate::tensor::Tensor;
use vstd::prelude::*;

verus! {

/// The value cells and the gradient cells of a graph. A handle is the position
/// of a cell in its list.
#[derive(Debug, PartialEq)]
pub struct Arena<T> {
    pub data: Vec<Tensor<T>>,
    pub gradients: Vec<GradientCell<T>>,
}

/// `after` is `before` but for the value cell `id`, which keeps its shape.
pub open spec fn wrote_data<T: Scalar>(before: Arena<T>, id: int, after: Arena<T>) -> bool {
    &&& after.gradients@ == before.gradients@
    &&& after.data@.len() == before.data@.len()
    &&& forall|k: int| 0 <= k < before.data@.len() && k != id ==> after.data@[k] == before.data@[k]
    &&& after.data@[id].dims() == before.data@[id].dims()
}

/// `after` is `before` but for the gradient cell `id`, which keeps its shape.
pub open spec fn wrote_gradient<T: Scalar>(before: Arena<T>, id: int, after: Arena<T>) -> bool {
    &&& after.data@ == before.data@
    &&& after.gradients@.len() == before.gradients@.len()
    &&& forall|k: int|
        0 <= k < before.gradients@.len() && k != id ==> after.gradients@[k] == before.gradients@[k]
    &&& after.gradients@[id].dims() == before.gradients@[id].dims()
}

/// `after` has the cells of `before`, each with the shape it had, and each
/// gradient cell tracks a gradient in one if it does in the other.
pub open spec fn same_layout<T: Scalar>(before: Arena<T>, after: Arena<T>) -> bool {
    &&& after.data@.len() == before.data@.len()
    &&& after.gradients@.len() == before.gradients@.len()
    &&& forall|k: int|
        0 <= k < before.data@.len() ==> (#[trigger] after.data@[k]).dims() == before.data@[k].dims()
    &&& forall|k: int|
        0 <= k < before.gradients@.len() ==> {
            &&& (#[trigger] after.gradients@[k]).dims() == before.gradients@[k].dims()
            &&& after.gradients@[k].present() == before.gradients@[k].present()
        }
}

impl<T: Scalar> Arena<T> {
    /// Every cell is well formed.
    pub open spec fn wf(&self) -> bool {
        &&& forall|k: int| 0 <= k < self.data@.len() ==> (#[trigger] self.data@[k]).wf()
        &&& forall|k: int| 0 <= k < self.gradients@.len() ==> (#[trigger] self.gradients@[k]).wf()
    }

    /// `id` names a value cell.
    pub open spec fn has_data(&self, id: usize) -> bool {
        id < self.data@.len()
    }

    /// `id` names a gradient cell.
    pub open spec fn has_gradient(&self, id: usize) -> bool {
        id < self.gradients@.len()
    }

    /// `id` names a gradient cell whose buffer is there.
    pub open spec fn tracks(&self, id: usize) -> bool {
        self.has_gradient(id) && self.gradients@[id as int].present()
    }

    /// Whether every cell is well formed.
    pub fn is_wf(&self) -> (r: bool)
        ensures
            r == self.wf(),
    {
        let mut i: usize = 0;
        while i < self.data.len()
            invariant
                i <= self.data@.len(),
                forall|k: int| 0 <= k < i ==> (#[trigger] self.data@[k]).wf(),
            decreases self.data@.len() - i,
        {
            if !self.data[i].is_wf() {
                return false;
            }
            i += 1;
        }
        let mut j: usize = 0;
        while j < self.gradients.len()
            invariant
                j <= self.gradients@.len(),
                forall|k: int| 0 <= k < self.data@.len() ==> (#[trigger] self.data@[k]).wf(),
                forall|k: int| 0 <= k < j ==> (#[trigger] self.gradients@[k]).wf(),
            decreases self.gradients@.len() - j,
        {
            if !self.gradients[j].is_wf() {
                return false;
            }
            j += 1;
        }
        true
    }

    /// Whether `id` names a gradient cell whose buffer is there.
    pub fn is_tracking(&self, id: usize) -> (r: bool)
        ensures
            r == self.tracks(id),
    {
        id < self.gradients.len() && self.gradients[id].buffer.is_some()
    }

    /// An arena without cells.
    pub fn new() -> (r: Self)
        ensures
            r.wf(),
            r.data@.len() == 0,
            r.gradients@.len() == 0,
    {
        Arena { data: Vec::new(), gradients: Vec::new() }
    }

    /// Adds a value cell that holds `value`, and returns its handle.
    pub fn insert_data(&mut self, value: Tensor<T>) -> (id: usize)
        requires
            old(self).wf(),
            value.wf(),
        ensures
            final(self).wf(),
            id == old(self).data@.len(),
            final(self).data@ == old(self).data@.push(value),
            final(self).gradients@ == old(self).gradients@,
    {
        let id: usize = self.data.len();
        self.data.push(value);
        id
    }

    /// Adds a gradient cell of the given shape, zeroed and to be overwritten,
    /// and returns its handle.
    pub fn insert_gradient(&mut self, shape: &Vec<usize>) -> (id: usize)
        requires
            old(self).wf(),
            size(shape@) <= usize::MAX,
        ensures
            final(self).wf(),
            id == old(self).gradients@.len(),
            final(self).data@ == old(self).data@,
            final(self).gradients@.len() == old(self).gradients@.len() + 1,
            forall|k: int|
                0 <= k < old(self).gradients@.len() ==> final(self).gradients@[k] == old(
                    self,
                ).gradients@[k],
            final(self).gradients@[id as int].dims() == shape@,
            final(self).gradients@[id as int].present(),
            final(self).gradients@[id as int].overwrite,
            forall|i: int|
                0 <= i < final(self).gradients@[id as int].values().len() ==> zero_value(
                    #[trigger] final(self).gradients@[id as int].values()[i],
                ),
    {
        let id: usize = self.gradients.len();
        let cell = GradientCell::new(shape);
        self.gradients.push(cell);
        id
    }

    /// The value in cell `id`.
    pub fn data(&self, id: usize) -> (r: &Tensor<T>)
        requires
            self.has_data(id),
        ensures
            *r == self.data@[id as int],
    {
        &self.data[id]
    }

    /// Puts `value` in the value cell `id`.
    pub fn set_data(&mut self, id: usize, value: Tensor<T>)
        requires
            old(self).wf(),
            old(self).has_data(id),
            value.wf(),
        ensures
            final(self).wf(),
            final(self).data@ == old(self).data@.update(id as int, value),
            final(self).gradients@ == old(self).gradients@,
    {
        self.data[id] = value;
    }

    /// The gradient cell `id`.
    pub fn cell(&self, id: usize) -> (r: &GradientCell<T>)
        requires
            self.has_gradient(id),
        ensures
            *r == self.gradients@[id as int],
    {
        &self.gradients[id]
    }

    /// The buffer of the gradient cell `id`, or `None` where the cell tracks
    /// no gradient.
    pub fn gradient(&self, id: usize) -> (r: Option<&Tensor<T>>)
        requires
            self.has_gradient(id),
        ensures
            r is Some <==> self.tracks(id),
            r matches Some(t) ==> *t == self.gradients@[id as int].buffer->0,
    {
        self.gradients[id].gradient()
    }

    /// Replaces the contents of the gradient cell `id` by `seed`.
    pub fn seed(&mut self, id: usize, seed: Tensor<T>)
        requires
            old(self).wf(),
            old(self).has_gradient(id),
            seed.wf(),
            seed.dims() == old(self).gradients@[id as int].dims(),
        ensures
            final(self).wf(),
            wrote_gradient(*old(self), id as int, *final(self)),
            final(self).gradients@[id as int].buffer == Some(seed),
            final(self).gradients@[id as int].overwrite == old(
                self,
            ).gradients@[id as int].overwrite,
    {
        self.gradients[id].seed(seed);
    }

    /// Whether the next write to the gradient cell `id` replaces its contents.
    pub fn can_overwrite(&self, id: usize) -> (r: bool)
        requires
            self.has_gradient(id),
        ensures
            r == self.gradients@[id as int].overwrite,
    {
        self.gradients[id].can_overwrite()
    }

    /// Sets whether the next write to the gradient cell `id` replaces its
    /// contents.
    pub fn set_overwrite(&mut self, id: usize, overwrite: bool)
        requires
            old(self).wf(),
            old(self).has_gradient(id),
        ensures
            final(self).wf(),
            wrote_gradient(*old(self), id as int, *final(self)),
            final(self).gradients@[id as int].overwrite == overwrite,
            final(self).gradients@[id as int].buffer == old(self).gradients@[id as int].buffer,
    {
        self.gradients[id].set_overwrite(overwrite);
    }

    /// Drops the buffer of the gradient cell `id`.
    pub fn no_grad(&mut self, id: usize)
        requires
            old(self).wf(),
            old(self).has_gradient(id),
        ensures
            final(self).wf(),
            wrote_gradient(*old(self), id as int, *final(self)),
            !final(self).tracks(id),
            final(self).gradients@[id as int].overwrite == old(
                self,
            ).gradients@[id as int].overwrite,
    {
        self.gradients[id].no_grad();
    }

    /// Gives the gradient cell `id` a buffer of zeros of its shape.
    pub fn with_grad(&mut self, id: usize)
        requires
            old(self).wf(),
            old(self).has_gradient(id),
        ensures
            final(self).wf(),
            wrote_gradient(*old(self), id as int, *final(self)),
            final(self).tracks(id),
            final(self).gradients@[id as int].overwrite == old(
                self,
            ).gradients@[id as int].overwrite,
            final(self).gradients@[id as int].values().len() == size(
                old(self).gradients@[id as int].dims(),
            ),
            forall|i: int|
                0 <= i < final(self).gradients@[id as int].values().len() ==> zero_value(
                    #[trigger] final(self).gradients@[id as int].values()[i],
                ),
    {
        self.gradients[id].with_grad();
    }

    /// Makes the gradient cell `id` ready for a new traversal: a buffer of
    /// zeros, to be overwritten by the first write.
    pub fn zero_grad(&mut self, id: usize)
        requires
            old(self).wf(),
            old(self).has_gradient(id),
        ensures
            final(self).wf(),
            wrote_gradient(*old(self), id as int, *final(self)),
            final(self).tracks(id),
            final(self).gradients@[id as int].overwrite,
            final(self).gradients@[id as int].values().len() == size(
                old(self).gradients@[id as int].dims(),
            ),
            forall|i: int|
                0 <= i < final(self).gradients@[id as int].values().len() ==> zero_value(
                    #[trigger] final(self).gradients@[id as int].values()[i],
                ),
    {
        self.gradients[id].with_grad();
        self.gradients[id].set_overwrite(true);
    }

    /// Writes the contribution `c` to the gradient cell `id` by the rule of the
    /// first write.
    pub fn push(&mut self, id: usize, c: &Tensor<T>)
        requires
            old(self).wf(),
            old(self).tracks(id),
            c.wf(),
            c.dims() == old(self).gradients@[id as int].dims(),
        ensures
            final(self).wf(),
            wrote_gradient(*old(self), id as int, *final(self)),
            crate::gradient::pushed(
                old(self).gradients@[id as int],
                *c,
                final(self).gradients@[id as int],
            ),
    {
        self.gradients[id].push(c);
    }

    /// Adds the contribution `c` to the gradient cell `id`.
    pub fn accumulate(&mut self, id: usize, c: &Tensor<T>)
        requires
            old(self).wf(),
            old(self).tracks(id),
            c.wf(),
            c.dims() == old(self).gradients@[id as int].dims(),
        ensures
            final(self).wf(),
            wrote_gradient(*old(self), id as int, *final(self)),
            crate::gradient::accumulated(
                old(self).gradients@[id as int],
                *c,
                final(self).gradients@[id as int],
            ),
    {
        self.gradients[id].accumulate(c);
    }
}

} // verus!
