//! The product of a vector with a matrix.

use crate::arena::Arena;
use crate::gradient::pushed;
use crate::node::{receives, Backward, Data, Forward, Gradient, Overwrite};
use crate::scalar::Scalar;
use crate::shape::{is_matrix_shape, is_vector_shape};
use crate::tensor::{
    lemma_size_matrix, lemma_size_vector, lemma_vector_matrix_product_single_valued,
    matrix_vector_product, outer_product, vector_matrix_product, Tensor,
};
use std::marker::PhantomData;
use vstd::prelude::*;

verus! {

/// The product of a vector with a matrix. `left_data`, `right_data` and `data`
/// are the value cells of the vector, of the matrix and of the node itself.
#[derive(Debug, PartialEq, Eq)]
pub struct VectorMatrixMul<T> {
    pub left_data: usize,
    pub right_data: usize,
    pub data: usize,
    pub computed: bool,
    pub scalar: PhantomData<T>,
}

impl<T: Scalar> VectorMatrixMul<T> {
    /// A node over the given cells, not yet computed.
    pub fn new(left_data: usize, right_data: usize, data: usize) -> (r: Self)
        ensures
            r == (VectorMatrixMul::<T> {
                left_data,
                right_data,
                data,
                computed: false,
                scalar: PhantomData,
            }),
    {
        VectorMatrixMul { left_data, right_data, data, computed: false, scalar: PhantomData }
    }
}

impl<T: Scalar> Data<T> for VectorMatrixMul<T> {
    open spec fn data_cell(&self) -> usize {
        self.data
    }

    fn data_id(&self) -> usize {
        self.data
    }
}

impl<T: Scalar> Forward<T> for VectorMatrixMul<T> {
    /// The cells are there; the right one holds a matrix, the left one a
    /// vector as long as the matrix is high, and the node's own a vector as
    /// long as the matrix is wide.
    open spec fn wf(&self, arena: Arena<T>) -> bool {
        &&& arena.wf()
        &&& arena.has_data(self.left_data)
        &&& arena.has_data(self.right_data)
        &&& arena.has_data(self.data)
        &&& arena.data@[self.right_data as int].dims().len() == 2
        &&& arena.data@[self.left_data as int].dims() == seq![
            arena.data@[self.right_data as int].dims()[0],
        ]
        &&& arena.data@[self.data as int].dims() == seq![
            arena.data@[self.right_data as int].dims()[1],
        ]
    }

    open spec fn computed(&self) -> bool {
        self.computed
    }

    /// `out` holds the product of the operands as they are in `arena`.
    open spec fn computes(&self, arena: Arena<T>, out: Tensor<T>) -> bool {
        vector_matrix_product(
            arena.data@[self.left_data as int],
            arena.data@[self.right_data as int],
            out,
        )
    }

    proof fn lemma_wf(&self, arena: Arena<T>) {
    }

    proof fn lemma_wf_layout(&self, before: Arena<T>, after: Arena<T>) {
    }

    proof fn lemma_computes_single_valued(&self, arena: Arena<T>, o1: Tensor<T>, o2: Tensor<T>) {
        lemma_vector_matrix_product_single_valued(
            arena.data@[self.left_data as int],
            arena.data@[self.right_data as int],
            o1,
            o2,
        );
    }

    fn is_wf(&self, arena: &Arena<T>) -> (r: bool) {
        arena.is_wf() && self.left_data < arena.data.len() && self.right_data < arena.data.len()
            && self.data < arena.data.len() && arena.data[self.right_data].shape.len() == 2
            && is_vector_shape(
            &arena.data[self.left_data].shape,
            arena.data[self.right_data].shape[0],
        ) && is_vector_shape(&arena.data[self.data].shape, arena.data[self.right_data].shape[1])
    }

    fn forward(&mut self, arena: &mut Arena<T>)
        ensures
            *final(self) == (VectorMatrixMul { computed: true, ..*old(self) }),
    {
        if self.computed {
            return ;
        }
        let out = arena.data[self.right_data].vec_mat(&arena.data[self.left_data]);
        arena.data[self.data] = out;
        self.computed = true;
    }

    fn was_computed(&self) -> (r: bool) {
        self.computed
    }

    fn reset_computation(&mut self)
        ensures
            *final(self) == (VectorMatrixMul { computed: false, ..*old(self) }),
    {
        self.computed = false;
    }
}

/// The part of the backward pass of a vector-matrix product that serves the
/// vector. `gradient` is the gradient cell of the product, `left_gradient` that
/// of the vector, and `right_data` the value cell of the matrix.
#[derive(Debug, PartialEq, Eq)]
pub struct VectorMatrixMulBackwardLeft<T> {
    pub left_gradient: usize,
    pub right_data: usize,
    pub gradient: usize,
    pub scalar: PhantomData<T>,
}

impl<T: Scalar> VectorMatrixMulBackwardLeft<T> {
    /// A unit over the given cells.
    pub fn new(left_gradient: usize, right_data: usize, gradient: usize) -> (r: Self)
        ensures
            r == (VectorMatrixMulBackwardLeft::<T> {
                left_gradient,
                right_data,
                gradient,
                scalar: PhantomData,
            }),
    {
        VectorMatrixMulBackwardLeft { left_gradient, right_data, gradient, scalar: PhantomData }
    }
}

impl<T: Scalar> Gradient<T> for VectorMatrixMulBackwardLeft<T> {
    open spec fn gradient_cell(&self) -> usize {
        self.gradient
    }

    fn gradient_id(&self) -> usize {
        self.gradient
    }
}

impl<T: Scalar> Overwrite<T> for VectorMatrixMulBackwardLeft<T> {
}

impl<T: Scalar> Backward<T> for VectorMatrixMulBackwardLeft<T> {
    /// The cells are there and track a gradient; the node's gradient is as
    /// long as the matrix is wide, and the vector's as long as it is high.
    open spec fn ready(&self, arena: Arena<T>) -> bool {
        &&& arena.wf()
        &&& arena.tracks(self.gradient)
        &&& arena.tracks(self.left_gradient)
        &&& arena.has_data(self.right_data)
        &&& arena.data@[self.right_data as int].dims().len() == 2
        &&& arena.gradients@[self.gradient as int].dims() == seq![
            arena.data@[self.right_data as int].dims()[1],
        ]
        &&& arena.gradients@[self.left_gradient as int].dims() == seq![
            arena.data@[self.right_data as int].dims()[0],
        ]
    }

    /// `after` is `before` once the vector received its share: the product of
    /// the matrix with the node's gradient, written by the rule of the first
    /// write.
    open spec fn effect(&self, before: Arena<T>, after: Arena<T>) -> bool {
        receives(
            before,
            self.left_gradient,
            after,
            |c: Tensor<T>|
                matrix_vector_product(
                    before.data@[self.right_data as int],
                    before.gradients@[self.gradient as int].buffer->0,
                    c,
                ),
        )
    }

    proof fn lemma_ready(&self, arena: Arena<T>) {
    }

    proof fn lemma_ready_layout(&self, before: Arena<T>, after: Arena<T>) {
    }

    fn is_ready(&self, arena: &Arena<T>) -> (r: bool) {
        arena.is_wf() && arena.is_tracking(self.gradient) && arena.is_tracking(self.left_gradient)
            && self.right_data < arena.data.len() && arena.data[self.right_data].shape.len() == 2
            && is_vector_shape(
            &arena.gradients[self.gradient].shape,
            arena.data[self.right_data].shape[1],
        ) && is_vector_shape(
            &arena.gradients[self.left_gradient].shape,
            arena.data[self.right_data].shape[0],
        )
    }

    fn backward(&self, arena: &mut Arena<T>) {
        let g = arena.gradients[self.gradient].tensor();
        let c = arena.data[self.right_data].mat_vec(g);
        arena.gradients[self.left_gradient].push(&c);
        assert(pushed(
            old(arena).gradients@[self.left_gradient as int],
            c,
            arena.gradients@[self.left_gradient as int],
        ));
    }
}

/// The part of the backward pass of a vector-matrix product that serves the
/// matrix. `gradient` is the gradient cell of the product, `right_gradient`
/// that of the matrix, and `left_data` the value cell of the vector.
#[derive(Debug, PartialEq, Eq)]
pub struct VectorMatrixMulBackwardRight<T> {
    pub left_data: usize,
    pub right_gradient: usize,
    pub gradient: usize,
    pub scalar: PhantomData<T>,
}

impl<T: Scalar> VectorMatrixMulBackwardRight<T> {
    /// A unit over the given cells.
    pub fn new(left_data: usize, right_gradient: usize, gradient: usize) -> (r: Self)
        ensures
            r == (VectorMatrixMulBackwardRight::<T> {
                left_data,
                right_gradient,
                gradient,
                scalar: PhantomData,
            }),
    {
        VectorMatrixMulBackwardRight { left_data, right_gradient, gradient, scalar: PhantomData }
    }
}

impl<T: Scalar> Gradient<T> for VectorMatrixMulBackwardRight<T> {
    open spec fn gradient_cell(&self) -> usize {
        self.gradient
    }

    fn gradient_id(&self) -> usize {
        self.gradient
    }
}

impl<T: Scalar> Overwrite<T> for VectorMatrixMulBackwardRight<T> {
}

impl<T: Scalar> Backward<T> for VectorMatrixMulBackwardRight<T> {
    /// The cells are there and track a gradient; the vector and the node's
    /// gradient have one axis each, and the matrix's gradient has a row for
    /// each element of the first and a column for each element of the second.
    open spec fn ready(&self, arena: Arena<T>) -> bool {
        &&& arena.wf()
        &&& arena.tracks(self.gradient)
        &&& arena.tracks(self.right_gradient)
        &&& arena.has_data(self.left_data)
        &&& arena.gradients@[self.gradient as int].dims().len() == 1
        &&& arena.data@[self.left_data as int].dims().len() == 1
        &&& arena.gradients@[self.right_gradient as int].dims() == seq![
            arena.data@[self.left_data as int].dims()[0],
            arena.gradients@[self.gradient as int].dims()[0],
        ]
    }

    /// `after` is `before` once the matrix received its share: the outer
    /// product of the vector with the node's gradient, written by the rule of
    /// the first write.
    open spec fn effect(&self, before: Arena<T>, after: Arena<T>) -> bool {
        receives(
            before,
            self.right_gradient,
            after,
            |c: Tensor<T>|
                outer_product(
                    before.data@[self.left_data as int],
                    before.gradients@[self.gradient as int].buffer->0,
                    c,
                ),
        )
    }

    proof fn lemma_ready(&self, arena: Arena<T>) {
    }

    proof fn lemma_ready_layout(&self, before: Arena<T>, after: Arena<T>) {
    }

    fn is_ready(&self, arena: &Arena<T>) -> (r: bool) {
        arena.is_wf() && arena.is_tracking(self.gradient) && arena.is_tracking(self.right_gradient)
            && self.left_data < arena.data.len() && arena.gradients[self.gradient].shape.len()
            == 1 && arena.data[self.left_data].shape.len() == 1 && is_matrix_shape(
            &arena.gradients[self.right_gradient].shape,
            arena.data[self.left_data].shape[0],
            arena.gradients[self.gradient].shape[0],
        )
    }

    fn backward(&self, arena: &mut Arena<T>) {
        let g = arena.gradients[self.gradient].tensor();
        let v = &arena.data[self.left_data];
        proof {
            lemma_size_vector(g.dims());
            lemma_size_vector(v.dims());
            lemma_size_matrix(arena.gradients@[self.right_gradient as int].dims());
        }
        let c = Tensor::outer(v, g);
        arena.gradients[self.right_gradient].push(&c);
        assert(pushed(
            old(arena).gradients@[self.right_gradient as int],
            c,
            arena.gradients@[self.right_gradient as int],
        ));
    }
}

/// The backward pass of a vector-matrix product: the vector's share, then the
/// matrix's.
#[derive(Debug, PartialEq, Eq)]
pub struct VectorMatrixMulBackward<T> {
    pub left: VectorMatrixMulBackwardLeft<T>,
    pub right: VectorMatrixMulBackwardRight<T>,
}

impl<T: Scalar> VectorMatrixMulBackward<T> {
    /// The two units, to be run in this order.
    pub fn new(left: VectorMatrixMulBackwardLeft<T>, right: VectorMatrixMulBackwardRight<T>) -> (r:
        Self)
        ensures
            r == (VectorMatrixMulBackward { left, right }),
    {
        VectorMatrixMulBackward { left, right }
    }
}

impl<T: Scalar> Gradient<T> for VectorMatrixMulBackward<T> {
    open spec fn gradient_cell(&self) -> usize {
        self.left.gradient
    }

    fn gradient_id(&self) -> usize {
        self.left.gradient
    }
}

impl<T: Scalar> Overwrite<T> for VectorMatrixMulBackward<T> {
}

impl<T: Scalar> Backward<T> for VectorMatrixMulBackward<T> {
    /// Both units can run, and they read one gradient cell: the node's.
    open spec fn ready(&self, arena: Arena<T>) -> bool {
        &&& self.left.ready(arena)
        &&& self.right.ready(arena)
        &&& self.left.gradient == self.right.gradient
    }

    /// `after` is `before` once the left unit ran and then the right one.
    open spec fn effect(&self, before: Arena<T>, after: Arena<T>) -> bool {
        exists|mid: Arena<T>|
            #![trigger self.left.effect(before, mid)]
            self.left.effect(before, mid) && self.right.effect(mid, after)
    }

    proof fn lemma_ready(&self, arena: Arena<T>) {
    }

    proof fn lemma_ready_layout(&self, before: Arena<T>, after: Arena<T>) {
    }

    fn is_ready(&self, arena: &Arena<T>) -> (r: bool) {
        self.left.is_ready(arena) && self.right.is_ready(arena) && self.left.gradient
            == self.right.gradient
    }

    fn backward(&self, arena: &mut Arena<T>) {
        self.left.backward(arena);
        let ghost mid = *arena;
        self.right.backward(arena);
        assert(self.left.effect(*old(arena), mid));
    }
}

} // verus!
