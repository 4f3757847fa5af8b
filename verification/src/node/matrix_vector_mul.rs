//! The product of a matrix with a vector.

use crate::arena::Arena;
use crate::gradient::pushed;
use crate::node::{receives, Backward, Data, Forward, Gradient, Overwrite};
use crate::scalar::Scalar;
use crate::shape::{is_matrix_shape, is_vector_shape};
use crate::tensor::{
    lemma_matrix_vector_product_single_valued, lemma_size_matrix, lemma_size_vector,
    matrix_vector_product, outer_product, vector_matrix_product, Tensor,
};
use std::marker::PhantomData;
use vstd::prelude::*;

verus! {

/// The product of a matrix with a vector. `left_data`, `right_data` and `data`
/// are the value cells of the matrix, of the vector and of the node itself.
#[derive(Debug, PartialEq, Eq)]
pub struct MatrixVectorMul<T> {
    pub left_data: usize,
    pub right_data: usize,
    pub data: usize,
    pub computed: bool,
    pub scalar: PhantomData<T>,
}

impl<T: Scalar> MatrixVectorMul<T> {
    /// A node over the given cells, not yet computed.
    pub fn new(left_data: usize, right_data: usize, data: usize) -> (r: Self)
        ensures
            r == (MatrixVectorMul::<T> {
                left_data,
                right_data,
                data,
                computed: false,
                scalar: PhantomData,
            }),
    {
        MatrixVectorMul { left_data, right_data, data, computed: false, scalar: PhantomData }
    }
}

impl<T: Scalar> Data<T> for MatrixVectorMul<T> {
    open spec fn data_cell(&self) -> usize {
        self.data
    }

    fn data_id(&self) -> usize {
        self.data
    }
}

impl<T: Scalar> Forward<T> for MatrixVectorMul<T> {
    /// The cells are there; the left one holds a matrix, the right one a
    /// vector as long as the matrix is wide, and the node's own a vector as
    /// long as the matrix is high.
    open spec fn wf(&self, arena: Arena<T>) -> bool {
        &&& arena.wf()
        &&& arena.has_data(self.left_data)
        &&& arena.has_data(self.right_data)
        &&& arena.has_data(self.data)
        &&& arena.data@[self.left_data as int].dims().len() == 2
        &&& arena.data@[self.right_data as int].dims() == seq![
            arena.data@[self.left_data as int].dims()[1],
        ]
        &&& arena.data@[self.data as int].dims() == seq![
            arena.data@[self.left_data as int].dims()[0],
        ]
    }

    open spec fn computed(&self) -> bool {
        self.computed
    }

    /// `out` holds the product of the operands as they are in `arena`.
    open spec fn computes(&self, arena: Arena<T>, out: Tensor<T>) -> bool {
        matrix_vector_product(
            arena.data@[self.left_data as int],
            arena.data@[self.right_data as int],
            out,
        )
    }

    proof fn lemma_wf(&self, arena: Arena<T>) {
    }

    proof fn lemma_wf_layout(&self, before: Arena<T>, after: Arena<T>) {
    }

    proof fn lemma_computes_single_valued(&self, arena: Arena<T>, o1: Tensor<T>, o2: Tensor<T>) {
        lemma_matrix_vector_product_single_valued(
            arena.data@[self.left_data as int],
            arena.data@[self.right_data as int],
            o1,
            o2,
        );
    }

    fn is_wf(&self, arena: &Arena<T>) -> (r: bool) {
        arena.is_wf() && self.left_data < arena.data.len() && self.right_data < arena.data.len()
            && self.data < arena.data.len() && arena.data[self.left_data].shape.len() == 2
            && is_vector_shape(
            &arena.data[self.right_data].shape,
            arena.data[self.left_data].shape[1],
        ) && is_vector_shape(&arena.data[self.data].shape, arena.data[self.left_data].shape[0])
    }

    fn forward(&mut self, arena: &mut Arena<T>)
        ensures
            *final(self) == (MatrixVectorMul { computed: true, ..*old(self) }),
    {
        if self.computed {
            return ;
        }
        let out = arena.data[self.left_data].mat_vec(&arena.data[self.right_data]);
        arena.data[self.data] = out;
        self.computed = true;
    }

    fn was_computed(&self) -> (r: bool) {
        self.computed
    }

    fn reset_computation(&mut self)
        ensures
            *final(self) == (MatrixVectorMul { computed: false, ..*old(self) }),
    {
        self.computed = false;
    }
}

/// The part of the backward pass of a matrix-vector product that serves the
/// matrix. `gradient` is the gradient cell of the product, `left_gradient` that
/// of the matrix, and `right_data` the value cell of the vector.
#[derive(Debug, PartialEq, Eq)]
pub struct MatrixVectorMulBackwardLeft<T> {
    pub left_gradient: usize,
    pub right_data: usize,
    pub gradient: usize,
    pub scalar: PhantomData<T>,
}

impl<T: Scalar> MatrixVectorMulBackwardLeft<T> {
    /// A unit over the given cells.
    pub fn new(left_gradient: usize, right_data: usize, gradient: usize) -> (r: Self)
        ensures
            r == (MatrixVectorMulBackwardLeft::<T> {
                left_gradient,
                right_data,
                gradient,
                scalar: PhantomData,
            }),
    {
        MatrixVectorMulBackwardLeft { left_gradient, right_data, gradient, scalar: PhantomData }
    }
}

impl<T: Scalar> Gradient<T> for MatrixVectorMulBackwardLeft<T> {
    open spec fn gradient_cell(&self) -> usize {
        self.gradient
    }

    fn gradient_id(&self) -> usize {
        self.gradient
    }
}

impl<T: Scalar> Overwrite<T> for MatrixVectorMulBackwardLeft<T> {
}

impl<T: Scalar> Backward<T> for MatrixVectorMulBackwardLeft<T> {
    /// The cells are there and track a gradient; the node's gradient and the
    /// vector have one axis each, and the matrix's gradient has a row for each
    /// element of the first and a column for each element of the second.
    open spec fn ready(&self, arena: Arena<T>) -> bool {
        &&& arena.wf()
        &&& arena.tracks(self.gradient)
        &&& arena.tracks(self.left_gradient)
        &&& arena.has_data(self.right_data)
        &&& arena.gradients@[self.gradient as int].dims().len() == 1
        &&& arena.data@[self.right_data as int].dims().len() == 1
        &&& arena.gradients@[self.left_gradient as int].dims() == seq![
            arena.gradients@[self.gradient as int].dims()[0],
            arena.data@[self.right_data as int].dims()[0],
        ]
    }

    /// `after` is `before` once the matrix received its share: the outer
    /// product of the node's gradient with the vector, written by the rule of
    /// the first write.
    open spec fn effect(&self, before: Arena<T>, after: Arena<T>) -> bool {
        receives(
            before,
            self.left_gradient,
            after,
            |c: Tensor<T>|
                outer_product(
                    before.gradients@[self.gradient as int].buffer->0,
                    before.data@[self.right_data as int],
                    c,
                ),
        )
    }

    proof fn lemma_ready(&self, arena: Arena<T>) {
    }

    proof fn lemma_ready_layout(&self, before: Arena<T>, after: Arena<T>) {
    }

    fn is_ready(&self, arena: &Arena<T>) -> (r: bool) {
        arena.is_wf() && arena.is_tracking(self.gradient) && arena.is_tracking(self.left_gradient)
            && self.right_data < arena.data.len() && arena.gradients[self.gradient].shape.len()
            == 1 && arena.data[self.right_data].shape.len() == 1 && is_matrix_shape(
            &arena.gradients[self.left_gradient].shape,
            arena.gradients[self.gradient].shape[0],
            arena.data[self.right_data].shape[0],
        )
    }

    fn backward(&self, arena: &mut Arena<T>) {
        let g = arena.gradients[self.gradient].tensor();
        let v = &arena.data[self.right_data];
        proof {
            lemma_size_vector(g.dims());
            lemma_size_vector(v.dims());
            lemma_size_matrix(arena.gradients@[self.left_gradient as int].dims());
        }
        let c = Tensor::outer(g, v);
        arena.gradients[self.left_gradient].push(&c);
        assert(pushed(
            old(arena).gradients@[self.left_gradient as int],
            c,
            arena.gradients@[self.left_gradient as int],
        ));
    }
}

/// The part of the backward pass of a matrix-vector product that serves the
/// vector. `gradient` is the gradient cell of the product, `right_gradient`
/// that of the vector, and `left_data` the value cell of the matrix.
#[derive(Debug, PartialEq, Eq)]
pub struct MatrixVectorMulBackwardRight<T> {
    pub left_data: usize,
    pub right_gradient: usize,
    pub gradient: usize,
    pub scalar: PhantomData<T>,
}

impl<T: Scalar> MatrixVectorMulBackwardRight<T> {
    /// A unit over the given cells.
    pub fn new(left_data: usize, right_gradient: usize, gradient: usize) -> (r: Self)
        ensures
            r == (MatrixVectorMulBackwardRight::<T> {
                left_data,
                right_gradient,
                gradient,
                scalar: PhantomData,
            }),
    {
        MatrixVectorMulBackwardRight { left_data, right_gradient, gradient, scalar: PhantomData }
    }
}

impl<T: Scalar> Gradient<T> for MatrixVectorMulBackwardRight<T> {
    open spec fn gradient_cell(&self) -> usize {
        self.gradient
    }

    fn gradient_id(&self) -> usize {
        self.gradient
    }
}

impl<T: Scalar> Overwrite<T> for MatrixVectorMulBackwardRight<T> {
}

impl<T: Scalar> Backward<T> for MatrixVectorMulBackwardRight<T> {
    /// The cells are there and track a gradient; the node's gradient is as
    /// long as the matrix is high, and the vector's as long as it is wide.
    open spec fn ready(&self, arena: Arena<T>) -> bool {
        &&& arena.wf()
        &&& arena.tracks(self.gradient)
        &&& arena.tracks(self.right_gradient)
        &&& arena.has_data(self.left_data)
        &&& arena.data@[self.left_data as int].dims().len() == 2
        &&& arena.gradients@[self.gradient as int].dims() == seq![
            arena.data@[self.left_data as int].dims()[0],
        ]
        &&& arena.gradients@[self.right_gradient as int].dims() == seq![
            arena.data@[self.left_data as int].dims()[1],
        ]
    }

    /// `after` is `before` once the vector received its share: the product of
    /// the node's gradient with the matrix, written by the rule of the first
    /// write.
    open spec fn effect(&self, before: Arena<T>, after: Arena<T>) -> bool {
        receives(
            before,
            self.right_gradient,
            after,
            |c: Tensor<T>|
                vector_matrix_product(
                    before.gradients@[self.gradient as int].buffer->0,
                    before.data@[self.left_data as int],
                    c,
                ),
        )
    }

    proof fn lemma_ready(&self, arena: Arena<T>) {
    }

    proof fn lemma_ready_layout(&self, before: Arena<T>, after: Arena<T>) {
    }

    fn is_ready(&self, arena: &Arena<T>) -> (r: bool) {
        arena.is_wf() && arena.is_tracking(self.gradient) && arena.is_tracking(self.right_gradient)
            && self.left_data < arena.data.len() && arena.data[self.left_data].shape.len() == 2
            && is_vector_shape(
            &arena.gradients[self.gradient].shape,
            arena.data[self.left_data].shape[0],
        ) && is_vector_shape(
            &arena.gradients[self.right_gradient].shape,
            arena.data[self.left_data].shape[1],
        )
    }

    fn backward(&self, arena: &mut Arena<T>) {
        let g = arena.gradients[self.gradient].tensor();
        let c = arena.data[self.left_data].vec_mat(g);
        arena.gradients[self.right_gradient].push(&c);
        assert(pushed(
            old(arena).gradients@[self.right_gradient as int],
            c,
            arena.gradients@[self.right_gradient as int],
        ));
    }
}

/// The backward pass of a matrix-vector product: the matrix's share, then the
/// vector's.
#[derive(Debug, PartialEq, Eq)]
pub struct MatrixVectorMulBackward<T> {
    pub left: MatrixVectorMulBackwardLeft<T>,
    pub right: MatrixVectorMulBackwardRight<T>,
}

impl<T: Scalar> MatrixVectorMulBackward<T> {
    /// The two units, to be run in this order.
    pub fn new(left: MatrixVectorMulBackwardLeft<T>, right: MatrixVectorMulBackwardRight<T>) -> (r:
        Self)
        ensures
            r == (MatrixVectorMulBackward { left, right }),
    {
        MatrixVectorMulBackward { left, right }
    }
}

impl<T: Scalar> Gradient<T> for MatrixVectorMulBackward<T> {
    open spec fn gradient_cell(&self) -> usize {
        self.left.gradient
    }

    fn gradient_id(&self) -> usize {
        self.left.gradient
    }
}

impl<T: Scalar> Overwrite<T> for MatrixVectorMulBackward<T> {
}

impl<T: Scalar> Backward<T> for MatrixVectorMulBackward<T> {
    /// Both units can run, and they read one gradient cell: the node's.
    open spec fn ready(&self, arena: Arena<T>) -> bool {
        &&& self.left.ready(arena)
        &&& self.right.ready(arena)
        &&& self.left.gradient == self.right.gradient
    }

    /// `after` is `before` once the left unit ran and then the right one.
    open spec fn effect(&self, before: Arena<T>, after: Arena<T>) -> bool {
        exists|mid: Arena<T>|
            #![trigger self.left.effect(before, mid)]
            self.left.effect(before, mid) && self.right.effect(mid, after)
    }

    proof fn lemma_ready(&self, arena: Arena<T>) {
    }

    proof fn lemma_ready_layout(&self, before: Arena<T>, after: Arena<T>) {
    }

    fn is_ready(&self, arena: &Arena<T>) -> (r: bool) {
        self.left.is_ready(arena) && self.right.is_ready(arena) && self.left.gradient
            == self.right.gradient
    }

    fn backward(&self, arena: &mut Arena<T>) {
        self.left.backward(arena);
        let ghost mid = *arena;
        self.right.backward(arena);
        assert(self.left.effect(*old(arena), mid));
    }
}

} // verus!
