//! A reverse-mode automatic differentiation engine over dense tensors.
//!
//! A graph of tensor operations is evaluated forward, node by node, and then
//! gradients are propagated backward through the same nodes. This crate is the
//! part that does the work of one node: what it computes from its operands,
//! what share of its gradient each operand receives, and how shares from
//! several consumers meet in one gradient buffer.
//!
//! - [`scalar`] says what arithmetic an element type must offer, and
//!   [`formula`] builds the formulas of the operations from it.
//! - [`shape`] holds the broadcasting rule, and [`tensor`] the passes over
//!   dense tensors: elementwise with broadcasting, reduction back to an
//!   operand's shape, and the products of matrices and vectors.
//! - [`gradient`] holds the gradient cell and the rule of the first write.
//! - [`arena`] owns the cells that nodes share.
//! - [`node`] holds the nodes and the contracts that every node meets.
//! - [`optim`] is what the engine offers to optimizers.
//!
//! The order in which nodes run, and when a new pass begins, is the caller's
//! to decide: a node computes from whatever its operands hold when it is run.

pub mod arena;
pub mod formula;
pub mod gradient;
pub mod node;
pub mod optim;
pub mod scalar;
pub mod shape;
pub mod tensor;
