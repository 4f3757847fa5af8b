use neuronika::arena::Arena;
use neuronika::node::addition::{
    Addition, AdditionBackward, AdditionBackwardLeft, AdditionBackwardRight,
};
use neuronika::node::bce_with_logits_loss::{BCEWithLogitsLoss, BCEWithLogitsLossBackward};
use neuronika::node::division::{
    Division, DivisionBackward, DivisionBackwardLeft, DivisionBackwardRight,
};
use neuronika::node::matrix_vector_mul::{
    MatrixVectorMul, MatrixVectorMulBackward, MatrixVectorMulBackwardLeft,
    MatrixVectorMulBackwardRight,
};
use neuronika::node::sigmoid::{Sigmoid, SigmoidBackward};
use neuronika::node::tanh::{TanH, TanHBackward};
use neuronika::node::vector_matrix_mul::{
    VectorMatrixMul, VectorMatrixMulBackward, VectorMatrixMulBackwardLeft,
    VectorMatrixMulBackwardRight,
};
use neuronika::node::{Backward, Data, Forward, Gradient, Overwrite, Reduction};
use neuronika::scalar::Scalar;
use neuronika::tensor::Tensor;

#[derive(Clone, Copy, Debug, PartialEq)]
struct F(f32);

impl Scalar for F {
    fn zero() -> Self {
        F(0.0)
    }

    fn one() -> Self {
        F(1.0)
    }

    fn from_count(n: usize) -> Self {
        F(n as f32)
    }

    fn add(self, rhs: Self) -> Self {
        F(self.0 + rhs.0)
    }

    fn sub(self, rhs: Self) -> Self {
        F(self.0 - rhs.0)
    }

    fn mul(self, rhs: Self) -> Self {
        F(self.0 * rhs.0)
    }

    fn div(self, rhs: Self) -> Self {
        F(self.0 / rhs.0)
    }

    fn neg(self) -> Self {
        F(-self.0)
    }

    fn max(self, rhs: Self) -> Self {
        F(self.0.max(rhs.0))
    }

    fn exp(self) -> Self {
        F(self.0.exp())
    }

    fn ln(self) -> Self {
        F(self.0.ln())
    }

    fn tanh(self) -> Self {
        F(self.0.tanh())
    }

    fn signum(self) -> Self {
        F(self.0.signum())
    }

    fn is_zero(self) -> bool {
        self.0 == 0.0
    }
}

fn new_tensor(shape: Vec<usize>, values: Vec<f32>) -> Tensor<F> {
    Tensor::from_vec(shape, values.into_iter().map(F).collect()).unwrap()
}

fn assert_almost_equals(our: &Tensor<F>, their: &Tensor<F>) {
    assert_eq!(our.shape(), their.shape());
    assert_eq!(our.len(), their.len());
    for i in 0..our.len() {
        let (a, b) = (our.get(i).0, their.get(i).0);
        assert!((a - b).abs() <= 1e-4, "element {}: {} is not {}", i, a, b);
    }
}

fn new_input(arena: &mut Arena<F>, shape: Vec<usize>, values: Vec<f32>) -> usize {
    arena.insert_data(new_tensor(shape, values))
}

fn new_backward_input(arena: &mut Arena<F>, shape: Vec<usize>) -> usize {
    arena.insert_gradient(&shape)
}

fn one_to_nine() -> Vec<f32> {
    vec![1., 2., 3., 4., 5., 6., 7., 8., 9.]
}

// Addition.

#[test]
fn addition_stretches_the_right_operand() {
    let mut arena = Arena::new();
    let left = new_input(&mut arena, vec![3, 3], one_to_nine());
    let right = new_input(&mut arena, vec![3], vec![1.; 3]);
    let data = arena.insert_data(Tensor::zeros(&vec![3, 3]));
    let mut node = Addition::new(left, right, data);
    assert!(node.is_wf(&arena));
    assert!(!node.was_computed());

    node.forward(&mut arena);
    assert!(node.was_computed());
    assert_eq!(
        *arena.data(data),
        new_tensor(vec![3, 3], vec![2., 3., 4., 5., 6., 7., 8., 9., 10.])
    );
}

#[test]
fn addition_backward_sums_the_stretched_axis() {
    let mut arena: Arena<F> = Arena::new();
    let left = new_backward_input(&mut arena, vec![3, 3]);
    let right = new_backward_input(&mut arena, vec![3]);
    let gradient = new_backward_input(&mut arena, vec![3, 3]);
    arena.seed(gradient, new_tensor(vec![3, 3], vec![1.; 9]));
    let node = AdditionBackward::new(
        AdditionBackwardLeft::new(left, gradient),
        AdditionBackwardRight::new(right, gradient),
    );
    assert!(node.is_ready(&arena));

    node.backward(&mut arena);
    assert_eq!(*arena.gradient(left).unwrap(), new_tensor(vec![3, 3], vec![1.; 9]));
    assert_eq!(*arena.gradient(right).unwrap(), new_tensor(vec![3], vec![3.; 3]));
    assert!(!arena.can_overwrite(left));
    assert!(!arena.can_overwrite(right));
    assert!(arena.can_overwrite(gradient));

    node.backward(&mut arena);
    assert_eq!(*arena.gradient(left).unwrap(), new_tensor(vec![3, 3], vec![2.; 9]));
    assert_eq!(*arena.gradient(right).unwrap(), new_tensor(vec![3], vec![6.; 3]));

    arena.set_overwrite(right, true);
    node.backward(&mut arena);
    assert_eq!(*arena.gradient(left).unwrap(), new_tensor(vec![3, 3], vec![3.; 9]));
    assert_eq!(*arena.gradient(right).unwrap(), new_tensor(vec![3], vec![3.; 3]));
}

#[test]
fn addition_backward_sums_leading_and_inner_axes() {
    let mut arena: Arena<F> = Arena::new();
    let operand = new_backward_input(&mut arena, vec![3, 1]);
    let gradient = new_backward_input(&mut arena, vec![2, 3, 2]);
    arena.seed(
        gradient,
        new_tensor(vec![2, 3, 2], vec![1., 2., 3., 4., 5., 6., 7., 8., 9., 10., 11., 12.]),
    );
    let node = AdditionBackwardLeft::new(operand, gradient);
    assert!(node.is_ready(&arena));

    node.backward(&mut arena);
    assert_eq!(*arena.gradient(operand).unwrap(), new_tensor(vec![3, 1], vec![18., 26., 34.]));
}

#[test]
fn addition_of_an_operand_to_itself() {
    let mut arena: Arena<F> = Arena::new();
    let x = new_input(&mut arena, vec![2], vec![3., 4.]);
    let data = arena.insert_data(Tensor::zeros(&vec![2]));
    let dx = new_backward_input(&mut arena, vec![2]);
    let gradient = new_backward_input(&mut arena, vec![2]);
    arena.seed(gradient, new_tensor(vec![2], vec![1., 10.]));

    let mut node = Addition::new(x, x, data);
    node.forward(&mut arena);
    assert_eq!(*arena.data(data), new_tensor(vec![2], vec![6., 8.]));

    // Both shares go to one cell: the first replaces, the second adds.
    arena.seed(dx, new_tensor(vec![2], vec![500., 500.]));
    let backward = AdditionBackward::new(
        AdditionBackwardLeft::new(dx, gradient),
        AdditionBackwardRight::new(dx, gradient),
    );
    assert!(backward.is_ready(&arena));
    backward.backward(&mut arena);
    assert_eq!(*arena.gradient(dx).unwrap(), new_tensor(vec![2], vec![2., 20.]));
}

#[test]
fn addition_rejects_operands_that_do_not_broadcast() {
    let mut arena = Arena::new();
    let left = new_input(&mut arena, vec![3, 3], one_to_nine());
    let right = new_input(&mut arena, vec![2], vec![1.; 2]);
    let data = arena.insert_data(Tensor::zeros(&vec![3, 3]));
    assert!(!Addition::<F>::new(left, right, data).is_wf(&arena));
    assert!(!Addition::<F>::new(left, left, 9).is_wf(&arena));
    assert!(Addition::<F>::new(left, left, data).is_wf(&arena));

    let g33 = new_backward_input(&mut arena, vec![3, 3]);
    let g2 = new_backward_input(&mut arena, vec![2]);
    assert!(!AdditionBackwardLeft::<F>::new(g2, g33).is_ready(&arena));
    assert!(!AdditionBackwardRight::<F>::new(g33, 5).is_ready(&arena));
    arena.no_grad(g33);
    assert!(!AdditionBackwardRight::<F>::new(g33, g33).is_ready(&arena));
}

// Memoization.

#[test]
fn forward_is_memoized_until_reset() {
    let mut arena = Arena::new();
    let left = new_input(&mut arena, vec![2], vec![1., 2.]);
    let right = new_input(&mut arena, vec![2], vec![10., 20.]);
    let data = arena.insert_data(Tensor::zeros(&vec![2]));
    let mut node = Addition::new(left, right, data);

    node.forward(&mut arena);
    assert_eq!(*arena.data(data), new_tensor(vec![2], vec![11., 22.]));

    arena.set_data(left, new_tensor(vec![2], vec![5., 5.]));
    node.forward(&mut arena);
    assert_eq!(*arena.data(data), new_tensor(vec![2], vec![11., 22.]));
    assert_eq!(*arena.data(left), new_tensor(vec![2], vec![5., 5.]));

    node.reset_computation();
    node.forward(&mut arena);
    assert_eq!(*arena.data(data), new_tensor(vec![2], vec![15., 25.]));
}

/// Whatever the node: a second `forward` changes nothing though an operand
/// changed, and after a reset the next one computes from the new operand.
fn assert_memoized<N: Forward<F>>(
    mut node: N,
    arena: &mut Arena<F>,
    operand: usize,
    replacement: Tensor<F>,
) {
    assert!(node.is_wf(arena));
    assert!(!node.was_computed());
    node.forward(arena);
    assert!(node.was_computed());
    let first = node.data(arena).copy();

    arena.set_data(operand, replacement);
    assert!(node.is_wf(arena));
    node.forward(arena);
    assert_eq!(*node.data(arena), first);

    node.reset_computation();
    assert!(!node.was_computed());
    assert_eq!(*node.data(arena), first);
    node.forward(arena);
    assert!(node.was_computed());
    assert_ne!(*node.data(arena), first);
}

#[test]
fn every_node_is_memoized() {
    let mut arena = Arena::new();
    let v = new_input(&mut arena, vec![2], vec![1., 2.]);
    let w = new_input(&mut arena, vec![2], vec![3., 5.]);
    let m = new_input(&mut arena, vec![2, 2], vec![1., 2., 3., 4.]);
    let other = || new_tensor(vec![2], vec![7., -1.]);

    let out = arena.insert_data(Tensor::zeros(&vec![2]));
    assert_memoized(Addition::new(v, w, out), &mut arena, v, other());
    arena.set_data(v, new_tensor(vec![2], vec![1., 2.]));

    let out = arena.insert_data(Tensor::zeros(&vec![2]));
    assert_memoized(Division::new(v, w, out), &mut arena, v, other());
    arena.set_data(v, new_tensor(vec![2], vec![1., 2.]));

    let out = arena.insert_data(Tensor::zeros(&vec![2]));
    assert_memoized(MatrixVectorMul::new(m, v, out), &mut arena, v, other());
    arena.set_data(v, new_tensor(vec![2], vec![1., 2.]));

    let out = arena.insert_data(Tensor::zeros(&vec![2]));
    assert_memoized(VectorMatrixMul::new(v, m, out), &mut arena, v, other());
    arena.set_data(v, new_tensor(vec![2], vec![1., 2.]));

    let out = arena.insert_data(Tensor::zeros(&vec![2]));
    assert_memoized(Sigmoid::new(v, out), &mut arena, v, other());
    arena.set_data(v, new_tensor(vec![2], vec![1., 2.]));

    let out = arena.insert_data(Tensor::zeros(&vec![2]));
    assert_memoized(TanH::new(v, out), &mut arena, v, other());
    arena.set_data(v, new_tensor(vec![2], vec![1., 2.]));

    let loss = BCEWithLogitsLoss::new(&mut arena, v, w, Reduction::Mean);
    assert_memoized(loss, &mut arena, v, other());

    // No node wrote to an operand.
    assert_eq!(*arena.data(w), new_tensor(vec![2], vec![3., 5.]));
    assert_eq!(*arena.data(m), new_tensor(vec![2, 2], vec![1., 2., 3., 4.]));
}

#[test]
fn a_computed_node_asks_nothing_of_its_operands() {
    let mut arena = Arena::new();
    let left = new_input(&mut arena, vec![2], vec![1., 2.]);
    let right = new_input(&mut arena, vec![2], vec![10., 20.]);
    let data = arena.insert_data(Tensor::zeros(&vec![2]));
    let mut node = Addition::new(left, right, data);
    node.forward(&mut arena);

    // The operand no longer fits, and the node is not run again.
    arena.set_data(left, new_tensor(vec![3], vec![0.; 3]));
    assert!(!node.is_wf(&arena));
    node.forward(&mut arena);
    assert_eq!(*node.data(&arena), new_tensor(vec![2], vec![11., 22.]));
    assert!(node.was_computed());
}

/// Whatever the node: `no_grad` drops its gradient, and `with_grad` gives it
/// one of zeros of the shape it had.
fn assert_gradient_comes_and_goes<N: Backward<F> + Overwrite<F>>(
    node: N,
    arena: &mut Arena<F>,
    shape: Vec<usize>,
) {
    assert!(node.is_ready(arena));
    assert!(node.can_overwrite(arena));
    *node.gradient_mut(arena) = Tensor::filled(&shape, F(3.));
    node.set_overwrite(arena, false);

    node.no_grad(arena);
    assert!(node.gradient(arena).is_none());
    assert!(!node.is_ready(arena));
    assert!(!node.can_overwrite(arena));

    node.with_grad(arena);
    assert_eq!(*node.gradient(arena).unwrap(), Tensor::zeros(&shape));
    assert!(node.is_ready(arena));
    assert!(!node.can_overwrite(arena));
}

#[test]
fn every_node_drops_and_regains_its_gradient() {
    let mut arena = Arena::new();
    let v = new_input(&mut arena, vec![2], vec![1., 2.]);
    let m = new_input(&mut arena, vec![2, 2], vec![1., 2., 3., 4.]);
    let dv = new_backward_input(&mut arena, vec![2]);
    let dm = new_backward_input(&mut arena, vec![2, 2]);
    let buffer = arena.insert_data(Tensor::zeros(&vec![2]));

    let g = new_backward_input(&mut arena, vec![2]);
    let node = AdditionBackward::new(
        AdditionBackwardLeft::new(dv, g),
        AdditionBackwardRight::new(dv, g),
    );
    assert_gradient_comes_and_goes(node, &mut arena, vec![2]);

    let g = new_backward_input(&mut arena, vec![2]);
    let node = DivisionBackward::new(
        DivisionBackwardLeft::new(dv, v, g, buffer),
        DivisionBackwardRight::new(v, v, dv, g, buffer),
    );
    assert_gradient_comes_and_goes(node, &mut arena, vec![2]);

    let g = new_backward_input(&mut arena, vec![2]);
    let node = MatrixVectorMulBackward::new(
        MatrixVectorMulBackwardLeft::new(dm, v, g),
        MatrixVectorMulBackwardRight::new(m, dv, g),
    );
    assert_gradient_comes_and_goes(node, &mut arena, vec![2]);

    let g = new_backward_input(&mut arena, vec![2]);
    let node = VectorMatrixMulBackward::new(
        VectorMatrixMulBackwardLeft::new(dv, m, g),
        VectorMatrixMulBackwardRight::new(v, dm, g),
    );
    assert_gradient_comes_and_goes(node, &mut arena, vec![2]);

    let g = new_backward_input(&mut arena, vec![2]);
    assert_gradient_comes_and_goes(SigmoidBackward::new(dv, v, g), &mut arena, vec![2]);

    let g = new_backward_input(&mut arena, vec![2]);
    assert_gradient_comes_and_goes(TanHBackward::new(dv, v, g), &mut arena, vec![2]);

    let node = BCEWithLogitsLossBackward::new(&mut arena, dv, v, v, Reduction::Sum);
    assert_gradient_comes_and_goes(node, &mut arena, vec![]);
}

#[test]
fn units_of_a_node_must_read_one_gradient() {
    let mut arena: Arena<F> = Arena::new();
    let dv = new_backward_input(&mut arena, vec![2]);
    let g = new_backward_input(&mut arena, vec![2]);
    let h = new_backward_input(&mut arena, vec![2]);
    let node = AdditionBackward::new(
        AdditionBackwardLeft::new(dv, g),
        AdditionBackwardRight::new(dv, h),
    );
    assert!(node.left.is_ready(&arena));
    assert!(node.right.is_ready(&arena));
    assert!(!node.is_ready(&arena));
}

// Division.

#[test]
fn division_stretches_the_divisor() {
    let mut arena = Arena::new();
    let left = new_input(&mut arena, vec![2, 2], vec![2., 4., 6., 8.]);
    let right = new_input(&mut arena, vec![2], vec![2., 4.]);
    let data = arena.insert_data(Tensor::zeros(&vec![2, 2]));
    let mut node = Division::new(left, right, data);
    assert!(node.is_wf(&arena));

    node.forward(&mut arena);
    assert_eq!(*arena.data(data), new_tensor(vec![2, 2], vec![1., 1., 3., 2.]));

    arena.set_data(right, new_tensor(vec![2], vec![1., 1.]));
    node.forward(&mut arena);
    assert_eq!(*arena.data(data), new_tensor(vec![2, 2], vec![1., 1., 3., 2.]));
    node.reset_computation();
    assert!(!node.was_computed());
    node.forward(&mut arena);
    assert_eq!(*arena.data(data), new_tensor(vec![2, 2], vec![2., 4., 6., 8.]));
}

#[test]
fn division_by_zero_is_not_an_error() {
    let mut arena = Arena::new();
    let left = new_input(&mut arena, vec![3], vec![1., -1., 0.]);
    let right = new_input(&mut arena, vec![1], vec![0.]);
    let data = arena.insert_data(Tensor::zeros(&vec![3]));
    let mut node = Division::new(left, right, data);
    node.forward(&mut arena);

    let out = arena.data(data);
    assert_eq!(out.get(0).0, f32::INFINITY);
    assert_eq!(out.get(1).0, f32::NEG_INFINITY);
    assert!(out.get(2).0.is_nan());
}

struct DivisionCells {
    left_gradient: usize,
    right_gradient: usize,
    gradient: usize,
    buffer: usize,
    left: DivisionBackwardLeft<F>,
    right: DivisionBackwardRight<F>,
}

fn division_cells(arena: &mut Arena<F>) -> DivisionCells {
    let left_data = new_input(arena, vec![2, 2], vec![2., 4., 6., 8.]);
    let right_data = new_input(arena, vec![2], vec![2., 4.]);
    let left_gradient = new_backward_input(arena, vec![2, 2]);
    let right_gradient = new_backward_input(arena, vec![2]);
    let gradient = new_backward_input(arena, vec![2, 2]);
    let buffer = arena.insert_data(Tensor::zeros(&vec![2, 2]));
    arena.seed(gradient, new_tensor(vec![2, 2], vec![1., 2., 3., 4.]));
    let left = DivisionBackwardLeft::new(left_gradient, right_data, gradient, buffer);
    let right =
        DivisionBackwardRight::new(left_data, right_data, right_gradient, gradient, buffer);
    assert!(left.is_ready(arena));
    assert!(right.is_ready(arena));
    DivisionCells { left_gradient, right_gradient, gradient, buffer, left, right }
}

#[test]
fn division_backward_of_the_dividend() {
    let mut arena = Arena::new();
    let c = division_cells(&mut arena);

    // g / r
    c.left.backward(&mut arena);
    assert_eq!(*arena.data(c.buffer), new_tensor(vec![2, 2], vec![0.5, 0.5, 1.5, 1.]));
    assert_eq!(
        *arena.gradient(c.left_gradient).unwrap(),
        new_tensor(vec![2, 2], vec![0.5, 0.5, 1.5, 1.])
    );
    assert!(!arena.can_overwrite(c.left_gradient));

    c.left.backward(&mut arena);
    assert_eq!(
        *arena.gradient(c.left_gradient).unwrap(),
        new_tensor(vec![2, 2], vec![1., 1., 3., 2.])
    );
    assert_eq!(*arena.gradient(c.gradient).unwrap(), new_tensor(vec![2, 2], vec![1., 2., 3., 4.]));
}

#[test]
fn division_backward_of_the_divisor() {
    let mut arena = Arena::new();
    let c = division_cells(&mut arena);

    // -g * l / r^2, summed over the rows
    c.right.backward(&mut arena);
    assert_eq!(*arena.data(c.buffer), new_tensor(vec![2, 2], vec![-0.5, -0.5, -4.5, -2.]));
    assert_eq!(*arena.gradient(c.right_gradient).unwrap(), new_tensor(vec![2], vec![-5., -2.5]));
    assert!(!arena.can_overwrite(c.right_gradient));

    c.right.backward(&mut arena);
    assert_eq!(*arena.gradient(c.right_gradient).unwrap(), new_tensor(vec![2], vec![-10., -5.]));

    arena.set_overwrite(c.right_gradient, true);
    c.right.backward(&mut arena);
    assert_eq!(*arena.gradient(c.right_gradient).unwrap(), new_tensor(vec![2], vec![-5., -2.5]));
}

#[test]
fn division_backward_runs_left_then_right() {
    let mut arena = Arena::new();
    let c = division_cells(&mut arena);
    let node = DivisionBackward::new(c.left, c.right);
    assert!(node.is_ready(&arena));

    node.backward(&mut arena);
    assert_eq!(
        *arena.gradient(c.left_gradient).unwrap(),
        new_tensor(vec![2, 2], vec![0.5, 0.5, 1.5, 1.])
    );
    assert_eq!(*arena.gradient(c.right_gradient).unwrap(), new_tensor(vec![2], vec![-5., -2.5]));
    // The buffer holds what the unit that ran last staged.
    assert_eq!(*arena.data(c.buffer), new_tensor(vec![2, 2], vec![-0.5, -0.5, -4.5, -2.]));
}

#[test]
fn division_rejects_a_buffer_of_another_shape() {
    let mut arena = Arena::new();
    let c = division_cells(&mut arena);
    let small = arena.insert_data(Tensor::zeros(&vec![2]));
    let left = DivisionBackwardLeft { buffer: small, ..c.left };
    let right = DivisionBackwardRight { buffer: small, ..c.right };
    assert!(!left.is_ready(&arena));
    assert!(!right.is_ready(&arena));
    assert!(!DivisionBackward::new(c.left, right).is_ready(&arena));
    assert!(!Division::<F>::new(0, 1, small).is_wf(&arena));
}

// The product of a vector with a matrix.

#[test]
fn vector_matrix_mul_forward() {
    let mut arena = Arena::new();
    let left = new_input(&mut arena, vec![2], vec![1., 10.]);
    let right = new_input(&mut arena, vec![2, 3], vec![1., 2., 3., 4., 5., 6.]);
    let data = arena.insert_data(Tensor::zeros(&vec![3]));
    let mut node = VectorMatrixMul::new(left, right, data);
    assert!(node.is_wf(&arena));

    node.forward(&mut arena);
    assert!(node.was_computed());
    assert_eq!(*arena.data(data), new_tensor(vec![3], vec![41., 52., 63.]));

    arena.set_data(left, new_tensor(vec![2], vec![1., 1.]));
    node.forward(&mut arena);
    assert_eq!(*arena.data(data), new_tensor(vec![3], vec![41., 52., 63.]));
    node.reset_computation();
    node.forward(&mut arena);
    assert_eq!(*arena.data(data), new_tensor(vec![3], vec![5., 7., 9.]));
}

#[test]
fn vector_matrix_mul_backward() {
    let mut arena = Arena::new();
    let left_data = new_input(&mut arena, vec![2], vec![1., 10.]);
    let right_data = new_input(&mut arena, vec![2, 3], vec![1., 2., 3., 4., 5., 6.]);
    let left_gradient = new_backward_input(&mut arena, vec![2]);
    let right_gradient = new_backward_input(&mut arena, vec![2, 3]);
    let gradient = new_backward_input(&mut arena, vec![3]);
    arena.seed(gradient, new_tensor(vec![3], vec![1., 2., 3.]));
    let node = VectorMatrixMulBackward::new(
        VectorMatrixMulBackwardLeft::new(left_gradient, right_data, gradient),
        VectorMatrixMulBackwardRight::new(left_data, right_gradient, gradient),
    );
    assert!(node.is_ready(&arena));

    node.backward(&mut arena);
    // The matrix applied to the gradient; the vector times the gradient.
    assert_eq!(*arena.gradient(left_gradient).unwrap(), new_tensor(vec![2], vec![14., 32.]));
    assert_eq!(
        *arena.gradient(right_gradient).unwrap(),
        new_tensor(vec![2, 3], vec![1., 2., 3., 10., 20., 30.])
    );
    assert!(!arena.can_overwrite(left_gradient));
    assert!(!arena.can_overwrite(right_gradient));

    node.backward(&mut arena);
    assert_eq!(*arena.gradient(left_gradient).unwrap(), new_tensor(vec![2], vec![28., 64.]));
    assert_eq!(
        *arena.gradient(right_gradient).unwrap(),
        new_tensor(vec![2, 3], vec![2., 4., 6., 20., 40., 60.])
    );

    arena.set_overwrite(left_gradient, true);
    arena.set_overwrite(right_gradient, true);
    node.backward(&mut arena);
    assert_eq!(*arena.gradient(left_gradient).unwrap(), new_tensor(vec![2], vec![14., 32.]));
    assert_eq!(
        *arena.gradient(right_gradient).unwrap(),
        new_tensor(vec![2, 3], vec![1., 2., 3., 10., 20., 30.])
    );
}

#[test]
fn vector_matrix_mul_rejects_mismatched_operands() {
    let mut arena = Arena::new();
    let v3 = new_input(&mut arena, vec![3], vec![1.; 3]);
    let m = new_input(&mut arena, vec![2, 3], vec![1.; 6]);
    let out3 = arena.insert_data(Tensor::zeros(&vec![3]));
    assert!(!VectorMatrixMul::<F>::new(v3, m, out3).is_wf(&arena));
    assert!(!VectorMatrixMul::<F>::new(m, v3, out3).is_wf(&arena));

    let g3 = new_backward_input(&mut arena, vec![3]);
    let g2 = new_backward_input(&mut arena, vec![2]);
    let g23 = new_backward_input(&mut arena, vec![2, 3]);
    assert!(VectorMatrixMulBackwardLeft::<F>::new(g2, m, g3).is_ready(&arena));
    assert!(!VectorMatrixMulBackwardLeft::<F>::new(g3, m, g3).is_ready(&arena));
    assert!(!VectorMatrixMulBackwardLeft::<F>::new(g2, m, g2).is_ready(&arena));
    assert!(!VectorMatrixMulBackwardRight::<F>::new(v3, g23, g3).is_ready(&arena));
}

// The hyperbolic tangent.

#[test]
fn tanh_forward() {
    let mut arena = Arena::new();
    let operand = new_input(&mut arena, vec![2, 2], vec![-1., 0., 0.5, 2.]);
    let data = arena.insert_data(Tensor::zeros(&vec![2, 2]));
    let mut node = TanH::new(operand, data);
    assert!(node.is_wf(&arena));

    node.forward(&mut arena);
    assert_almost_equals(
        arena.data(data),
        &new_tensor(vec![2, 2], vec![-0.761594, 0., 0.462117, 0.964028]),
    );
    assert_eq!(arena.data(data).get(1), F(0.));

    arena.set_data(operand, new_tensor(vec![2, 2], vec![0.; 4]));
    node.forward(&mut arena);
    assert_almost_equals(
        arena.data(data),
        &new_tensor(vec![2, 2], vec![-0.761594, 0., 0.462117, 0.964028]),
    );
    node.reset_computation();
    node.forward(&mut arena);
    assert_eq!(*arena.data(data), new_tensor(vec![2, 2], vec![0.; 4]));
}

#[test]
fn tanh_backward_adds_the_gradient_times_the_slope() {
    let mut arena: Arena<F> = Arena::new();
    let diff = new_backward_input(&mut arena, vec![3]);
    let data = new_input(&mut arena, vec![3], vec![0., 0.5, -0.25]);
    let gradient = new_backward_input(&mut arena, vec![3]);
    arena.seed(gradient, new_tensor(vec![3], vec![1., 2., 4.]));
    let node = TanHBackward::new(diff, data, gradient);
    assert!(node.is_ready(&arena));

    // g * (1 - y * y)
    node.backward(&mut arena);
    assert_eq!(*arena.gradient(diff).unwrap(), new_tensor(vec![3], vec![1., 1.5, 3.75]));
    assert!(arena.can_overwrite(diff));

    node.backward(&mut arena);
    assert_eq!(*arena.gradient(diff).unwrap(), new_tensor(vec![3], vec![2., 3., 7.5]));

    arena.seed(diff, new_tensor(vec![3], vec![100., 100., 100.]));
    arena.set_overwrite(diff, false);
    node.backward(&mut arena);
    assert_eq!(*arena.gradient(diff).unwrap(), new_tensor(vec![3], vec![101., 101.5, 103.75]));
    assert!(!arena.can_overwrite(diff));
}

#[test]
fn tanh_rejects_cells_of_different_shapes() {
    let mut arena = Arena::new();
    let operand = new_input(&mut arena, vec![2, 2], vec![0.; 4]);
    let data = arena.insert_data(Tensor::zeros(&vec![4]));
    assert!(!TanH::<F>::new(operand, data).is_wf(&arena));
    let g4 = new_backward_input(&mut arena, vec![4]);
    let g22 = new_backward_input(&mut arena, vec![2, 2]);
    assert!(!TanHBackward::<F>::new(g22, data, g4).is_ready(&arena));
    assert!(TanHBackward::<F>::new(g4, data, g4).is_ready(&arena));
}

// The loss.

fn logits() -> Vec<f32> {
    vec![0., 1., -2., 3.]
}

fn targets() -> Vec<f32> {
    vec![0., 1., 1., 0.]
}

#[test]
fn bce_creation() {
    let mut arena = Arena::new();
    let input = new_input(&mut arena, vec![4], logits());
    let target = new_input(&mut arena, vec![4], targets());
    let node = BCEWithLogitsLoss::new(&mut arena, input, target, Reduction::Mean);
    assert!(node.is_wf(&arena));
    assert!(!node.was_computed());
    assert_eq!(*node.data(&arena), new_tensor(vec![], vec![0.]));

    let diff = new_backward_input(&mut arena, vec![4]);
    let backward = BCEWithLogitsLossBackward::new(&mut arena, diff, input, target, Reduction::Mean);
    assert!(backward.is_ready(&arena));
    assert!(backward.can_overwrite(&arena));
    assert_eq!(*backward.gradient(&arena).unwrap(), new_tensor(vec![], vec![0.]));
}

#[test]
fn bce_forward_sum() {
    let mut arena = Arena::new();
    let input = new_input(&mut arena, vec![4], logits());
    let target = new_input(&mut arena, vec![4], targets());
    let mut node = BCEWithLogitsLoss::new(&mut arena, input, target, Reduction::Sum);

    node.forward(&mut arena);
    assert!(node.was_computed());
    // ln 2 + ln(1 + e^-1) + ln(1 + e^2) + ln(1 + e^3)
    assert!((node.data(&arena).get(0).0 - 6.1819242).abs() < 1e-5);
    assert_eq!(node.data(&arena).shape(), &Vec::<usize>::new());
}

#[test]
fn bce_forward_mean() {
    let mut arena = Arena::new();
    let input = new_input(&mut arena, vec![2, 2], logits());
    let target = new_input(&mut arena, vec![2, 2], targets());
    let mut node = BCEWithLogitsLoss::new(&mut arena, input, target, Reduction::Mean);

    node.forward(&mut arena);
    assert!((node.data(&arena).get(0).0 - 1.5454811).abs() < 1e-5);

    // The mean of -[t ln s + (1 - t) ln(1 - s)] with s the logistic function.
    let mut direct = 0.0f64;
    for (x, t) in logits().iter().zip(targets()) {
        let s = 1.0 / (1.0 + (-(*x as f64)).exp());
        direct -= (t as f64) * s.ln() + (1.0 - t as f64) * (1.0 - s).ln();
    }
    assert!((node.data(&arena).get(0).0 as f64 - direct / 4.0).abs() < 1e-5);
}

#[test]
fn bce_forward_does_not_overflow_on_large_logits() {
    let mut arena = Arena::new();
    let input = new_input(&mut arena, vec![2], vec![200., -200.]);
    let target = new_input(&mut arena, vec![2], vec![1., 0.]);
    let mut node = BCEWithLogitsLoss::new(&mut arena, input, target, Reduction::Sum);
    node.forward(&mut arena);
    assert_eq!(node.data(&arena).get(0), F(0.));

    let target = new_input(&mut arena, vec![2], vec![0., 1.]);
    let mut node = BCEWithLogitsLoss::new(&mut arena, input, target, Reduction::Mean);
    node.forward(&mut arena);
    assert_eq!(node.data(&arena).get(0), F(200.));
}

#[test]
fn bce_forward_is_memoized() {
    let mut arena = Arena::new();
    let input = new_input(&mut arena, vec![1], vec![0.]);
    let target = new_input(&mut arena, vec![1], vec![1.]);
    let mut node = BCEWithLogitsLoss::new(&mut arena, input, target, Reduction::Sum);

    node.forward(&mut arena);
    let first = node.data(&arena).get(0).0;
    assert!((first - 0.6931472).abs() < 1e-6);

    arena.set_data(input, new_tensor(vec![1], vec![3.]));
    node.forward(&mut arena);
    assert_eq!(node.data(&arena).get(0).0, first);

    node.reset_computation();
    assert!(!node.was_computed());
    node.forward(&mut arena);
    assert!((node.data(&arena).get(0).0 - 0.04858735).abs() < 1e-6);
}

#[test]
fn bce_data_mut_writes_the_node_s_cell() {
    let mut arena = Arena::new();
    let input = new_input(&mut arena, vec![1], vec![0.]);
    let target = new_input(&mut arena, vec![1], vec![1.]);
    let node = BCEWithLogitsLoss::new(&mut arena, input, target, Reduction::Sum);
    *node.data_mut(&mut arena) = new_tensor(vec![], vec![7.]);
    assert_eq!(*node.data(&arena), new_tensor(vec![], vec![7.]));
    assert_eq!(*arena.data(input), new_tensor(vec![1], vec![0.]));
}

#[test]
fn bce_backward_mean() {
    let mut arena = Arena::new();
    let input = new_input(&mut arena, vec![4], logits());
    let target = new_input(&mut arena, vec![4], targets());
    let diff = new_backward_input(&mut arena, vec![4]);
    let node = BCEWithLogitsLossBackward::new(&mut arena, diff, input, target, Reduction::Mean);
    *node.gradient_mut(&mut arena) = new_tensor(vec![], vec![1.]);
    assert!(node.is_ready(&arena));

    // (sigmoid(x) - t) / 4
    let expected = new_tensor(vec![4], vec![0.125, -0.06723535, -0.22019927, 0.23814353]);
    node.backward(&mut arena);
    assert_almost_equals(arena.gradient(diff).unwrap(), &expected);
    assert_eq!(arena.gradient(diff).unwrap().get(0), F(0.125));
    assert!(!arena.can_overwrite(diff));
    assert!(node.can_overwrite(&arena));

    node.backward(&mut arena);
    assert_almost_equals(
        arena.gradient(diff).unwrap(),
        &new_tensor(vec![4], vec![0.25, -0.1344707, -0.44039854, 0.47628706]),
    );

    arena.set_overwrite(diff, true);
    node.backward(&mut arena);
    assert_almost_equals(arena.gradient(diff).unwrap(), &expected);
}

#[test]
fn bce_backward_sum_scales_with_the_seed() {
    let mut arena = Arena::new();
    let input = new_input(&mut arena, vec![2, 2], logits());
    let target = new_input(&mut arena, vec![2, 2], targets());
    let diff = new_backward_input(&mut arena, vec![2, 2]);
    let node = BCEWithLogitsLossBackward::new(&mut arena, diff, input, target, Reduction::Sum);
    *node.gradient_mut(&mut arena) = new_tensor(vec![], vec![2.]);

    // (sigmoid(x) - t) * 2
    node.backward(&mut arena);
    assert_almost_equals(
        arena.gradient(diff).unwrap(),
        &new_tensor(vec![2, 2], vec![1., -0.5378828, -1.7615942, 1.9051483]),
    );
    assert_eq!(arena.gradient(diff).unwrap().get(0), F(1.));
}

#[test]
fn bce_backward_flags_and_gradient() {
    let mut arena = Arena::new();
    let input = new_input(&mut arena, vec![1], vec![0.]);
    let target = new_input(&mut arena, vec![1], vec![1.]);
    let diff = new_backward_input(&mut arena, vec![1]);
    let node = BCEWithLogitsLossBackward::new(&mut arena, diff, input, target, Reduction::Sum);

    node.set_overwrite(&mut arena, false);
    assert!(!node.can_overwrite(&arena));
    assert!(arena.can_overwrite(diff));
    node.set_overwrite(&mut arena, true);
    assert!(node.can_overwrite(&arena));

    node.no_grad(&mut arena);
    assert!(node.gradient(&arena).is_none());
    assert!(!node.is_ready(&arena));
    assert!(arena.gradient(diff).is_some());

    node.with_grad(&mut arena);
    assert_eq!(*node.gradient(&arena).unwrap(), new_tensor(vec![], vec![0.]));
    assert!(node.is_ready(&arena));
}

#[test]
fn bce_rejects_targets_of_another_shape() {
    let mut arena = Arena::new();
    let input = new_input(&mut arena, vec![4], logits());
    let target = new_input(&mut arena, vec![2, 2], targets());
    let node = BCEWithLogitsLoss::new(&mut arena, input, target, Reduction::Mean);
    assert!(!node.is_wf(&arena));
    let diff = new_backward_input(&mut arena, vec![4]);
    let backward = BCEWithLogitsLossBackward::new(&mut arena, diff, input, target, Reduction::Mean);
    assert!(!backward.is_ready(&arena));
}
