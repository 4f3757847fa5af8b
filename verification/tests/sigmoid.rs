use neuronika::arena::Arena;
use neuronika::node::sigmoid::{Sigmoid, SigmoidBackward};
use neuronika::node::{Backward, Data, Forward, Gradient, Overwrite};
use neuronika::scalar::Scalar;
use neuronika::tensor::Tensor;

#[derive(Clone, Copy, Debug, PartialEq)]
struct F(f32);

impl Scalar for F {
    fn zero() -> Self {
        F(0.0)
    }

    fn one() -> Self {
        F(1.0)
    }

    fn from_count(n: usize) -> Self {
        F(n as f32)
    }

    fn add(self, rhs: Self) -> Self {
        F(self.0 + rhs.0)
    }

    fn sub(self, rhs: Self) -> Self {
        F(self.0 - rhs.0)
    }

    fn mul(self, rhs: Self) -> Self {
        F(self.0 * rhs.0)
    }

    fn div(self, rhs: Self) -> Self {
        F(self.0 / rhs.0)
    }

    fn neg(self) -> Self {
        F(-self.0)
    }

    fn max(self, rhs: Self) -> Self {
        F(self.0.max(rhs.0))
    }

    fn exp(self) -> Self {
        F(self.0.exp())
    }

    fn ln(self) -> Self {
        F(self.0.ln())
    }

    fn tanh(self) -> Self {
        F(self.0.tanh())
    }

    fn signum(self) -> Self {
        F(self.0.signum())
    }

    fn is_zero(self) -> bool {
        self.0 == 0.0
    }
}

fn new_tensor(shape: Vec<usize>, values: Vec<f32>) -> Tensor<F> {
    Tensor::from_vec(shape, values.into_iter().map(F).collect()).unwrap()
}

fn assert_almost_equals(our: &Tensor<F>, their: &Tensor<F>) {
    assert_eq!(our.shape(), their.shape());
    assert_eq!(our.len(), their.len());
    for i in 0..our.len() {
        let (a, b) = (our.get(i).0, their.get(i).0);
        assert!((a - b).abs() <= 1e-4, "element {}: {} is not {}", i, a, b);
    }
}

fn new_input(arena: &mut Arena<F>, shape: Vec<usize>, values: Vec<f32>) -> usize {
    arena.insert_data(new_tensor(shape, values))
}

fn new_backward_input(arena: &mut Arena<F>, shape: Vec<usize>) -> usize {
    arena.insert_gradient(&shape)
}

fn new_forward_node(
    arena: &mut Arena<F>,
    shape: Vec<usize>,
    values: Vec<f32>,
) -> (Sigmoid<F>, usize) {
    let input = new_input(arena, shape.clone(), values);
    let data = arena.insert_data(Tensor::zeros(&shape));
    let node = Sigmoid::new(input, data);
    assert!(node.is_wf(arena));
    (node, input)
}

struct BackwardNode {
    node: SigmoidBackward<F>,
    gradient: usize,
    diff: usize,
}

/// A backward unit over the output of a sigmoid of `[1, 2, 3]`, computed or
/// not.
fn new_backward_node(arena: &mut Arena<F>, computed: bool) -> BackwardNode {
    let diff = new_backward_input(arena, vec![3]);
    let (mut not_diff, _) = new_forward_node(arena, vec![3], vec![1., 2., 3.]);
    if computed {
        not_diff.forward(arena);
    }
    let gradient = new_backward_input(arena, vec![3]);
    let node = SigmoidBackward::new(diff, not_diff.data, gradient);
    assert!(node.is_ready(arena));
    BackwardNode { node, gradient, diff }
}

fn sigmoids_from(first: i32) -> Vec<f32> {
    (first..first + 9).map(|x| (1.0 / (1.0 + (-(x as f64)).exp())) as f32).collect()
}

#[test]
fn sigmoid_creation() {
    let mut arena = Arena::new();
    let (node, _) =
        new_forward_node(&mut arena, vec![3, 3], vec![-4., -3., -2., -1., 0., 1., 2., 3., 4.]);

    assert_eq!(*node.data(&arena), Tensor::filled(&vec![3, 3], F(0.)));
    assert_eq!(*node.data_mut(&mut arena), Tensor::filled(&vec![3, 3], F(0.)));
    assert!(!node.was_computed());
    assert_eq!(node.data_id(), node.data);
}

#[test]
fn test_computation_was_computed_transition() {
    let mut arena = Arena::new();
    let (mut node, _) =
        new_forward_node(&mut arena, vec![3, 3], vec![-4., -3., -2., -1., 0., 1., 2., 3., 4.]);

    node.forward(&mut arena);
    assert!(node.was_computed());

    node.forward(&mut arena);
    assert!(node.was_computed());

    node.reset_computation();
    assert!(!node.was_computed());

    node.reset_computation();
    assert!(!node.was_computed());
}

#[test]
fn test_forward() {
    let mut arena = Arena::new();
    let (mut node, input) =
        new_forward_node(&mut arena, vec![3, 3], vec![-4., -3., -2., -1., 0., 1., 2., 3., 4.]);
    let first = new_tensor(
        vec![3, 3],
        vec![0.01799, 0.04743, 0.1192, 0.26894, 0.5, 0.73106, 0.8808, 0.95257, 0.98201],
    );

    // First evaluation.
    node.forward(&mut arena);
    assert_almost_equals(node.data(&arena), &first);

    // No second evaluation.
    arena.set_data(input, new_tensor(vec![3, 3], vec![-3., -2., -1., 0., 1., 2., 3., 4., 5.]));
    assert_almost_equals(
        arena.data(input),
        &new_tensor(vec![3, 3], vec![-3., -2., -1., 0., 1., 2., 3., 4., 5.]),
    );

    node.forward(&mut arena);
    assert_almost_equals(node.data(&arena), &first);

    // Second evaluation.
    node.reset_computation();
    node.forward(&mut arena);
    assert_almost_equals(
        arena.data(node.data),
        &new_tensor(
            vec![3, 3],
            vec![0.04743, 0.1192, 0.26894, 0.5, 0.73106, 0.8808, 0.95257, 0.98201, 0.993307],
        ),
    );
}

#[test]
fn sigmoid_forward_to_five_decimals() {
    let mut arena = Arena::new();
    let (mut node, _) =
        new_forward_node(&mut arena, vec![9], vec![-4., -3., -2., -1., 0., 1., 2., 3., 4.]);
    node.forward(&mut arena);

    let expected = sigmoids_from(-4);
    let out = node.data(&arena);
    for i in 0..9 {
        assert!((out.get(i).0 - expected[i]).abs() < 1e-5);
    }
    assert_eq!(out.get(4), F(0.5));
}

#[test]
fn sigmoid_backward_creation() {
    let mut arena = Arena::new();
    let b = new_backward_node(&mut arena, false);

    assert_eq!(*b.node.gradient(&arena).unwrap(), Tensor::filled(&vec![3], F(0.)));
    assert_eq!(*b.node.gradient_mut(&mut arena), Tensor::filled(&vec![3], F(0.)));
    assert!(b.node.can_overwrite(&arena));
    assert_eq!(b.node.gradient_id(), b.gradient);
}

#[test]
fn test_computation_state_transition() {
    let mut arena = Arena::new();
    let b = new_backward_node(&mut arena, false);
    let (node, diff) = (b.node, b.diff);

    // A node with one operand adds to the operand's gradient and leaves the
    // operand's flag to whoever owns the cell.
    node.backward(&mut arena);
    assert!(node.can_overwrite(&arena));
    assert!(arena.can_overwrite(diff));

    arena.set_overwrite(diff, false);
    node.backward(&mut arena);
    assert!(node.can_overwrite(&arena));
    assert!(!arena.can_overwrite(diff));

    arena.set_overwrite(diff, true);
    assert!(node.can_overwrite(&arena));
    assert!(arena.can_overwrite(diff));

    arena.set_overwrite(diff, true);
    assert!(node.can_overwrite(&arena));
    assert!(arena.can_overwrite(diff));

    node.set_overwrite(&mut arena, false);
    assert!(!node.can_overwrite(&arena));
    assert!(arena.can_overwrite(diff));

    node.set_overwrite(&mut arena, false);
    assert!(!node.can_overwrite(&arena));
    assert!(arena.can_overwrite(diff));

    node.backward(&mut arena);
    assert!(!node.can_overwrite(&arena));
    assert!(arena.can_overwrite(diff));

    node.backward(&mut arena);
    assert!(!node.can_overwrite(&arena));
    assert!(arena.can_overwrite(diff));
}

#[test]
fn test_backward() {
    let mut arena = Arena::new();
    let b = new_backward_node(&mut arena, true);
    let (node, diff) = (b.node, b.diff);

    // Seed gradient.
    *node.gradient_mut(&mut arena) = new_tensor(vec![3], vec![1.; 3]);
    assert_almost_equals(node.gradient(&arena).unwrap(), &new_tensor(vec![3], vec![1.; 3]));

    // First evaluation.
    node.backward(&mut arena);
    assert_almost_equals(
        arena.gradient(diff).unwrap(),
        &new_tensor(vec![3], vec![0.1966, 0.105, 0.0452]),
    );

    // Second evaluation.
    node.backward(&mut arena);
    assert_almost_equals(
        arena.gradient(diff).unwrap(),
        &new_tensor(vec![3], vec![0.3932, 0.21, 0.0904]),
    );

    // Third evaluation: the flag of the operand is set, and the node adds all
    // the same.
    arena.set_overwrite(diff, true);
    node.backward(&mut arena);
    assert_almost_equals(
        arena.gradient(diff).unwrap(),
        &new_tensor(vec![3], vec![0.5898, 0.315, 0.1356]),
    );
    assert!(arena.can_overwrite(diff));

    // Once the cell is zeroed again, one evaluation gives the first values.
    arena.with_grad(diff);
    node.backward(&mut arena);
    assert_almost_equals(
        arena.gradient(diff).unwrap(),
        &new_tensor(vec![3], vec![0.1966, 0.105, 0.0452]),
    );
}

#[test]
fn sigmoid_backward_reads_the_output_not_the_operand() {
    let mut arena: Arena<F> = Arena::new();
    let diff = new_backward_input(&mut arena, vec![2]);
    // The value cell holds outputs that no operand was ever given for.
    let data = new_input(&mut arena, vec![2], vec![0.25, 0.5]);
    let gradient = new_backward_input(&mut arena, vec![2]);
    arena.seed(gradient, new_tensor(vec![2], vec![2., 4.]));
    let node = SigmoidBackward::new(diff, data, gradient);
    assert!(node.is_ready(&arena));

    node.backward(&mut arena);
    // g * y * (1 - y)
    assert_eq!(*arena.gradient(diff).unwrap(), new_tensor(vec![2], vec![0.375, 1.0]));
}

#[test]
fn test_no_grad() {
    let mut arena = Arena::new();
    let diff = new_backward_input(&mut arena, vec![3, 3]);
    let data = new_input(&mut arena, vec![3, 3], vec![0.; 9]);
    let gradient = new_backward_input(&mut arena, vec![3, 3]);
    let node = SigmoidBackward::new(diff, data, gradient);
    assert!(node.is_ready(&arena));

    node.no_grad(&mut arena);
    assert!(node.gradient(&arena).is_none());
    assert!(!node.is_ready(&arena));

    node.with_grad(&mut arena);
    assert_eq!(*node.gradient(&arena).unwrap(), Tensor::zeros(&vec![3, 3]));
    assert!(node.is_ready(&arena));
}
