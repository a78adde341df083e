use gradgraph::{
    Accumulator, MatrixMatrixMulT, MatrixMatrixMulTBackward, MatrixMatrixMulTBackwardLeft,
    MatrixMatrixMulTBackwardRight, Multiplication, MultiplicationBackward,
    MultiplicationBackwardUnary, Scalar, Tensor,
};

/// Single-precision numbers as tensor elements.
#[derive(Clone, Copy, Debug, PartialEq)]
struct Real(f32);

impl Scalar for Real {
    fn zero_value() -> Self {
        Real(0.0)
    }

    fn sum(self, rhs: Self) -> Self {
        Real(self.0 + rhs.0)
    }

    fn product(self, rhs: Self) -> Self {
        Real(self.0 * rhs.0)
    }

    fn zero() -> Self {
        Real(0.0)
    }

    fn plus(self, rhs: Self) -> Self {
        Real(self.0 + rhs.0)
    }

    fn times(self, rhs: Self) -> Self {
        Real(self.0 * rhs.0)
    }
}

fn reals(shape: &[usize], data: &[f32]) -> Tensor<Real> {
    Tensor::from_vec(shape.to_vec(), data.iter().map(|x| Real(*x)).collect()).unwrap()
}

fn values(t: &Tensor<Real>) -> Vec<f32> {
    t.as_slice().iter().map(|x| x.0).collect()
}

fn ints(shape: &[usize], data: &[i64]) -> Tensor<i64> {
    Tensor::from_vec(shape.to_vec(), data.to_vec()).unwrap()
}

#[test]
fn multiplication_starts_with_zeros_of_the_broadcast_shape() {
    let node = Multiplication::new(&ints(&[2, 1], &[1, 2]), &ints(&[3], &[1, 2, 3]));
    assert!(!node.was_computed());
    assert_eq!(node.data().shape(), &[2, 3]);
    assert_eq!(node.data().as_slice(), &[0, 0, 0, 0, 0, 0]);
}

#[test]
fn multiplication_forward_multiplies_under_broadcasting() {
    let left = ints(&[2, 1], &[2, 3]);
    let right = ints(&[3], &[1, 10, 100]);
    let mut node = Multiplication::new(&left, &right);
    node.forward(&left, &right);
    assert!(node.was_computed());
    assert_eq!(node.data().as_slice(), &[2, 20, 200, 3, 30, 300]);
}

#[test]
fn multiplication_forward_with_a_scalar_operand() {
    let left = reals(&[], &[0.5]);
    let right = reals(&[2, 2], &[1.0, 2.0, 3.0, 4.0]);
    let mut node = Multiplication::new(&left, &right);
    node.forward(&left, &right);
    assert_eq!(node.data().shape(), &[2, 2]);
    assert_eq!(values(node.data()), vec![0.5, 1.0, 1.5, 2.0]);
}

#[test]
fn forward_is_computed_once_per_pass() {
    let left = ints(&[2], &[2, 3]);
    let right = ints(&[2], &[5, 7]);
    let mut node = Multiplication::new(&left, &right);
    node.forward(&left, &right);
    assert_eq!(node.data().as_slice(), &[10, 21]);
    // the parents change, the pass goes on: the node keeps its value
    let changed = ints(&[2], &[1, 1]);
    node.forward(&changed, &right);
    assert_eq!(node.data().as_slice(), &[10, 21]);
    node.reset_computation();
    assert!(!node.was_computed());
    node.forward(&changed, &right);
    assert_eq!(node.data().as_slice(), &[5, 7]);
}

/// Calls `forward` on `node` and counts the call if it computes.
fn visit(
    node: &mut Multiplication<i64>,
    left: &Tensor<i64>,
    right: &Tensor<i64>,
    computations: &mut usize,
) {
    if !node.was_computed() {
        *computations += 1;
    }
    node.forward(left, right);
}

#[test]
fn diamond_computes_the_shared_ancestor_once() {
    // a = x * y; b = a * x; c = a * y; d = b * c
    let x = ints(&[2], &[2, 3]);
    let y = ints(&[2], &[5, 7]);
    let mut a = Multiplication::new(&x, &y);
    let mut b = Multiplication::new(a.data(), &x);
    let mut c = Multiplication::new(a.data(), &y);
    let mut d = Multiplication::new(b.data(), c.data());
    let mut computed_a = 0;
    let mut computed_rest = 0;
    // the pass reaches a through b and again through c
    visit(&mut a, &x, &y, &mut computed_a);
    visit(&mut b, a.data(), &x, &mut computed_rest);
    visit(&mut a, &x, &y, &mut computed_a);
    visit(&mut c, a.data(), &y, &mut computed_rest);
    visit(&mut d, b.data(), c.data(), &mut computed_rest);
    assert_eq!(computed_a, 1);
    assert_eq!(computed_rest, 3);
    assert_eq!(a.data().as_slice(), &[10, 21]);
    assert_eq!(d.data().as_slice(), &[10 * 2 * 10 * 5, 21 * 3 * 21 * 7]);
}

#[test]
fn multiplication_backward_scalar_example() {
    let left = reals(&[1], &[2.0]);
    let right = reals(&[1], &[3.0]);
    let mut left_grad = Accumulator::<Real>::new(&[1]);
    let mut right_grad = Accumulator::<Real>::new(&[1]);
    let mut node = MultiplicationBackward::new(&left_grad, &right_grad);
    node.gradient_mut().fill(Real(1.0));
    node.backward(&left, &mut left_grad, &right, &mut right_grad);
    assert_eq!(values(left_grad.gradient()), vec![3.0]);
    assert_eq!(values(right_grad.gradient()), vec![2.0]);
    assert!(!left_grad.can_overwrite());
    assert!(!right_grad.can_overwrite());
}

#[test]
fn multiplication_backward_reduces_to_the_shape_of_each_parent() {
    let left = ints(&[2, 1], &[2, 3]);
    let right = ints(&[3], &[1, 10, 100]);
    let mut left_grad = Accumulator::<i64>::new(&[2, 1]);
    let mut right_grad = Accumulator::<i64>::new(&[3]);
    let mut node = MultiplicationBackward::new(&left_grad, &right_grad);
    assert_eq!(node.accumulator().shape(), &[2, 3]);
    assert!(node.can_overwrite());
    node.gradient_mut().copy_from(&ints(&[2, 3], &[1, 2, 3, 4, 5, 6]));
    node.backward(&left, &mut left_grad, &right, &mut right_grad);
    // left: sum over columns of g * right
    assert_eq!(left_grad.gradient().as_slice(), &[1 + 20 + 300, 4 + 50 + 600]);
    // right: sum over rows of g * left
    assert_eq!(right_grad.gradient().as_slice(), &[2 + 12, 4 + 15, 6 + 18]);
    // the node's own gradient stays
    assert_eq!(node.gradient().as_slice(), &[1, 2, 3, 4, 5, 6]);
}

#[test]
fn squaring_pushes_twice_into_the_same_parent() {
    let x = ints(&[2], &[3, 4]);
    let mut x_grad = Accumulator::<i64>::new(&[2]);
    let mut node = MultiplicationBackward::new(&x_grad, &x_grad);
    node.gradient_mut().fill(1);
    node.backward_left(&mut x_grad, &x);
    node.backward_right(&x, &mut x_grad);
    assert_eq!(x_grad.gradient().as_slice(), &[6, 8]);
}

#[test]
fn a_parent_of_two_children_sums_their_contributions() {
    let x = ints(&[2], &[3, 4]);
    let y = ints(&[2], &[5, 6]);
    let z = ints(&[2], &[7, 8]);
    let mut x_grad = Accumulator::<i64>::new(&[2]);
    x_grad.gradient_mut().fill(1000);
    let mut first = MultiplicationBackwardUnary::new(&x_grad, &y);
    let mut second = MultiplicationBackwardUnary::new(&x_grad, &z);
    first.gradient_mut().fill(1);
    second.gradient_mut().fill(1);
    first.backward(&mut x_grad, &y);
    second.backward(&mut x_grad, &z);
    assert_eq!(x_grad.gradient().as_slice(), &[12, 14]);
    let mut other = Accumulator::<i64>::new(&[2]);
    second.backward(&mut other, &z);
    first.backward(&mut other, &y);
    assert_eq!(other.gradient().as_slice(), &[12, 14]);
}

#[test]
fn multiplication_backward_unary_pushes_to_the_differentiable_operand() {
    let constant = reals(&[2, 2], &[1.0, 2.0, 3.0, 4.0]);
    let mut grad = Accumulator::<Real>::new(&[2]);
    let mut node = MultiplicationBackwardUnary::new(&grad, &constant);
    assert_eq!(node.accumulator().shape(), &[2, 2]);
    node.gradient_mut().fill(Real(1.0));
    node.backward(&mut grad, &constant);
    assert_eq!(values(grad.gradient()), vec![4.0, 6.0]);
}

#[test]
fn backward_into_a_parent_without_gradient_does_nothing() {
    let left = ints(&[2], &[2, 3]);
    let right = ints(&[2], &[5, 7]);
    let mut left_grad = Accumulator::<i64>::new(&[2]);
    let mut right_grad = Accumulator::<i64>::new(&[2]);
    let mut node = MultiplicationBackward::new(&left_grad, &right_grad);
    node.gradient_mut().fill(1);
    left_grad.no_grad();
    node.backward(&left, &mut left_grad, &right, &mut right_grad);
    assert!(!left_grad.has_gradient());
    assert_eq!(right_grad.gradient().as_slice(), &[2, 3]);
}

#[test]
fn backward_node_no_grad_then_with_grad() {
    let grad = Accumulator::<i64>::new(&[2, 1]);
    let constant = ints(&[3], &[1, 2, 3]);
    let mut node = MultiplicationBackwardUnary::new(&grad, &constant);
    node.gradient_mut().fill(9);
    node.set_overwrite(false);
    node.no_grad();
    assert!(!node.accumulator().has_gradient());
    node.with_grad();
    assert_eq!(node.gradient().shape(), &[2, 3]);
    assert_eq!(node.gradient().as_slice(), &[0, 0, 0, 0, 0, 0]);
    assert!(!node.can_overwrite());
    let mut full = MultiplicationBackward::new(&grad, &Accumulator::<i64>::new(&[3]));
    full.gradient_mut().fill(9);
    full.no_grad();
    full.with_grad();
    assert_eq!(full.gradient().as_slice(), &[0, 0, 0, 0, 0, 0]);
    assert!(full.can_overwrite());
}

#[test]
fn children_push_into_the_accumulator_of_a_backward_node() {
    // a = x * y, b = a * z: the backward node of b pushes into that of a
    let x = ints(&[2], &[2, 3]);
    let y = ints(&[2], &[5, 7]);
    let z = ints(&[2], &[11, 13]);
    let a = ints(&[2], &[10, 21]);
    let mut x_grad = Accumulator::<i64>::new(&[2]);
    let mut a_back = MultiplicationBackwardUnary::new(&x_grad, &y);
    let mut b_back = MultiplicationBackwardUnary::new(a_back.accumulator(), &z);
    b_back.gradient_mut().fill(1);
    b_back.backward(a_back.accumulator_mut(), &z);
    assert_eq!(a_back.gradient().as_slice(), &[11, 13]);
    a_back.backward(&mut x_grad, &y);
    assert_eq!(x_grad.gradient().as_slice(), &[55, 91]);
    assert_eq!(a.as_slice(), &[x.get(0) * y.get(0), x.get(1) * y.get(1)]);
}

#[test]
fn matrix_matrix_mul_t_example() {
    let left = reals(&[2, 3], &[1.0; 6]);
    let right = reals(&[4, 3], &[1.0; 12]);
    let mut node = MatrixMatrixMulT::new(&left, &right);
    assert_eq!(node.data().shape(), &[2, 4]);
    assert_eq!(values(node.data()), vec![0.0; 8]);
    node.forward(&left, &right);
    assert_eq!(values(node.data()), vec![3.0; 8]);

    let mut left_grad = Accumulator::<Real>::new(&[2, 3]);
    let mut right_grad = Accumulator::<Real>::new(&[4, 3]);
    let mut back = MatrixMatrixMulTBackward::new(&left_grad, &right_grad);
    assert_eq!(back.accumulator().shape(), &[2, 4]);
    back.gradient_mut().fill(Real(1.0));
    back.backward(&left, &mut left_grad, &right, &mut right_grad);
    assert_eq!(values(left_grad.gradient()), vec![4.0; 6]);
    assert_eq!(values(right_grad.gradient()), vec![2.0; 12]);
}

#[test]
fn matrix_matrix_mul_t_forward_overwrites_what_was_there() {
    // left = [[1, 2], [3, 4]], right = [[5, 6], [7, 8]]
    let left = ints(&[2, 2], &[1, 2, 3, 4]);
    let right = ints(&[2, 2], &[5, 6, 7, 8]);
    let mut node = MatrixMatrixMulT::new(&left, &right);
    node.data_mut().fill(1000);
    node.forward(&left, &right);
    assert_eq!(node.data().as_slice(), &[17, 23, 39, 53]);
    node.forward(&right, &left);
    assert_eq!(node.data().as_slice(), &[17, 23, 39, 53]);
    node.reset_computation();
    node.forward(&right, &left);
    assert_eq!(node.data().as_slice(), &[17, 39, 23, 53]);
}

#[test]
fn matrix_matrix_mul_t_backward_values() {
    // left 1 x 2, right 3 x 2, gradient 1 x 3
    let left = ints(&[1, 2], &[2, 3]);
    let right = ints(&[3, 2], &[1, 2, 3, 4, 5, 6]);
    let mut left_grad = Accumulator::<i64>::new(&[1, 2]);
    let mut right_grad = Accumulator::<i64>::new(&[3, 2]);
    let mut back = MatrixMatrixMulTBackward::new(&left_grad, &right_grad);
    back.gradient_mut().copy_from(&ints(&[1, 3], &[1, 10, 100]));
    back.backward(&left, &mut left_grad, &right, &mut right_grad);
    assert_eq!(left_grad.gradient().as_slice(), &[1 + 30 + 500, 2 + 40 + 600]);
    assert_eq!(right_grad.gradient().as_slice(), &[2, 3, 20, 30, 200, 300]);
    // a second backward adds: the parents were written already
    back.backward(&left, &mut left_grad, &right, &mut right_grad);
    assert_eq!(left_grad.gradient().as_slice(), &[2 * 531, 2 * 642]);
    assert_eq!(right_grad.gradient().as_slice(), &[4, 6, 40, 60, 400, 600]);
}

#[test]
fn matrix_matrix_mul_t_partial_backward() {
    let left = ints(&[1, 2], &[2, 3]);
    let right = ints(&[3, 2], &[1, 2, 3, 4, 5, 6]);
    let upstream = ints(&[1, 3], &[1, 10, 100]);
    let mut left_grad = Accumulator::<i64>::new(&[1, 2]);
    let mut only_left = MatrixMatrixMulTBackwardLeft::new(&left_grad, &right);
    assert_eq!(only_left.accumulator().shape(), &[1, 3]);
    only_left.gradient_mut().copy_from(&upstream);
    only_left.backward(&mut left_grad, &right);
    assert_eq!(left_grad.gradient().as_slice(), &[531, 642]);

    let mut right_grad = Accumulator::<i64>::new(&[3, 2]);
    let mut only_right = MatrixMatrixMulTBackwardRight::new(&left, &right_grad);
    assert_eq!(only_right.accumulator().shape(), &[1, 3]);
    only_right.gradient_mut().copy_from(&upstream);
    only_right.backward(&left, &mut right_grad);
    assert_eq!(right_grad.gradient().as_slice(), &[2, 3, 20, 30, 200, 300]);

    only_right.no_grad();
    only_right.with_grad();
    assert_eq!(only_right.gradient().as_slice(), &[0, 0, 0]);
    only_left.set_overwrite(false);
    assert!(!only_left.can_overwrite());
}
