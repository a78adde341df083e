use gradgraph::accumulator::{push_gradient, push_mat_mat_gradient};
use gradgraph::reduction::reduce;
use gradgraph::{Accumulator, Scalar, Tensor};

fn tensor(shape: &[usize], data: &[i64]) -> Tensor<i64> {
    Tensor::from_vec(shape.to_vec(), data.to_vec()).unwrap()
}

fn inner(u: &[i64], v: &[i64]) -> i64 {
    let mut total = <i64 as Scalar>::zero();
    for i in 0..u.len() {
        total = total.plus(u[i].times(v[i]));
    }
    total
}

#[test]
fn integer_scalars_wrap() {
    assert_eq!(<i64 as Scalar>::zero(), 0);
    assert_eq!(3i64.plus(4), 7);
    assert_eq!(3i64.times(-4), -12);
    assert_eq!(i64::MAX.plus(1), i64::MIN);
    assert_eq!(i64::MAX.times(2), -2);
}

#[test]
fn reduce_sums_over_a_missing_leading_axis() {
    let g = tensor(&[2, 3], &[1, 2, 3, 4, 5, 6]);
    let r = reduce(&[3], &g);
    assert_eq!(r.shape(), &[3]);
    assert_eq!(r.as_slice(), &[5, 7, 9]);
}

#[test]
fn reduce_sums_over_an_axis_of_extent_one() {
    let g = tensor(&[2, 3], &[1, 2, 3, 4, 5, 6]);
    let r = reduce(&[2, 1], &g);
    assert_eq!(r.shape(), &[2, 1]);
    assert_eq!(r.as_slice(), &[6, 15]);
    let r = reduce(&[1, 3], &g);
    assert_eq!(r.shape(), &[1, 3]);
    assert_eq!(r.as_slice(), &[5, 7, 9]);
}

#[test]
fn reduce_to_a_scalar_sums_everything() {
    let g = tensor(&[2, 3], &[1, 2, 3, 4, 5, 6]);
    let r = reduce(&[], &g);
    assert_eq!(r.shape(), &[] as &[usize]);
    assert_eq!(r.as_slice(), &[21]);
    let r = reduce(&[1, 1], &g);
    assert_eq!(r.as_slice(), &[21]);
}

#[test]
fn reduce_to_the_same_shape_changes_nothing() {
    let g = tensor(&[2, 3], &[1, 2, 3, 4, 5, 6]);
    let r = reduce(&[2, 3], &g);
    assert_eq!(r.shape(), &[2, 3]);
    assert_eq!(r.as_slice(), &[1, 2, 3, 4, 5, 6]);
}

#[test]
fn reduce_of_an_empty_gradient_is_zero() {
    let g = tensor(&[0, 3], &[]);
    let r = reduce(&[1, 3], &g);
    assert_eq!(r.as_slice(), &[0, 0, 0]);
}

#[test]
fn reduce_of_a_replica_multiplies_by_the_replication_factor() {
    // x of shape [3] replicated to [4, 3] and reduced again is 4 x
    let x = [7, -2, 5];
    let mut replica = Vec::new();
    for _ in 0..4 {
        replica.extend_from_slice(&x);
    }
    let r = reduce(&[3], &tensor(&[4, 3], &replica));
    assert_eq!(r.as_slice(), &[28, -8, 20]);
}

#[test]
fn reduce_is_adjoint_to_broadcast() {
    // <g, replica of x> == <reduce g, x>, for x of shape [2, 1] and g of
    // shape [3, 2, 2]
    let g: Vec<i64> = (1..=12).collect();
    let x = [3, -5];
    let mut replica = Vec::new();
    for i in 0..12 {
        replica.push(x[gradgraph::shape::source_offset(&[2, 1], &[3, 2, 2], i)]);
    }
    let r = reduce(&[2, 1], &tensor(&[3, 2, 2], &g));
    assert_eq!(r.as_slice(), &[1 + 2 + 5 + 6 + 9 + 10, 3 + 4 + 7 + 8 + 11 + 12]);
    assert_eq!(inner(&g, &replica), inner(r.as_slice(), &x));
}

#[test]
fn a_fresh_accumulator_is_zero_and_can_be_overwritten() {
    let a = Accumulator::<i64>::new(&[2, 2]);
    assert!(a.has_gradient());
    assert!(a.can_overwrite());
    assert_eq!(a.shape(), &[2, 2]);
    assert_eq!(a.gradient().as_slice(), &[0, 0, 0, 0]);
}

#[test]
fn a_single_push_replaces_stale_content() {
    let mut a = Accumulator::<i64>::new(&[3]);
    a.gradient_mut().fill(100);
    push_gradient(&mut a, &tensor(&[3], &[1, 2, 3]));
    assert_eq!(a.gradient().as_slice(), &[1, 2, 3]);
    assert!(!a.can_overwrite());
}

#[test]
fn two_pushes_add_up_in_either_order() {
    let c1 = tensor(&[3], &[1, 2, 3]);
    let c2 = tensor(&[3], &[10, 20, 30]);
    let mut a = Accumulator::<i64>::new(&[3]);
    a.gradient_mut().fill(100);
    push_gradient(&mut a, &c1);
    push_gradient(&mut a, &c2);
    let mut b = Accumulator::<i64>::new(&[3]);
    b.gradient_mut().fill(-7);
    push_gradient(&mut b, &c2);
    push_gradient(&mut b, &c1);
    assert_eq!(a.gradient().as_slice(), &[11, 22, 33]);
    assert_eq!(b.gradient().as_slice(), &[11, 22, 33]);
}

#[test]
fn a_push_without_overwrite_adds_to_what_is_there() {
    let mut a = Accumulator::<i64>::new(&[2]);
    a.gradient_mut().fill(5);
    a.set_overwrite(false);
    push_gradient(&mut a, &tensor(&[2], &[1, 2]));
    assert_eq!(a.gradient().as_slice(), &[6, 7]);
    a.set_overwrite(true);
    push_gradient(&mut a, &tensor(&[2], &[1, 2]));
    assert_eq!(a.gradient().as_slice(), &[1, 2]);
}

#[test]
fn a_push_into_a_node_without_gradient_does_nothing() {
    let mut a = Accumulator::<i64>::new(&[2]);
    a.no_grad();
    assert!(!a.has_gradient());
    push_gradient(&mut a, &tensor(&[2], &[1, 2]));
    assert!(!a.has_gradient());
    assert!(a.can_overwrite());
    let m = tensor(&[1, 2], &[1, 2]);
    let mut b = Accumulator::<i64>::new(&[1, 2]);
    b.no_grad();
    push_mat_mat_gradient(&mut b, &tensor(&[1, 1], &[3]), false, &m);
    assert!(!b.has_gradient());
    assert!(b.can_overwrite());
}

#[test]
fn no_grad_then_with_grad_gives_a_zero_buffer_of_the_same_shape() {
    let mut a = Accumulator::<i64>::new(&[2, 3]);
    push_gradient(&mut a, &tensor(&[2, 3], &[1, 2, 3, 4, 5, 6]));
    a.no_grad();
    assert!(!a.has_gradient());
    assert_eq!(a.shape(), &[2, 3]);
    a.with_grad();
    assert!(a.has_gradient());
    assert_eq!(a.gradient().shape(), &[2, 3]);
    assert_eq!(a.gradient().as_slice(), &[0, 0, 0, 0, 0, 0]);
    assert!(!a.can_overwrite());
}

#[test]
fn push_mat_mat_gradient_overwrites_then_accumulates() {
    // first = [[1, 2], [3, 4]], second = [[5, 6], [7, 8]]
    let first = tensor(&[2, 2], &[1, 2, 3, 4]);
    let second = tensor(&[2, 2], &[5, 6, 7, 8]);
    let mut a = Accumulator::<i64>::new(&[2, 2]);
    a.gradient_mut().fill(1000);
    push_mat_mat_gradient(&mut a, &first, false, &second);
    assert_eq!(a.gradient().as_slice(), &[19, 22, 43, 50]);
    assert!(!a.can_overwrite());
    push_mat_mat_gradient(&mut a, &first, true, &second);
    // transpose of first = [[1, 3], [2, 4]]; product = [[26, 30], [38, 44]]
    assert_eq!(a.gradient().as_slice(), &[19 + 26, 22 + 30, 43 + 38, 50 + 44]);
}
