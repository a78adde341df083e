use gradgraph::accumulator::push_gradient;
use gradgraph::reduction::reduce;
use gradgraph::shape::{broadcast_shape, source_offset};
use gradgraph::{
    Accumulator, MatrixMatrixMulT, MatrixMatrixMulTBackward, Multiplication,
    MultiplicationBackward, Scalar, Tensor,
};
use ndarray::linalg::general_mat_mul;
use ndarray::{Array2, ArrayD, Axis, IxDyn, Zip};

/// Single-precision numbers as tensor elements.
#[derive(Clone, Copy, Debug, PartialEq)]
struct Single(f32);

impl Scalar for Single {
    fn zero_value() -> Self {
        Single(0.0)
    }

    fn sum(self, rhs: Self) -> Self {
        Single(self.0 + rhs.0)
    }

    fn product(self, rhs: Self) -> Self {
        Single(self.0 * rhs.0)
    }

    fn zero() -> Self {
        Single(0.0)
    }

    fn plus(self, rhs: Self) -> Self {
        Single(self.0 + rhs.0)
    }

    fn times(self, rhs: Self) -> Self {
        Single(self.0 * rhs.0)
    }
}

/// An array of the given shape that holds 1, 2, 3, ... in row-major order.
fn counting(shape: &[usize]) -> ArrayD<f32> {
    let n: usize = shape.iter().product();
    let data: Vec<f32> = (1..=n).map(|x| x as f32).collect();
    ArrayD::from_shape_vec(IxDyn(shape), data).unwrap()
}

fn tensor_of(array: &ArrayD<f32>) -> Tensor<Single> {
    let data: Vec<Single> = array.iter().map(|x| Single(*x)).collect();
    Tensor::from_vec(array.shape().to_vec(), data).unwrap()
}

fn values(t: &Tensor<Single>) -> Vec<f32> {
    t.as_slice().iter().map(|x| x.0).collect()
}

fn flat(array: &ArrayD<f32>) -> Vec<f32> {
    array.iter().copied().collect()
}

const PAIRS: [(&[usize], &[usize]); 7] = [
    (&[2, 3], &[3]),
    (&[2, 1], &[1, 3]),
    (&[4, 1, 3], &[2, 1]),
    (&[], &[2, 2]),
    (&[3, 2], &[3, 2]),
    (&[1], &[5]),
    (&[2, 1, 1], &[3, 4]),
];

#[test]
fn broadcast_shape_agrees_with_ndarray() {
    for (a, b) in PAIRS {
        let shape = broadcast_shape(a, b).unwrap();
        assert!(counting(a).broadcast(IxDyn(&shape)).is_some());
        assert!(counting(b).broadcast(IxDyn(&shape)).is_some());
        for k in 0..shape.len() {
            let x = if k + a.len() >= shape.len() { a[k + a.len() - shape.len()] } else { 1 };
            let y = if k + b.len() >= shape.len() { b[k + b.len() - shape.len()] } else { 1 };
            assert_eq!(shape[k], x.max(y));
        }
    }
    assert!(broadcast_shape(&[2, 3], &[4]).is_none());
    assert!(counting(&[2, 3]).broadcast(IxDyn(&[2, 4])).is_none());
}

#[test]
fn source_offset_agrees_with_a_broadcast_view() {
    for (a, b) in PAIRS {
        let shape = broadcast_shape(a, b).unwrap();
        for from in [a, b] {
            let array = counting(from);
            let view = array.broadcast(IxDyn(&shape)).unwrap();
            let source = flat(&array);
            for (i, x) in view.iter().enumerate() {
                assert_eq!(source[source_offset(from, &shape, i)], *x);
            }
        }
    }
}

#[test]
fn multiplication_forward_agrees_with_zip() {
    for (a, b) in PAIRS {
        let left = counting(a);
        let right = counting(b).mapv(|x| x - 2.0);
        let shape = broadcast_shape(a, b).unwrap();
        let mut expected = ArrayD::<f32>::zeros(IxDyn(&shape));
        Zip::from(&mut expected)
            .and_broadcast(&left)
            .and_broadcast(&right)
            .for_each(|v, l, r| *v = l * r);
        let (l, r) = (tensor_of(&left), tensor_of(&right));
        let mut node = Multiplication::new(&l, &r);
        node.forward(&l, &r);
        assert_eq!(node.data().shape(), expected.shape());
        assert_eq!(values(node.data()), flat(&expected));
    }
}

/// Sums `array` to `shape`, axis by axis.
fn sum_to(shape: &[usize], array: &ArrayD<f32>) -> ArrayD<f32> {
    let mut out = array.clone();
    while out.ndim() > shape.len() {
        out = out.sum_axis(Axis(0));
    }
    for (axis, size) in shape.iter().enumerate() {
        if *size == 1 {
            out = out.sum_axis(Axis(axis)).insert_axis(Axis(axis));
        }
    }
    out
}

#[test]
fn reduce_agrees_with_sums_over_axes() {
    for (a, b) in PAIRS {
        let shape = broadcast_shape(a, b).unwrap();
        let gradient = counting(&shape);
        for to in [a, b] {
            let expected = sum_to(to, &gradient);
            let reduced = reduce(to, &tensor_of(&gradient));
            assert_eq!(reduced.shape(), to);
            assert_eq!(values(&reduced), flat(&expected));
        }
    }
}

#[test]
fn multiplication_backward_agrees_with_zip_and_sums() {
    for (a, b) in PAIRS {
        let left = counting(a);
        let right = counting(b).mapv(|x| 3.0 - x);
        let shape = broadcast_shape(a, b).unwrap();
        let upstream = counting(&shape).mapv(|x| x - 4.0);
        let mut buffer = ArrayD::<f32>::zeros(IxDyn(&shape));
        Zip::from(&mut buffer)
            .and(&upstream)
            .and_broadcast(&right)
            .for_each(|d, g, r| *d = g * r);
        let left_expected = sum_to(a, &buffer);
        Zip::from(&mut buffer)
            .and(&upstream)
            .and_broadcast(&left)
            .for_each(|d, g, l| *d = g * l);
        let right_expected = sum_to(b, &buffer);

        let mut left_grad = Accumulator::<Single>::new(a);
        let mut right_grad = Accumulator::<Single>::new(b);
        let mut node = MultiplicationBackward::new(&left_grad, &right_grad);
        node.gradient_mut().copy_from(&tensor_of(&upstream));
        // stale content that the first push replaces
        push_gradient(&mut left_grad, &tensor_of(&counting(a)));
        left_grad.set_overwrite(true);
        node.backward(
            &tensor_of(&left),
            &mut left_grad,
            &tensor_of(&right),
            &mut right_grad,
        );
        assert_eq!(values(left_grad.gradient()), flat(&left_expected));
        assert_eq!(values(right_grad.gradient()), flat(&right_expected));
    }
}

fn matrix(rows: usize, cols: usize, offset: f32) -> Array2<f32> {
    let data: Vec<f32> = (0..rows * cols).map(|x| x as f32 - offset).collect();
    Array2::from_shape_vec((rows, cols), data).unwrap()
}

#[test]
fn matrix_matrix_mul_t_agrees_with_general_mat_mul() {
    for (m, k, n) in [(2, 3, 4), (1, 1, 1), (3, 2, 1), (2, 0, 2), (0, 3, 2)] {
        let left = matrix(m, k, 2.0);
        let right = matrix(n, k, 1.0);
        let mut expected = Array2::<f32>::from_elem((m, n), 9.0);
        general_mat_mul(1.0, &left, &right.t(), 0.0, &mut expected);
        let (l, r) = (tensor_of(&left.clone().into_dyn()), tensor_of(&right.clone().into_dyn()));
        let mut node = MatrixMatrixMulT::new(&l, &r);
        node.data_mut().fill(Single(9.0));
        node.forward(&l, &r);
        assert_eq!(node.data().shape(), &[m, n]);
        assert_eq!(values(node.data()), flat(&expected.clone().into_dyn()));

        let upstream = matrix(m, n, 3.0);
        let mut left_expected = Array2::<f32>::zeros((m, k));
        let mut right_expected = Array2::<f32>::zeros((n, k));
        general_mat_mul(1.0, &upstream, &right, 0.0, &mut left_expected);
        general_mat_mul(1.0, &upstream.t(), &left, 0.0, &mut right_expected);
        let mut left_grad = Accumulator::<Single>::new(&[m, k]);
        let mut right_grad = Accumulator::<Single>::new(&[n, k]);
        let mut back = MatrixMatrixMulTBackward::new(&left_grad, &right_grad);
        back.gradient_mut().copy_from(&tensor_of(&upstream.clone().into_dyn()));
        back.backward(&l, &mut left_grad, &r, &mut right_grad);
        assert_eq!(values(left_grad.gradient()), flat(&left_expected.clone().into_dyn()));
        assert_eq!(values(right_grad.gradient()), flat(&right_expected.clone().into_dyn()));
        // pushed again, the contributions add up
        general_mat_mul(1.0, &upstream, &right, 1.0, &mut left_expected);
        general_mat_mul(1.0, &upstream.t(), &left, 1.0, &mut right_expected);
        back.backward(&l, &mut left_grad, &r, &mut right_grad);
        assert_eq!(values(left_grad.gradient()), flat(&left_expected.into_dyn()));
        assert_eq!(values(right_grad.gradient()), flat(&right_expected.into_dyn()));
    }
}
