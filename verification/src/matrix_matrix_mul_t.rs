//! The product of a matrix with the transpose of another.

use crate::accumulator::{push_mat_mat_gradient, Accumulator, AccumulatorView};
use crate::cache::CachedView;
use crate::kernel::{is_matrix, matrix_product, matrix_product_into};
use crate::scalar::Scalar;
use crate::shape::count;
use crate::tensor::{Tensor, TensorView};
use vstd::prelude::*;

verus! {

/// The shape of a matrix of `rows` rows and `cols` columns.
pub open spec fn matrix_shape(rows: usize, cols: usize) -> Seq<usize> {
    seq![rows, cols]
}

/// Returns the shape of a matrix of `rows` rows and `cols` columns.
fn shape_of(rows: usize, cols: usize) -> (r: Vec<usize>)
    ensures
        r@ == matrix_shape(rows, cols),
{
    let mut shape: Vec<usize> = Vec::with_capacity(2);
    shape.push(rows);
    shape.push(cols);
    proof {
        assert(shape@ =~= matrix_shape(rows, cols));
    }
    shape
}

/// The forward node of the product of the left parent with the transpose
/// of the right parent.
#[derive(Debug)]
pub struct MatrixMatrixMulT<T> {
    data: Tensor<T>,
    computed: bool,
}

impl<T> View for MatrixMatrixMulT<T> {
    type V = CachedView<T>;

    closed spec fn view(&self) -> CachedView<T> {
        CachedView { data: self.data@, computed: self.computed }
    }
}

impl<T: Scalar> MatrixMatrixMulT<T> {
    /// The cached value is a matrix.
    pub open spec fn wf(&self) -> bool {
        is_matrix(self@.data)
    }

    /// Returns the node of the product of `left` with the transpose of
    /// `right`: not computed yet, with a zero value of as many rows as
    /// `left` and as many columns as `right` has rows.
    pub fn new(left: &Tensor<T>, right: &Tensor<T>) -> (r: Self)
        requires
            left@.shape.len() == 2,
            right@.shape.len() == 2,
            left@.shape[1] == right@.shape[1],
            count(matrix_shape(left@.shape[0], right@.shape[0])) <= usize::MAX,
        ensures
            r.wf(),
            r@.data == TensorView::<T>::zeros(matrix_shape(left@.shape[0], right@.shape[0])),
            !r@.computed,
    {
        let shape = shape_of(left.shape()[0], right.shape()[0]);
        MatrixMatrixMulT { data: Tensor::zeros(shape.as_slice()), computed: false }
    }

    /// The cached value.
    pub fn data(&self) -> (r: &Tensor<T>)
        ensures
            r@ == self@.data,
    {
        &self.data
    }

    /// Access to the cached value.
    pub fn data_mut(&mut self) -> (r: &mut Tensor<T>)
        ensures
            r@ == old(self)@.data,
            final(self)@.data == final(r)@,
            final(self)@.computed == old(self)@.computed,
    {
        &mut self.data
    }

    /// Tells whether the value was computed in the current forward pass.
    pub fn was_computed(&self) -> (r: bool)
        ensures
            r == self@.computed,
    {
        self.computed
    }

    /// Marks the node for a new forward pass.
    pub fn reset_computation(&mut self)
        ensures
            final(self)@ == old(self)@.reset(),
    {
        self.computed = false;
    }

    /// Computes the product of `left` with the transpose of `right`,
    /// unless it was computed in this forward pass already. What the node
    /// held before does not enter the result.
    pub fn forward(&mut self, left: &Tensor<T>, right: &Tensor<T>)
        requires
            old(self).wf(),
            is_matrix(left@),
            is_matrix(right@),
            left@.shape[1] == right@.shape[1],
            old(self)@.data.shape == matrix_shape(left@.shape[0], right@.shape[0]),
        ensures
            final(self).wf(),
            final(self)@ == old(self)@.forwarded(matrix_product(left@, false, right@, true)),
    {
        if self.computed {
            return ;
        }
        self.computed = true;
        matrix_product_into(&mut self.data, false, left, false, right, true);
    }
}

/// The backward node of the product of a matrix with the transpose of
/// another, where both are differentiable.
#[derive(Debug)]
pub struct MatrixMatrixMulTBackward<T> {
    accumulator: Accumulator<T>,
}

impl<T> View for MatrixMatrixMulTBackward<T> {
    type V = AccumulatorView<T>;

    closed spec fn view(&self) -> AccumulatorView<T> {
        self.accumulator@
    }
}

impl<T: Scalar> MatrixMatrixMulTBackward<T> {
    /// The gradient is a matrix of the node's shape.
    pub open spec fn wf(&self) -> bool {
        self@.wf() && self@.shape.len() == 2
    }

    /// Returns the backward node of the product of the left parent with
    /// the transpose of the right parent, given their accumulators: a fresh
    /// accumulator of the product's shape.
    pub fn new(left_grad: &Accumulator<T>, right_grad: &Accumulator<T>) -> (r: Self)
        requires
            left_grad@.shape.len() == 2,
            right_grad@.shape.len() == 2,
            left_grad@.shape[1] == right_grad@.shape[1],
            count(matrix_shape(left_grad@.shape[0], right_grad@.shape[0])) <= usize::MAX,
        ensures
            r.wf(),
            r@ == AccumulatorView::<T>::fresh(
                matrix_shape(left_grad@.shape[0], right_grad@.shape[0]),
            ),
    {
        let shape = shape_of(left_grad.shape()[0], right_grad.shape()[0]);
        MatrixMatrixMulTBackward { accumulator: Accumulator::new(shape.as_slice()) }
    }

    /// The accumulator of this node.
    pub fn accumulator(&self) -> (r: &Accumulator<T>)
        ensures
            r@ == self@,
    {
        &self.accumulator
    }

    /// Access to the accumulator of this node, for its children to push
    /// into.
    pub fn accumulator_mut(&mut self) -> (r: &mut Accumulator<T>)
        ensures
            r@ == old(self)@,
            final(self)@ == final(r)@,
    {
        &mut self.accumulator
    }

    /// The gradient gathered so far.
    pub fn gradient(&self) -> (r: &Tensor<T>)
        requires
            self@.gradient is Some,
        ensures
            Some(r@) == self@.gradient,
    {
        self.accumulator.gradient()
    }

    /// Access to the gradient, to seed or to edit it.
    pub fn gradient_mut(&mut self) -> (r: &mut Tensor<T>)
        requires
            old(self)@.gradient is Some,
        ensures
            Some(r@) == old(self)@.gradient,
            final(self)@.gradient == Some(final(r)@),
            final(self)@.shape == old(self)@.shape,
            final(self)@.overwrite == old(self)@.overwrite,
    {
        self.accumulator.gradient_mut()
    }

    /// Tells whether the next contribution replaces the gradient.
    pub fn can_overwrite(&self) -> (r: bool)
        ensures
            r == self@.overwrite,
    {
        self.accumulator.can_overwrite()
    }

    /// Sets the overwrite flag.
    pub fn set_overwrite(&mut self, state: bool)
        ensures
            final(self)@ == (AccumulatorView { overwrite: state, ..old(self)@ }),
    {
        self.accumulator.set_overwrite(state);
    }

    /// Drops the gradient: the node no longer tracks gradients.
    pub fn no_grad(&mut self)
        ensures
            final(self)@ == old(self)@.no_grad(),
    {
        self.accumulator.no_grad();
    }

    /// Gives the node a fresh zero gradient of its shape.
    pub fn with_grad(&mut self)
        requires
            old(self).wf(),
        ensures
            final(self).wf(),
            final(self)@ == old(self)@.with_grad(),
    {
        self.accumulator.with_grad();
    }

    /// Pushes to the left parent the gradient of this node times the value
    /// of the right parent, and to the right parent the transpose of the
    /// gradient times the value of the left parent.
    pub fn backward(
        &self,
        left_data: &Tensor<T>,
        left_grad: &mut Accumulator<T>,
        right_data: &Tensor<T>,
        right_grad: &mut Accumulator<T>,
    )
        requires
            self.wf(),
            self@.gradient is Some,
            is_matrix(left_data@),
            is_matrix(right_data@),
            old(left_grad).wf(),
            old(right_grad).wf(),
            left_data@.shape == old(left_grad)@.shape,
            right_data@.shape == old(right_grad)@.shape,
            left_data@.shape[1] == right_data@.shape[1],
            self@.shape == matrix_shape(left_data@.shape[0], right_data@.shape[0]),
        ensures
            final(left_grad).wf(),
            final(left_grad)@ == old(left_grad)@.pushed(
                matrix_product(self@.gradient.unwrap(), false, right_data@, false),
            ),
            final(right_grad).wf(),
            final(right_grad)@ == old(right_grad)@.pushed(
                matrix_product(self@.gradient.unwrap(), true, left_data@, false),
            ),
    {
        let gradient = self.accumulator.gradient();
        push_mat_mat_gradient(left_grad, gradient, false, right_data);
        push_mat_mat_gradient(right_grad, gradient, true, left_data);
    }
}

/// The backward node of the product of a matrix with the transpose of
/// another, where only the left one is differentiable.
#[derive(Debug)]
pub struct MatrixMatrixMulTBackwardLeft<T> {
    accumulator: Accumulator<T>,
}

impl<T> View for MatrixMatrixMulTBackwardLeft<T> {
    type V = AccumulatorView<T>;

    closed spec fn view(&self) -> AccumulatorView<T> {
        self.accumulator@
    }
}

impl<T: Scalar> MatrixMatrixMulTBackwardLeft<T> {
    /// The gradient is a matrix of the node's shape.
    pub open spec fn wf(&self) -> bool {
        self@.wf() && self@.shape.len() == 2
    }

    /// Returns the backward node of the product of the left parent with
    /// the transpose of a constant, given the parent's accumulator and the
    /// constant's value: a fresh accumulator of the product's shape.
    pub fn new(left_grad: &Accumulator<T>, right_data: &Tensor<T>) -> (r: Self)
        requires
            left_grad@.shape.len() == 2,
            right_data@.shape.len() == 2,
            left_grad@.shape[1] == right_data@.shape[1],
            count(matrix_shape(left_grad@.shape[0], right_data@.shape[0])) <= usize::MAX,
        ensures
            r.wf(),
            r@ == AccumulatorView::<T>::fresh(
                matrix_shape(left_grad@.shape[0], right_data@.shape[0]),
            ),
    {
        let shape = shape_of(left_grad.shape()[0], right_data.shape()[0]);
        MatrixMatrixMulTBackwardLeft { accumulator: Accumulator::new(shape.as_slice()) }
    }

    /// The accumulator of this node.
    pub fn accumulator(&self) -> (r: &Accumulator<T>)
        ensures
            r@ == self@,
    {
        &self.accumulator
    }

    /// Access to the accumulator of this node, for its children to push
    /// into.
    pub fn accumulator_mut(&mut self) -> (r: &mut Accumulator<T>)
        ensures
            r@ == old(self)@,
            final(self)@ == final(r)@,
    {
        &mut self.accumulator
    }

    /// The gradient gathered so far.
    pub fn gradient(&self) -> (r: &Tensor<T>)
        requires
            self@.gradient is Some,
        ensures
            Some(r@) == self@.gradient,
    {
        self.accumulator.gradient()
    }

    /// Access to the gradient, to seed or to edit it.
    pub fn gradient_mut(&mut self) -> (r: &mut Tensor<T>)
        requires
            old(self)@.gradient is Some,
        ensures
            Some(r@) == old(self)@.gradient,
            final(self)@.gradient == Some(final(r)@),
            final(self)@.shape == old(self)@.shape,
            final(self)@.overwrite == old(self)@.overwrite,
    {
        self.accumulator.gradient_mut()
    }

    /// Tells whether the next contribution replaces the gradient.
    pub fn can_overwrite(&self) -> (r: bool)
        ensures
            r == self@.overwrite,
    {
        self.accumulator.can_overwrite()
    }

    /// Sets the overwrite flag.
    pub fn set_overwrite(&mut self, state: bool)
        ensures
            final(self)@ == (AccumulatorView { overwrite: state, ..old(self)@ }),
    {
        self.accumulator.set_overwrite(state);
    }

    /// Drops the gradient: the node no longer tracks gradients.
    pub fn no_grad(&mut self)
        ensures
            final(self)@ == old(self)@.no_grad(),
    {
        self.accumulator.no_grad();
    }

    /// Gives the node a fresh zero gradient of its shape.
    pub fn with_grad(&mut self)
        requires
            old(self).wf(),
        ensures
            final(self).wf(),
            final(self)@ == old(self)@.with_grad(),
    {
        self.accumulator.with_grad();
    }

    /// Pushes to the left parent the gradient of this node times the value
    /// of the constant.
    pub fn backward(&self, left_grad: &mut Accumulator<T>, right_data: &Tensor<T>)
        requires
            self.wf(),
            self@.gradient is Some,
            is_matrix(right_data@),
            old(left_grad).wf(),
            old(left_grad)@.shape.len() == 2,
            old(left_grad)@.shape[1] == right_data@.shape[1],
            self@.shape == matrix_shape(old(left_grad)@.shape[0], right_data@.shape[0]),
        ensures
            final(left_grad).wf(),
            final(left_grad)@ == old(left_grad)@.pushed(
                matrix_product(self@.gradient.unwrap(), false, right_data@, false),
            ),
    {
        push_mat_mat_gradient(left_grad, self.accumulator.gradient(), false, right_data);
    }
}

/// The backward node of the product of a matrix with the transpose of
/// another, where only the right one is differentiable.
#[derive(Debug)]
pub struct MatrixMatrixMulTBackwardRight<T> {
    accumulator: Accumulator<T>,
}

impl<T> View for MatrixMatrixMulTBackwardRight<T> {
    type V = AccumulatorView<T>;

    closed spec fn view(&self) -> AccumulatorView<T> {
        self.accumulator@
    }
}

impl<T: Scalar> MatrixMatrixMulTBackwardRight<T> {
    /// The gradient is a matrix of the node's shape.
    pub open spec fn wf(&self) -> bool {
        self@.wf() && self@.shape.len() == 2
    }

    /// Returns the backward node of the product of a constant with the
    /// transpose of the right parent, given the constant's value and the
    /// parent's accumulator: a fresh accumulator of the product's shape.
    pub fn new(left_data: &Tensor<T>, right_grad: &Accumulator<T>) -> (r: Self)
        requires
            left_data@.shape.len() == 2,
            right_grad@.shape.len() == 2,
            left_data@.shape[1] == right_grad@.shape[1],
            count(matrix_shape(left_data@.shape[0], right_grad@.shape[0])) <= usize::MAX,
        ensures
            r.wf(),
            r@ == AccumulatorView::<T>::fresh(
                matrix_shape(left_data@.shape[0], right_grad@.shape[0]),
            ),
    {
        let shape = shape_of(left_data.shape()[0], right_grad.shape()[0]);
        MatrixMatrixMulTBackwardRight { accumulator: Accumulator::new(shape.as_slice()) }
    }

    /// The accumulator of this node.
    pub fn accumulator(&self) -> (r: &Accumulator<T>)
        ensures
            r@ == self@,
    {
        &self.accumulator
    }

    /// Access to the accumulator of this node, for its children to push
    /// into.
    pub fn accumulator_mut(&mut self) -> (r: &mut Accumulator<T>)
        ensures
            r@ == old(self)@,
            final(self)@ == final(r)@,
    {
        &mut self.accumulator
    }

    /// The gradient gathered so far.
    pub fn gradient(&self) -> (r: &Tensor<T>)
        requires
            self@.gradient is Some,
        ensures
            Some(r@) == self@.gradient,
    {
        self.accumulator.gradient()
    }

    /// Access to the gradient, to seed or to edit it.
    pub fn gradient_mut(&mut self) -> (r: &mut Tensor<T>)
        requires
            old(self)@.gradient is Some,
        ensures
            Some(r@) == old(self)@.gradient,
            final(self)@.gradient == Some(final(r)@),
            final(self)@.shape == old(self)@.shape,
            final(self)@.overwrite == old(self)@.overwrite,
    {
        self.accumulator.gradient_mut()
    }

    /// Tells whether the next contribution replaces the gradient.
    pub fn can_overwrite(&self) -> (r: bool)
        ensures
            r == self@.overwrite,
    {
        self.accumulator.can_overwrite()
    }

    /// Sets the overwrite flag.
    pub fn set_overwrite(&mut self, state: bool)
        ensures
            final(self)@ == (AccumulatorView { overwrite: state, ..old(self)@ }),
    {
        self.accumulator.set_overwrite(state);
    }

    /// Drops the gradient: the node no longer tracks gradients.
    pub fn no_grad(&mut self)
        ensures
            final(self)@ == old(self)@.no_grad(),
    {
        self.accumulator.no_grad();
    }

    /// Gives the node a fresh zero gradient of its shape.
    pub fn with_grad(&mut self)
        requires
            old(self).wf(),
        ensures
            final(self).wf(),
            final(self)@ == old(self)@.with_grad(),
    {
        self.accumulator.with_grad();
    }

    /// Pushes to the right parent the transpose of the gradient of this
    /// node times the value of the constant.
    pub fn backward(&self, left_data: &Tensor<T>, right_grad: &mut Accumulator<T>)
        requires
            self.wf(),
            self@.gradient is Some,
            is_matrix(left_data@),
            old(right_grad).wf(),
            old(right_grad)@.shape.len() == 2,
            left_data@.shape[1] == old(right_grad)@.shape[1],
            self@.shape == matrix_shape(left_data@.shape[0], old(right_grad)@.shape[0]),
        ensures
            final(right_grad).wf(),
            final(right_grad)@ == old(right_grad)@.pushed(
                matrix_product(self@.gradient.unwrap(), true, left_data@, false),
            ),
    {
        push_mat_mat_gradient(right_grad, self.accumulator.gradient(), true, left_data);
    }
}

} // verus!
