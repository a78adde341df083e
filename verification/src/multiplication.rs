//! Elementwise multiplication under broadcasting.

use crate::accumulator::{push_gradient, Accumulator, AccumulatorView};
use crate::cache::CachedView;
use crate::kernel::{broadcast_product, multiply_into};
use crate::reduction::{reduce, reduced};
use crate::scalar::Scalar;
use crate::shape::{
    broadcast, broadcast_shape, broadcasts_to, compatible, count, lemma_broadcast_covers,
    lemma_source_index_same_shape, source_index,
};
use crate::tensor::{Tensor, TensorView};
use vstd::prelude::*;

verus! {

/// The gradient `g` that reached a product, times the replica of the other
/// operand: what the product passes on towards one operand, before it is
/// reduced to that operand's shape.
pub open spec fn scaled<T: Scalar>(g: TensorView<T>, other: TensorView<T>) -> Seq<T> {
    Seq::new(
        count(g.shape),
        |i: int| g.data[i].product(other.data[source_index(other.shape, g.shape, i)]),
    )
}

/// The contribution of a product to the gradient of an operand of shape
/// `shape`, where `g` is the gradient that reached the product and `other`
/// is the value of the other operand.
pub open spec fn contribution<T: Scalar>(
    g: TensorView<T>,
    other: TensorView<T>,
    shape: Seq<usize>,
) -> Seq<T> {
    reduced(scaled(g, other), shape, g.shape)
}

/// Computes the contribution to one operand in `buffer` and pushes it into
/// the accumulator `parent` of that operand.
fn push_contribution<T: Scalar>(
    buffer: &mut Tensor<T>,
    gradient: &Tensor<T>,
    other: &Tensor<T>,
    parent: &mut Accumulator<T>,
)
    requires
        old(buffer).wf(),
        gradient.wf(),
        other.wf(),
        old(parent).wf(),
        old(buffer)@.shape == gradient@.shape,
        broadcasts_to(other@.shape, gradient@.shape),
        broadcasts_to(old(parent)@.shape, gradient@.shape),
    ensures
        final(buffer).wf(),
        final(buffer)@.shape == old(buffer)@.shape,
        final(parent).wf(),
        final(parent)@ == old(parent)@.pushed(
            contribution(gradient@, other@, old(parent)@.shape),
        ),
{
    if parent.has_gradient() {
        proof {
            assert(broadcasts_to(gradient@.shape, buffer@.shape));
        }
        multiply_into(buffer, gradient, other);
        proof {
            assert forall|i: int| 0 <= i < count(gradient@.shape) implies source_index(
                gradient@.shape,
                gradient@.shape,
                i,
            ) == i by {
                lemma_source_index_same_shape(gradient@.shape, i);
            }
            assert(buffer@.data =~= scaled(gradient@, other@));
        }
        let reduced = reduce(parent.shape(), buffer);
        push_gradient(parent, &reduced);
    }
}

/// The forward node of a product: it caches the elementwise product of its
/// two parents, each replicated to the shape that they broadcast to.
#[derive(Debug)]
pub struct Multiplication<T> {
    data: Tensor<T>,
    computed: bool,
}

impl<T> View for Multiplication<T> {
    type V = CachedView<T>;

    closed spec fn view(&self) -> CachedView<T> {
        CachedView { data: self.data@, computed: self.computed }
    }
}

impl<T: Scalar> Multiplication<T> {
    /// The cached value is a tensor.
    pub open spec fn wf(&self) -> bool {
        self@.data.wf()
    }

    /// Returns the product node of two parents with the values `left` and
    /// `right`: not computed yet, with a zero value of their broadcast
    /// shape.
    pub fn new(left: &Tensor<T>, right: &Tensor<T>) -> (r: Self)
        requires
            compatible(left@.shape, right@.shape),
            count(broadcast(left@.shape, right@.shape)) <= usize::MAX,
        ensures
            r.wf(),
            r@.data == TensorView::<T>::zeros(broadcast(left@.shape, right@.shape)),
            !r@.computed,
    {
        let shape = broadcast_shape(left.shape(), right.shape()).unwrap();
        Multiplication { data: Tensor::zeros(shape.as_slice()), computed: false }
    }

    /// The cached value.
    pub fn data(&self) -> (r: &Tensor<T>)
        ensures
            r@ == self@.data,
    {
        &self.data
    }

    /// Access to the cached value.
    pub fn data_mut(&mut self) -> (r: &mut Tensor<T>)
        ensures
            r@ == old(self)@.data,
            final(self)@.data == final(r)@,
            final(self)@.computed == old(self)@.computed,
    {
        &mut self.data
    }

    /// Tells whether the value was computed in the current forward pass.
    pub fn was_computed(&self) -> (r: bool)
        ensures
            r == self@.computed,
    {
        self.computed
    }

    /// Marks the node for a new forward pass.
    pub fn reset_computation(&mut self)
        ensures
            final(self)@ == old(self)@.reset(),
    {
        self.computed = false;
    }

    /// Computes the product of the parents' values `left` and `right`,
    /// unless it was computed in this forward pass already.
    pub fn forward(&mut self, left: &Tensor<T>, right: &Tensor<T>)
        requires
            old(self).wf(),
            left.wf(),
            right.wf(),
            compatible(left@.shape, right@.shape),
            old(self)@.data.shape == broadcast(left@.shape, right@.shape),
        ensures
            final(self).wf(),
            final(self)@ == old(self)@.forwarded(
                broadcast_product(left@, right@, old(self)@.data.shape),
            ),
    {
        if self.computed {
            return ;
        }
        self.computed = true;
        proof {
            lemma_broadcast_covers(left@.shape, right@.shape);
        }
        multiply_into(&mut self.data, left, right);
    }
}

/// The backward node of a product whose operands are both differentiable.
#[derive(Debug)]
pub struct MultiplicationBackward<T> {
    accumulator: Accumulator<T>,
    buffer: Tensor<T>,
}

impl<T> View for MultiplicationBackward<T> {
    type V = AccumulatorView<T>;

    closed spec fn view(&self) -> AccumulatorView<T> {
        self.accumulator@
    }
}

impl<T: Scalar> MultiplicationBackward<T> {
    /// The scratch tensor in which contributions are computed.
    pub closed spec fn scratch(&self) -> TensorView<T> {
        self.buffer@
    }

    /// The gradient and the scratch tensor have the node's shape.
    pub open spec fn wf(&self) -> bool {
        self@.wf() && self.scratch().wf() && self.scratch().shape == self@.shape
    }

    /// Returns the backward node of the product of two parents with the
    /// accumulators `left_grad` and `right_grad`: a fresh accumulator of
    /// their broadcast shape.
    pub fn new(left_grad: &Accumulator<T>, right_grad: &Accumulator<T>) -> (r: Self)
        requires
            compatible(left_grad@.shape, right_grad@.shape),
            count(broadcast(left_grad@.shape, right_grad@.shape)) <= usize::MAX,
        ensures
            r.wf(),
            r@ == AccumulatorView::<T>::fresh(broadcast(left_grad@.shape, right_grad@.shape)),
    {
        let shape = broadcast_shape(left_grad.shape(), right_grad.shape()).unwrap();
        MultiplicationBackward {
            accumulator: Accumulator::new(shape.as_slice()),
            buffer: Tensor::zeros(shape.as_slice()),
        }
    }

    /// The accumulator of this node.
    pub fn accumulator(&self) -> (r: &Accumulator<T>)
        ensures
            r@ == self@,
    {
        &self.accumulator
    }

    /// Access to the accumulator of this node, for its children to push
    /// into.
    pub fn accumulator_mut(&mut self) -> (r: &mut Accumulator<T>)
        ensures
            r@ == old(self)@,
            final(self)@ == final(r)@,
            final(self).scratch() == old(self).scratch(),
    {
        &mut self.accumulator
    }

    /// The gradient gathered so far.
    pub fn gradient(&self) -> (r: &Tensor<T>)
        requires
            self@.gradient is Some,
        ensures
            Some(r@) == self@.gradient,
    {
        self.accumulator.gradient()
    }

    /// Access to the gradient, to seed or to edit it.
    pub fn gradient_mut(&mut self) -> (r: &mut Tensor<T>)
        requires
            old(self)@.gradient is Some,
        ensures
            Some(r@) == old(self)@.gradient,
            final(self)@.gradient == Some(final(r)@),
            final(self)@.shape == old(self)@.shape,
            final(self)@.overwrite == old(self)@.overwrite,
            final(self).scratch() == old(self).scratch(),
    {
        self.accumulator.gradient_mut()
    }

    /// Tells whether the next contribution replaces the gradient.
    pub fn can_overwrite(&self) -> (r: bool)
        ensures
            r == self@.overwrite,
    {
        self.accumulator.can_overwrite()
    }

    /// Sets the overwrite flag.
    pub fn set_overwrite(&mut self, state: bool)
        ensures
            final(self)@ == (AccumulatorView { overwrite: state, ..old(self)@ }),
            final(self).scratch() == old(self).scratch(),
    {
        self.accumulator.set_overwrite(state);
    }

    /// Drops the gradient: the node no longer tracks gradients.
    pub fn no_grad(&mut self)
        ensures
            final(self)@ == old(self)@.no_grad(),
            final(self).scratch() == old(self).scratch(),
    {
        self.accumulator.no_grad();
    }

    /// Gives the node a fresh zero gradient of its shape.
    pub fn with_grad(&mut self)
        requires
            old(self).wf(),
        ensures
            final(self).wf(),
            final(self)@ == old(self)@.with_grad(),
    {
        self.accumulator.with_grad();
    }

    /// Pushes to the left parent the gradient of this node times the value
    /// of the right parent, reduced to the left parent's shape.
    pub fn backward_left(&mut self, left_grad: &mut Accumulator<T>, right_data: &Tensor<T>)
        requires
            old(self).wf(),
            old(self)@.gradient is Some,
            old(left_grad).wf(),
            right_data.wf(),
            broadcasts_to(old(left_grad)@.shape, old(self)@.shape),
            broadcasts_to(right_data@.shape, old(self)@.shape),
        ensures
            final(self).wf(),
            final(self)@ == old(self)@,
            final(left_grad).wf(),
            final(left_grad)@ == old(left_grad)@.pushed(
                contribution(old(self)@.gradient.unwrap(), right_data@, old(left_grad)@.shape),
            ),
    {
        push_contribution(&mut self.buffer, self.accumulator.gradient(), right_data, left_grad);
    }

    /// Pushes to the right parent the gradient of this node times the value
    /// of the left parent, reduced to the right parent's shape.
    pub fn backward_right(&mut self, left_data: &Tensor<T>, right_grad: &mut Accumulator<T>)
        requires
            old(self).wf(),
            old(self)@.gradient is Some,
            left_data.wf(),
            old(right_grad).wf(),
            broadcasts_to(left_data@.shape, old(self)@.shape),
            broadcasts_to(old(right_grad)@.shape, old(self)@.shape),
        ensures
            final(self).wf(),
            final(self)@ == old(self)@,
            final(right_grad).wf(),
            final(right_grad)@ == old(right_grad)@.pushed(
                contribution(old(self)@.gradient.unwrap(), left_data@, old(right_grad)@.shape),
            ),
    {
        push_contribution(&mut self.buffer, self.accumulator.gradient(), left_data, right_grad);
    }

    /// Pushes to each parent its contribution: the gradient of this node
    /// times the value of the other parent, reduced to the parent's shape.
    pub fn backward(
        &mut self,
        left_data: &Tensor<T>,
        left_grad: &mut Accumulator<T>,
        right_data: &Tensor<T>,
        right_grad: &mut Accumulator<T>,
    )
        requires
            old(self).wf(),
            old(self)@.gradient is Some,
            left_data.wf(),
            right_data.wf(),
            old(left_grad).wf(),
            old(right_grad).wf(),
            left_data@.shape == old(left_grad)@.shape,
            right_data@.shape == old(right_grad)@.shape,
            compatible(left_data@.shape, right_data@.shape),
            old(self)@.shape == broadcast(left_data@.shape, right_data@.shape),
        ensures
            final(self).wf(),
            final(self)@ == old(self)@,
            final(left_grad).wf(),
            final(left_grad)@ == old(left_grad)@.pushed(
                contribution(old(self)@.gradient.unwrap(), right_data@, old(left_grad)@.shape),
            ),
            final(right_grad).wf(),
            final(right_grad)@ == old(right_grad)@.pushed(
                contribution(old(self)@.gradient.unwrap(), left_data@, old(right_grad)@.shape),
            ),
    {
        proof {
            lemma_broadcast_covers(left_data@.shape, right_data@.shape);
        }
        self.backward_left(left_grad, right_data);
        self.backward_right(left_data, right_grad);
    }
}

/// The backward node of a product of which one operand is differentiable
/// and the other a constant.
#[derive(Debug)]
pub struct MultiplicationBackwardUnary<T> {
    accumulator: Accumulator<T>,
    buffer: Tensor<T>,
}

impl<T> View for MultiplicationBackwardUnary<T> {
    type V = AccumulatorView<T>;

    closed spec fn view(&self) -> AccumulatorView<T> {
        self.accumulator@
    }
}

impl<T: Scalar> MultiplicationBackwardUnary<T> {
    /// The scratch tensor in which the contribution is computed.
    pub closed spec fn scratch(&self) -> TensorView<T> {
        self.buffer@
    }

    /// The gradient and the scratch tensor have the node's shape.
    pub open spec fn wf(&self) -> bool {
        self@.wf() && self.scratch().wf() && self.scratch().shape == self@.shape
    }

    /// Returns the backward node of the product of a differentiable parent
    /// with the accumulator `diff_operand` and a constant with the value
    /// `no_diff_operand`: a fresh accumulator of their broadcast shape.
    pub fn new(diff_operand: &Accumulator<T>, no_diff_operand: &Tensor<T>) -> (r: Self)
        requires
            compatible(diff_operand@.shape, no_diff_operand@.shape),
            count(broadcast(diff_operand@.shape, no_diff_operand@.shape)) <= usize::MAX,
        ensures
            r.wf(),
            r@ == AccumulatorView::<T>::fresh(
                broadcast(diff_operand@.shape, no_diff_operand@.shape),
            ),
    {
        let shape = broadcast_shape(diff_operand.shape(), no_diff_operand.shape()).unwrap();
        MultiplicationBackwardUnary {
            accumulator: Accumulator::new(shape.as_slice()),
            buffer: Tensor::zeros(shape.as_slice()),
        }
    }

    /// The accumulator of this node.
    pub fn accumulator(&self) -> (r: &Accumulator<T>)
        ensures
            r@ == self@,
    {
        &self.accumulator
    }

    /// Access to the accumulator of this node, for its children to push
    /// into.
    pub fn accumulator_mut(&mut self) -> (r: &mut Accumulator<T>)
        ensures
            r@ == old(self)@,
            final(self)@ == final(r)@,
            final(self).scratch() == old(self).scratch(),
    {
        &mut self.accumulator
    }

    /// The gradient gathered so far.
    pub fn gradient(&self) -> (r: &Tensor<T>)
        requires
            self@.gradient is Some,
        ensures
            Some(r@) == self@.gradient,
    {
        self.accumulator.gradient()
    }

    /// Access to the gradient, to seed or to edit it.
    pub fn gradient_mut(&mut self) -> (r: &mut Tensor<T>)
        requires
            old(self)@.gradient is Some,
        ensures
            Some(r@) == old(self)@.gradient,
            final(self)@.gradient == Some(final(r)@),
            final(self)@.shape == old(self)@.shape,
            final(self)@.overwrite == old(self)@.overwrite,
            final(self).scratch() == old(self).scratch(),
    {
        self.accumulator.gradient_mut()
    }

    /// Tells whether the next contribution replaces the gradient.
    pub fn can_overwrite(&self) -> (r: bool)
        ensures
            r == self@.overwrite,
    {
        self.accumulator.can_overwrite()
    }

    /// Sets the overwrite flag.
    pub fn set_overwrite(&mut self, state: bool)
        ensures
            final(self)@ == (AccumulatorView { overwrite: state, ..old(self)@ }),
            final(self).scratch() == old(self).scratch(),
    {
        self.accumulator.set_overwrite(state);
    }

    /// Drops the gradient: the node no longer tracks gradients.
    pub fn no_grad(&mut self)
        ensures
            final(self)@ == old(self)@.no_grad(),
            final(self).scratch() == old(self).scratch(),
    {
        self.accumulator.no_grad();
    }

    /// Gives the node a fresh zero gradient of its shape.
    pub fn with_grad(&mut self)
        requires
            old(self).wf(),
        ensures
            final(self).wf(),
            final(self)@ == old(self)@.with_grad(),
    {
        self.accumulator.with_grad();
    }

    /// Pushes to the differentiable parent the gradient of this node times
    /// the value of the constant, reduced to the parent's shape.
    pub fn backward(&mut self, diff_operand: &mut Accumulator<T>, no_diff_operand: &Tensor<T>)
        requires
            old(self).wf(),
            old(self)@.gradient is Some,
            old(diff_operand).wf(),
            no_diff_operand.wf(),
            compatible(old(diff_operand)@.shape, no_diff_operand@.shape),
            old(self)@.shape == broadcast(old(diff_operand)@.shape, no_diff_operand@.shape),
        ensures
            final(self).wf(),
            final(self)@ == old(self)@,
            final(diff_operand).wf(),
            final(diff_operand)@ == old(diff_operand)@.pushed(
                contribution(
                    old(self)@.gradient.unwrap(),
                    no_diff_operand@,
                    old(diff_operand)@.shape,
                ),
            ),
    {
        proof {
            lemma_broadcast_covers(diff_operand@.shape, no_diff_operand@.shape);
        }
        push_contribution(
            &mut self.buffer,
            self.accumulator.gradient(),
            no_diff_operand,
            diff_operand,
        );
    }
}

} // verus!
