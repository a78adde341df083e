//! Where a node's gradient is gathered.

use crate::kernel::{cols, is_matrix, matrix_product, matrix_product_into, rows};
use crate::scalar::{lemma_sum_commutative, obeys_semiring_laws, Scalar};
use crate::shape::{copy_shape, count};
use crate::tensor::{elementwise_sum, Tensor, TensorView};
use vstd::prelude::*;

verus! {

/// The gradient state of a differentiable node: the buffer in which the
/// contributions of its children are summed, and the flag that tells the
/// next child whether to replace the buffer's contents or to add to them.
///
/// The buffer is absent while the node does not track gradients. The shape
/// is that of the node's value and stays when the buffer is dropped.
#[derive(Clone, Debug)]
pub struct Accumulator<T> {
    gradient: Option<Tensor<T>>,
    shape: Vec<usize>,
    overwrite: bool,
}

/// What an accumulator is: its buffer, if it tracks gradients, the shape of
/// that buffer, and the overwrite flag.
pub ghost struct AccumulatorView<T> {
    pub gradient: Option<TensorView<T>>,
    pub shape: Seq<usize>,
    pub overwrite: bool,
}

impl<T> View for Accumulator<T> {
    type V = AccumulatorView<T>;

    closed spec fn view(&self) -> AccumulatorView<T> {
        AccumulatorView {
            gradient: match self.gradient {
                Some(t) => Some(t@),
                None => None,
            },
            shape: self.shape@,
            overwrite: self.overwrite,
        }
    }
}

impl<T: Scalar> AccumulatorView<T> {
    /// The buffer, where there is one, is a tensor of the accumulator's
    /// shape.
    pub open spec fn wf(self) -> bool {
        &&& count(self.shape) <= usize::MAX
        &&& self.gradient matches Some(g) ==> g.shape == self.shape && g.wf()
    }

    /// The state of a fresh accumulator of shape `shape`: a zero buffer,
    /// to be overwritten by the first contribution.
    pub open spec fn fresh(shape: Seq<usize>) -> AccumulatorView<T> {
        AccumulatorView { gradient: Some(TensorView::zeros(shape)), shape, overwrite: true }
    }

    /// The state after the buffer has been dropped.
    pub open spec fn no_grad(self) -> AccumulatorView<T> {
        AccumulatorView { gradient: None, ..self }
    }

    /// The state after a zero buffer of the accumulator's shape has been
    /// put in place of what was there.
    pub open spec fn with_grad(self) -> AccumulatorView<T> {
        AccumulatorView { gradient: Some(TensorView::zeros(self.shape)), ..self }
    }

    /// The state after a child has pushed the contribution `src`.
    ///
    /// Without a buffer nothing changes. Else the first contribution
    /// replaces the buffer's contents and clears the overwrite flag, and
    /// every later one is added to them.
    pub open spec fn pushed(self, src: Seq<T>) -> AccumulatorView<T> {
        match self.gradient {
            None => self,
            Some(g) => AccumulatorView {
                gradient: Some(
                    TensorView {
                        shape: g.shape,
                        data: if self.overwrite {
                            src
                        } else {
                            elementwise_sum(g.data, src)
                        },
                    },
                ),
                shape: self.shape,
                overwrite: false,
            },
        }
    }
}

impl<T: Scalar> Accumulator<T> {
    /// The buffer, where there is one, has the accumulator's shape.
    pub open spec fn wf(&self) -> bool {
        self@.wf()
    }

    /// Returns an accumulator of shape `shape` with a zero buffer, ready to
    /// be overwritten by the first contribution.
    pub fn new(shape: &[usize]) -> (r: Self)
        requires
            count(shape@) <= usize::MAX,
        ensures
            r.wf(),
            r@ == AccumulatorView::<T>::fresh(shape@),
    {
        let gradient = Tensor::zeros(shape);
        Accumulator { gradient: Some(gradient), shape: copy_shape(shape), overwrite: true }
    }

    /// Tells whether the node tracks gradients.
    pub fn has_gradient(&self) -> (r: bool)
        ensures
            r == (self@.gradient is Some),
    {
        self.gradient.is_some()
    }

    /// The gradient gathered so far.
    pub fn gradient(&self) -> (r: &Tensor<T>)
        requires
            self@.gradient is Some,
        ensures
            Some(r@) == self@.gradient,
    {
        self.gradient.as_ref().unwrap()
    }

    /// Access to the buffer, to seed or to edit the gradient.
    pub fn gradient_mut(&mut self) -> (r: &mut Tensor<T>)
        requires
            old(self)@.gradient is Some,
        ensures
            Some(r@) == old(self)@.gradient,
            final(self)@.gradient == Some(final(r)@),
            final(self)@.shape == old(self)@.shape,
            final(self)@.overwrite == old(self)@.overwrite,
    {
        self.gradient.as_mut().unwrap()
    }

    /// The shape of the node's value and of its gradient.
    pub fn shape(&self) -> (r: &[usize])
        ensures
            r@ == self@.shape,
    {
        self.shape.as_slice()
    }

    /// Tells whether the next contribution replaces the buffer's contents.
    pub fn can_overwrite(&self) -> (r: bool)
        ensures
            r == self@.overwrite,
    {
        self.overwrite
    }

    /// Sets the overwrite flag.
    pub fn set_overwrite(&mut self, state: bool)
        ensures
            final(self)@ == (AccumulatorView { overwrite: state, ..old(self)@ }),
    {
        self.overwrite = state;
    }

    /// Drops the buffer: the node no longer tracks gradients.
    pub fn no_grad(&mut self)
        ensures
            final(self)@ == old(self)@.no_grad(),
    {
        self.gradient = None;
    }

    /// Gives the node a fresh zero buffer of its shape.
    pub fn with_grad(&mut self)
        requires
            old(self).wf(),
        ensures
            final(self).wf(),
            final(self)@ == old(self)@.with_grad(),
    {
        self.gradient = Some(Tensor::zeros(self.shape.as_slice()));
    }
}

/// Dropping the buffer and allocating it anew leaves a zero buffer of the
/// accumulator's shape, whatever the buffer held before, and changes
/// nothing else.
pub proof fn lemma_no_grad_with_grad<T: Scalar>(a: AccumulatorView<T>)
    ensures
        a.no_grad().with_grad() == a.with_grad(),
        a.no_grad().with_grad().gradient == Some(TensorView::<T>::zeros(a.shape)),
        a.no_grad().with_grad().shape == a.shape,
        a.no_grad().with_grad().overwrite == a.overwrite,
{
}

/// A parent with one child ends with that child's contribution, whatever
/// its buffer held before.
pub proof fn lemma_single_push<T: Scalar>(a: AccumulatorView<T>, c: Seq<T>)
    requires
        a.gradient is Some,
        a.overwrite,
    ensures
        a.pushed(c).gradient.unwrap().data == c,
        !a.pushed(c).overwrite,
{
}

/// A parent with two children ends with the sum of their contributions,
/// whatever its buffer held before and whichever child pushes first,
/// provided that terms may be swapped.
pub proof fn lemma_push_order<T: Scalar>(a: AccumulatorView<T>, c1: Seq<T>, c2: Seq<T>)
    requires
        obeys_semiring_laws::<T>(),
        a.gradient is Some,
        a.overwrite,
        c1.len() == c2.len(),
    ensures
        a.pushed(c1).pushed(c2).gradient.unwrap().data == elementwise_sum(c1, c2),
        a.pushed(c1).pushed(c2) == a.pushed(c2).pushed(c1),
{
    assert forall|i: int| 0 <= i < c1.len() implies c1[i].sum(c2[i]) == c2[i].sum(c1[i]) by {
        lemma_sum_commutative(c1[i], c2[i]);
    }
    assert(elementwise_sum(c1, c2) =~= elementwise_sum(c2, c1));
}

/// Pushes the contribution `src` of a child into the gradient of `node`.
///
/// Replaces the gradient where `node` can be overwritten, and clears that
/// flag; adds to the gradient otherwise. Does nothing where `node` does not
/// track gradients.
pub fn push_gradient<T: Scalar>(node: &mut Accumulator<T>, src: &Tensor<T>)
    requires
        old(node).wf(),
        src.wf(),
        src@.shape == old(node)@.shape,
    ensures
        final(node).wf(),
        final(node)@ == old(node)@.pushed(src@.data),
{
    let overwrite = node.overwrite;
    match &mut node.gradient {
        Some(dest) => {
            if overwrite {
                dest.copy_from(src);
            } else {
                dest.add_from(src);
            }
            node.overwrite = false;
        },
        None => {},
    }
}

/// Pushes the product of the matrices `first` and `second` into the
/// gradient of `node`, `first` read transposed where `first_transposed`.
///
/// Replaces the gradient where `node` can be overwritten, and clears that
/// flag; adds to the gradient otherwise. Does nothing where `node` does not
/// track gradients.
pub fn push_mat_mat_gradient<T: Scalar>(
    node: &mut Accumulator<T>,
    first: &Tensor<T>,
    first_transposed: bool,
    second: &Tensor<T>,
)
    requires
        old(node).wf(),
        is_matrix(first@),
        is_matrix(second@),
        cols(first@, first_transposed) == rows(second@, false),
        old(node)@.shape.len() == 2,
        old(node)@.shape[0] == rows(first@, first_transposed),
        old(node)@.shape[1] == cols(second@, false),
    ensures
        final(node).wf(),
        final(node)@ == old(node)@.pushed(matrix_product(first@, first_transposed, second@, false)),
{
    let overwrite = node.overwrite;
    match &mut node.gradient {
        Some(dest) => {
            matrix_product_into(dest, !overwrite, first, first_transposed, second, false);
            node.overwrite = false;
        },
        None => {},
    }
}

} // verus!
