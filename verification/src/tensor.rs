//! Dense tensors in row-major order.

use crate::scalar::Scalar;
use crate::shape::{copy_shape, count, element_count};
use vstd::prelude::*;

verus! {

/// A dense n-dimensional array. Its rank and shape are chosen when it is
/// made and never change.
#[derive(Clone, Debug)]
pub struct Tensor<T> {
    shape: Vec<usize>,
    data: Vec<T>,
}

/// What a tensor is: its shape and its elements in row-major order.
pub ghost struct TensorView<T> {
    pub shape: Seq<usize>,
    pub data: Seq<T>,
}

impl<T> View for Tensor<T> {
    type V = TensorView<T>;

    closed spec fn view(&self) -> TensorView<T> {
        TensorView { shape: self.shape@, data: self.data@ }
    }
}

impl<T> TensorView<T> {
    /// A tensor holds as many elements as its shape counts, and no more
    /// than can be addressed.
    pub open spec fn wf(self) -> bool {
        self.data.len() == count(self.shape) && count(self.shape) <= usize::MAX
    }
}

impl<T: Scalar> TensorView<T> {
    /// The tensor of shape `shape` whose elements are all zero.
    pub open spec fn zeros(shape: Seq<usize>) -> TensorView<T> {
        TensorView { shape, data: Seq::new(count(shape), |i: int| T::zero_value()) }
    }
}

/// The sums of the elements of `a` and `b` at the same positions.
pub open spec fn elementwise_sum<T: Scalar>(a: Seq<T>, b: Seq<T>) -> Seq<T> {
    Seq::new(a.len(), |i: int| a[i].sum(b[i]))
}

impl<T: Scalar> Tensor<T> {
    /// A tensor holds as many elements as its shape counts.
    pub open spec fn wf(&self) -> bool {
        self@.wf()
    }

    /// Returns the tensor of shape `shape` whose elements are all zero.
    pub fn zeros(shape: &[usize]) -> (r: Self)
        requires
            count(shape@) <= usize::MAX,
        ensures
            r.wf(),
            r@ == TensorView::<T>::zeros(shape@),
    {
        let r = Self::filled(shape, T::zero());
        proof {
            assert(r@.data =~= TensorView::<T>::zeros(shape@).data);
        }
        r
    }

    /// Returns the tensor of shape `shape` whose elements all equal `value`.
    pub fn filled(shape: &[usize], value: T) -> (r: Self)
        requires
            count(shape@) <= usize::MAX,
        ensures
            r.wf(),
            r@.shape == shape@,
            forall|i: int| 0 <= i < r@.data.len() ==> r@.data[i] == value,
    {
        let n = element_count(shape).unwrap();
        let mut data: Vec<T> = Vec::with_capacity(n);
        let mut i: usize = 0;
        while i < n
            invariant
                i <= n,
                data.len() == i,
                forall|j: int| 0 <= j < i ==> data@[j] == value,
            decreases n - i,
        {
            data.push(value);
            i += 1;
        }
        Tensor { shape: copy_shape(shape), data }
    }

    /// Makes a tensor of shape `shape` from its elements in row-major order.
    /// Returns `None` where `data` has not as many elements as `shape`
    /// counts.
    pub fn from_vec(shape: Vec<usize>, data: Vec<T>) -> (r: Option<Self>)
        ensures
            match r {
                Some(t) => t.wf() && t@.shape == shape@ && t@.data == data@,
                None => data.len() != count(shape@),
            },
    {
        match element_count(shape.as_slice()) {
            Some(n) => {
                if n == data.len() {
                    Some(Tensor { shape, data })
                } else {
                    None
                }
            },
            None => None,
        }
    }

    /// The extents of the tensor, outermost axis first.
    pub fn shape(&self) -> (r: &[usize])
        ensures
            r@ == self@.shape,
    {
        self.shape.as_slice()
    }

    /// The elements in row-major order.
    pub fn as_slice(&self) -> (r: &[T])
        ensures
            r@ == self@.data,
    {
        self.data.as_slice()
    }

    /// The number of elements.
    pub fn len(&self) -> (r: usize)
        ensures
            r == self@.data.len(),
    {
        self.data.len()
    }

    /// The element at row-major position `i`.
    pub fn get(&self, i: usize) -> (r: T)
        requires
            i < self@.data.len(),
        ensures
            r == self@.data[i as int],
    {
        self.data[i]
    }

    /// Replaces the element at row-major position `i` by `value`.
    pub fn set(&mut self, i: usize, value: T)
        requires
            i < old(self)@.data.len(),
        ensures
            final(self)@.shape == old(self)@.shape,
            final(self)@.data == old(self)@.data.update(i as int, value),
    {
        self.data.set(i, value);
    }

    /// Replaces the elements by those of `src`.
    pub fn copy_from(&mut self, src: &Tensor<T>)
        requires
            old(self)@.data.len() == src@.data.len(),
        ensures
            final(self)@.shape == old(self)@.shape,
            final(self)@.data == src@.data,
    {
        let n = self.data.len();
        let mut i: usize = 0;
        while i < n
            invariant
                i <= n,
                self.data.len() == n,
                src@.data.len() == n,
                self.shape@ == old(self).shape@,
                forall|j: int| 0 <= j < i ==> self.data@[j] == src@.data[j],
            decreases n - i,
        {
            self.data.set(i, src.data[i]);
            i += 1;
        }
        proof {
            assert(self.data@ =~= src@.data);
        }
    }

    /// Adds to each element the element of `src` at the same position.
    pub fn add_from(&mut self, src: &Tensor<T>)
        requires
            old(self)@.data.len() == src@.data.len(),
        ensures
            final(self)@.shape == old(self)@.shape,
            final(self)@.data == elementwise_sum(old(self)@.data, src@.data),
    {
        let n = self.data.len();
        let mut i: usize = 0;
        while i < n
            invariant
                i <= n,
                self.data.len() == n,
                src@.data.len() == n,
                old(self).data@.len() == n,
                self.shape@ == old(self).shape@,
                forall|j: int| 0 <= j < i ==> self.data@[j] == old(self).data@[j].sum(src@.data[j]),
                forall|j: int| i <= j < n ==> self.data@[j] == old(self).data@[j],
            decreases n - i,
        {
            let v = self.data[i].plus(src.data[i]);
            self.data.set(i, v);
            i += 1;
        }
        proof {
            assert(self.data@ =~= elementwise_sum(old(self)@.data, src@.data));
        }
    }

    /// Replaces every element by `value`.
    pub fn fill(&mut self, value: T)
        ensures
            final(self)@.shape == old(self)@.shape,
            final(self)@.data.len() == old(self)@.data.len(),
            forall|i: int| 0 <= i < final(self)@.data.len() ==> final(self)@.data[i] == value,
    {
        let n = self.data.len();
        let mut i: usize = 0;
        while i < n
            invariant
                i <= n,
                self.data.len() == n,
                self.shape@ == old(self).shape@,
                forall|j: int| 0 <= j < i ==> self.data@[j] == value,
            decreases n - i,
        {
            self.data.set(i, value);
            i += 1;
        }
    }
}

} // verus!
