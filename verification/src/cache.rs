//! The cached value of a forward node.

use crate::tensor::TensorView;
use vstd::prelude::*;

verus! {

/// What a forward node is: the value it holds, and whether that value was
/// computed in the current forward pass.
pub ghost struct CachedView<T> {
    pub data: TensorView<T>,
    pub computed: bool,
}

impl<T> CachedView<T> {
    /// The state after a forward call that would compute `data`: a node
    /// that was computed already stays as it is, any other takes `data` as
    /// its elements and is marked as computed.
    pub open spec fn forwarded(self, data: Seq<T>) -> CachedView<T> {
        if self.computed {
            self
        } else {
            CachedView { data: TensorView { shape: self.data.shape, data }, computed: true }
        }
    }

    /// The state after the node has been marked for a new forward pass.
    pub open spec fn reset(self) -> CachedView<T> {
        CachedView { computed: false, ..self }
    }
}

/// Within one forward pass a node is computed once: a second forward call
/// changes nothing, whatever it would compute.
pub proof fn lemma_forward_is_memoized<T>(node: CachedView<T>, first: Seq<T>, second: Seq<T>)
    ensures
        node.forwarded(first).forwarded(second) == node.forwarded(first),
        node.forwarded(first).computed,
{
}

/// After a reset the next forward call computes the value anew.
pub proof fn lemma_reset_then_forward<T>(node: CachedView<T>, data: Seq<T>)
    ensures
        node.reset().forwarded(data).data.data == data,
        node.reset().forwarded(data).data.shape == node.data.shape,
{
}

} // verus!
