//! Reverse-mode automatic differentiation over dense tensors.
//!
//! A computation is a directed acyclic graph. A forward node caches the value
//! it computes from its parents; the backward node paired with it turns the
//! gradient that reached it into one contribution per differentiable parent
//! and pushes each into that parent's accumulator. The element type is a
//! parameter: everything here is stated over the operations of [`Scalar`].

pub mod accumulator;
pub mod adam;
pub mod cache;
pub mod kernel;
pub mod matrix_matrix_mul_t;
pub mod multiplication;
pub mod reduction;
pub mod scalar;
pub mod shape;
pub mod tensor;

pub use accumulator::{Accumulator, AccumulatorView};
pub use adam::{Adam, AdamParam, AdamParamView, NoPenalty, Param, Penalty, Real};
pub use cache::CachedView;
pub use matrix_matrix_mul_t::{
    MatrixMatrixMulT, MatrixMatrixMulTBackward, MatrixMatrixMulTBackwardLeft,
    MatrixMatrixMulTBackwardRight,
};
pub use multiplication::{Multiplication, MultiplicationBackward, MultiplicationBackwardUnary};
pub use scalar::{obeys_semiring_laws, Scalar};
pub use tensor::{Tensor, TensorView};
