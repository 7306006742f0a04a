//! Fixed-shape vectors and matrices over integer elements, elementwise
//! activations and a dense layer for feed-forward inference.
pub mod activation;
pub mod dense;
pub mod matrix;
pub mod scalar;
pub mod tensor;
pub mod vector;

pub use activation::{ActivationFn, ReLU};
pub use dense::{Dense, Layer};
pub use matrix::Matrix;
pub use tensor::{Tensor, Tensor3};
pub use vector::Vector;
