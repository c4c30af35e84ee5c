//! A small fully-connected neural-network training and inference engine:
//! one hidden layer, plain per-example gradient descent with manually
//! derived backpropagation, parameterized over an activation strategy.
//!
//! The numeric element type is abstract: matrix and engine contracts are
//! stated over the element operations of the [`scalar::Scalar`] trait, so
//! every shape and update equation is proved once for all element types.
//! The crate ships a saturating fixed-point element, [`scalar::Fixed`],
//! for which the whole engine is verified end to end.

pub mod activation;
pub mod encode;
pub mod matrix;
pub mod network;
pub mod scalar;
