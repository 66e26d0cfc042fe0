//! Functions over columns of vectors and fixed-shape tensors.

pub mod element;
pub mod inner_product;
pub mod l2_norm;
pub mod normalized;
pub mod numbers;
