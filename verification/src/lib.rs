//! Fixed-length vectors with element-wise arithmetic, and an indexed
//! collection that stores each distinct vector once.
pub mod vec_x;
pub mod compare;
pub mod ops;
pub mod assign;
pub mod collection;
pub mod laws;

pub use crate::collection::{IndexedVecXIter, IndexedVecXs};
pub use crate::ops::Scalar;
pub use crate::vec_x::VecX;
