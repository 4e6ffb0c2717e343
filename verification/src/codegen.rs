//! Downstream assembly-text generation: a three-segment line builder and
//! the per-instruction emitters that fill it.

pub mod builder;
pub mod intrinsics;
pub mod ops;
