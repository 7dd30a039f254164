//! HEALPix cells as packed `u64` Morton words, verified with Verus.
pub mod codec;
pub mod schemes;
pub mod scalar;
pub mod vectorized;
pub mod morton;
pub mod grid;
