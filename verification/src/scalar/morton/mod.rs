//! The `morton` scheme: HEALPix cells as packed `u64` Morton words.
//!
//! A Morton word encodes its own depth, so most functions take no depth. A
//! raw unsigned sort of area words is a Z-order traversal with parents
//! sorting before their children, and containment is truncation.
pub mod conversion;
pub mod hierarchy;
