//! Operations on one cell id at a time.
pub mod morton;
