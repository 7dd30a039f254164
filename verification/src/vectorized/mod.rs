//! Element-wise operations over slices of cell ids.
//!
//! Each takes the number of worker threads a caller may spread the work
//! over; the results do not depend on it, and the functions here compute
//! them in order on the calling thread.
pub mod depth;
pub mod morton;
