//! A depth given once for a whole slice, or one per element.
use vstd::prelude::*;

verus! {

/// The depth of the cells of a slice: one for all of them, or one each.
pub enum Depth<'a> {
    Scalar(&'a u8),
    Array(&'a [u8]),
}

/// The number of elements a slice of `len` cells at `depth` pairs up: all of
/// them for one depth, the shorter of the two slices for one depth each.
pub open spec fn paired_len(len: int, depth: Depth) -> int {
    match depth {
        Depth::Scalar(_) => len,
        Depth::Array(d) => if d@.len() < len {
            d@.len() as int
        } else {
            len
        },
    }
}

/// The depth paired with element `i`.
pub open spec fn depth_at(depth: Depth, i: int) -> u8 {
    match depth {
        Depth::Scalar(d) => *d,
        Depth::Array(d) => d@[i],
    }
}

} // verus!
