//! Element-wise conversions between Morton words and the other schemes.
use vstd::prelude::*;

use crate::codec::{area_word, decodes, valid_cell};
use crate::scalar::morton::conversion as scalar;
use crate::scalar::morton::conversion::{
    nested_of_word, ring_names_cell, ring_of_word, zuniq_names_cell, zuniq_of_word,
};
use crate::schemes::{ring_to_nested, zuniq_depth, zuniq_nested};
use crate::vectorized::depth::{depth_at, paired_len, Depth};

verus! {

/// Element-wise `scalar::to_nested`; every word must decode.
pub fn to_nested(ipix: &[u64], nthreads: usize) -> (r: (Vec<u64>, Vec<u8>))
    requires
        forall|i: int| 0 <= i < ipix@.len() ==> decodes(#[trigger] ipix@[i]),
    ensures
        r.0@.len() == ipix@.len(),
        r.1@.len() == ipix@.len(),
        forall|i: int|
            0 <= i < ipix@.len() ==> nested_of_word(ipix@[i]) == Some(
                (#[trigger] r.0@[i], r.1@[i]),
            ),
{
    let mut hashes: Vec<u64> = Vec::with_capacity(ipix.len());
    let mut depths: Vec<u8> = Vec::with_capacity(ipix.len());
    let mut k: usize = 0;
    while k < ipix.len()
        invariant
            k <= ipix@.len(),
            hashes@.len() == k,
            depths@.len() == k,
            forall|i: int| 0 <= i < ipix@.len() ==> decodes(#[trigger] ipix@[i]),
            forall|i: int|
                0 <= i < k ==> nested_of_word(ipix@[i]) == Some((#[trigger] hashes@[i], depths@[i])),
        decreases ipix@.len() - k,
    {
        assert(decodes(ipix@[k as int]));
        let (hash, depth) = scalar::to_nested(&ipix[k]).unwrap();
        hashes.push(hash);
        depths.push(depth);
        k = k + 1;
    }
    (hashes, depths)
}

/// Element-wise `scalar::from_nested`, at one depth for all or one each.
pub fn from_nested(ipix: &[u64], depth: Depth, nthreads: usize) -> (r: Vec<u64>)
    requires
        forall|i: int|
            0 <= i < paired_len(ipix@.len() as int, depth) ==> valid_cell(
                #[trigger] ipix@[i],
                depth_at(depth, i),
            ),
    ensures
        r@.len() == paired_len(ipix@.len() as int, depth),
        forall|i: int|
            0 <= i < r@.len() ==> #[trigger] r@[i] == area_word(ipix@[i], depth_at(depth, i)),
{
    let n: usize = match depth {
        Depth::Scalar(_) => ipix.len(),
        Depth::Array(d) => if d.len() < ipix.len() {
            d.len()
        } else {
            ipix.len()
        },
    };
    let mut words: Vec<u64> = Vec::with_capacity(n);
    let mut k: usize = 0;
    while k < n
        invariant
            n == paired_len(ipix@.len() as int, depth),
            n <= ipix@.len(),
            k <= n,
            words@.len() == k,
            forall|i: int|
                0 <= i < n ==> valid_cell(#[trigger] ipix@[i], depth_at(depth, i)),
            forall|i: int|
                0 <= i < k ==> #[trigger] words@[i] == area_word(ipix@[i], depth_at(depth, i)),
        decreases n - k,
    {
        let d: u8 = match depth {
            Depth::Scalar(d) => *d,
            Depth::Array(d) => d[k],
        };
        assert(valid_cell(ipix@[k as int], depth_at(depth, k as int)));
        words.push(scalar::from_nested(&ipix[k], &d));
        k = k + 1;
    }
    words
}

/// Element-wise `scalar::to_ring`; every word must decode.
pub fn to_ring(ipix: &[u64], nthreads: usize) -> (r: (Vec<u64>, Vec<u8>))
    requires
        forall|i: int| 0 <= i < ipix@.len() ==> decodes(#[trigger] ipix@[i]),
    ensures
        r.0@.len() == ipix@.len(),
        r.1@.len() == ipix@.len(),
        forall|i: int|
            0 <= i < ipix@.len() ==> ring_of_word(ipix@[i]) == Some((#[trigger] r.0@[i], r.1@[i])),
{
    let mut rings: Vec<u64> = Vec::with_capacity(ipix.len());
    let mut depths: Vec<u8> = Vec::with_capacity(ipix.len());
    let mut k: usize = 0;
    while k < ipix.len()
        invariant
            k <= ipix@.len(),
            rings@.len() == k,
            depths@.len() == k,
            forall|i: int| 0 <= i < ipix@.len() ==> decodes(#[trigger] ipix@[i]),
            forall|i: int|
                0 <= i < k ==> ring_of_word(ipix@[i]) == Some((#[trigger] rings@[i], depths@[i])),
        decreases ipix@.len() - k,
    {
        assert(decodes(ipix@[k as int]));
        let (ring, depth) = scalar::to_ring(&ipix[k]).unwrap();
        rings.push(ring);
        depths.push(depth);
        k = k + 1;
    }
    (rings, depths)
}

/// Element-wise `scalar::from_ring`, at one depth for all or one each;
/// `checked_from_ring` tests the elements first and takes any input.
pub fn from_ring(ipix: &[u64], depth: Depth, nthreads: usize) -> (r: Vec<u64>)
    requires
        forall|i: int|
            0 <= i < paired_len(ipix@.len() as int, depth) ==> ring_names_cell(
                #[trigger] ipix@[i],
                depth_at(depth, i),
            ),
    ensures
        r@.len() == paired_len(ipix@.len() as int, depth),
        forall|i: int|
            0 <= i < r@.len() ==> #[trigger] r@[i] == area_word(
                ring_to_nested(depth_at(depth, i), ipix@[i]),
                depth_at(depth, i),
            ),
{
    let n: usize = match depth {
        Depth::Scalar(_) => ipix.len(),
        Depth::Array(d) => if d.len() < ipix.len() {
            d.len()
        } else {
            ipix.len()
        },
    };
    let mut words: Vec<u64> = Vec::with_capacity(n);
    let mut k: usize = 0;
    while k < n
        invariant
            n == paired_len(ipix@.len() as int, depth),
            n <= ipix@.len(),
            k <= n,
            words@.len() == k,
            forall|i: int|
                0 <= i < n ==> ring_names_cell(#[trigger] ipix@[i], depth_at(depth, i)),
            forall|i: int|
                0 <= i < k ==> #[trigger] words@[i] == area_word(
                    ring_to_nested(depth_at(depth, i), ipix@[i]),
                    depth_at(depth, i),
                ),
        decreases n - k,
    {
        let d: u8 = match depth {
            Depth::Scalar(d) => *d,
            Depth::Array(d) => d[k],
        };
        assert(ring_names_cell(ipix@[k as int], depth_at(depth, k as int)));
        words.push(scalar::from_ring(&ipix[k], &d));
        k = k + 1;
    }
    words
}

/// `from_ring` on any input: `None` unless every paired ring index is a cell
/// that the ring conversion takes to a cell of its depth.
pub fn checked_from_ring(ipix: &[u64], depth: Depth, nthreads: usize) -> (r: Option<Vec<u64>>)
    ensures
        r is Some <==> forall|i: int|
            0 <= i < paired_len(ipix@.len() as int, depth) ==> ring_names_cell(
                #[trigger] ipix@[i],
                depth_at(depth, i),
            ),
        r matches Some(words) ==> words@.len() == paired_len(ipix@.len() as int, depth) && forall|
            i: int,
        |
            0 <= i < words@.len() ==> #[trigger] words@[i] == area_word(
                ring_to_nested(depth_at(depth, i), ipix@[i]),
                depth_at(depth, i),
            ),
{
    let n: usize = match depth {
        Depth::Scalar(_) => ipix.len(),
        Depth::Array(d) => if d.len() < ipix.len() {
            d.len()
        } else {
            ipix.len()
        },
    };
    let mut k: usize = 0;
    while k < n
        invariant
            n == paired_len(ipix@.len() as int, depth),
            n <= ipix@.len(),
            k <= n,
            forall|i: int| 0 <= i < k ==> ring_names_cell(#[trigger] ipix@[i], depth_at(depth, i)),
        decreases n - k,
    {
        let d: u8 = match depth {
            Depth::Scalar(d) => *d,
            Depth::Array(d) => d[k],
        };
        if scalar::checked_from_ring(&ipix[k], &d).is_none() {
            assert(!ring_names_cell(ipix@[k as int], depth_at(depth, k as int)));
            return None;
        }
        k = k + 1;
    }
    Some(from_ring(ipix, depth, nthreads))
}

/// Element-wise `scalar::to_zuniq`; every word must decode.
pub fn to_zuniq(ipix: &[u64], nthreads: usize) -> (r: Vec<u64>)
    requires
        forall|i: int| 0 <= i < ipix@.len() ==> decodes(#[trigger] ipix@[i]),
    ensures
        r@.len() == ipix@.len(),
        forall|i: int| 0 <= i < ipix@.len() ==> zuniq_of_word(ipix@[i]) == Some(#[trigger] r@[i]),
{
    let mut ids: Vec<u64> = Vec::with_capacity(ipix.len());
    let mut k: usize = 0;
    while k < ipix.len()
        invariant
            k <= ipix@.len(),
            ids@.len() == k,
            forall|i: int| 0 <= i < ipix@.len() ==> decodes(#[trigger] ipix@[i]),
            forall|i: int| 0 <= i < k ==> zuniq_of_word(ipix@[i]) == Some(#[trigger] ids@[i]),
        decreases ipix@.len() - k,
    {
        assert(decodes(ipix@[k as int]));
        ids.push(scalar::to_zuniq(&ipix[k]).unwrap());
        k = k + 1;
    }
    ids
}

/// Element-wise `scalar::from_zuniq`; every id must name a cell.
pub fn from_zuniq(ipix: &[u64], nthreads: usize) -> (r: Vec<u64>)
    requires
        forall|i: int| 0 <= i < ipix@.len() ==> zuniq_names_cell(#[trigger] ipix@[i]),
    ensures
        r@.len() == ipix@.len(),
        forall|i: int|
            0 <= i < ipix@.len() ==> #[trigger] r@[i] == area_word(
                zuniq_nested(ipix@[i]),
                zuniq_depth(ipix@[i]),
            ),
{
    let mut words: Vec<u64> = Vec::with_capacity(ipix.len());
    let mut k: usize = 0;
    while k < ipix.len()
        invariant
            k <= ipix@.len(),
            words@.len() == k,
            forall|i: int| 0 <= i < ipix@.len() ==> zuniq_names_cell(#[trigger] ipix@[i]),
            forall|i: int|
                0 <= i < k ==> #[trigger] words@[i] == area_word(
                    zuniq_nested(ipix@[i]),
                    zuniq_depth(ipix@[i]),
                ),
        decreases ipix@.len() - k,
    {
        assert(zuniq_names_cell(ipix@[k as int]));
        words.push(scalar::from_zuniq(&ipix[k]));
        k = k + 1;
    }
    words
}

} // verus!
