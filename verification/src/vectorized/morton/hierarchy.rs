//! Element-wise depth, ancestors and containment.
use vstd::prelude::*;

use crate::codec::{coarsened, decodes, word_order};
use crate::scalar::morton::hierarchy as scalar;
use crate::scalar::morton::hierarchy::contains_word;

verus! {

/// Element-wise `scalar::depth`.
pub fn depth(ipix: &[u64], nthreads: usize) -> (r: Vec<u8>)
    ensures
        r@.len() == ipix@.len(),
        forall|i: int| 0 <= i < ipix@.len() ==> #[trigger] r@[i] == word_order(ipix@[i]),
{
    let mut depths: Vec<u8> = Vec::with_capacity(ipix.len());
    let mut k: usize = 0;
    while k < ipix.len()
        invariant
            k <= ipix@.len(),
            depths@.len() == k,
            forall|i: int| 0 <= i < k ==> #[trigger] depths@[i] == word_order(ipix@[i]),
        decreases ipix@.len() - k,
    {
        depths.push(scalar::depth(&ipix[k]));
        k = k + 1;
    }
    depths
}

/// Element-wise `scalar::parent` at `depth`; every word must decode.
pub fn ancestor(ipix: &[u64], depth: &u8, nthreads: usize) -> (r: Vec<u64>)
    requires
        forall|i: int| 0 <= i < ipix@.len() ==> decodes(#[trigger] ipix@[i]),
    ensures
        r@.len() == ipix@.len(),
        forall|i: int|
            0 <= i < ipix@.len() ==> coarsened(ipix@[i], *depth) == Some(#[trigger] r@[i]),
{
    let mut words: Vec<u64> = Vec::with_capacity(ipix.len());
    let mut k: usize = 0;
    while k < ipix.len()
        invariant
            k <= ipix@.len(),
            words@.len() == k,
            forall|i: int| 0 <= i < ipix@.len() ==> decodes(#[trigger] ipix@[i]),
            forall|i: int| 0 <= i < k ==> coarsened(ipix@[i], *depth) == Some(#[trigger] words@[i]),
        decreases ipix@.len() - k,
    {
        assert(decodes(ipix@[k as int]));
        words.push(scalar::parent(&ipix[k], depth).unwrap());
        k = k + 1;
    }
    words
}

/// Whether `ancestor` contains each of `ipix`, element-wise
/// `scalar::contains`: an `ancestor` that is not a canonical area word
/// contains nothing, so every element is `false` then.
pub fn contains(ancestor: &u64, ipix: &[u64], nthreads: usize) -> (r: Vec<bool>)
    ensures
        r@.len() == ipix@.len(),
        forall|i: int|
            0 <= i < ipix@.len() ==> #[trigger] r@[i] == contains_word(*ancestor, ipix@[i]),
{
    let mut flags: Vec<bool> = Vec::with_capacity(ipix.len());
    let mut k: usize = 0;
    while k < ipix.len()
        invariant
            k <= ipix@.len(),
            flags@.len() == k,
            forall|i: int| 0 <= i < k ==> #[trigger] flags@[i] == contains_word(*ancestor, ipix@[i]),
        decreases ipix@.len() - k,
    {
        flags.push(scalar::contains(ancestor, &ipix[k]));
        k = k + 1;
    }
    flags
}

} // verus!
