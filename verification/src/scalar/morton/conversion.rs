//! Conversions between Morton words and the nested, ring and `zuniq` schemes.
use vstd::prelude::*;
use vstd::std_specs::bits::u64_trailing_zeros;

use crate::codec::{
    area_word, codec_from_nested, codec_from_nested_point, codec_is_point, codec_to_nested,
    decoded, decodes, lemma_area_word_decodes, lemma_decoded_is_valid, lemma_point_word_decodes,
    point_word, valid_cell, word_is_point, word_nested, word_order,
};
use crate::schemes::{
    healpix_from_ring, healpix_from_zuniq, healpix_to_ring, healpix_to_zuniq, lemma_zuniq_rebuilt,
    lemma_zuniq_round_trip, nested_to_ring, ring_exactly_located, ring_is_exactly_located,
    ring_to_nested, zuniq_depth, zuniq_nested, zuniq_of,
    zuniq_readable,
};

verus! {

/// The nested index and depth a word decodes to, in that order.
pub open spec fn nested_of_word(w: u64) -> Option<(u64, u8)> {
    match decoded(w) {
        Some((depth, nested)) => Some((nested, depth)),
        None => None,
    }
}

/// The ring index and depth of the cell a word decodes to.
pub open spec fn ring_of_word(w: u64) -> Option<(u64, u8)> {
    match decoded(w) {
        Some((depth, nested)) => Some((nested_to_ring(depth, nested), depth)),
        None => None,
    }
}

/// The `zuniq` id of the cell a word decodes to.
pub open spec fn zuniq_of_word(w: u64) -> Option<u64> {
    match decoded(w) {
        Some((depth, nested)) => Some(zuniq_of(depth, nested)),
        None => None,
    }
}

/// A word is canonical when it decodes and re-encoding what it decodes to,
/// as an area or as a point word by its kind, gives the word back.
pub open spec fn canonical(w: u64) -> bool {
    match decoded(w) {
        None => false,
        Some((depth, nested)) => if word_is_point(w) {
            point_word(nested) == w
        } else {
            area_word(nested, depth) == w
        },
    }
}

/// A canonical area word: the one bit pattern of a cell with area.
pub open spec fn canonical_area(w: u64) -> bool {
    canonical(w) && !word_is_point(w)
}

/// A `zuniq` id that reads back to a cell.
pub open spec fn zuniq_names_cell(zuniq: u64) -> bool {
    zuniq_readable(zuniq) && valid_cell(zuniq_nested(zuniq), zuniq_depth(zuniq))
}

/// Pack a nested cell index at `depth` into a Morton word.
pub fn from_nested(hash: &u64, depth: &u8) -> (word: u64)
    requires
        valid_cell(*hash, *depth),
    ensures
        word == area_word(*hash, *depth),
        nested_of_word(word) == Some((*hash, *depth)),
        canonical_area(word),
{
    proof {
        lemma_nested_round_trip(*hash, *depth);
    }
    codec_from_nested(*hash, *depth)
}

/// Pack a depth-29 nested cell index into a max-encoded *point* word.
///
/// A point word marks a raw coordinate cast to maximum resolution with no
/// area claim; it sorts after every area cell of the same body and unpacks
/// to its depth-29 nested cell like any other word.
pub fn from_nested_point(hash: &u64) -> (word: u64)
    requires
        valid_cell(*hash, 29),
    ensures
        word == point_word(*hash),
        nested_of_word(word) == Some((*hash, 29u8)),
        canonical(word),
        word_is_point(word),
{
    proof {
        lemma_point_round_trip(*hash);
    }
    codec_from_nested_point(*hash)
}

/// Unpack a Morton word into its nested cell index and depth.
///
/// Returns `None` if the word does not decode (the empty sentinel `0`, or an
/// invalid base-cell prefix). A point word unpacks to its depth-29 cell.
pub fn to_nested(hash: &u64) -> (r: Option<(u64, u8)>)
    ensures
        r == nested_of_word(*hash),
        r is Some <==> decodes(*hash),
        r matches Some((nested, depth)) ==> valid_cell(nested, depth),
{
    proof {
        if decodes(*hash) {
            lemma_decoded_is_valid(*hash);
        }
    }
    match codec_to_nested(*hash) {
        Some((depth, nested)) => Some((nested, depth)),
        None => None,
    }
}

/// A ring index that the ring conversion of `cdshealpix` takes to a cell of
/// the same depth.
pub open spec fn ring_names_cell(ring: u64, depth: u8) -> bool {
    &&& valid_cell(ring, depth)
    &&& ring_exactly_located(depth, ring)
    &&& valid_cell(ring_to_nested(depth, ring), depth)
}

/// Pack a ring cell index at `depth` into a Morton word.
///
/// The ring conversion must give a cell of the depth; `checked_from_ring`
/// tests that and takes any input.
pub fn from_ring(hash: &u64, depth: &u8) -> (word: u64)
    requires
        ring_names_cell(*hash, *depth),
    ensures
        word == area_word(ring_to_nested(*depth, *hash), *depth),
        nested_of_word(word) == Some((ring_to_nested(*depth, *hash), *depth)),
        canonical_area(word),
{
    let nested = healpix_from_ring(*depth, *hash);
    proof {
        lemma_nested_round_trip(nested, *depth);
    }
    codec_from_nested(nested, *depth)
}

/// `from_ring` on any input: `None` unless the ring index is a cell of the
/// depth that the ring conversion locates exactly and takes to a cell of
/// the depth.
pub fn checked_from_ring(hash: &u64, depth: &u8) -> (r: Option<u64>)
    ensures
        r == (if ring_names_cell(*hash, *depth) {
            Some(area_word(ring_to_nested(*depth, *hash), *depth))
        } else {
            None::<u64>
        }),
{
    if *depth > 29 || *hash >> (2 * *depth) > 11 || !ring_is_exactly_located(*depth, *hash) {
        return None;
    }
    let nested = healpix_from_ring(*depth, *hash);
    if nested >> (2 * *depth) > 11 {
        return None;
    }
    Some(from_ring(hash, depth))
}

/// Unpack a Morton word into its ring cell index and depth.
///
/// Returns `None` if the word does not decode.
pub fn to_ring(hash: &u64) -> (r: Option<(u64, u8)>)
    ensures
        r == ring_of_word(*hash),
        r is Some <==> decodes(*hash),
        decodes(*hash) ==> r == Some((nested_to_ring(word_order(*hash), word_nested(*hash)), word_order(*hash))),
{
    let (nested, depth) = to_nested(hash)?;
    Some((healpix_to_ring(depth, nested), depth))
}

/// Re-encode a `zuniq` cell id as a Morton word.
pub fn from_zuniq(hash: &u64) -> (word: u64)
    requires
        zuniq_names_cell(*hash),
    ensures
        word == area_word(zuniq_nested(*hash), zuniq_depth(*hash)),
        canonical_area(word),
        zuniq_of_word(word) == Some(zuniq_of(zuniq_depth(*hash), zuniq_nested(*hash))),
        u64_trailing_zeros(*hash) % 2 == 0 ==> zuniq_of_word(word) == Some(*hash),
{
    let (depth, nested) = healpix_from_zuniq(*hash);
    proof {
        lemma_nested_round_trip(nested, depth);
        if u64_trailing_zeros(*hash) % 2 == 0 {
            lemma_zuniq_rebuilt(*hash);
        }
    }
    codec_from_nested(nested, depth)
}

/// Re-encode a Morton word as a `zuniq` cell id.
///
/// Returns `None` if the word does not decode.
pub fn to_zuniq(hash: &u64) -> (r: Option<u64>)
    ensures
        r == zuniq_of_word(*hash),
        canonical_area(*hash) ==> (r matches Some(z) && zuniq_names_cell(z) && area_word(
            zuniq_nested(z),
            zuniq_depth(z),
        ) == *hash),
{
    proof {
        if canonical_area(*hash) {
            lemma_decoded_is_valid(*hash);
            lemma_zuniq_round_trip(word_order(*hash), word_nested(*hash));
        }
    }
    let (nested, depth) = to_nested(hash)?;
    Some(healpix_to_zuniq(depth, nested))
}

/// Whether `hash` is a max-encoded *point* word rather than an area cell.
///
/// Total over every bit pattern: the suffix alone decides the kind, so this
/// says nothing about whether the word decodes or is canonical.
pub fn is_point(hash: &u64) -> (r: bool)
    ensures
        r == word_is_point(*hash),
{
    codec_is_point(*hash)
}

/// Whether `hash` is a canonical Morton word.
///
/// Encoding zero-fills every bit below a cell's depth, so each cell has
/// exactly one bit pattern; a word that decodes but carries other bits there
/// is not canonical. Area words and point words can both be canonical.
pub fn is_canonical(hash: &u64) -> (r: bool)
    ensures
        r == canonical(*hash),
{
    match codec_to_nested(*hash) {
        None => false,
        Some((depth, nested)) => {
            proof {
                lemma_decoded_is_valid(*hash);
            }
            if codec_is_point(*hash) {
                codec_from_nested_point(nested) == *hash
            } else {
                codec_from_nested(nested, depth) == *hash
            }
        },
    }
}

/// Packing a cell and unpacking the word gives the cell back; the word is the
/// canonical area word of the cell and carries its depth.
pub proof fn lemma_nested_round_trip(nested: u64, depth: u8)
    requires
        valid_cell(nested, depth),
    ensures
        nested_of_word(area_word(nested, depth)) == Some((nested, depth)),
        canonical_area(area_word(nested, depth)),
        word_order(area_word(nested, depth)) == depth,
{
    lemma_area_word_decodes(nested, depth);
}

/// Packing a depth-29 cell as a point and unpacking the word gives the cell
/// back; the word is canonical and is a point word.
pub proof fn lemma_point_round_trip(nested: u64)
    requires
        valid_cell(nested, 29),
    ensures
        nested_of_word(point_word(nested)) == Some((nested, 29u8)),
        canonical(point_word(nested)),
        word_is_point(point_word(nested)),
        word_order(point_word(nested)) == 29,
{
    lemma_point_word_decodes(nested);
}

/// Distinct cells get distinct words: packing is injective.
pub proof fn lemma_area_words_distinct(n1: u64, d1: u8, n2: u64, d2: u8)
    requires
        valid_cell(n1, d1),
        valid_cell(n2, d2),
        area_word(n1, d1) == area_word(n2, d2),
    ensures
        n1 == n2,
        d1 == d2,
{
    lemma_area_word_decodes(n1, d1);
    lemma_area_word_decodes(n2, d2);
}

/// The canonical words are exactly the area words of cells and the point
/// words of depth-29 cells.
pub proof fn lemma_canonical_words_are_encodings(w: u64)
    ensures
        canonical(w) <==> ((exists|n: u64, d: u8|
            valid_cell(n, d) && #[trigger] area_word(n, d) == w) || (exists|n: u64|
            valid_cell(n, 29) && #[trigger] point_word(n) == w)),
{
    if canonical(w) {
        lemma_decoded_is_valid(w);
        if word_is_point(w) {
            assert(valid_cell(word_nested(w), 29) && point_word(word_nested(w)) == w);
        } else {
            assert(valid_cell(word_nested(w), word_order(w)) && area_word(
                word_nested(w),
                word_order(w),
            ) == w);
        }
    }
    if exists|n: u64, d: u8| valid_cell(n, d) && #[trigger] area_word(n, d) == w {
        let (n, d) = choose|n: u64, d: u8| valid_cell(n, d) && #[trigger] area_word(n, d) == w;
        lemma_area_word_decodes(n, d);
    }
    if exists|n: u64| valid_cell(n, 29) && #[trigger] point_word(n) == w {
        let n = choose|n: u64| valid_cell(n, 29) && #[trigger] point_word(n) == w;
        lemma_point_word_decodes(n);
    }
}

/// A depth-29 point word and the area word of the same cell are distinct
/// canonical words that decode to the same cell.
pub proof fn lemma_point_and_area_decode_alike(nested: u64)
    requires
        valid_cell(nested, 29),
    ensures
        point_word(nested) != area_word(nested, 29),
        canonical(point_word(nested)),
        canonical(area_word(nested, 29)),
        decoded(point_word(nested)) == decoded(area_word(nested, 29)),
{
    lemma_point_word_decodes(nested);
    lemma_area_word_decodes(nested, 29);
}

/// The ring index of a cell's word is the ring conversion of the cell itself,
/// at every depth.
pub proof fn lemma_ring_of_cell(nested: u64, depth: u8)
    requires
        valid_cell(nested, depth),
    ensures
        ring_of_word(area_word(nested, depth)) == Some((nested_to_ring(depth, nested), depth)),
{
    lemma_area_word_decodes(nested, depth);
}

} // verus!
