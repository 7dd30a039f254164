//! The packed Morton word format and the calls into its codec.
//!
//! A word is laid out, from the most significant bit down, as a 4-bit prefix
//! (base cell + 1), a 54-bit body of 27 two-bit tuples (orders 1 to 27, order 1
//! highest) and a 6-bit suffix that numbers the path tail past order 27.
use mortie_core::decimal_morton::Kind;
use vstd::prelude::*;

verus! {

/// Highest HEALPix depth a word can encode.
pub const MAX_DEPTH: u8 = 29;

/// The 4-bit prefix: the base cell plus one, `0` for the empty sentinel.
pub open spec fn prefix_of(w: u64) -> u64 {
    w >> 60u64
}

/// The 6-bit suffix.
pub open spec fn suffix_of(w: u64) -> u64 {
    w & 63u64
}

/// The 54-bit body, shifted down to bit 0.
pub open spec fn body_of(w: u64) -> u64 {
    (w >> 6u64) & 0x3f_ffff_ffff_ffffu64
}

/// Whether the prefix names one of the twelve base cells.
pub open spec fn decodes(w: u64) -> bool {
    1 <= prefix_of(w) <= 12
}

/// The depth a suffix encodes, total over every bit pattern: `0..=27` is
/// the depth itself; `28..=47` holds the depth-28/29 area tails in blocks of
/// five, the first of each block (28, 33, 38, 43) at depth 28 and the other
/// four at depth 29; `48..=63` are depth-29 points.
pub open spec fn word_order(w: u64) -> u8 {
    let sfx = suffix_of(w);
    if sfx <= 27 {
        sfx as u8
    } else if sfx < 48 {
        if sfx == 28 || sfx == 33 || sfx == 38 || sfx == 43 {
            28u8
        } else {
            29u8
        }
    } else {
        29u8
    }
}

/// Whether the suffix lies in the max-encoded point region.
pub open spec fn word_is_point(w: u64) -> bool {
    suffix_of(w) >= 48
}

/// The stored depth-28 tuple of a suffix in the depth-28/29 region: the
/// block of five for an area tail, the high half of `suffix - 48` for a
/// point.
pub open spec fn tail_t28(s: u64) -> u64 {
    if s >= 48 {
        ((s - 48) / 4) as u64
    } else {
        ((s - 28) / 5) as u64
    }
}

/// The nested index of a word relative to its base cell: the body tuples
/// down to the word's depth, followed at depth 28 and 29 by the tuples the
/// suffix carries.
pub open spec fn word_within(w: u64) -> u64 {
    let wo = word_order(w);
    let wb = body_of(w);
    let ws = suffix_of(w);
    if wo <= 27 {
        wb >> ((2 * (27 - wo)) as u64)
    } else if ws >= 48 {
        (wb << 4u64) | ((ws - 48) as u64)
    } else if wo == 28 {
        (wb << 2u64) | (((ws - 28) / 5) as u64)
    } else {
        (wb << 4u64) | ((((ws - 28) / 5) as u64) << 2u64) | (((ws - 28) % 5 - 1) as u64)
    }
}

/// The nested index a word decodes to: the base cell above the relative index.
pub open spec fn word_nested(w: u64) -> u64 {
    (((prefix_of(w) - 1) as u64) << ((2 * word_order(w)) as u64)) | word_within(w)
}

/// What decoding a word gives: its depth and nested index, or nothing.
pub open spec fn decoded(w: u64) -> Option<(u8, u64)> {
    if decodes(w) {
        Some((word_order(w), word_nested(w)))
    } else {
        None
    }
}

/// A nested index names a cell at `depth`.
pub open spec fn valid_cell(nested: u64, depth: u8) -> bool {
    depth <= 29 && (nested >> ((2 * depth) as u64)) <= 11
}

/// The nested index relative to its base cell.
pub open spec fn within_base(nested: u64, depth: u8) -> u64 {
    nested & !(0xffff_ffff_ffff_ffffu64 << ((2 * depth) as u64))
}

/// The prefix bits of the base cell of `nested` at `depth`, in place.
pub open spec fn prefix_bits(nested: u64, depth: u8) -> u64 {
    (((nested >> ((2 * depth) as u64)) + 1) as u64) << 60u64
}

/// The canonical area word of a cell.
pub open spec fn area_word(nested: u64, depth: u8) -> u64 {
    let aw_within = within_base(nested, depth);
    let aw_prefix = prefix_bits(nested, depth);
    if depth <= 27 {
        aw_prefix | (aw_within << ((6 + 2 * (27 - depth)) as u64)) | (depth as u64)
    } else if depth == 28 {
        aw_prefix | ((aw_within >> 2u64) << 6u64) | ((28 + 5 * (aw_within & 3u64)) as u64)
    } else {
        aw_prefix | ((aw_within >> 4u64) << 6u64) | ((29 + 5 * ((aw_within >> 2u64) & 3u64) + (aw_within
            & 3u64)) as u64)
    }
}

/// The canonical max-encoded point word of a depth-29 cell.
pub open spec fn point_word(nested: u64) -> u64 {
    let pw_within = within_base(nested, 29);
    prefix_bits(nested, 29) | ((pw_within >> 4u64) << 6u64) | ((48 + (pw_within & 15u64)) as u64)
}

/// The bits of `w` truncated to depth `k`, below the word's own depth.
pub open spec fn truncated_word(w: u64, k: u8) -> u64 {
    let tk: u64 = if k <= 27 {
        k as u64
    } else {
        27
    };
    let tkeep = (2 * tk) as u64;
    let tbody = if tk == 0 {
        0u64
    } else {
        w & (((((1u64 << tkeep) - 1) as u64) << ((54 - tkeep) as u64)) << 6u64)
    };
    let tsuffix = if k == 28 {
        (28 + 5 * tail_t28(suffix_of(w))) as u64
    } else {
        k as u64
    };
    (w & (0xfu64 << 60u64)) | tbody | tsuffix
}

/// A word coarsened to depth `k`: nothing when it does not decode, the word
/// itself when `k` is at or above its depth.
pub open spec fn coarsened(w: u64, k: u8) -> Option<u64> {
    if !decodes(w) {
        None
    } else if k >= word_order(w) {
        Some(w)
    } else {
        Some(truncated_word(w, k))
    }
}

/// Calls `mortie_core::from_nested`, which packs a nested index at `depth`
/// into its canonical area word; it panics outside the valid cells.
#[verifier::external_body]
pub(crate) fn codec_from_nested(nested: u64, depth: u8) -> (w: u64)
    requires
        valid_cell(nested, depth),
    ensures
        w == area_word(nested, depth),
{
    mortie_core::from_nested(nested, depth)
}


/// Calls `mortie_core::decimal_morton::from_nested_point`, which packs a
/// depth-29 nested index into its canonical max-encoded point word; it panics
/// when the index is out of range at depth 29.
#[verifier::external_body]
pub(crate) fn codec_from_nested_point(nested: u64) -> (w: u64)
    requires
        valid_cell(nested, 29),
    ensures
        w == point_word(nested),
{
    mortie_core::decimal_morton::from_nested_point(nested)
}

/// Calls `mortie_core::to_nested`, which reads the depth and the nested index
/// out of a word, or nothing for the empty sentinel and invalid prefixes.
#[verifier::external_body]
pub(crate) fn codec_to_nested(w: u64) -> (r: Option<(u8, u64)>)
    ensures
        r == decoded(w),
{
    mortie_core::to_nested(w)
}

/// Calls `mortie_core::decimal_morton::kind_of`: whether the suffix lies in
/// the point region.
#[verifier::external_body]
pub(crate) fn codec_is_point(w: u64) -> (r: bool)
    ensures
        r == word_is_point(w),
{
    match mortie_core::decimal_morton::kind_of(w) {
        Kind::Point => true,
        Kind::Area => false,
    }
}

/// Calls `mortie_core::decimal_morton::order_of`: the depth the suffix
/// encodes.
#[verifier::external_body]
pub(crate) fn codec_order_of(w: u64) -> (r: u8)
    ensures
        r == word_order(w),
{
    mortie_core::decimal_morton::order_of(w)
}

/// Calls `mortie_core::decimal_morton::coarsen`, which truncates a word to
/// depth `k`.
#[verifier::external_body]
pub(crate) fn codec_coarsen(w: u64, k: u8) -> (r: Option<u64>)
    ensures
        r == coarsened(w, k),
{
    mortie_core::decimal_morton::coarsen(w, k)
}

} // verus!
verus! {

/// Decoding the canonical area word of a cell gives the cell back.
pub proof fn lemma_area_word_decodes(nested: u64, depth: u8)
    requires
        valid_cell(nested, depth),
    ensures
        decoded(area_word(nested, depth)) == Some((depth, nested)),
        !word_is_point(area_word(nested, depth)),
{
    let w = area_word(nested, depth);
    let d = depth as u64;
    if depth <= 27 {
        assert(decodes(w) && word_order(w) == depth && word_nested(w) == nested && !word_is_point(w))
            by (bit_vector)
            requires
                d <= 27,
                (nested >> (2 * d)) <= 11,
                w == area_word(nested, depth),
                d == depth,
        ;
    } else if depth == 28 {
        assert(decodes(w) && word_order(w) == 28 && word_nested(w) == nested && !word_is_point(w))
            by (bit_vector)
            requires
                (nested >> 56u64) <= 11,
                w == area_word(nested, 28),
        ;
    } else {
        assert(decodes(w) && word_order(w) == 29 && word_nested(w) == nested && !word_is_point(w))
            by (bit_vector)
            requires
                (nested >> 58u64) <= 11,
                w == area_word(nested, 29),
        ;
    }
}

/// Decoding the point word of a depth-29 cell gives the cell back.
pub proof fn lemma_point_word_decodes(nested: u64)
    requires
        valid_cell(nested, 29),
    ensures
        decoded(point_word(nested)) == Some((29u8, nested)),
        word_is_point(point_word(nested)),
{
    let w = point_word(nested);
    assert(decodes(w) && word_order(w) == 29 && word_nested(w) == nested && word_is_point(w))
        by (bit_vector)
        requires
            (nested >> 58u64) <= 11,
            w == point_word(nested),
    ;
}

} // verus!
verus! {

/// Every word that decodes names a valid cell.
pub proof fn lemma_decoded_is_valid(w: u64)
    requires
        decodes(w),
    ensures
        valid_cell(word_nested(w), word_order(w)),
        word_order(w) <= 29,
{
    assert(valid_cell(word_nested(w), word_order(w)) && word_order(w) <= 29) by (bit_vector)
        requires
            decodes(w),
    ;
}

/// Coarsening a word to a depth below its own gives the canonical area word
/// of its ancestor cell at that depth.
#[verifier::rlimit(100)]
pub proof fn lemma_coarsened_is_ancestor(w: u64, k: u8)
    requires
        decodes(w),
        k < word_order(w),
    ensures
        coarsened(w, k) == Some(area_word(word_nested(w) >> ((2 * (word_order(w) - k)) as u64), k)),
{
    let s = suffix_of(w);
    if s <= 27 {
        assert(truncated_word(w, k) == area_word(
            word_nested(w) >> ((2 * (word_order(w) - k)) as u64),
            k,
        )) by (bit_vector)
            requires
                decodes(w),
                k < word_order(w),
                suffix_of(w) <= 27,
        ;
    } else if s < 48 {
        if k <= 27 {
            assert(truncated_word(w, k) == area_word(
                word_nested(w) >> ((2 * (word_order(w) - k)) as u64),
                k,
            )) by (bit_vector)
                requires
                    decodes(w),
                    k <= 27,
                    28 <= suffix_of(w) < 48,
            ;
        } else {
            assert(truncated_word(w, k) == area_word(
                word_nested(w) >> ((2 * (word_order(w) - k)) as u64),
                k,
            )) by (bit_vector)
                requires
                    decodes(w),
                    k == 28,
                    word_order(w) == 29,
                    28 <= suffix_of(w) < 48,
            ;
        }
    } else {
        if k <= 27 {
            assert(truncated_word(w, k) == area_word(
                word_nested(w) >> ((2 * (word_order(w) - k)) as u64),
                k,
            )) by (bit_vector)
                requires
                    decodes(w),
                    k <= 27,
                    48 <= suffix_of(w),
            ;
        } else {
            assert(truncated_word(w, k) == area_word(
                word_nested(w) >> ((2 * (word_order(w) - k)) as u64),
                k,
            )) by (bit_vector)
                requires
                    decodes(w),
                    k == 28,
                    48 <= suffix_of(w),
            ;
        }
    }
}
/// Re-encoding what a word decodes to never gives a larger word: it clears
/// the bits below the word's depth.
#[verifier::rlimit(100)]
pub proof fn lemma_reencoding_not_larger(w: u64)
    requires
        decodes(w),
    ensures
        area_word(word_nested(w), word_order(w)) <= w,
{
    if suffix_of(w) <= 27 {
        assert(area_word(word_nested(w), word_order(w)) <= w) by (bit_vector)
            requires
                decodes(w),
                suffix_of(w) <= 27,
        ;
    } else if suffix_of(w) < 48 {
        assert(area_word(word_nested(w), word_order(w)) <= w) by (bit_vector)
            requires
                decodes(w),
                28 <= suffix_of(w) < 48,
        ;
    } else {
        assert(area_word(word_nested(w), word_order(w)) <= w) by (bit_vector)
            requires
                decodes(w),
                48 <= suffix_of(w),
        ;
    }
}

/// Truncating a word to a depth below its own never gives a larger word.
#[verifier::rlimit(100)]
pub proof fn lemma_truncation_not_larger(w: u64, k: u8)
    requires
        decodes(w),
        k < word_order(w),
    ensures
        truncated_word(w, k) <= w,
{
    if suffix_of(w) <= 27 {
        assert(truncated_word(w, k) <= w) by (bit_vector)
            requires
                k < word_order(w),
                suffix_of(w) <= 27,
        ;
    } else if k <= 27 {
        assert(truncated_word(w, k) <= w) by (bit_vector)
            requires
                k <= 27,
                28 <= suffix_of(w),
        ;
    } else {
        assert(truncated_word(w, k) <= w) by (bit_vector)
            requires
                k == 28,
                word_order(w) == 29,
                28 <= suffix_of(w),
        ;
    }
}

/// How many low bits of a word lie below the top `k` body tuples, `k <= 27`.
pub open spec fn branch_shift(k: u8) -> u64 {
    (6 + 2 * (27 - k)) as u64
}

/// The low bits of `w` below the top `k` body tuples.
pub open spec fn below_branch(w: u64, k: u8) -> u64 {
    w & (((1u64 << branch_shift(k)) - 1) as u64)
}

/// Truncating to a depth `k <= 27` keeps the prefix and the top `k` tuples
/// and writes `k` in the suffix.
pub proof fn lemma_truncation_keeps_branch(w: u64, k: u8)
    requires
        k <= 27,
    ensures
        truncated_word(w, k) == ((w >> branch_shift(k)) << branch_shift(k)) | (k as u64),
{
    assert(truncated_word(w, k) == ((w >> branch_shift(k)) << branch_shift(k)) | (k as u64))
        by (bit_vector)
        requires
            k <= 27,
    ;
}

/// Below the top `k <= 27` tuples, the area word of a cell at depth `d <= k`
/// holds nothing but its depth.
pub proof fn lemma_area_word_below_branch(nested: u64, depth: u8, k: u8)
    requires
        valid_cell(nested, depth),
        depth <= k,
        k <= 27,
    ensures
        below_branch(area_word(nested, depth), k) == depth as u64,
{
    assert(below_branch(area_word(nested, depth), k) == depth as u64) by (bit_vector)
        requires
            (nested >> ((2 * depth) as u64)) <= 11,
            depth <= k,
            k <= 27,
    ;
}

/// Below the top `k <= 27` tuples, an area word at depth `k` or deeper holds
/// at least `k` and at most the largest area tail.
pub proof fn lemma_below_branch_bounds(w: u64, k: u8)
    requires
        k <= 27,
        !word_is_point(w),
        k <= word_order(w),
    ensures
        k <= below_branch(w, k),
        below_branch(w, k) <= ((1u64 << branch_shift(k)) - 17) as u64,
{
    assert(k <= below_branch(w, k) && below_branch(w, k) <= ((1u64 << branch_shift(k)) - 17) as u64)
        by (bit_vector)
        requires
            k <= 27,
            suffix_of(w) < 48,
            k <= word_order(w),
    ;
}

/// Two words agree above the top `k <= 27` tuples exactly when they lie in
/// the range that a word with `k` below the tuples opens.
pub proof fn lemma_branch_range(a: u64, x: u64, k: u8)
    requires
        k <= 27,
        below_branch(a, k) == k as u64,
    ensures
        a == ((a >> branch_shift(k)) << branch_shift(k)) | (k as u64),
        (a <= x && x <= ((a >> branch_shift(k)) << branch_shift(k)) | ((((1u64 << branch_shift(k))
            - 17) as u64))) <==> (x >> branch_shift(k) == a >> branch_shift(k) && k
            <= below_branch(x, k) && below_branch(x, k) <= ((1u64 << branch_shift(k)) - 17) as u64),
        (((x >> branch_shift(k)) << branch_shift(k)) | (k as u64) == a) <==> (x >> branch_shift(k)
            == a >> branch_shift(k)),
        below_branch(x, k) == k as u64 ==> (x == a <==> x >> branch_shift(k) == a >> branch_shift(
            k,
        )),
{
    assert(a == ((a >> branch_shift(k)) << branch_shift(k)) | (k as u64) && ((a <= x && x <= ((a
        >> branch_shift(k)) << branch_shift(k)) | ((((1u64 << branch_shift(k)) - 17) as u64)))
        <==> (x >> branch_shift(k) == a >> branch_shift(k) && k <= below_branch(x, k)
        && below_branch(x, k) <= ((1u64 << branch_shift(k)) - 17) as u64)) && ((((x
        >> branch_shift(k)) << branch_shift(k)) | (k as u64) == a) <==> (x >> branch_shift(k) == a
        >> branch_shift(k))) && (below_branch(x, k) == k as u64 ==> (x == a <==> x >> branch_shift(
        k,
    ) == a >> branch_shift(k)))) by (bit_vector)
        requires
            k <= 27,
            below_branch(a, k) == k as u64,
    ;
}

/// Around a depth-28 area word `a`, the four words above it are its
/// depth-29 children, and nothing else up to `a + 4` is an area word that
/// truncates to `a`.
pub proof fn lemma_depth28_range(a: u64, x: u64)
    requires
        word_order(a) == 28,
        !word_is_point(a),
        !word_is_point(x),
    ensures
        a + 4 <= u64::MAX,
        (a <= x && x <= a + 4) <==> ((word_order(x) == 28 && x == a) || (word_order(x) == 29
            && truncated_word(x, 28) == a)),
{
    assert(a + 4 <= u64::MAX && ((a <= x && x <= a + 4) <==> ((word_order(x) == 28 && x == a) || (word_order(x) == 29
        && truncated_word(x, 28) == a)))) by (bit_vector)
        requires
            word_order(a) == 28,
            suffix_of(a) < 48,
            suffix_of(x) < 48,
    ;
}

} // verus!
