//! Depth, ancestors and containment of Morton words.
use vstd::arithmetic::div_mod::lemma_div_denominator;
use vstd::arithmetic::power2::{lemma_pow2_adds, lemma_pow2_pos, pow2};
use vstd::bits::lemma_u64_shr_is_div;
use vstd::prelude::*;

use crate::codec::{
    area_word, branch_shift, codec_coarsen, codec_order_of, coarsened, decodes,
    lemma_area_word_below_branch, lemma_area_word_decodes, lemma_below_branch_bounds,
    lemma_branch_range, lemma_coarsened_is_ancestor, lemma_decoded_is_valid, lemma_depth28_range,
    lemma_point_word_decodes, lemma_reencoding_not_larger, lemma_truncation_keeps_branch,
    lemma_truncation_not_larger, point_word, valid_cell, word_is_point, word_nested, word_order,
};
use crate::scalar::morton::conversion::{canonical_area, is_canonical, is_point, to_nested};

verus! {

/// The nested index of the cell `shift` depths above `nested`.
pub open spec fn nested_ancestor(nested: u64, shift: int) -> u64 {
    nested >> ((2 * shift) as u64)
}

/// Containment is truncation: `ancestor` is a canonical area word, and
/// truncating `descendant` to the ancestor's depth gives it. An area word
/// truncated to its own depth is itself, so at equal depths the words must be
/// equal; a point word at depth 29 truncates to the area word of its cell.
pub open spec fn contains_word(ancestor: u64, descendant: u64) -> bool {
    &&& canonical_area(ancestor)
    &&& decodes(descendant)
    &&& word_order(ancestor) <= word_order(descendant)
    &&& if word_order(ancestor) == word_order(descendant) && !word_is_point(descendant) {
        ancestor == descendant
    } else {
        ancestor == area_word(
            nested_ancestor(word_nested(descendant), word_order(descendant) - word_order(ancestor)),
            word_order(ancestor),
        )
    }
}

/// The refinement level encoded in a Morton word's suffix.
///
/// Total over every bit pattern; combine with `is_canonical` when the word is
/// untrusted.
pub fn depth(hash: &u64) -> (d: u8)
    ensures
        d == word_order(*hash),
        d <= 29,
{
    codec_order_of(*hash)
}

/// The ancestor of a Morton word at `depth`, discarding finer detail.
///
/// Returns the word unchanged when `depth >=` its own depth, and `None` if
/// the word does not decode.
pub fn parent(hash: &u64, depth: &u8) -> (r: Option<u64>)
    ensures
        r == coarsened(*hash, *depth),
        r is Some <==> decodes(*hash),
        decodes(*hash) && *depth < word_order(*hash) ==> r == Some(
            area_word(
                nested_ancestor(word_nested(*hash), word_order(*hash) - *depth),
                *depth,
            ),
        ),
{
    proof {
        if decodes(*hash) && *depth < word_order(*hash) {
            lemma_coarsened_is_ancestor(*hash, *depth);
        }
    }
    codec_coarsen(*hash, *depth)
}

/// Containment-is-truncation: whether `ancestor` contains `descendant`.
///
/// True iff truncating `descendant` to `ancestor`'s depth yields exactly
/// `ancestor`, a point word counting as the area cell it falls in.
/// Reflexive for canonical area words; false whenever either word does not
/// decode or `ancestor` is not a canonical area word (a point claims no area
/// and contains nothing, not even itself).
pub fn contains(ancestor: &u64, descendant: &u64) -> (r: bool)
    ensures
        r == contains_word(*ancestor, *descendant),
{
    let da = depth(ancestor);
    if da > depth(descendant) || !is_canonical(ancestor) || is_point(ancestor) {
        return false;
    }
    match parent(descendant, &da) {
        None => false,
        Some(truncated) => {
            proof {
                lemma_decoded_is_valid(*descendant);
                lemma_decoded_is_valid(*ancestor);
                let s = word_order(*descendant) - da;
                let n = word_nested(*descendant);
                lemma_ancestor_is_cell(n, word_order(*descendant), da);
                lemma_area_word_decodes(nested_ancestor(n, s), da);
                lemma_area_word_decodes(word_nested(*ancestor), da);
            }
            if is_point(&truncated) {
                match (to_nested(&truncated), to_nested(ancestor)) {
                    (Some((n1, d1)), Some((n2, d2))) => n1 == n2 && d1 == d2,
                    _ => false,
                }
            } else {
                truncated == *ancestor
            }
        },
    }
}

/// The ancestor of a cell at any depth at or above its own is a cell of that
/// depth; at its own depth it is the cell itself.
pub proof fn lemma_ancestor_is_cell(nested: u64, depth: u8, k: u8)
    requires
        valid_cell(nested, depth),
        k <= depth,
    ensures
        valid_cell(nested_ancestor(nested, depth - k), k),
        nested_ancestor(nested, 0) == nested,
{
    let s: u64 = (2 * (depth - k)) as u64;
    assert(((nested >> s) >> ((2 * k) as u64)) <= 11 && nested >> 0u64 == nested) by (bit_vector)
        requires
            depth <= 29,
            k <= depth,
            s == (2 * (depth - k)) as u64,
            (nested >> ((2 * depth) as u64)) <= 11,
    ;
}

/// The ancestor of a cell's word at depth `k` is the word of the cell's
/// nested index truncated to `k`; at the cell's own depth and below it is the
/// word itself.
pub proof fn lemma_parent_is_nested_truncation(nested: u64, depth: u8, k: u8)
    requires
        valid_cell(nested, depth),
    ensures
        k <= depth ==> coarsened(area_word(nested, depth), k) == Some(
            area_word(nested_ancestor(nested, depth - k), k),
        ),
        k >= depth ==> coarsened(area_word(nested, depth), k) == Some(area_word(nested, depth)),
{
    lemma_area_word_decodes(nested, depth);
    if k < depth {
        lemma_coarsened_is_ancestor(area_word(nested, depth), k);
    } else if k == depth {
        lemma_ancestor_is_cell(nested, depth, k);
    }
}

/// A point word shares every ancestor above depth 29 with the depth-29 area
/// cell it falls in, and is its own ancestor at depth 29 and below.
pub proof fn lemma_point_shares_ancestors(nested: u64, k: u8)
    requires
        valid_cell(nested, 29),
    ensures
        k < 29 ==> coarsened(point_word(nested), k) == coarsened(area_word(nested, 29), k),
        k >= 29 ==> coarsened(point_word(nested), k) == Some(point_word(nested)),
{
    lemma_area_word_decodes(nested, 29);
    lemma_point_word_decodes(nested);
    if k < 29 {
        lemma_coarsened_is_ancestor(point_word(nested), k);
        lemma_coarsened_is_ancestor(area_word(nested, 29), k);
    }
}

/// A cell's ancestor at any depth at or above its own contains it, whether
/// the cell is given by its area word or, at depth 29, by its point word.
pub proof fn lemma_ancestors_contain(nested: u64, depth: u8, k: u8)
    requires
        valid_cell(nested, depth),
        k <= depth,
    ensures
        contains_word(area_word(nested_ancestor(nested, depth - k), k), area_word(nested, depth)),
        depth == 29 ==> contains_word(
            area_word(nested_ancestor(nested, depth - k), k),
            point_word(nested),
        ),
{
    lemma_ancestor_is_cell(nested, depth, k);
    lemma_area_word_decodes(nested_ancestor(nested, depth - k), k);
    lemma_area_word_decodes(nested, depth);
    if depth == 29 {
        lemma_point_word_decodes(nested);
    }
}

/// Every canonical area word contains itself.
pub proof fn lemma_contains_reflexive(w: u64)
    requires
        canonical_area(w),
    ensures
        contains_word(w, w),
{
    lemma_decoded_is_valid(w);
    lemma_ancestor_is_cell(word_nested(w), word_order(w), word_order(w));
}

/// A word that is not a canonical area word contains nothing, and nothing
/// contains a word that does not decode.
pub proof fn lemma_contains_needs_cells(ancestor: u64, descendant: u64)
    requires
        !canonical_area(ancestor) || !decodes(descendant),
    ensures
        !contains_word(ancestor, descendant),
{
}

/// Two words that contain each other are the same word.
pub proof fn lemma_contains_antisymmetric(a: u64, b: u64)
    requires
        contains_word(a, b),
        contains_word(b, a),
    ensures
        a == b,
{
    lemma_decoded_is_valid(b);
    lemma_ancestor_is_cell(word_nested(b), word_order(b), word_order(b));
}

/// Containment is transitive.
pub proof fn lemma_contains_transitive(a: u64, b: u64, c: u64)
    requires
        contains_word(a, b),
        contains_word(b, c),
    ensures
        contains_word(a, c),
{
    let (oa, ob, oc) = (word_order(a), word_order(b), word_order(c));
    let nc = word_nested(c);
    lemma_decoded_is_valid(c);
    lemma_ancestor_is_cell(nc, oc, ob);
    lemma_area_word_decodes(nested_ancestor(nc, oc - ob), ob);
    let s1: u64 = (2 * (oc - ob)) as u64;
    let s2: u64 = (2 * (ob - oa)) as u64;
    let s3: u64 = (2 * (oc - oa)) as u64;
    lemma_shr_shr(nc, s1, s2);
}

/// Shifting right twice shifts by the sum.
pub proof fn lemma_shr_shr(x: u64, s1: u64, s2: u64)
    requires
        s1 + s2 < 64,
    ensures
        (x >> s1) >> s2 == x >> ((s1 + s2) as u64),
{
    lemma_u64_shr_is_div(x, s1);
    lemma_u64_shr_is_div(x >> s1, s2);
    lemma_u64_shr_is_div(x, (s1 + s2) as u64);
    lemma_pow2_pos(s1 as nat);
    lemma_pow2_pos(s2 as nat);
    lemma_pow2_adds(s1 as nat, s2 as nat);
    lemma_div_denominator(x as int, pow2(s1 as nat) as int, pow2(s2 as nat) as int);
}

/// Among words of the same prefix and body, a point word sorts after every
/// area word: points are not part of any subtree run.
pub proof fn lemma_point_sorts_after_area(point: u64, area: u64)
    requires
        word_is_point(point),
        !word_is_point(area),
        point >> 6u64 == area >> 6u64,
    ensures
        area < point,
{
    assert(area < point) by (bit_vector)
        requires
            (point & 63u64) >= 48,
            (area & 63u64) < 48,
            point >> 6u64 == area >> 6u64,
    ;
}

/// A raw unsigned sort puts every ancestor before what it contains: the
/// sort of area words is a Z-order traversal, parents first.
pub proof fn lemma_ancestor_sorts_first(ancestor: u64, descendant: u64)
    requires
        contains_word(ancestor, descendant),
    ensures
        ancestor <= descendant,
        ancestor != descendant ==> ancestor < descendant,
{
    let k = word_order(ancestor);
    let o = word_order(descendant);
    lemma_decoded_is_valid(descendant);
    if k < o {
        lemma_coarsened_is_ancestor(descendant, k);
        lemma_truncation_not_larger(descendant, k);
    } else {
        lemma_ancestor_is_cell(word_nested(descendant), o, k);
        lemma_reencoding_not_larger(descendant);
    }
}

/// The largest canonical area word inside the cell of the canonical area
/// word `w`: at depth 27 or above, the word with every tuple below its own
/// set and the largest depth-29 tail; at depth 28, its last depth-29 child;
/// at depth 29, the word itself.
pub open spec fn last_descendant(w: u64) -> u64 {
    let k = word_order(w);
    if k <= 27 {
        ((w >> branch_shift(k)) << branch_shift(k)) | (((1u64 << branch_shift(k)) - 17) as u64)
    } else if k == 28 {
        (w + 4) as u64
    } else {
        w
    }
}

/// The canonical area words a cell contains are exactly those from its own
/// word up to its last descendant: a raw unsigned sort of area words is a
/// Z-order traversal in which every cell is followed immediately by the run
/// of its descendants.
pub proof fn lemma_descendants_are_a_run(a: u64, x: u64)
    requires
        canonical_area(a),
        canonical_area(x),
    ensures
        contains_word(a, x) <==> (a <= x && x <= last_descendant(a)),
{
    let k = word_order(a);
    let kx = word_order(x);
    let na = word_nested(a);
    let nx = word_nested(x);
    lemma_decoded_is_valid(a);
    lemma_decoded_is_valid(x);
    lemma_area_word_decodes(na, k);
    lemma_area_word_decodes(nx, kx);
    assert(a == area_word(na, k));
    assert(x == area_word(nx, kx));
    if k <= kx {
        lemma_parent_is_nested_truncation(nx, kx, k);
    }
    if k <= 27 {
        lemma_area_word_below_branch(na, k, k);
        lemma_branch_range(a, x, k);
        if kx >= k {
            lemma_below_branch_bounds(x, k);
            if kx > k {
                lemma_truncation_keeps_branch(x, k);
            } else {
                lemma_area_word_below_branch(nx, kx, k);
            }
        } else {
            lemma_area_word_below_branch(nx, kx, k);
        }
    } else if k == 28 {
        lemma_depth28_range(a, x);
    } else {
        if x == a {
            lemma_contains_reflexive(a);
        }
    }
}

/// A point word is contained by its depth-28 and depth-29 cells yet sorts
/// after the whole run of each: points are not part of any subtree run.
pub proof fn lemma_point_outside_runs(nested: u64)
    requires
        valid_cell(nested, 29),
    ensures
        contains_word(area_word(nested_ancestor(nested, 1), 28), point_word(nested)),
        last_descendant(area_word(nested_ancestor(nested, 1), 28)) < point_word(nested),
        contains_word(area_word(nested, 29), point_word(nested)),
        last_descendant(area_word(nested, 29)) < point_word(nested),
{
    lemma_ancestors_contain(nested, 29, 28);
    lemma_ancestors_contain(nested, 29, 29);
    lemma_ancestor_is_cell(nested, 29, 28);
    lemma_area_word_decodes(nested_ancestor(nested, 1), 28);
    lemma_area_word_decodes(nested, 29);
    let c = area_word(nested_ancestor(nested, 1), 28);
    let p = point_word(nested);
    assert(c + 4 < p && area_word(nested, 29) < p) by (bit_vector)
        requires
            (nested >> 58u64) <= 11,
            c == area_word(nested >> 2u64, 28),
            p == point_word(nested),
    ;
}

} // verus!
