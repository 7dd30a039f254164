//! Codec-only operations on `morton` cell ids, checked for canonical input.
//!
//! These take any canonical word, area or max-encoded point. A point has a
//! level (29), coarsens to the area cell containing it and is contained by
//! that cell and its ancestors; it contains nothing itself. A grid takes area
//! words only, since a point has no area to convert.
use vstd::prelude::*;

use crate::codec::{coarsened, decoded, word_is_point, word_order};
use crate::scalar::morton::conversion::{canonical, is_canonical, is_point, to_nested};
use crate::scalar::morton::hierarchy::{contains, contains_word, parent};

verus! {

/// Why a `morton` id or a level was refused.
#[derive(Debug, Clone, Copy, PartialEq, Eq)]
pub enum MortonIdError {
    /// The word is not a canonical Morton word.
    InvalidCell(u64),
    /// The word is a max-encoded point word, not a cell id.
    PointWord(u64),
    /// The level is above the deepest level, 29.
    InvalidLevel(u64),
}

/// Decode any canonical `morton` word, area or max-encoded point, into its
/// level and nested index.
///
/// A word carrying other bits below its level would alias another id of the
/// same cell and is refused.
pub fn morton_word_checked(cell: u64) -> (r: Result<(u8, u64), MortonIdError>)
    ensures
        canonical(cell) ==> r == Ok::<(u8, u64), MortonIdError>(decoded(cell)->0),
        !canonical(cell) ==> r == Err::<(u8, u64), MortonIdError>(MortonIdError::InvalidCell(cell)),
{
    if !is_canonical(&cell) {
        return Err(MortonIdError::InvalidCell(cell));
    }
    let (hash, level) = to_nested(&cell).unwrap();
    Ok((level, hash))
}

/// Decode a `morton` *cell* id: a canonical area word.
///
/// A point word and the level-29 area cell covering it decode to the same
/// level and index, so nothing downstream could tell them apart; points are
/// refused here.
pub fn from_morton_checked(cell: u64) -> (r: Result<(u8, u64), MortonIdError>)
    ensures
        !canonical(cell) ==> r == Err::<(u8, u64), MortonIdError>(MortonIdError::InvalidCell(cell)),
        canonical(cell) && word_is_point(cell) ==> r == Err::<(u8, u64), MortonIdError>(
            MortonIdError::PointWord(cell),
        ),
        canonical(cell) && !word_is_point(cell) ==> r == Ok::<(u8, u64), MortonIdError>(
            decoded(cell)->0,
        ),
{
    let (level, hash) = morton_word_checked(cell)?;
    if is_point(&cell) {
        return Err(MortonIdError::PointWord(cell));
    }
    Ok((level, hash))
}

/// The `morton` statics: level, ancestor, containment and kind of a word.
pub struct Morton;

impl Morton {
    /// The refinement level encoded in the given cell id; a point word
    /// reports 29.
    pub fn level_impl(cell: u64) -> (r: Result<u8, MortonIdError>)
        ensures
            canonical(cell) ==> r == Ok::<u8, MortonIdError>(word_order(cell)),
            !canonical(cell) ==> r == Err::<u8, MortonIdError>(MortonIdError::InvalidCell(cell)),
    {
        let (level, _) = morton_word_checked(cell)?;
        Ok(level)
    }

    /// The ancestor of the given cell id at `level`.
    ///
    /// `level` is the level to land at; at or above the id's own level the id
    /// comes back unchanged. A point word coarsens to the area cell
    /// containing it.
    pub fn ancestor_impl(cell: u64, level: u64) -> (r: Result<u64, MortonIdError>)
        ensures
            !canonical(cell) ==> r == Err::<u64, MortonIdError>(MortonIdError::InvalidCell(cell)),
            canonical(cell) && level > 29 ==> r == Err::<u64, MortonIdError>(
                MortonIdError::InvalidLevel(level),
            ),
            canonical(cell) && level <= 29 ==> r == Ok::<u64, MortonIdError>(
                coarsened(cell, level as u8)->0,
            ),
    {
        morton_word_checked(cell)?;
        if level > 29 {
            return Err(MortonIdError::InvalidLevel(level));
        }
        let level: u8 = level as u8;
        Ok(parent(&cell, &level).unwrap())
    }

    /// Whether `ancestor` contains `descendant` (containment-is-truncation).
    ///
    /// Both ids are validated first; a point `ancestor` contains nothing.
    pub fn contains_impl(ancestor: u64, descendant: u64) -> (r: Result<bool, MortonIdError>)
        ensures
            !canonical(ancestor) ==> r == Err::<bool, MortonIdError>(
                MortonIdError::InvalidCell(ancestor),
            ),
            canonical(ancestor) && !canonical(descendant) ==> r == Err::<bool, MortonIdError>(
                MortonIdError::InvalidCell(descendant),
            ),
            canonical(ancestor) && canonical(descendant) ==> r == Ok::<bool, MortonIdError>(
                contains_word(ancestor, descendant),
            ),
    {
        morton_word_checked(ancestor)?;
        morton_word_checked(descendant)?;
        Ok(contains(&ancestor, &descendant))
    }

    /// Whether the given id is a max-encoded point word rather than an area
    /// cell; refuses a non-canonical word like the other statics.
    pub fn is_point_impl(cell: u64) -> (r: Result<bool, MortonIdError>)
        ensures
            canonical(cell) ==> r == Ok::<bool, MortonIdError>(word_is_point(cell)),
            !canonical(cell) ==> r == Err::<bool, MortonIdError>(MortonIdError::InvalidCell(cell)),
    {
        morton_word_checked(cell)?;
        Ok(is_point(&cell))
    }
}

} // verus!
