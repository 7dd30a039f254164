use healpix_geo::grid::{Grid, GridError, GridOptions, Scheme};
use healpix_geo::morton::{from_morton_checked, morton_word_checked, Morton, MortonIdError};
use healpix_geo::scalar::morton::conversion::{
    checked_from_ring, from_nested, from_nested_point, from_ring, from_zuniq, is_canonical,
    to_nested, to_ring, to_zuniq,
};
use healpix_geo::schemes::ring_is_exactly_located;
use healpix_geo::scalar::morton::hierarchy::{contains, depth, parent};
use healpix_geo::vectorized::depth::Depth;
use healpix_geo::vectorized::morton::conversion as vectorized;

#[test]
fn test_containment_is_transitive_and_antisymmetric() {
    let base = from_nested(&2, &0);
    let mid = from_nested(&(2 << 4 | 0b1101), &2);
    let leaf = from_nested(&((2 << 4 | 0b1101) << 6 | 0b10_01_11), &5);

    assert!(contains(&base, &mid));
    assert!(contains(&mid, &leaf));
    assert!(contains(&base, &leaf));
    assert!(!contains(&mid, &base));
    assert!(!contains(&leaf, &mid));
}

#[test]
fn test_ancestors_sort_first_and_runs_are_contiguous() {
    let cell = from_nested(&41, &2);
    let first = from_nested(&(41 << 54), &29);
    let last = from_nested(&((41 << 54) | ((1 << 54) - 1)), &29);
    let next = from_nested(&42, &2);

    assert!(cell < first);
    assert!(first < last);
    assert!(last < next);
    assert!(contains(&cell, &first));
    assert!(contains(&cell, &last));
    assert!(!contains(&cell, &next));

    // every depth-3 child lies inside the run of its parent
    for child in 164u64..168 {
        let word = from_nested(&child, &3);
        assert!(cell < word && word <= last);
        assert!(contains(&cell, &word));
    }
}

#[test]
fn test_point_sorts_after_every_area_cell_of_its_body() {
    let nested = (164u64 << (2 * 26)) | 0b11_11;
    let point = from_nested_point(&nested);
    let area29 = from_nested(&nested, &29);
    let area28 = from_nested(&(nested >> 2), &28);

    assert!(area28 < area29);
    assert!(area29 < point);
    assert!(contains(&area28, &point));
    assert!(contains(&area29, &point));
    assert!(!contains(&point, &point));
}

#[test]
fn test_distinct_cells_get_distinct_words() {
    let mut words = Vec::new();
    for depth_ in 0u8..3 {
        for nested in 0u64..(12 << (2 * depth_)) {
            words.push(from_nested(&nested, &depth_));
        }
    }
    let count = words.len();
    words.sort_unstable();
    words.dedup();
    assert_eq!(words.len(), count);
}

#[test]
fn test_parent_of_a_point_word() {
    let nested = (7u64 << 58) | 0b10_01;
    let point = from_nested_point(&nested);
    let area = from_nested(&nested, &29);

    assert_eq!(parent(&point, &28), parent(&area, &28));
    assert_eq!(parent(&point, &28), Some(from_nested(&(nested >> 2), &28)));
    assert_eq!(parent(&point, &29), Some(point));
    assert_eq!(depth(&point), 29);
}

#[test]
fn test_zuniq_and_ring_of_a_decoded_word() {
    let word = from_nested(&164, &3);
    let zuniq = to_zuniq(&word).unwrap();
    assert_eq!(zuniq, ((164u64 << 1) | 1) << (2 * 26));
    assert_eq!(from_zuniq(&zuniq), word);

    let (ring, level) = to_ring(&word).unwrap();
    assert_eq!(level, 3);
    assert_ne!(ring, 164);
    assert_eq!(from_ring(&ring, &3), word);

    assert_eq!(to_zuniq(&0), None);
    assert_eq!(to_ring(&0), None);
}

#[test]
fn test_junk_below_the_depth_is_still_contained() {
    let parent_ = from_nested(&41, &2);
    let child = from_nested(&164, &3);
    let junk = child | (1 << 30);

    assert!(!is_canonical(&junk));
    assert_eq!(to_nested(&junk), Some((164, 3)));
    assert!(contains(&parent_, &junk));
    assert!(!contains(&junk, &child));
}

#[test]
fn test_array_depth_pairs_the_shorter_slice() {
    let nested: Vec<u64> = vec![0, 164, 3071];
    let depths: Vec<u8> = vec![0, 3];
    let words = vectorized::from_nested(&nested, Depth::Array(&depths), 4);
    assert_eq!(words, vec![from_nested(&0, &0), from_nested(&164, &3)]);
}

#[test]
fn test_morton_errors() {
    let cell = from_nested(&164, &3);
    let point = from_nested_point(&(164u64 << (2 * 26)));

    assert_eq!(morton_word_checked(cell), Ok((3, 164)));
    assert_eq!(morton_word_checked(0), Err(MortonIdError::InvalidCell(0)));
    assert_eq!(
        morton_word_checked(cell | 1 << 30),
        Err(MortonIdError::InvalidCell(cell | 1 << 30))
    );
    assert_eq!(from_morton_checked(point), Err(MortonIdError::PointWord(point)));
    assert_eq!(
        Morton::ancestor_impl(cell, 30),
        Err(MortonIdError::InvalidLevel(30))
    );
    assert_eq!(
        Morton::ancestor_impl(0, 30),
        Err(MortonIdError::InvalidCell(0))
    );
    assert_eq!(
        Morton::contains_impl(cell, 5),
        Err(MortonIdError::InvalidCell(5))
    );
}

fn options(scheme: Scheme, depth: Option<u8>, nside: Option<u64>) -> GridOptions {
    GridOptions {
        scheme,
        depth,
        nside,
    }
}

#[test]
fn test_grid_errors() {
    assert_eq!(
        Grid::from_options(options(Scheme::Ring, Some(2), Some(4))).err(),
        Some(GridError::DepthAndNside)
    );
    assert_eq!(
        Grid::from_options(options(Scheme::Ring, None, None)).err(),
        Some(GridError::MissingDepth)
    );
    assert_eq!(
        Grid::from_options(options(Scheme::Ring, None, Some(0))).err(),
        Some(GridError::NsideNotPowerOfTwo(0))
    );
    assert_eq!(
        Grid::from_options(options(Scheme::Ring, None, Some(6))).err(),
        Some(GridError::NsideNotPowerOfTwo(6))
    );
    assert_eq!(
        Grid::from_options(options(Scheme::Ring, Some(30), None)).err(),
        Some(GridError::DepthTooLarge(30))
    );
    assert_eq!(
        Grid::from_options(options(Scheme::Ring, None, Some(1 << 30))).err(),
        Some(GridError::DepthTooLarge(30))
    );
    let grid = Grid::from_options(options(Scheme::Ring, None, Some(1 << 29))).unwrap();
    assert_eq!(grid.depth(), 29);
    assert_eq!(grid.nside(), 1 << 29);
}

#[test]
fn test_grid_scheme_round_trips() {
    for scheme in [Scheme::Nested, Scheme::Ring, Scheme::Zuniq] {
        let grid = Grid::from_options(options(scheme, Some(4), None)).unwrap();
        for hash in [0u64, 164, 700, 3071] {
            let cell = grid.from_nested(hash);
            assert_eq!(grid.to_nested(cell), (4, hash));
        }
    }
    let grid = Grid::from_options(options(Scheme::Zuniq, Some(4), None)).unwrap();
    assert_eq!(grid.scheme(), "zuniq");
    assert_eq!(grid.from_nested(164), ((164u64 << 1) | 1) << (2 * 25));
}

#[test]
fn test_bit_combine_interleaves() {
    let grid = Grid::from_options(options(Scheme::Nested, Some(3), None)).unwrap();
    // i = 0b101 on the even bits, j = 0b011 on the odd bits
    assert_eq!(grid.bit_combine(0b101, 0b011), 0b01_10_11);
    assert_eq!(grid.bit_combine(7, 7), 63);
    let table = grid.bit_combine_table(2);
    assert_eq!(table, vec![0, 1, 2, 3]);
}

#[test]
fn test_same_depth_junk_is_not_contained() {
    let word = from_nested(&164, &3);
    let junk = word | (1 << 30);

    assert!(!contains(&word, &junk));
    assert!(contains(&word, &word));
    // a shallower ancestor still contains the junk word
    assert!(contains(&from_nested(&41, &2), &junk));
}

#[test]
fn test_checked_from_ring() {
    let ring = cdshealpix::nested::get(3).to_ring(164);
    assert_eq!(checked_from_ring(&ring, &3), Some(from_nested(&164, &3)));
    assert_eq!(checked_from_ring(&(12 << 6), &3), None);
    assert_eq!(checked_from_ring(&0, &30), None);
    // the last index of a polar-cap ring whose square root an f64 rounds up
    assert_eq!(checked_from_ring(&144115188612726783, &29), None);
    assert!(ring_is_exactly_located(29, 0));
    assert!(!ring_is_exactly_located(29, 144115188612726783));
    // at depth 25 and above the cut is 2^51 into each polar cap
    assert!(ring_is_exactly_located(26, (1 << 51) - 1));
    assert!(!ring_is_exactly_located(26, 1 << 51));
}

#[test]
fn test_vectorized_checked_from_ring() {
    let rings: Vec<u64> = vec![0, 5, 47];
    let words = vectorized::checked_from_ring(&rings, Depth::Scalar(&1), 1).unwrap();
    assert_eq!(words, vectorized::from_ring(&rings, Depth::Scalar(&1), 1));
    assert_eq!(words[0], from_nested(&cdshealpix::nested::get(1).from_ring(0), &1));
    assert_eq!(
        vectorized::checked_from_ring(&[0, 48], Depth::Scalar(&1), 1),
        None
    );
}

#[test]
fn test_bit_combine_outside_a_base_cell() {
    let grid = Grid::from_options(options(Scheme::Nested, Some(1), None)).unwrap();
    // the depth-1 curve reads eight bits of each coordinate
    assert_eq!(grid.bit_combine(2, 0), 4);
    assert_eq!(grid.bit_combine(0, 3), 10);
    let table = grid.bit_combine_table(3);
    assert_eq!(table.len(), 9);
    assert_eq!(table[3 * 2 + 1], grid.bit_combine(1, 2));
    let zuniq = Grid::from_options(options(Scheme::Zuniq, Some(1), None)).unwrap();
    assert_eq!(zuniq.bit_combine(2, 0), ((4u64 << 1) | 1) << 56);
}
