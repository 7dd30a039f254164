use cdshealpix as healpix;
use healpix_geo::scalar::morton::conversion::{
    from_nested, from_nested_point, from_ring, from_zuniq, is_canonical, is_point, to_nested,
    to_ring, to_zuniq,
};

#[test]
fn test_from_nested_golden() {
    // words generated with the published mortie-core 0.1.0
    assert_eq!(from_nested(&0, &0), 1152921504606846976);
    assert_eq!(from_nested(&0, &2), 1152921504606846978);
    assert_eq!(from_nested(&164, &3), 4107282860161892355);
    assert_eq!(from_nested(&3071, &4), 14983475960261640196);
    assert_eq!(from_nested(&11, &0), 13835058055282163712);
}

/// The low `2 * depth` bits of an arbitrary nonzero tuple pattern.
///
/// The suffix packs the two deepest tuples into a single number, so a hash
/// whose tuples are all zero exercises none of that arithmetic.
fn tail(depth: u8) -> u64 {
    0xC9B7 & ((1u64 << (2 * u32::from(depth))) - 1)
}

#[test]
fn test_nested_round_trip() {
    for depth in [0u8, 1, 3, 13, 27, 28, 29] {
        for base in 0u64..12 {
            let first = base << (2 * depth as u32); // first cell of the base
            for hash in [first, first | tail(depth)] {
                let word = from_nested(&hash, &depth);

                assert_eq!(to_nested(&word), Some((hash, depth)));
                assert!(is_canonical(&word));
            }
        }
    }
}

#[test]
fn test_the_deepest_two_tuples_are_not_interchangeable() {
    // swapping t28 and t29 has to change the word
    let base = 2u64 << (2 * 29);
    let (a, b) = (base | 0b01_10, base | 0b10_01);

    assert_ne!(from_nested(&a, &29), from_nested(&b, &29));
    assert_eq!(to_nested(&from_nested(&a, &29)), Some((a, 29)));
    assert_eq!(to_nested(&from_nested(&b, &29)), Some((b, 29)));
}

/// A coarse cell plus two deep ones carrying a nonzero suffix tail.
fn crossing_cases() -> [(u64, u8); 3] {
    [
        (164, 3),
        ((2u64 << (2 * 28)) | tail(28), 28),
        ((2u64 << (2 * 29)) | tail(29), 29),
    ]
}

#[test]
fn test_ring_round_trip() {
    for (hash, depth) in crossing_cases() {
        let ring = healpix::nested::get(depth).to_ring(hash);

        let word = from_ring(&ring, &depth);
        assert_eq!(word, from_nested(&hash, &depth));
        assert_eq!(to_ring(&word), Some((ring, depth)));
    }
}

#[test]
fn test_zuniq_round_trip() {
    for (hash, depth) in crossing_cases() {
        let zuniq = healpix::nested::to_zuniq(depth, hash);

        let word = from_zuniq(&zuniq);
        assert_eq!(word, from_nested(&hash, &depth));
        assert_eq!(to_zuniq(&word), Some(zuniq));
    }
}

#[test]
fn test_invalid_words_do_not_decode() {
    // the empty sentinel and an invalid base-cell prefix (15)
    assert_eq!(to_nested(&0), None);
    assert_eq!(to_nested(&u64::MAX), None);
    assert!(!is_canonical(&0));
    assert!(!is_canonical(&u64::MAX));
}

#[test]
fn test_non_canonical_words_are_rejected() {
    // a depth-3 word with junk below its depth decodes to the same cell but
    // is not the canonical bit pattern
    let word = from_nested(&164, &3);
    let junk = word | (1 << 30);

    assert_eq!(to_nested(&junk), to_nested(&word));
    assert!(is_canonical(&word));
    assert!(!is_canonical(&junk));
}

#[test]
fn test_point_words_are_canonical() {
    let point = from_nested_point(&(164u64 << (2 * 26)));
    assert_eq!(point, 4107282860161892400);
    assert!(is_canonical(&point));
    assert_eq!(to_nested(&point), Some((164u64 << (2 * 26), 29)));
}

#[test]
fn conversion_test_is_point_separates_the_kinds() {
    let nested = 164u64 << (2 * 26);
    assert!(is_point(&from_nested_point(&nested)));
    assert!(!is_point(&from_nested(&nested, &29)));
    assert!(!is_point(&from_nested(&164, &3)));
}
