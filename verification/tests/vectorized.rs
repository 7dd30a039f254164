use healpix_geo::scalar::morton::conversion::from_nested as scalar_from_nested;
use healpix_geo::vectorized::depth::Depth;
use healpix_geo::vectorized::morton::conversion::{
    from_nested, from_ring, from_zuniq, to_nested, to_ring, to_zuniq,
};
use healpix_geo::vectorized::morton::hierarchy::{ancestor, contains, depth};

#[test]
fn test_round_trip_matches_scalar() {
    let nested: Vec<u64> = vec![0, 164, 3071];
    let depths: Vec<u8> = vec![0, 3, 4];

    let words = from_nested(&nested, Depth::Array(&depths), 1);
    assert_eq!(
        words,
        vec![
            1152921504606846976,
            4107282860161892355,
            14983475960261640196
        ]
    );

    let (back, back_depths) = to_nested(&words, 1);
    assert_eq!(back, nested);
    assert_eq!(back_depths, depths);

    let zuniq = to_zuniq(&words, 1);
    assert_eq!(from_zuniq(&zuniq, 1), words);
}

#[test]
fn test_scalar_depth() {
    let nested: Vec<u64> = vec![0, 164];
    let words = from_nested(&nested, Depth::Scalar(&3), 1);
    let (ring, depths) = to_ring(&words, 1);

    assert_eq!(from_ring(&ring, Depth::Array(&depths), 1), words);
}

#[test]
fn test_ancestor_and_contains() {
    let words: Vec<u64> = vec![scalar_from_nested(&164, &3), scalar_from_nested(&165, &3)];

    assert_eq!(depth(&words, 1), vec![3, 3]);

    let ancestors = ancestor(&words, &2, 1);
    assert_eq!(
        ancestors,
        vec![scalar_from_nested(&41, &2), scalar_from_nested(&41, &2)]
    );

    let covering = scalar_from_nested(&41, &2);
    assert_eq!(contains(&covering, &words, 1), vec![true, true]);

    let elsewhere = scalar_from_nested(&40, &2);
    assert_eq!(contains(&elsewhere, &words, 1), vec![false, false]);

    // an ancestor that is not a canonical area word contains nothing
    let junk = covering | (1 << 30);
    assert_eq!(contains(&junk, &words, 1), vec![false, false]);
}
