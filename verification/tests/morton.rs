use healpix_geo::morton::{from_morton_checked, Morton};
use healpix_geo::scalar::morton::conversion::{from_nested, from_nested_point};

/// A point word and the level-29 area cell of the same body.
fn point_and_area() -> (u64, u64) {
    let nested = 164u64 << (2 * 26);

    (from_nested_point(&nested), from_nested(&nested, &29))
}

#[test]
fn test_level() {
    assert_eq!(Morton::level_impl(from_nested(&164, &3)).unwrap(), 3);
    assert_eq!(Morton::level_impl(from_nested(&2, &0)).unwrap(), 0);
    assert!(Morton::level_impl(0).is_err());
    assert!(Morton::level_impl(u64::MAX).is_err());
}

#[test]
fn test_ancestor() {
    let cell = from_nested(&164, &3);

    assert_eq!(Morton::ancestor_impl(cell, 2).unwrap(), from_nested(&41, &2));
    assert_eq!(Morton::ancestor_impl(cell, 3).unwrap(), cell);
    assert_eq!(Morton::ancestor_impl(cell, 29).unwrap(), cell);
    assert!(Morton::ancestor_impl(0, 2).is_err());
    assert!(Morton::ancestor_impl(cell, 30).is_err());
}

#[test]
fn morton_test_contains() {
    let child = from_nested(&164, &3);
    let parent = from_nested(&41, &2);

    assert!(Morton::contains_impl(parent, child).unwrap());
    assert!(!Morton::contains_impl(child, parent).unwrap());
    assert!(Morton::contains_impl(child, child).unwrap());
    assert!(Morton::contains_impl(0, child).is_err());
    assert!(Morton::contains_impl(child, u64::MAX).is_err());
}

#[test]
fn test_level_reads_point_words() {
    let (point, area) = point_and_area();

    assert_eq!(Morton::level_impl(point).unwrap(), 29);
    assert_eq!(Morton::level_impl(area).unwrap(), 29);
}

#[test]
fn test_ancestor_coarsens_a_point_to_its_cell() {
    let (point, area) = point_and_area();

    // below level 29 a point and the cell it falls in share every ancestor
    for level in [0u64, 3, 24, 28] {
        assert_eq!(
            Morton::ancestor_impl(point, level).unwrap(),
            Morton::ancestor_impl(area, level).unwrap()
        );
    }
    // at its own level (and above) the point is returned unchanged
    assert_eq!(Morton::ancestor_impl(point, 29).unwrap(), point);
}

#[test]
fn test_contains_covers_point_words() {
    let (point, area) = point_and_area();

    assert!(Morton::contains_impl(area, point).unwrap());
    for level in [0u64, 3, 24, 28] {
        let covering = Morton::ancestor_impl(area, level).unwrap();
        assert!(Morton::contains_impl(covering, point).unwrap());
    }
    assert!(!Morton::contains_impl(from_nested(&165, &3), point).unwrap());

    // a point claims no area: `false`, not an error
    assert!(!Morton::contains_impl(point, point).unwrap());
    assert!(!Morton::contains_impl(point, area).unwrap());
}

#[test]
fn morton_test_is_point_separates_the_kinds() {
    let (point, area) = point_and_area();

    assert!(Morton::is_point_impl(point).unwrap());
    assert!(!Morton::is_point_impl(area).unwrap());
    assert!(!Morton::is_point_impl(from_nested(&164, &3)).unwrap());
    assert!(Morton::is_point_impl(0).is_err());
    assert!(Morton::is_point_impl(u64::MAX).is_err());
}

#[test]
fn test_grid_still_rejects_point_words() {
    let (point, area) = point_and_area();

    assert!(from_morton_checked(point).is_err());
    assert_eq!(from_morton_checked(area).unwrap().0, 29);
}
