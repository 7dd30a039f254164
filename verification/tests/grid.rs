use healpix_geo::grid::{Grid, GridOptions, Scheme};

fn options(scheme: Scheme, depth: Option<u8>, nside: Option<u64>) -> GridOptions {
    GridOptions {
        scheme,
        depth,
        nside,
    }
}

#[test]
fn test_depth_nside_validation() {
    assert!(Grid::from_options(options(Scheme::Nested, Some(2), Some(4))).is_err());
    assert!(Grid::from_options(options(Scheme::Nested, None, None)).is_err());
    assert!(Grid::from_options(options(Scheme::Nested, Some(30), None)).is_err());
    assert!(Grid::from_options(options(Scheme::Nested, None, Some(3))).is_err());

    let from_nside = Grid::from_options(options(Scheme::Nested, None, Some(8))).unwrap();
    assert_eq!(from_nside.depth(), 3);
    assert_eq!(from_nside.nside(), 8);
}

#[test]
fn test_bit_combine_table_matches_scalar() {
    let grid = Grid::from_options(options(Scheme::Nested, Some(3), None)).unwrap();
    let size = 8u32;

    let table = grid.bit_combine_table(size);
    for row in 0..size {
        for col in 0..size {
            assert_eq!(
                table[(row * size + col) as usize],
                grid.bit_combine(col, row)
            );
        }
    }
}

#[test]
fn test_bit_combine_matches_statics() {
    let grid = Grid::from_options(options(Scheme::Zuniq, Some(1), None)).unwrap();
    assert_eq!(grid.bit_combine(0, 1), 360287970189639680);

    let grid = Grid::from_options(options(Scheme::Ring, Some(1), None)).unwrap();
    assert_eq!(grid.bit_combine(0, 1), 4);

    let grid = Grid::from_options(options(Scheme::Nested, Some(1), None)).unwrap();
    assert_eq!(grid.bit_combine(0, 1), 2);
}
