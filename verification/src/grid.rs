//! A HEALPix grid at a fixed depth, in one of the nested, ring or `zuniq`
//! schemes: the validation of its options and the scheme dispatch.
use vstd::arithmetic::power2::pow2;
use vstd::bits::{lemma_u32_pow2_no_overflow, lemma_u32_shl_is_mul};
use vstd::prelude::*;
use vstd::std_specs::bits::{axiom_u64_trailing_zeros, u64_trailing_zeros};

use crate::codec::{valid_cell, MAX_DEPTH};
use crate::schemes::{
    healpix_from_ring, healpix_from_zuniq, healpix_ij2h, healpix_to_ring, healpix_to_zuniq,
    interleave, lemma_zoc_hash_inside, lemma_zuniq_round_trip, nested_to_ring,
    ring_exactly_located, ring_to_nested, zoc_hash, zuniq_depth, zuniq_nested, zuniq_of,
    zuniq_readable,
};

verus! {

/// The numbering scheme of a grid's cell ids.
#[derive(Debug, Clone, Copy, PartialEq, Eq)]
pub enum Scheme {
    Nested,
    Ring,
    Zuniq,
}

/// The name of a scheme.
pub open spec fn scheme_name(scheme: Scheme) -> Seq<char> {
    match scheme {
        Scheme::Nested => "nested"@,
        Scheme::Ring => "ring"@,
        Scheme::Zuniq => "zuniq"@,
    }
}

impl Scheme {
    /// The lowercase name of the scheme.
    pub fn name(&self) -> (r: &'static str)
        ensures
            r@ == scheme_name(*self),
    {
        match self {
            Scheme::Nested => "nested",
            Scheme::Ring => "ring",
            Scheme::Zuniq => "zuniq",
        }
    }
}

/// The options a grid is made from: its scheme, and its depth given either
/// as a depth or as an nside.
#[derive(Debug, Clone, Copy)]
pub struct GridOptions {
    pub scheme: Scheme,
    pub depth: Option<u8>,
    pub nside: Option<u64>,
}

/// Why grid options were refused.
#[derive(Debug, Clone, Copy, PartialEq, Eq)]
pub enum GridError {
    /// Both a depth and an nside were given.
    DepthAndNside,
    /// Neither a depth nor an nside was given.
    MissingDepth,
    /// The nside is not a power of two.
    NsideNotPowerOfTwo(u64),
    /// The depth is above 29.
    DepthTooLarge(u8),
}

/// `n` is a power of two.
pub open spec fn power_of_two(n: u64) -> bool {
    exists|k: u64| k < 64 && n == #[trigger] (1u64 << k)
}

/// The depth the options ask for, before the check against 29.
pub open spec fn requested_depth(options: GridOptions) -> Result<u8, GridError> {
    match (options.depth, options.nside) {
        (Some(_), Some(_)) => Err(GridError::DepthAndNside),
        (Some(depth), None) => Ok(depth),
        (None, Some(nside)) => if power_of_two(nside) {
            Ok(u64_trailing_zeros(nside) as u8)
        } else {
            Err(GridError::NsideNotPowerOfTwo(nside))
        },
        (None, None) => Err(GridError::MissingDepth),
    }
}

/// The cell id in the grid's scheme is one the scheme can read.
pub open spec fn readable_in(scheme: Scheme, depth: u8, cell: u64) -> bool {
    match scheme {
        Scheme::Nested => true,
        Scheme::Ring => valid_cell(cell, depth) && ring_exactly_located(depth, cell),
        Scheme::Zuniq => zuniq_readable(cell),
    }
}

/// The depth and nested index of a cell id in the grid's scheme.
pub open spec fn nested_in(scheme: Scheme, depth: u8, cell: u64) -> (u8, u64) {
    match scheme {
        Scheme::Nested => (depth, cell),
        Scheme::Ring => (depth, ring_to_nested(depth, cell)),
        Scheme::Zuniq => (zuniq_depth(cell), zuniq_nested(cell)),
    }
}

/// The cell id in the grid's scheme of a nested cell at the grid's depth.
pub open spec fn id_in(scheme: Scheme, depth: u8, nested: u64) -> u64 {
    match scheme {
        Scheme::Nested => nested,
        Scheme::Ring => nested_to_ring(depth, nested),
        Scheme::Zuniq => zuniq_of(depth, nested),
    }
}

/// A HEALPix grid at a fixed depth, in a fixed scheme.
pub struct Grid {
    scheme: Scheme,
    depth: u8,
}

impl Grid {
    /// The depth is one HEALPix has.
    #[verifier::type_invariant]
    spec fn depth_in_range(self) -> bool {
        self.depth <= MAX_DEPTH
    }

    /// The scheme of the grid.
    pub closed spec fn scheme_of(self) -> Scheme {
        self.scheme
    }

    /// The depth of the grid.
    pub closed spec fn depth_of(self) -> u8 {
        self.depth
    }

    /// Make a grid from its options: exactly one of `depth` and `nside`
    /// (a power of two), at a depth of at most 29.
    pub fn from_options(options: GridOptions) -> (r: Result<Grid, GridError>)
        ensures
            requested_depth(options) matches Err(e) ==> r == Err::<Grid, GridError>(e),
            requested_depth(options) matches Ok(d) ==> (if d > 29 {
                r == Err::<Grid, GridError>(GridError::DepthTooLarge(d))
            } else {
                r matches Ok(grid) && grid.scheme_of() == options.scheme && grid.depth_of() == d
            }),
            options.depth is Some && options.nside is None && options.depth->0 <= 29 ==> (r matches Ok(
                grid,
            ) && grid.scheme_of() == options.scheme && grid.depth_of() == options.depth->0),
    {
        let depth = match (options.depth, options.nside) {
            (Some(_), Some(_)) => {
                return Err(GridError::DepthAndNside);
            },
            (Some(depth), None) => depth,
            (None, Some(nside)) => {
                let zeros = nside.trailing_zeros();
                proof {
                    lemma_power_of_two(nside);
                }
                if zeros >= 64 || nside != 1u64 << zeros {
                    return Err(GridError::NsideNotPowerOfTwo(nside));
                }
                zeros as u8
            },
            (None, None) => {
                return Err(GridError::MissingDepth);
            },
        };
        if depth > MAX_DEPTH {
            return Err(GridError::DepthTooLarge(depth));
        }
        Ok(Grid { scheme: options.scheme, depth })
    }

    /// The cell in the nested scheme plus the depth it lives at; for the
    /// `zuniq` scheme the depth encoded in the id.
    pub fn to_nested(&self, cell: u64) -> (r: (u8, u64))
        requires
            readable_in(self.scheme_of(), self.depth_of(), cell),
        ensures
            r == nested_in(self.scheme_of(), self.depth_of(), cell),
            self.scheme_of() == Scheme::Zuniq ==> r == (zuniq_depth(cell), zuniq_nested(cell)),
            self.scheme_of() != Scheme::Zuniq ==> r.0 == self.depth_of(),
    {
        proof {
            use_type_invariant(self);
        }
        match self.scheme {
            Scheme::Nested => (self.depth, cell),
            Scheme::Ring => (self.depth, healpix_from_ring(self.depth, cell)),
            Scheme::Zuniq => healpix_from_zuniq(cell),
        }
    }

    /// The id in the grid's scheme of a nested cell at the grid's depth.
    pub fn from_nested(&self, hash: u64) -> (r: u64)
        requires
            self.scheme_of() == Scheme::Ring ==> valid_cell(hash, self.depth_of()),
        ensures
            r == id_in(self.scheme_of(), self.depth_of(), hash),
            valid_cell(hash, self.depth_of()) && self.scheme_of() != Scheme::Ring ==> readable_in(
                self.scheme_of(),
                self.depth_of(),
                r,
            ) && nested_in(self.scheme_of(), self.depth_of(), r) == (self.depth_of(), hash),
    {
        proof {
            use_type_invariant(self);
            if valid_cell(hash, self.depth) {
                lemma_zuniq_round_trip(self.depth, hash);
            }
        }
        match self.scheme {
            Scheme::Nested => hash,
            Scheme::Ring => healpix_to_ring(self.depth, hash),
            Scheme::Zuniq => healpix_to_zuniq(self.depth, hash),
        }
    }

    /// The indexing scheme: "nested", "ring" or "zuniq".
    pub fn scheme(&self) -> (r: String)
        ensures
            r@ == scheme_name(self.scheme_of()),
    {
        self.scheme.name().to_owned()
    }

    /// The depth (refinement level) of the grid.
    pub fn depth(&self) -> (r: u8)
        ensures
            r == self.depth_of(),
            r <= 29,
    {
        proof {
            use_type_invariant(self);
        }
        self.depth
    }

    /// The nside (2^depth) of the grid.
    pub fn nside(&self) -> (r: u32)
        ensures
            r == pow2(self.depth_of() as nat),
    {
        proof {
            use_type_invariant(self);
            lemma_u32_pow2_no_overflow(self.depth as nat);
            lemma_u32_shl_is_mul(1, self.depth as u32);
        }
        1u32 << self.depth
    }

    /// Cell index at the given z-order coordinates.
    ///
    /// Interleaves the bits of `i` and `j` (the two axes of the nested
    /// z-order numbering within a base-resolution pixel) into the cell index
    /// at the grid's depth, expressed in the grid's scheme. The ring scheme
    /// takes coordinates inside a base cell only.
    pub fn bit_combine(&self, i: u32, j: u32) -> (r: u64)
        requires
            self.scheme_of() == Scheme::Ring ==> i < pow2(self.depth_of() as nat) && j < pow2(
                self.depth_of() as nat,
            ),
        ensures
            r == id_in(self.scheme_of(), self.depth_of(), zoc_hash(self.depth_of(), i, j)),
            i < pow2(self.depth_of() as nat) && j < pow2(self.depth_of() as nat) ==> r == id_in(
                self.scheme_of(),
                self.depth_of(),
                interleave(i as nat, j as nat, self.depth_of() as nat) as u64,
            ),
    {
        proof {
            use_type_invariant(self);
            if i < pow2(self.depth as nat) && j < pow2(self.depth as nat) {
                lemma_zoc_hash_inside(self.depth, i, j);
            }
        }
        let hash = healpix_ij2h(self.depth, i, j);
        self.from_nested(hash)
    }

    /// The full `size` x `size` z-order table: entry `row * size + col` holds
    /// `bit_combine(col, row)`, the layout used when unshuffling a
    /// z-order-flattened chunk into row-major order. The ring scheme takes
    /// tables that fit inside a base cell only.
    pub fn bit_combine_table(&self, size: u32) -> (r: Vec<u64>)
        requires
            self.scheme_of() == Scheme::Ring ==> size <= pow2(self.depth_of() as nat),
            size * size <= u32::MAX,
        ensures
            r@.len() == size * size,
            forall|row: int, col: int|
                0 <= row < size && 0 <= col < size ==> #[trigger] r@[row * size + col] == id_in(
                    self.scheme_of(),
                    self.depth_of(),
                    zoc_hash(self.depth_of(), col as u32, row as u32),
                ),
    {
        let mut out: Vec<u64> = Vec::with_capacity((size * size) as usize);
        let mut row: u32 = 0;
        while row < size
            invariant
                row <= size,
                self.scheme_of() == Scheme::Ring ==> size <= pow2(self.depth_of() as nat),
                size * size <= u32::MAX,
                out@.len() == row * size,
                forall|r: int, c: int|
                    0 <= r < row && 0 <= c < size ==> #[trigger] out@[r * size + c] == id_in(
                        self.scheme_of(),
                        self.depth_of(),
                        zoc_hash(self.depth_of(), c as u32, r as u32),
                    ),
            decreases size - row,
        {
            let mut col: u32 = 0;
            while col < size
                invariant
                    row < size,
                    col <= size,
                    self.scheme_of() == Scheme::Ring ==> size <= pow2(self.depth_of() as nat),
                    size * size <= u32::MAX,
                    out@.len() == row * size + col,
                    forall|r: int, c: int|
                        0 <= r < row && 0 <= c < size ==> #[trigger] out@[r * size + c] == id_in(
                            self.scheme_of(),
                            self.depth_of(),
                            zoc_hash(self.depth_of(), c as u32, r as u32),
                        ),
                    forall|c: int|
                        0 <= c < col ==> #[trigger] out@[row * size + c] == id_in(
                            self.scheme_of(),
                            self.depth_of(),
                            zoc_hash(self.depth_of(), c as u32, row),
                        ),
                decreases size - col,
            {
                let h = self.bit_combine(col, row);
                let ghost before = out@;
                out.push(h);
                proof {
                    assert forall|r: int, c: int| 0 <= r < row && 0 <= c < size implies #[trigger] out@[r
                        * size + c] == before[r * size + c] by {
                        lemma_row_major(r, c, row as int, size as int);
                    }
                }
                col = col + 1;
            }
            proof {
                lemma_one_more_row(row as int, size as int);
                assert forall|r: int, c: int| 0 <= r < row + 1 && 0 <= c < size implies #[trigger] out@[r
                    * size + c] == id_in(
                    self.scheme_of(),
                    self.depth_of(),
                    zoc_hash(self.depth_of(), c as u32, r as u32),
                ) by {
                    if r == row {
                    }
                }
            }
            row = row + 1;
        }
        out
    }
}

/// The three scheme names are "nested", "ring" and "zuniq", and no two
/// schemes share a name: a name tells its scheme.
pub proof fn lemma_scheme_names()
    ensures
        scheme_name(Scheme::Nested) == "nested"@,
        scheme_name(Scheme::Ring) == "ring"@,
        scheme_name(Scheme::Zuniq) == "zuniq"@,
        forall|a: Scheme, b: Scheme| #[trigger] scheme_name(a) == #[trigger] scheme_name(b) ==> a == b,
{
    reveal_strlit("nested");
    reveal_strlit("ring");
    reveal_strlit("zuniq");
    assert("nested"@.len() == 6 && "ring"@.len() == 4 && "zuniq"@.len() == 5);
}

/// A grid asked for at a depth of at most 29, and no nside, is a grid at
/// that depth in the asked scheme; depth 0 included.
pub proof fn lemma_depth_option_is_taken(scheme: Scheme, depth: u8)
    requires
        depth <= 29,
    ensures
        requested_depth(GridOptions { scheme, depth: Some(depth), nside: None }) == Ok::<
            u8,
            GridError,
        >(depth),
{
}

/// A grid asked for by an nside of `2^k` is at depth `k`.
pub proof fn lemma_nside_option_is_its_log(scheme: Scheme, k: u64)
    requires
        k < 64,
    ensures
        requested_depth(GridOptions { scheme, depth: None, nside: Some(1u64 << k) }) == Ok::<
            u8,
            GridError,
        >(k as u8),
{
    let n: u64 = 1u64 << k;
    let t: u64 = u64_trailing_zeros(n) as u64;
    axiom_u64_trailing_zeros(n);
    assert((n >> k) & 1u64 == 1u64 && (t < k ==> (n >> t) & 1u64 == 0u64) && n != 0)
        by (bit_vector)
        requires
            k < 64,
            n == (1u64 << k),
    ;
    if t > k {
        assert((n >> k) & 1u64 == 0u64);
    }
    assert(t == k);
    assert(power_of_two(n));
}

/// A `zuniq` grid reads a cell at the depth its id encodes, whatever the
/// grid's own depth: every cell's `zuniq` id is read back to that cell.
pub proof fn lemma_zuniq_grid_reads_the_encoded_cell(grid_depth: u8, depth: u8, nested: u64)
    requires
        valid_cell(nested, depth),
    ensures
        readable_in(Scheme::Zuniq, grid_depth, zuniq_of(depth, nested)),
        nested_in(Scheme::Zuniq, grid_depth, zuniq_of(depth, nested)) == (depth, nested),
{
    lemma_zuniq_round_trip(depth, nested);
}

/// A power of two is one bit set at the position of its trailing zeros, and
/// only powers of two are.
pub proof fn lemma_power_of_two(n: u64)
    ensures
        power_of_two(n) <==> (u64_trailing_zeros(n) < 64 && n == (1u64 << (u64_trailing_zeros(
            n,
        ) as u64))),
{
    let t: u64 = u64_trailing_zeros(n) as u64;
    axiom_u64_trailing_zeros(n);
    if t < 64 && n == (1u64 << t) {
        assert(n == (1u64 << t));
    }
    if power_of_two(n) {
        let k = choose|k: u64| k < 64 && n == #[trigger] (1u64 << k);
        assert((n >> k) & 1u64 == 1u64 && (t < k ==> (n >> t) & 1u64 == 0u64) && n != 0)
            by (bit_vector)
            requires
                k < 64,
                n == (1u64 << k),
        ;
        if t > k {
            assert((n >> k) & 1u64 == 0u64);
        }
    }
}

/// Row-major positions: every cell of the rows above row `row` comes before
/// the first cell of row `row`.
pub proof fn lemma_row_major(r: int, c: int, row: int, size: int)
    by (nonlinear_arith)
    requires
        0 <= r < row,
        0 <= c < size,
    ensures
        r * size + c < row * size,
{
}

/// One more full row holds `size` more cells.
pub proof fn lemma_one_more_row(row: int, size: int)
    by (nonlinear_arith)
    ensures
        row * size + size == (row + 1) * size,
{
}

} // verus!
