//! The other numberings of HEALPix cells (`zuniq`, ring, z-order
//! coordinates) and the calls into `cdshealpix` that convert to them.
use cdshealpix::nested::zordercurve::ZOrderCurve;
use vstd::arithmetic::power2::{
    lemma2_to64, lemma2_to64_rest, lemma_pow2_pos, lemma_pow2_strictly_increases, lemma_pow2_unfold,
    pow2,
};
use vstd::arithmetic::div_mod::{lemma_basic_div, lemma_small_mod};
use vstd::bits::{lemma_u64_pow2_no_overflow, lemma_u64_shl_is_mul, lemma_u64_shr_is_div};
use vstd::prelude::*;
use vstd::std_specs::bits::{axiom_u64_trailing_zeros, u64_trailing_zeros};

use crate::codec::valid_cell;

verus! {

/// The `zuniq` id of a nested cell: a sentinel bit set just below the index,
/// the whole shifted to the top of the depth-29 range.
pub open spec fn zuniq_of(depth: u8, nested: u64) -> u64 {
    ((nested << 1u64) | 1u64) << ((2 * (29 - depth)) as u64)
}

/// The depth a `zuniq` id encodes.
pub open spec fn zuniq_depth(zuniq: u64) -> u8 {
    (29 - u64_trailing_zeros(zuniq) / 2) as u8
}

/// The nested index a `zuniq` id encodes.
pub open spec fn zuniq_nested(zuniq: u64) -> u64 {
    zuniq >> ((u64_trailing_zeros(zuniq) + 1) as u64)
}

/// A `zuniq` id whose sentinel bit sits low enough to name a depth.
pub open spec fn zuniq_readable(zuniq: u64) -> bool {
    u64_trailing_zeros(zuniq) <= 59
}

/// The ring index of a nested cell at `depth`, as `cdshealpix` computes it.
pub uninterp spec fn nested_to_ring(depth: u8, nested: u64) -> u64;

/// The nested index of a ring cell at `depth`, as `cdshealpix` computes it.
pub uninterp spec fn ring_to_nested(depth: u8, ring: u64) -> u64;

/// Ring indices below this bound have a square root whose floor an `f64`
/// square root gives exactly (the bound is 2^52).
pub open spec fn exact_root_bound() -> int {
    0x10_0000_0000_0000
}

/// The number of cells of the north polar cap at `depth`, as many as of the
/// south polar cap: `2 * nside * (nside + 1)`.
pub open spec fn polar_cap_cells(depth: u8) -> int {
    (2 * pow2(depth as nat) * (pow2(depth as nat) + 1)) as int
}

/// The number of cells at `depth`: `12 * nside^2`.
pub open spec fn depth_cells(depth: u8) -> int {
    (12 * pow2(depth as nat) * pow2(depth as nat)) as int
}

/// `Layer::from_ring` finds the ring of a polar-cap index `h` (counted from
/// its pole) as the floor of an `f64` square root of `1 + 2 * h`; that floor
/// is exact when `1 + 2 * h` is below 2^52. Equatorial indices need no root.
pub open spec fn ring_exactly_located(depth: u8, ring: u64) -> bool {
    if ring < polar_cap_cells(depth) {
        1 + 2 * ring < exact_root_bound()
    } else if ring >= depth_cells(depth) - polar_cap_cells(depth) {
        1 + 2 * (depth_cells(depth) - 1 - ring) < exact_root_bound()
    } else {
        true
    }
}

/// How many low bits of each coordinate the z-order curve of `depth` reads.
pub open spec fn zoc_bits(depth: u8) -> nat {
    if depth == 0 {
        0
    } else if depth <= 8 {
        8
    } else if depth <= 16 {
        16
    } else {
        32
    }
}

/// The z-order index `cdshealpix` gives the coordinates `(i, j)` at `depth`.
pub open spec fn zoc_hash(depth: u8, i: u32, j: u32) -> u64 {
    interleave(
        i as nat % pow2(zoc_bits(depth)),
        j as nat % pow2(zoc_bits(depth)),
        zoc_bits(depth),
    ) as u64
}

/// The z-order index of the coordinates `(i, j)` within a base cell, over `n`
/// bits per coordinate: bits of `i` on the even positions, of `j` on the odd.
pub open spec fn interleave(i: nat, j: nat, n: nat) -> nat
    decreases n,
{
    if n == 0 {
        0
    } else {
        interleave(i / 2, j / 2, (n - 1) as nat) * 4 + (j % 2) * 2 + i % 2
    }
}

/// Calls `cdshealpix::nested::to_zuniq`, which packs a depth and a nested
/// index into a `zuniq` id; it panics for a depth above 29.
#[verifier::external_body]
pub(crate) fn healpix_to_zuniq(depth: u8, nested: u64) -> (z: u64)
    requires
        depth <= 29,
    ensures
        z == zuniq_of(depth, nested),
{
    cdshealpix::nested::to_zuniq(depth, nested)
}

/// Calls `cdshealpix::nested::from_zuniq`, which reads the depth from the
/// position of the sentinel bit and the nested index above it; its depth
/// subtraction overflows when the sentinel sits above bit 59.
#[verifier::external_body]
pub(crate) fn healpix_from_zuniq(zuniq: u64) -> (r: (u8, u64))
    requires
        zuniq_readable(zuniq),
    ensures
        r == (zuniq_depth(zuniq), zuniq_nested(zuniq)),
{
    cdshealpix::nested::from_zuniq(zuniq)
}

/// Calls `Layer::to_ring` of `cdshealpix::nested::get(depth)`: the ring index
/// of a nested cell. Nothing is stated of its value beyond the name.
#[verifier::external_body]
pub(crate) fn healpix_to_ring(depth: u8, nested: u64) -> (ring: u64)
    requires
        valid_cell(nested, depth),
    ensures
        ring == nested_to_ring(depth, nested),
{
    cdshealpix::nested::get(depth).to_ring(nested)
}

/// Calls `Layer::from_ring` of `cdshealpix::nested::get(depth)`: the nested
/// index of a ring cell. Nothing is stated of its value beyond the name: in
/// particular, not that it is a cell of the depth, nor that `Layer::to_ring`
/// takes it back. The call is admitted only where its polar-cap branch finds
/// the ring exactly; elsewhere it can misplace the ring and overflow.
#[verifier::external_body]
pub(crate) fn healpix_from_ring(depth: u8, ring: u64) -> (nested: u64)
    requires
        valid_cell(ring, depth),
        ring_exactly_located(depth, ring),
    ensures
        nested == ring_to_nested(depth, ring),
{
    cdshealpix::nested::get(depth).from_ring(ring)
}

/// Calls `ij2h` of `cdshealpix::nested::zordercurve::get_zoc(depth)`, which
/// interleaves the low `zoc_bits(depth)` bits of two coordinates.
#[verifier::external_body]
pub(crate) fn healpix_ij2h(depth: u8, i: u32, j: u32) -> (h: u64)
    requires
        depth <= 29,
    ensures
        h == zoc_hash(depth, i, j),
{
    cdshealpix::nested::zordercurve::get_zoc(depth).ij2h(i, j)
}

/// Whether `Layer::from_ring` locates the ring of `ring` at `depth`
/// exactly.
pub fn ring_is_exactly_located(depth: u8, ring: u64) -> (r: bool)
    requires
        depth <= 29,
    ensures
        r == ring_exactly_located(depth, ring),
{
    proof {
        lemma_u64_pow2_no_overflow(depth as nat);
        lemma_u64_shl_is_mul(1, depth as u64);
        if depth < 29 {
            lemma_pow2_strictly_increases(depth as nat, 29);
        }
        lemma2_to64();
    }
    let nside: u64 = 1u64 << depth;
    assert(nside == pow2(depth as nat));
    assert(nside <= 536870912);
    proof {
        lemma_pow2_pos(depth as nat);
    }
    assert(2 * nside * (nside + 1) <= 0x2000_0000_4000_0000 && 12 * nside * nside
        <= 0x3000_0000_0000_0000 && 2 * nside * (nside + 1) <= 12 * nside * nside)
        by (nonlinear_arith)
        requires
            1 <= nside <= 536870912,
    ;
    let cap: u64 = 2 * nside * (nside + 1);
    let cells: u64 = 12 * nside * nside;
    if ring < cap {
        ring < 0x8_0000_0000_0000
    } else if ring >= cells - cap {
        ring >= cells || cells - 1 - ring < 0x8_0000_0000_0000
    } else {
        true
    }
}

/// Reading a `zuniq` id gives back the depth and the nested index it was
/// made from.
pub proof fn lemma_zuniq_round_trip(depth: u8, nested: u64)
    requires
        valid_cell(nested, depth),
    ensures
        zuniq_readable(zuniq_of(depth, nested)),
        zuniq_depth(zuniq_of(depth, nested)) == depth,
        zuniq_nested(zuniq_of(depth, nested)) == nested,
{
    let z = zuniq_of(depth, nested);
    let sh: u64 = (2 * (29 - depth)) as u64;
    let t: u64 = u64_trailing_zeros(z) as u64;
    axiom_u64_trailing_zeros(z);
    assert((z >> sh) & 1u64 == 1u64 && (t < sh ==> (z >> t) & 1u64 == 0u64) && z != 0
        && (z >> ((sh + 1) as u64)) == nested) by (bit_vector)
        requires
            depth <= 29,
            (nested >> ((2 * depth) as u64)) <= 11,
            sh == (2 * (29 - depth)) as u64,
            z == zuniq_of(depth, nested),
    ;
    if t > sh {
        assert((z >> sh) & 1u64 == 0u64);
    }
}

/// A `zuniq` id whose sentinel bit sits at an even position is rebuilt
/// exactly from the depth and the nested index read out of it.
pub proof fn lemma_zuniq_rebuilt(zuniq: u64)
    requires
        zuniq_readable(zuniq),
        u64_trailing_zeros(zuniq) % 2 == 0,
    ensures
        zuniq_of(zuniq_depth(zuniq), zuniq_nested(zuniq)) == zuniq,
{
    let t: u64 = u64_trailing_zeros(zuniq) as u64;
    axiom_u64_trailing_zeros(zuniq);
    let d: u8 = zuniq_depth(zuniq);
    assert(((2 * (29 - d)) as u64) == t);
    assert(((((zuniq >> ((t + 1) as u64)) << 1u64) | 1u64) << t) == zuniq) by (bit_vector)
        requires
            t <= 59,
            (zuniq >> t) & 1u64 == 1u64,
            zuniq << ((64 - t) as u64) == 0,
    ;
}

/// Interleaving two coordinates of `n` bits gives an index of `2 * n` bits.
pub proof fn lemma_interleave_bound(i: nat, j: nat, n: nat)
    requires
        i < pow2(n),
        j < pow2(n),
    ensures
        interleave(i, j, n) < pow2(2 * n),
    decreases n,
{
    if n == 0 {
        lemma2_to64();
    } else {
        lemma_pow2_unfold(n);
        lemma_interleave_bound(i / 2, j / 2, (n - 1) as nat);
        lemma_pow2_unfold(2 * n);
        lemma_pow2_unfold((2 * n - 1) as nat);
        assert(pow2(2 * n) == 4 * pow2((2 * (n - 1)) as nat));
    }
}

/// The interleaved coordinates of a cell inside a base cell name a cell of
/// that depth in the first base cell.
pub proof fn lemma_interleave_is_cell(i: nat, j: nat, depth: u8)
    requires
        depth <= 29,
        i < pow2(depth as nat),
        j < pow2(depth as nat),
    ensures
        interleave(i, j, depth as nat) < pow2(2 * depth as nat),
        pow2(2 * depth as nat) <= pow2(58),
        valid_cell(interleave(i, j, depth as nat) as u64, depth),
{
    let h = interleave(i, j, depth as nat);
    lemma_interleave_bound(i, j, depth as nat);
    if depth < 29 {
        lemma_pow2_strictly_increases(2 * depth as nat, 58);
    }
    lemma2_to64_rest();
    assert(h < pow2(58));
    let x: u64 = h as u64;
    let s: u64 = (2 * depth) as u64;
    assert(x as nat == h);
    lemma_u64_shr_is_div(x, s);
    lemma_pow2_pos(s as nat);
    lemma_basic_div(x as int, pow2(s as nat) as int);
    assert(x >> s == 0);
}

/// Interleaving over more bits than the coordinates have adds nothing.
pub proof fn lemma_interleave_extra_bits(i: nat, j: nat, m: nat, n: nat)
    requires
        i < pow2(m),
        j < pow2(m),
        m <= n,
    ensures
        interleave(i, j, n) == interleave(i, j, m),
    decreases n,
{
    if n == m {
    } else if m == 0 {
        lemma2_to64();
        lemma_interleave_extra_bits(i / 2, j / 2, 0, (n - 1) as nat);
    } else {
        lemma_pow2_unfold(m);
        lemma_interleave_extra_bits(i / 2, j / 2, (m - 1) as nat, (n - 1) as nat);
    }
}

/// For coordinates inside a base cell, the z-order index of `cdshealpix` is
/// the interleaving of their `depth` bits, and it names a cell of the first
/// base cell.
pub proof fn lemma_zoc_hash_inside(depth: u8, i: u32, j: u32)
    requires
        depth <= 29,
        i < pow2(depth as nat),
        j < pow2(depth as nat),
    ensures
        zoc_hash(depth, i, j) == interleave(i as nat, j as nat, depth as nat),
        valid_cell(zoc_hash(depth, i, j), depth),
{
    let w = zoc_bits(depth);
    if depth < w {
        lemma_pow2_strictly_increases(depth as nat, w);
    }
    lemma_pow2_pos(w);
    lemma_small_mod(i as nat, pow2(w));
    lemma_small_mod(j as nat, pow2(w));
    lemma_interleave_extra_bits(i as nat, j as nat, depth as nat, w);
    lemma_interleave_is_cell(i as nat, j as nat, depth);
    lemma2_to64_rest();
}

/// The two polar caps are mirror images: an index is located exactly when
/// its mirror from the other pole is, and the cut sits `2^51` indices from
/// either pole.
pub proof fn lemma_exact_location_is_symmetric(depth: u8, ring: u64, mirror: u64)
    requires
        ring as int + mirror as int == depth_cells(depth) - 1,
    ensures
        ring_exactly_located(depth, ring) == ring_exactly_located(depth, mirror),
        ring < polar_cap_cells(depth) ==> (ring_exactly_located(depth, ring) <==> ring < 0x8_0000_0000_0000),
        mirror < polar_cap_cells(depth) ==> (ring_exactly_located(depth, ring) <==> mirror
            < 0x8_0000_0000_0000),
{
    let n = pow2(depth as nat) as int;
    lemma_pow2_pos(depth as nat);
    assert(2 * polar_cap_cells(depth) <= depth_cells(depth)) by (nonlinear_arith)
        requires
            n >= 1,
            polar_cap_cells(depth) == 2 * n * (n + 1),
            depth_cells(depth) == 12 * n * n,
    ;
}

} // verus!
