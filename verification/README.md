# healpix_geo

HEALPix cells as packed `u64` Morton words, with the conversions to the
nested, ring and `zuniq` numberings, the hierarchy (depth, ancestor,
containment) and a grid at a fixed depth, verified with Verus.

- `src/codec.rs`: the bit layout of a word as spec functions, and the calls
  into `mortie-core` that encode, decode and coarsen words.
- `src/schemes.rs`: the `zuniq`, ring and z-order numberings, and the calls
  into `cdshealpix` that convert to them.
- `src/scalar/morton/`: conversions and hierarchy on one word, with the laws
  they obey (round trips, canonical words, containment as truncation, the
  Z-order runs of descendants).
- `src/vectorized/`: the same operations element-wise over slices.
- `src/morton.rs`: the checked statics on canonical ids.
- `src/grid.rs`: grid options, scheme dispatch and z-order tables.
- `app/`: the JavaScript bindings, the reference-body handle and the thread
  pool that spreads the vectorized operations.
