# sf_limiter

A look-ahead brick-wall audio limiter whose integer core is verified with Verus.

- `src/` is the verified library: audio layouts (`layout`), the configuration
  checks (`config`), the true-peak strategy table, the ITU-R BS.1770-5 taps and
  FIR window arithmetic (`peak`), peak collection on order keys
  (`peak::collect`), the moving minimum of the gain envelope (`envelope`), and
  run-time SIMD dispatch through `pulp` (`dispatch`).
- `app/` is the `f32`/`f64` limiter built on that core: the gain envelope's
  release and smoothing, the FIR convolutions, gain application, and the
  PyO3/NumPy bindings.
- `tests/` exercises the verified library.

Sample magnitudes and gains cross from `app/` to `src/` as order keys: the bit
patterns of non-negative finite IEEE-754 values order exactly as the values do.
