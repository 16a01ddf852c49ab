# dedaliano_engine (verified core)

The integer and combinatorial decisions of a 2D structural analysis engine,
proved with Verus; the floating-point arithmetic around them lives in `app/`.

- `src/model.rs` — nodes and elements as ids and order keys; first-match lookups; text comparison.
- `src/sorting.rs` — the stable sort, with the existence and uniqueness of a stable order.
- `src/moving_loads.rs` — automatic load path (stable sort by start-node x), element assembly order by id,
  path resolution and its errors.
- `src/loads.rs` — the load records and the permanent-load filter.
- `src/influence.rs` — influence-line input checks, quantity names, where each value is read.
- `src/pattern.rs`, `src/mass_matrix.rs`, `src/geometric_stiffness.rs` — element matrices as exact
  integer patterns, with their symmetry, mass-conservation and zero-work laws.
- `src/assembly.rs` — where each element-matrix entry lands in the global matrix.
- `app/` — JSON records, load stepping, geometry and matrix values, over an `Engine2D` trait that
  supplies the linear solver, element rotations and DOF numbering.
