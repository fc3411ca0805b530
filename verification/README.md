# vernier_ffi

The decision logic behind the vernier Python extension, verified with Verus.

- `src/` is the library: what arguments are accepted, how arrays, result
  dicts, ground truth columns, manifests and label maps are read, how an
  evaluation is planned, how a background worker and its queue behave, which
  tables are handed out and what a refused request is answered with. Float64
  values are held as bit patterns, and a Python object as what reading it gave.
- `tests/` runs the library, with the Arrow, rayon and scheduling crates linked.
- `app/` is the extension module: it reads Python objects, runs the threads and
  calls the evaluation crates (`vernier_core`, `vernier_geom`, `vernier_mask`,
  `vernier_panoptic`, `vernier_partial`, `vernier_semantic`).
