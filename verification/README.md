# koenig_damico_planner

A planner for fuel-optimal impulsive spacecraft maneuvers (Koenig & D'Amico's
three-step algorithm: initialize, refine, extract), split in two.

`src/` is the verified library: everything in the planner that is decided
without floating point, each function with a contract proved by Verus.

- `types` — the problem dimensions and the classification of planner
  failures into caller-fixable and unsolvable.
- `api` — the error half of the wire contract: error kinds and their stable
  wire strings, the mapping from failures to kinds, and the request-size
  guards (body bytes, grid points, sweep targets) with their exact messages.
- `server` — the HTTP limits resolved from optional settings (trimmed,
  parsed, positive, else the default) and the status code of each error kind.
- `init` — the coarse candidate set: evenly spaced grid indices spanning the
  grid, computed with exact integer rounding.
- `indices` — candidate index sets kept sorted and free of repeats.
- `text` — decimal rendering and trimmed, bounded decimal parsing, with the
  round-trip law between them.
- `wasm` — the browser-boundary mirror of the wire error.

`app/` is ordinary Rust around it: the floating-point dynamics, cost models,
convex solves (clarabel, nalgebra), the serde wire types, and the axum HTTP
service. It calls the library for every decision listed above.
