# proj_pipeline

Compiles coordinate operations into pipelines of steps and executes them, verified
with Verus.

A pipeline takes a coordinate from one reference system to another: into geodetic
radians, through Helmert, affine and grid steps, and out into the target system.
The library decides which steps that takes, drops conversions that undo each other,
saves and restores ellipsoidal height around horizontal operations, and says what
becomes of every error on the way.

Floating-point work, loading grids and setting up projections happen outside. The
compiler (`compile`) and the executor (`execute`) run as far as the recorded replies
allow; where one is missing they name the request, and go on when the reply is there.

- `src/emission.rs` states what an operation compiles to, `src/compile.rs` compiles it.
- `src/execute.rs` states and computes what a pipeline makes of a coordinate.
- `src/framing.rs` and `src/height.rs` hold the rules for redundant conversions and for
  height.
- `src/laws/` proves what holds of pipelines as a whole.
- `app/` drives the library with `f64` arithmetic.
