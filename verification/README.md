# saturation

A verified equality-saturation runner: the outer loop that searches rewrites in
an e-graph, applies them and decides when to stop, together with exponential
rule backoff and process-memory accounting. The library is written in Verus.

- `src/` is the library. `runner.rs` and `iteration.rs` hold the loop,
  `scheduler.rs` and `backoff.rs` the scheduling, `snapshot.rs` the pictures of a
  scheduler's state, `limits.rs` and `memory.rs` what stops a run, `report.rs`
  what it records. `maps.rs` wraps the `indexmap` crate. `laws/` states what holds
  across functions.
- `tests/` runs the library on a small e-graph over unary terms.
- `app/` is the ordinary Rust around it: clocks, heap samplers, closures as hooks,
  printed reports and serializable records.

Times are whole nanoseconds in the library and seconds in `app/`. A snapshot holds
the largest match limit and the sum of all match limits of active rules as
integers; `app/` gives their logarithms.
