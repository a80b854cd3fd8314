//! Equality saturation, as a verified outer loop.
//!
//! A [`runner::Runner`] runs rewrites over an e-graph, iteration by iteration,
//! until the e-graph saturates, a limit is hit or a hook says to stop. A
//! [`scheduler::RewriteScheduler`] decides which rules are searched;
//! [`backoff::BackoffScheduler`] bans rules that match too often for a while.
//! Process memory can be sampled at every point where limits are checked.
//!
//! The e-graph, the clock and the heap are the [`egraph::EGraph`] and the
//! [`egraph::Probe`] of the caller, of which nothing is assumed. What holds of the
//! library as a whole is stated and proved under [`laws`].

pub mod backoff;
pub mod egraph;
pub mod iteration;
pub mod laws;
pub mod limits;
pub mod maps;
pub mod memory;
pub mod report;
pub mod runner;
pub mod scheduler;
pub mod snapshot;
pub mod sums;
