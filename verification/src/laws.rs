//! What holds of the library as a whole, beyond the contract of any one
//! function.

pub mod accounting;
pub mod backoff;
pub mod bans;
pub mod checking;
pub mod counting;
pub mod iterations;
pub mod limiting;
pub mod making;
pub mod meanings;
pub mod pictures;
pub mod reporting;
pub mod running;
pub mod runs;
pub mod sampling;
pub mod scheduling;
pub mod searching;
pub mod steps;
pub mod timing;
