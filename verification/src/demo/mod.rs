//! The demonstration: which processes it runs, what it makes of their reports, and
//! the evidence that it writes.

pub mod consumers;
pub mod course;
pub mod distinct;
pub mod format;
pub mod gates;
pub mod identity;
pub mod negative;
pub mod pids;
pub mod plan;
pub mod results;
pub mod producer_checks;
pub mod reuse;
pub mod run;
pub mod sweep;
pub mod table;
pub mod timings;
