//! Offline training of the frozen checkpoint: its configuration, the windows that
//! it draws, the batches that it feeds and the account that it gives.
//!
//! The optimisation itself happens elsewhere. Real numbers are bit patterns.

pub mod batch;
pub mod config;
pub mod evaluate;
pub mod forward;
pub mod report;
pub mod window;
pub mod write;
