//! The process-cold reuse experiment: the contracts between its processes, the
//! decisions that each of them takes, and the accounts that they give.

pub mod args;
pub mod child;
pub mod flags;
pub mod frames;
pub mod generator;
pub mod montage;
pub mod paths;
pub mod producer;
pub mod recover;
pub mod request;
pub mod stats;
pub mod timing;
