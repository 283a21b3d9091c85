//! Durable generative state for a tiny recurrent video model.

pub mod bytes;
pub mod cli;
pub mod demo;
pub mod experiment;
pub mod model;
pub mod rollout;
pub mod scene;
pub mod state;
pub mod text;
pub mod train;
