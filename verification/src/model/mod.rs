//! The tiny recurrent model as plain data: its architecture, the arithmetic that
//! one step costs, its recurrent state and its frozen parameters.
//!
//! Real numbers are `binary32` bit patterns throughout.

pub mod cell;
pub mod checkpoint;
pub mod config;
pub mod floats;
pub mod header;
pub mod params;
pub mod state;
pub mod tensors;
pub mod work;
