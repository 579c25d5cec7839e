//! Signal processing: block shapes, ramps, meters, the mixer and drift
//! correction. Samples are bit patterns; arithmetic on them is done outside,
//! and its results come in as arguments.
pub mod buffer;
pub mod drift;
pub mod eq;
pub mod error;
pub mod meter;
pub mod mixer;
pub mod processors;
