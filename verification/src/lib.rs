//! Orion: the verified core of a desktop audio router.
//!
//! The crate holds the decisions of the router: what the audio graph accepts,
//! how commands and backend events move it, how mixer state follows the
//! devices that come and go, and how sample blocks are cut, delayed and fed.
//! Floating-point numbers travel through it as bit patterns.
use vstd::prelude::*;

pub mod app_engine;
pub mod assets;
pub mod backend;
pub mod device;
pub mod domain;
pub mod dsp;
pub mod engine;
pub mod json;
pub mod model;
pub mod persistence;
pub mod process_stats;
pub mod realtime;
pub mod scalar;
pub mod state;
pub mod table;
pub mod text;

verus! {

} // verus!
