//! The block engine: controls, block processing decisions, meters and the
//! bookkeeping of running routes.
use vstd::prelude::*;

pub mod bus;
pub mod controls;
pub mod engine;
pub mod messages;
pub mod meter;
pub mod plans;
pub mod rings;
pub mod roster;
pub mod source;
pub mod stage;
pub mod strip;

verus! {

} // verus!
