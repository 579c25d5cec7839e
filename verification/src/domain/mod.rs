//! The vocabulary of the router: identifiers, endpoints, routes, the graph,
//! and the commands and events that change it.
use vstd::prelude::*;

pub mod capability;
pub mod command;
pub mod controls;
pub mod endpoint;
pub mod error;
pub mod event;
pub mod graph;
pub mod ids;
pub mod route;

verus! {

} // verus!
