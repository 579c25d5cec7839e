//! The messages of the matrix engine.
use vstd::prelude::*;

use crate::model::route::Route;

verus! {

#[derive(Debug)]
pub enum EngineCommand {
    UpdateMatrix(Vec<Route>),
    Shutdown,
}

#[derive(Debug)]
pub enum EngineEvent {
    Started { sample_rate: u32, buffer_size: u32 },
    DeviceError(String),
}

/// What the engine says when it begins.
pub fn started() -> (event: EngineEvent)
    ensures
        event == (EngineEvent::Started { sample_rate: 48_000, buffer_size: 512 }),
{
    EngineEvent::Started { sample_rate: 48_000, buffer_size: 512 }
}

/// Whether the engine goes on after a command; none comes once the other side
/// is gone.
pub fn goes_on(command: &Option<EngineCommand>) -> (result: bool)
    ensures
        result == (command matches Some(EngineCommand::UpdateMatrix(_))),
{
    match command {
        Some(EngineCommand::UpdateMatrix(_)) => true,
        _ => false,
    }
}

} // verus!
