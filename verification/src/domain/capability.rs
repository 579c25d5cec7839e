//! What a backend can do.
use vstd::prelude::*;

verus! {

/// What the active audio backend can do on this platform, reported when it
/// starts.
#[derive(Clone, Copy, Debug, PartialEq, Eq, Structural)]
pub struct BackendCapabilities {
    /// It can create and manage virtual devices.
    pub virtual_devices: bool,
    /// It can offer single applications as sources.
    pub application_sources: bool,
}

impl Default for BackendCapabilities {
    fn default() -> (capabilities: Self)
        ensures
            !capabilities.virtual_devices,
            !capabilities.application_sources,
    {
        BackendCapabilities { virtual_devices: false, application_sources: false }
    }
}

} // verus!
