//! Network-facing settings: the flags the desktop shell persists. The
//! file handling and the free-form keybinding map stay with the caller.

use vstd::prelude::*;

verus! {

/// Outbound-traffic permissions.
#[derive(Debug, Clone, Copy, PartialEq, Eq, Structural)]
pub struct NetworkSettings {
    pub allow_gateway: bool,
    pub allow_telemetry: bool,
}

impl Default for NetworkSettings {
    /// Fresh settings allow nothing out.
    fn default() -> (r: Self)
        ensures
            r == (NetworkSettings { allow_gateway: false, allow_telemetry: false }),
    {
        NetworkSettings { allow_gateway: false, allow_telemetry: false }
    }
}

} // verus!
