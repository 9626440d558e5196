//! The platform subsystem.

use vstd::prelude::*;
use crate::system::RustgineSystem;

verus! {

/// Platform layer of the engine: windows, input and what else the operating
/// system provides.
///
/// It holds no resources yet: both lifecycle calls succeed and change
/// nothing.
#[derive(Debug, Default)]
pub struct RustginePlatform;

impl RustgineSystem for RustginePlatform {
    /// Brings the platform layer up.
    fn startup(&mut self) -> (outcome: Result<(), anyhow::Error>)
        ensures
            outcome is Ok,
    {
        Ok(())
    }

    /// Takes the platform layer down.
    fn shutdown(&mut self) -> (outcome: Result<(), anyhow::Error>)
        ensures
            outcome is Ok,
    {
        Ok(())
    }
}

} // verus!
