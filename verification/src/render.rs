//! The render subsystem.

use vstd::prelude::*;
use crate::system::RustgineSystem;

verus! {

/// Rendering subsystem of the engine: the graphics device and the frames it
/// presents.
///
/// It holds no resources yet: both lifecycle calls succeed and change
/// nothing.
#[derive(Debug, Default)]
pub struct RustgineRender;

impl RustgineSystem for RustgineRender {
    /// Brings the renderer up.
    fn startup(&mut self) -> (outcome: Result<(), anyhow::Error>)
        ensures
            outcome is Ok,
    {
        Ok(())
    }

    /// Takes the renderer down.
    fn shutdown(&mut self) -> (outcome: Result<(), anyhow::Error>)
        ensures
            outcome is Ok,
    {
        Ok(())
    }
}

} // verus!
