//! The ecs subsystem.

use vstd::prelude::*;
use crate::system::RustgineSystem;

verus! {

/// Entity component system of the engine: entities, their components and
/// the systems that run over them.
///
/// It holds no resources yet: both lifecycle calls succeed and change
/// nothing.
#[derive(Debug, Default)]
pub struct RustgineEcs;

impl RustgineSystem for RustgineEcs {
    /// Brings the entity component system up.
    fn startup(&mut self) -> (outcome: Result<(), anyhow::Error>)
        ensures
            outcome is Ok,
    {
        Ok(())
    }

    /// Takes the entity component system down.
    fn shutdown(&mut self) -> (outcome: Result<(), anyhow::Error>)
        ensures
            outcome is Ok,
    {
        Ok(())
    }
}

} // verus!
