//! The scheduler subsystem.

use vstd::prelude::*;
use crate::system::RustgineSystem;

verus! {

/// Task scheduler of the engine: the workers and the jobs they run.
///
/// It holds no resources yet: both lifecycle calls succeed and change
/// nothing.
#[derive(Debug, Default)]
pub struct RustgineScheduler;

impl RustgineSystem for RustgineScheduler {
    /// Brings the scheduler up.
    fn startup(&mut self) -> (outcome: Result<(), anyhow::Error>)
        ensures
            outcome is Ok,
    {
        Ok(())
    }

    /// Takes the scheduler down.
    fn shutdown(&mut self) -> (outcome: Result<(), anyhow::Error>)
        ensures
            outcome is Ok,
    {
        Ok(())
    }
}

} // verus!
