//! The lifecycle contract that every engine subsystem implements.

use vstd::prelude::*;

verus! {

/// The failure value of a lifecycle call, `anyhow::Error`.
///
/// The library never looks inside it: a failure is carried from the
/// subsystem that reported it to the caller unchanged.
#[verifier::external_type_specification]
#[verifier::external_body]
pub struct ExLifecycleFailure(anyhow::Error);

/// Two-phase lifecycle of an engine subsystem.
///
/// `startup` is called once while the engine starts, `shutdown` once while it
/// stops. Nothing is promised about what an implementation returns: the
/// registry is verified for every outcome of either call.
pub trait RustgineSystem: Send + Sync {
    /// Acquires what the subsystem needs to operate.
    fn startup(&mut self) -> (outcome: Result<(), anyhow::Error>);

    /// Releases what `startup` acquired.
    fn shutdown(&mut self) -> (outcome: Result<(), anyhow::Error>);
}

} // verus!
