//! What can go wrong while the engine starts or stops.

use vstd::prelude::*;
use vstd::string::StringExecFns;
use crate::registry::{ShutdownPolicy, SweepFailure, SweepReport};

verus! {

/// A failure of the lifecycle.
#[derive(Debug)]
pub enum LifecycleError {
    /// The lock around the registry was poisoned: an earlier holder
    /// panicked while it had access.
    RegistryPoisoned,
    /// A subsystem failed to start.
    Startup(SweepFailure),
    /// A subsystem failed to shut down.
    Shutdown(SweepFailure),
}

impl LifecycleError {
    /// The text of `describe`: what failed, with the name of the subsystem
    /// where one is to blame.
    pub open spec fn description(&self) -> Seq<char> {
        match self {
            LifecycleError::RegistryPoisoned => "rustgine systems lock poisoned"@,
            LifecycleError::Startup(failure) => "failed to start subsystem "@ + failure.name@,
            LifecycleError::Shutdown(failure) => "failed to shut down subsystem "@
                + failure.name@,
        }
    }

    /// Says in words what failed.
    pub fn describe(&self) -> (text: String)
        ensures
            text@ == self.description(),
    {
        match self {
            LifecycleError::RegistryPoisoned => String::from_str("rustgine systems lock poisoned"),
            LifecycleError::Startup(failure) => String::from_str(
                "failed to start subsystem ",
            ).concat(failure.name.as_str()),
            LifecycleError::Shutdown(failure) => String::from_str(
                "failed to shut down subsystem ",
            ).concat(failure.name.as_str()),
        }
    }
}

/// How a startup sweep ended: its report when every call succeeded, its
/// first failure otherwise.
pub fn startup_result(report: SweepReport) -> (outcome: Result<SweepReport, LifecycleError>)
    ensures
        report.failures@.len() == 0 ==> outcome == Ok::<SweepReport, LifecycleError>(report),
        report.failures@.len() > 0 ==> outcome == Err::<SweepReport, LifecycleError>(
            LifecycleError::Startup(report.failures@[0]),
        ),
{
    let mut report = report;
    if report.failures.len() == 0 {
        Ok(report)
    } else {
        Err(LifecycleError::Startup(report.failures.remove(0)))
    }
}

/// How a shutdown sweep ended. Under `ContinueOnError` failures stay in the
/// report and fail nothing. Under `AbortOnFirstError` the first failure is
/// the outcome.
pub fn shutdown_result(report: SweepReport, policy: ShutdownPolicy) -> (outcome: Result<
    SweepReport,
    LifecycleError,
>)
    ensures
        policy == ShutdownPolicy::ContinueOnError || report.failures@.len() == 0 ==> outcome
            == Ok::<SweepReport, LifecycleError>(report),
        policy == ShutdownPolicy::AbortOnFirstError && report.failures@.len() > 0 ==> outcome
            == Err::<SweepReport, LifecycleError>(LifecycleError::Shutdown(report.failures@[0])),
{
    let mut report = report;
    match policy {
        ShutdownPolicy::ContinueOnError => Ok(report),
        ShutdownPolicy::AbortOnFirstError => {
            if report.failures.len() == 0 {
                Ok(report)
            } else {
                Err(LifecycleError::Shutdown(report.failures.remove(0)))
            }
        },
    }
}

} // verus!
