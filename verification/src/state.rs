//! The state that all tasks of the engine share.

use vstd::prelude::*;
use std::sync::{Arc, Mutex, MutexGuard, PoisonError};
use crate::config::Config;
use crate::error::{shutdown_result, startup_result, LifecycleError};
use crate::order::{
    ascending, descending, lemma_start_order_exact, lemma_stop_order_exact, start_order,
    stop_order,
};
use crate::registry::{
    flags_of, EntryView, Registry, ShutdownPolicy, SweepFailure, SweepReport,
};
use crate::shutdown::Shutdown;
use crate::system::RustgineSystem;

verus! {

/// The standard library's mutual exclusion lock, `std::sync::Mutex`.
#[verifier::external_type_specification]
#[verifier::external_body]
#[verifier::reject_recursive_types(T)]
pub struct ExMutex<T: ?Sized>(Mutex<T>);

/// The access that a locked `std::sync::Mutex` hands out,
/// `std::sync::MutexGuard`.
#[verifier::external_type_specification]
#[verifier::external_body]
#[verifier::reject_recursive_types(T)]
pub struct ExMutexGuard<'a, T: ?Sized + 'a>(MutexGuard<'a, T>);

/// What locking returns once a holder of the lock has panicked,
/// `std::sync::PoisonError`.
#[verifier::external_type_specification]
#[verifier::external_body]
#[verifier::reject_recursive_types(T)]
pub struct ExPoisonError<T>(PoisonError<T>);

/// `Mutex::new` puts a value behind a new, unlocked lock. Nothing is claimed
/// about what later holders find behind it.
pub assume_specification<T>[ Mutex::<T>::new ](value: T) -> (lock: Mutex<T>)
;

/// `Mutex::lock` waits for the lock and returns access to the value, or an
/// error when the lock is poisoned. Which one is returned, and what the
/// value is by then, depends on the other holders, so nothing is claimed.
/// A thread that locks again while it holds the lock does not return.
pub assume_specification<'a, T: ?Sized>[ Mutex::<T>::lock ](
    lock: &'a Mutex<T>,
) -> (access: Result<MutexGuard<'a, T>, PoisonError<MutexGuard<'a, T>>>)
;

/// The entries of the registry that `guard` gives exclusive access to.
pub uninterp spec fn guarded(guard: MutexGuard<'_, Registry>) -> Seq<EntryView>;

/// `DerefMut::deref_mut` of a guard: the registry behind the lock, for as
/// long as the guard is borrowed. It is the registry the guard gives access
/// to, and the guard gives access to it as the borrower leaves it.
#[verifier::external_body]
fn behind<'a, 'b>(guard: &'a mut MutexGuard<'b, Registry>) -> (registry: &'a mut Registry)
    ensures
        registry@ == guarded(*old(guard)),
        guarded(*final(guard)) == final(registry)@,
{
    &mut **guard
}

/// Appends `system` under `alias`, enabled, to the registry behind `guard`.
pub fn register_locked<S: RustgineSystem + 'static>(
    guard: &mut MutexGuard<'_, Registry>,
    alias: &str,
    system: S,
)
    ensures
        guarded(*final(guard)) == guarded(*old(guard)).push(
            EntryView { name: alias@, enabled: true },
        ),
{
    behind(guard).register(alias, system);
}

/// Number of entries of the registry behind `guard`, disabled ones included.
pub fn count_locked(guard: &mut MutexGuard<'_, Registry>) -> (count: usize)
    ensures
        count == guarded(*old(guard)).len(),
        guarded(*final(guard)) == guarded(*old(guard)),
{
    behind(guard).len()
}

/// Sets the `enabled` flag of the entry at `index` of the registry behind
/// `guard`. Returns whether there is such an entry; without one the registry
/// is left as it was.
pub fn set_enabled_locked(
    guard: &mut MutexGuard<'_, Registry>,
    index: usize,
    enabled: bool,
) -> (found: bool)
    ensures
        found == (index < guarded(*old(guard)).len()),
        found ==> guarded(*final(guard)) == guarded(*old(guard)).update(
            index as int,
            EntryView { name: guarded(*old(guard))[index as int].name, enabled },
        ),
        !found ==> guarded(*final(guard)) == guarded(*old(guard)),
{
    behind(guard).set_enabled(index, enabled)
}

/// Whether `failure` names an enabled entry of `entries`, by its position
/// and by its name.
pub open spec fn blames_enabled_entry(failure: SweepFailure, entries: Seq<EntryView>) -> bool {
    &&& 0 <= failure.index < entries.len()
    &&& entries[failure.index as int].enabled
    &&& failure.name@ == entries[failure.index as int].name
}

/// Runs the startup sweep over the registry behind `guard`, which keeps its
/// entries.
///
/// When every enabled subsystem starts, the report lists the whole startup
/// order and no failure. Otherwise the error is the failure of the first
/// subsystem that did not start, an enabled entry of the registry.
pub fn start_locked(guard: &mut MutexGuard<'_, Registry>) -> (outcome: Result<
    SweepReport,
    LifecycleError,
>)
    ensures
        guarded(*final(guard)) == guarded(*old(guard)),
        match outcome {
            Ok(report) => report.failures@.len() == 0 && report.positions() == start_order(
                flags_of(guarded(*old(guard))),
            ),
            Err(error) => error is Startup && blames_enabled_entry(
                error->Startup_0,
                guarded(*old(guard)),
            ),
        },
{
    let registry = behind(guard);
    let ghost entries = registry@;
    let report = registry.start_all();
    proof {
        lemma_start_order_exact(flags_of(entries));
        if report.failures@.len() > 0 {
            let position = report.failures@[0].index as int;
            let at = choose|at: int|
                0 <= at < report.positions().len() && report.positions()[at] == position;
            assert(start_order(flags_of(entries))[at] == position);
        }
    }
    startup_result(report)
}

/// Runs the shutdown sweep over the registry behind `guard`, which keeps its
/// entries.
///
/// Under `ContinueOnError` the report lists the whole shutdown order, and
/// the failures among it in the order they happened. Under
/// `AbortOnFirstError` the report lists the whole shutdown order and no
/// failure, or the error is the failure of the first subsystem that did not
/// shut down, an enabled entry of the registry.
pub fn stop_locked(guard: &mut MutexGuard<'_, Registry>, policy: ShutdownPolicy) -> (outcome:
    Result<SweepReport, LifecycleError>)
    ensures
        guarded(*final(guard)) == guarded(*old(guard)),
        match outcome {
            Ok(report) => {
                &&& report.positions() == stop_order(flags_of(guarded(*old(guard))))
                &&& report.failures_within(guarded(*old(guard)))
                &&& descending(report.failed_positions())
                &&& policy == ShutdownPolicy::AbortOnFirstError ==> report.failures@.len() == 0
            },
            Err(error) => policy == ShutdownPolicy::AbortOnFirstError && error is Shutdown
                && blames_enabled_entry(error->Shutdown_0, guarded(*old(guard))),
        },
{
    let registry = behind(guard);
    let ghost entries = registry@;
    let report = registry.stop_all(policy);
    proof {
        lemma_stop_order_exact(flags_of(entries));
        if report.failures@.len() > 0 {
            let position = report.failures@[0].index as int;
            let at = choose|at: int|
                0 <= at < report.positions().len() && report.positions()[at] == position;
            assert(stop_order(flags_of(entries))[at] == position);
        }
    }
    shutdown_result(report, policy)
}

/// What locking the registry came to: the access itself, or the error of a
/// poisoned lock.
pub fn granted<'a>(
    access: Result<MutexGuard<'a, Registry>, PoisonError<MutexGuard<'a, Registry>>>,
) -> (outcome: Result<MutexGuard<'a, Registry>, LifecycleError>)
    ensures
        access is Ok ==> outcome == Ok::<MutexGuard<'a, Registry>, LifecycleError>(access->Ok_0),
        access is Err ==> outcome == Err::<MutexGuard<'a, Registry>, LifecycleError>(
            LifecycleError::RegistryPoisoned,
        ),
{
    match access {
        Ok(guard) => Ok(guard),
        Err(_) => Err(LifecycleError::RegistryPoisoned),
    }
}

/// Configuration, shutdown signal and subsystem registry of one engine.
///
/// The registry sits behind a lock that is held for one operation at a time
/// and never across a wait. A sweep holds it while the subsystems run, so a
/// subsystem must not reach back into the state that is sweeping it, and
/// registration is to be finished before a run begins.
pub struct AppState {
    /// The configuration the engine was started with.
    pub config: Arc<Config>,
    /// The signal that ends the run.
    pub shutdown: Shutdown,
    /// The registered subsystems. One holder at a time has access.
    pub rustgine_systems: Mutex<Registry>,
}

impl AppState {
    /// The state of an engine configured by `config`: no subsystem is
    /// registered and the shutdown signal has not fired.
    pub fn initialize(config: &Config) -> (state: Result<Arc<Self>, LifecycleError>)
        ensures
            state is Ok,
            state->Ok_0.config@ == config@,
    {
        Ok(
            Arc::new(
                AppState {
                    config: Arc::new(config.clone()),
                    shutdown: Shutdown::new(),
                    rustgine_systems: Mutex::new(Registry::new()),
                },
            ),
        )
    }

    /// Appends `system` to the registry under `alias`, enabled. Fails only
    /// on a poisoned lock.
    pub fn register_system<S: RustgineSystem + 'static>(&self, alias: &str, system: S) -> (done:
        Result<(), LifecycleError>)
        ensures
            done is Err ==> done->Err_0 is RegistryPoisoned,
    {
        match granted(self.rustgine_systems.lock()) {
            Ok(mut guard) => {
                register_locked(&mut guard, alias, system);
                Ok(())
            },
            Err(error) => Err(error),
        }
    }

    /// Number of registered subsystems, disabled ones included. Fails only
    /// on a poisoned lock.
    pub fn system_count(&self) -> (count: Result<usize, LifecycleError>)
        ensures
            count is Err ==> count->Err_0 is RegistryPoisoned,
    {
        match granted(self.rustgine_systems.lock()) {
            Ok(mut guard) => Ok(count_locked(&mut guard)),
            Err(error) => Err(error),
        }
    }

    /// Sets the `enabled` flag of the subsystem at `index` and returns
    /// whether there is such a subsystem. Fails only on a poisoned lock.
    pub fn set_system_enabled(&self, index: usize, enabled: bool) -> (found: Result<
        bool,
        LifecycleError,
    >)
        ensures
            found is Err ==> found->Err_0 is RegistryPoisoned,
    {
        match granted(self.rustgine_systems.lock()) {
            Ok(mut guard) => Ok(set_enabled_locked(&mut guard, index, enabled)),
            Err(error) => Err(error),
        }
    }

    /// Runs the startup sweep with exclusive access to the registry.
    ///
    /// A report is returned when every enabled subsystem started; it lists
    /// them in ascending registry position. The first subsystem that fails
    /// ends the sweep and is returned as the error.
    pub fn start_systems(&self) -> (outcome: Result<SweepReport, LifecycleError>)
        ensures
            match outcome {
                Ok(report) => report.failures@.len() == 0 && ascending(report.positions()),
                Err(error) => error is RegistryPoisoned || error is Startup,
            },
    {
        match granted(self.rustgine_systems.lock()) {
            Ok(mut guard) => {
                proof {
                    lemma_start_order_exact(flags_of(guarded(guard)));
                }
                start_locked(&mut guard)
            },
            Err(error) => Err(error),
        }
    }

    /// Runs the shutdown sweep with exclusive access to the registry.
    ///
    /// The report lists the subsystems that were shut down, in descending
    /// registry position. Under `ContinueOnError` it also holds the
    /// failures, none of which ends the sweep or turns the outcome into an
    /// error. Under `AbortOnFirstError` the first failure ends the sweep and
    /// is returned as the error.
    pub fn stop_systems(&self, policy: ShutdownPolicy) -> (outcome: Result<
        SweepReport,
        LifecycleError,
    >)
        ensures
            match outcome {
                Ok(report) => descending(report.positions()) && (policy
                    == ShutdownPolicy::AbortOnFirstError ==> report.failures@.len() == 0),
                Err(error) => error is RegistryPoisoned || (error is Shutdown && policy
                    == ShutdownPolicy::AbortOnFirstError),
            },
    {
        match granted(self.rustgine_systems.lock()) {
            Ok(mut guard) => {
                proof {
                    lemma_stop_order_exact(flags_of(guarded(guard)));
                }
                stop_locked(&mut guard, policy)
            },
            Err(error) => Err(error),
        }
    }
}

} // verus!
