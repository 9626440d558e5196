//! The lifecycle of one engine run.
//!
//! A run starts the subsystems, waits until it is told to stop, and shuts
//! the subsystems down. Waiting is left to the caller: the runner says what
//! to wait for and is told what ended the wait.

use vstd::prelude::*;
use crate::error::LifecycleError;
use crate::order::descending;
use crate::registry::{ShutdownPolicy, SweepReport};
use crate::state::AppState;

verus! {

/// Where a run stands.
#[derive(Clone, Copy, Debug, PartialEq, Eq, Structural)]
pub enum Phase {
    /// Nothing has happened yet.
    Idle,
    /// The startup sweep is under way.
    Starting,
    /// Every enabled subsystem is up; the run waits to be stopped.
    Running,
    /// The shutdown sweep is under way.
    Stopping,
    /// The run ended with a completed shutdown sweep.
    Stopped,
    /// The run ended with a failure.
    Failed,
}

/// Something that happened to a run.
#[derive(Clone, Copy, Debug, PartialEq, Eq, Structural)]
pub enum Event {
    /// The run was asked to begin.
    RunRequested,
    /// The startup sweep started every enabled subsystem.
    StartupSucceeded,
    /// The startup sweep ended early, or had no access to the registry.
    StartupFailed,
    /// The process was told to terminate.
    InterruptReceived,
    /// Listening for the interrupt itself failed.
    InterruptListenerFailed,
    /// The shutdown signal fired.
    SignalFired,
    /// The shutdown sweep ran to its end.
    ShutdownSucceeded,
    /// The shutdown sweep ended early, or had no access to the registry.
    ShutdownFailed,
}

/// What a run does in answer to an event.
#[derive(Clone, Copy, Debug, PartialEq, Eq, Structural)]
pub enum Action {
    /// Run the startup sweep.
    StartSubsystems,
    /// Subscribe to the shutdown signal, and wait for it or for an
    /// interrupt.
    SubscribeAndWait,
    /// Go on waiting, for the shutdown signal alone.
    WaitForSignal,
    /// Fire the shutdown signal for the other tasks that wait for it, and
    /// run the shutdown sweep.
    TriggerAndStopSubsystems,
    /// Run the shutdown sweep.
    StopSubsystems,
    /// Report a clean end of the run.
    ReportSuccess,
    /// Report the failure that ended the run.
    ReportFailure,
    /// Nothing: the event has no meaning in this phase.
    Ignore,
}

/// The phase that follows `phase` on `event`, and what is to be done.
pub open spec fn transition(phase: Phase, event: Event) -> (Phase, Action) {
    match (phase, event) {
        (Phase::Idle, Event::RunRequested) => (Phase::Starting, Action::StartSubsystems),
        (Phase::Starting, Event::StartupSucceeded) => (Phase::Running, Action::SubscribeAndWait),
        (Phase::Starting, Event::StartupFailed) => (Phase::Failed, Action::ReportFailure),
        (Phase::Running, Event::InterruptReceived) => (
            Phase::Stopping,
            Action::TriggerAndStopSubsystems,
        ),
        (Phase::Running, Event::InterruptListenerFailed) => (
            Phase::Running,
            Action::WaitForSignal,
        ),
        (Phase::Running, Event::SignalFired) => (Phase::Stopping, Action::StopSubsystems),
        (Phase::Stopping, Event::ShutdownSucceeded) => (Phase::Stopped, Action::ReportSuccess),
        (Phase::Stopping, Event::ShutdownFailed) => (Phase::Failed, Action::ReportFailure),
        _ => (phase, Action::Ignore),
    }
}

/// The phase that follows `phase` on `event`, and what is to be done.
pub fn react(phase: Phase, event: Event) -> (next: (Phase, Action))
    ensures
        next == transition(phase, event),
{
    match phase {
        Phase::Idle => match event {
            Event::RunRequested => (Phase::Starting, Action::StartSubsystems),
            _ => (phase, Action::Ignore),
        },
        Phase::Starting => match event {
            Event::StartupSucceeded => (Phase::Running, Action::SubscribeAndWait),
            Event::StartupFailed => (Phase::Failed, Action::ReportFailure),
            _ => (phase, Action::Ignore),
        },
        Phase::Running => match event {
            Event::InterruptReceived => (Phase::Stopping, Action::TriggerAndStopSubsystems),
            Event::InterruptListenerFailed => (Phase::Running, Action::WaitForSignal),
            Event::SignalFired => (Phase::Stopping, Action::StopSubsystems),
            _ => (phase, Action::Ignore),
        },
        Phase::Stopping => match event {
            Event::ShutdownSucceeded => (Phase::Stopped, Action::ReportSuccess),
            Event::ShutdownFailed => (Phase::Failed, Action::ReportFailure),
            _ => (phase, Action::Ignore),
        },
        Phase::Stopped => (phase, Action::Ignore),
        Phase::Failed => (phase, Action::Ignore),
    }
}

/// The event that reports how the startup sweep went.
pub fn startup_event(outcome: &Result<SweepReport, LifecycleError>) -> (event: Event)
    ensures
        event == if outcome is Ok {
            Event::StartupSucceeded
        } else {
            Event::StartupFailed
        },
{
    match outcome {
        Ok(_) => Event::StartupSucceeded,
        Err(_) => Event::StartupFailed,
    }
}

/// The event that reports how the shutdown sweep went.
pub fn shutdown_event(outcome: &Result<SweepReport, LifecycleError>) -> (event: Event)
    ensures
        event == if outcome is Ok {
            Event::ShutdownSucceeded
        } else {
            Event::ShutdownFailed
        },
{
    match outcome {
        Ok(_) => Event::ShutdownSucceeded,
        Err(_) => Event::ShutdownFailed,
    }
}

/// The actions of a run that starts in `phase` and meets `events` in turn.
pub open spec fn actions_of(phase: Phase, events: Seq<Event>) -> Seq<Action>
    decreases events.len(),
{
    if events.len() == 0 {
        Seq::empty()
    } else {
        seq![transition(phase, events.first()).1] + actions_of(
            transition(phase, events.first()).0,
            events.drop_first(),
        )
    }
}

/// The phase of a run that started in `phase` and met `events` in turn.
pub open spec fn phase_after(phase: Phase, events: Seq<Event>) -> Phase
    decreases events.len(),
{
    if events.len() == 0 {
        phase
    } else {
        phase_after(transition(phase, events.first()).0, events.drop_first())
    }
}

/// How far a phase is along the run. No event moves a run backwards.
pub open spec fn progress(phase: Phase) -> int {
    match phase {
        Phase::Idle => 0,
        Phase::Starting => 1,
        Phase::Running => 2,
        Phase::Stopping => 3,
        Phase::Stopped => 4,
        Phase::Failed => 4,
    }
}

/// Whether `action` runs the shutdown sweep.
pub open spec fn stops_subsystems(action: Action) -> bool {
    action == Action::StopSubsystems || action == Action::TriggerAndStopSubsystems
}

/// A run that has stopped or failed stays as it is, whatever happens.
pub proof fn lemma_ended_runs_stay(phase: Phase, event: Event)
    requires
        phase == Phase::Stopped || phase == Phase::Failed,
    ensures
        transition(phase, event) == (phase, Action::Ignore),
{
}

/// A run fails only out of a sweep: from `Starting` or from `Stopping`.
pub proof fn lemma_failure_comes_from_a_sweep(phase: Phase, event: Event)
    requires
        transition(phase, event).0 == Phase::Failed,
        phase != Phase::Failed,
    ensures
        phase == Phase::Starting || phase == Phase::Stopping,
{
}

/// No event moves a run backwards.
pub proof fn lemma_runs_only_advance(phase: Phase, event: Event)
    ensures
        progress(phase) <= progress(transition(phase, event).0),
{
}

/// A run answers every event with one action.
pub proof fn lemma_actions_length(phase: Phase, events: Seq<Event>)
    ensures
        actions_of(phase, events).len() == events.len(),
    decreases events.len(),
{
    if events.len() > 0 {
        lemma_actions_length(transition(phase, events.first()).0, events.drop_first());
    }
}

/// What a run that starts in `phase` can still do: the startup sweep only
/// from `Idle`, the first wait only up to `Starting`, a further wait and the
/// shutdown sweep only up to `Running`.
proof fn lemma_actions_by_progress(phase: Phase, events: Seq<Event>, at: int)
    requires
        0 <= at < events.len(),
    ensures
        actions_of(phase, events).len() == events.len(),
        actions_of(phase, events)[at] == Action::StartSubsystems ==> progress(phase) == 0,
        actions_of(phase, events)[at] == Action::SubscribeAndWait ==> progress(phase) <= 1,
        actions_of(phase, events)[at] == Action::WaitForSignal ==> progress(phase) <= 2,
        stops_subsystems(actions_of(phase, events)[at]) ==> progress(phase) <= 2,
    decreases events.len(),
{
    lemma_actions_length(phase, events);
    let next = transition(phase, events.first()).0;
    lemma_actions_length(next, events.drop_first());
    if at > 0 {
        lemma_actions_by_progress(next, events.drop_first(), at - 1);
    }
}

/// Startup comes before the wait and the wait before shutdown. Of two
/// actions of one run, the later one is no startup sweep once the earlier
/// one was a startup sweep, a wait or a shutdown sweep; it is no first wait
/// once the earlier one was a wait or a shutdown sweep; and it is neither a
/// wait nor a shutdown sweep once the earlier one was a shutdown sweep.
pub proof fn lemma_sweeps_in_order(phase: Phase, events: Seq<Event>, earlier: int, later: int)
    requires
        0 <= earlier < later < events.len(),
    ensures
        actions_of(phase, events).len() == events.len(),
        ({
            let before = actions_of(phase, events)[earlier];
            let after = actions_of(phase, events)[later];
            &&& before == Action::StartSubsystems ==> after != Action::StartSubsystems
            &&& before == Action::SubscribeAndWait ==> after != Action::StartSubsystems && after
                != Action::SubscribeAndWait
            &&& before == Action::WaitForSignal ==> after != Action::StartSubsystems && after
                != Action::SubscribeAndWait
            &&& stops_subsystems(before) ==> after != Action::StartSubsystems && after
                != Action::SubscribeAndWait && after != Action::WaitForSignal
                && !stops_subsystems(after)
        }),
    decreases events.len(),
{
    let next = transition(phase, events.first()).0;
    let rest = events.drop_first();
    lemma_actions_length(phase, events);
    lemma_actions_length(next, rest);
    if earlier > 0 {
        lemma_sweeps_in_order(next, rest, earlier - 1, later - 1);
    } else {
        lemma_actions_by_progress(next, rest, later - 1);
    }
}

/// Whatever events a run meets, it runs the startup sweep at most once and
/// the shutdown sweep at most once.
pub proof fn lemma_one_sweep_each(events: Seq<Event>, first: int, second: int)
    requires
        0 <= first < second < events.len(),
    ensures
        !(actions_of(Phase::Idle, events)[first] == Action::StartSubsystems && actions_of(
            Phase::Idle,
            events,
        )[second] == Action::StartSubsystems),
        !(stops_subsystems(actions_of(Phase::Idle, events)[first]) && stops_subsystems(
            actions_of(Phase::Idle, events)[second],
        )),
{
    lemma_sweeps_in_order(Phase::Idle, events, first, second);
}

/// What a run waits for.
#[derive(Clone, Copy, Debug, PartialEq, Eq, Structural)]
pub enum WaitFor {
    /// The interrupt or the shutdown signal, whichever comes first.
    InterruptOrSignal,
    /// The shutdown signal alone.
    SignalOnly,
}

/// What the caller of a runner does next.
#[derive(Debug)]
pub enum Step {
    /// Wait, and hand the event that ended the wait to `advance`.
    Wait(WaitFor),
    /// Return: the run is over. A completed shutdown sweep comes with its
    /// report, a failed run with the failure that ended it.
    Finished(Result<SweepReport, LifecycleError>),
    /// Nothing: the event had no meaning in the phase the run is in.
    Ignored,
}

/// One run of the engine.
///
/// Between two calls a runner is never in the middle of a sweep: it is
/// `Idle`, `Running`, `Stopped` or `Failed`.
#[derive(Debug)]
pub struct Runner {
    phase: Phase,
    policy: ShutdownPolicy,
}

impl View for Runner {
    type V = Phase;

    closed spec fn view(&self) -> Phase {
        self.phase
    }
}

impl Runner {
    #[verifier::type_invariant]
    spec fn between_sweeps(self) -> bool {
        self.phase != Phase::Starting && self.phase != Phase::Stopping
    }

    /// The policy the shutdown sweep of this run follows.
    pub closed spec fn shutdown_policy(&self) -> ShutdownPolicy {
        self.policy
    }

    /// A run that has not begun.
    pub fn new(policy: ShutdownPolicy) -> (runner: Self)
        ensures
            runner@ == Phase::Idle,
            runner.shutdown_policy() == policy,
    {
        Runner { phase: Phase::Idle, policy }
    }

    /// Where the run stands.
    pub fn phase(&self) -> (phase: Phase)
        ensures
            phase == self@,
            phase != Phase::Starting,
            phase != Phase::Stopping,
    {
        proof {
            use_type_invariant(self);
        }
        self.phase
    }

    /// The policy the shutdown sweep of this run follows.
    pub fn policy(&self) -> (policy: ShutdownPolicy)
        ensures
            policy == self.shutdown_policy(),
    {
        self.policy
    }

    /// Takes the run as far as it goes without waiting.
    ///
    /// `RunRequested` on an idle run makes the startup sweep: the run is
    /// `Running` afterwards and waits, or it has `Failed` with the failure
    /// of the sweep. On a running run, `InterruptReceived` fires the
    /// shutdown signal and makes the shutdown sweep, `SignalFired` makes the
    /// shutdown sweep alone, and `InterruptListenerFailed` leaves the run
    /// waiting for the signal. Every other event is ignored.
    pub fn advance(&mut self, state: &AppState, event: Event) -> (step: Step)
        ensures
            final(self).shutdown_policy() == old(self).shutdown_policy(),
            match transition(old(self)@, event).1 {
                Action::StartSubsystems => match step {
                    Step::Wait(wait) => wait == WaitFor::InterruptOrSignal && final(self)@
                        == phase_after(old(self)@, seq![event, Event::StartupSucceeded]),
                    Step::Finished(outcome) => outcome is Err && (outcome->Err_0 is RegistryPoisoned
                        || outcome->Err_0 is Startup) && final(self)@ == phase_after(
                        old(self)@,
                        seq![event, Event::StartupFailed],
                    ),
                    Step::Ignored => false,
                },
                Action::WaitForSignal => step == Step::Wait(WaitFor::SignalOnly) && final(self)@
                    == Phase::Running,
                Action::TriggerAndStopSubsystems | Action::StopSubsystems => match step {
                    Step::Finished(Ok(report)) => descending(report.positions()) && (old(
                        self,
                    ).shutdown_policy() == ShutdownPolicy::AbortOnFirstError
                        ==> report.failures@.len() == 0) && final(self)@ == phase_after(
                        old(self)@,
                        seq![event, Event::ShutdownSucceeded],
                    ),
                    Step::Finished(Err(error)) => (error is RegistryPoisoned || (error is Shutdown
                        && old(self).shutdown_policy() == ShutdownPolicy::AbortOnFirstError))
                        && final(self)@ == phase_after(
                        old(self)@,
                        seq![event, Event::ShutdownFailed],
                    ),
                    _ => false,
                },
                _ => step is Ignored && final(self)@ == old(self)@,
            },
    {
        proof {
            use_type_invariant(&*self);
            reveal_with_fuel(phase_after, 3);
        }
        let ghost before = self.phase;
        let (entered, action) = react(self.phase, event);
        match action {
            Action::StartSubsystems => {
                let outcome = state.start_systems();
                let (reached, _) = react(entered, startup_event(&outcome));
                self.phase = reached;
                assert(seq![event, Event::StartupSucceeded].drop_first() =~= seq![
                    Event::StartupSucceeded,
                ]);
                assert(seq![event, Event::StartupFailed].drop_first() =~= seq![
                    Event::StartupFailed,
                ]);
                match outcome {
                    Ok(_) => Step::Wait(WaitFor::InterruptOrSignal),
                    Err(error) => Step::Finished(Err(error)),
                }
            },
            Action::WaitForSignal => Step::Wait(WaitFor::SignalOnly),
            Action::TriggerAndStopSubsystems => {
                state.shutdown.trigger();
                self.finish(state, entered, Ghost(event))
            },
            Action::StopSubsystems => self.finish(state, entered, Ghost(event)),
            _ => Step::Ignored,
        }
    }

    /// Makes the shutdown sweep of a run that has entered `Stopping`.
    fn finish(&mut self, state: &AppState, entered: Phase, Ghost(event): Ghost<Event>) -> (step:
        Step)
        requires
            old(self)@ == Phase::Running,
            entered == Phase::Stopping,
            transition(old(self)@, event).0 == entered,
        ensures
            final(self).shutdown_policy() == old(self).shutdown_policy(),
            match step {
                Step::Finished(Ok(report)) => descending(report.positions()) && (old(
                    self,
                ).shutdown_policy() == ShutdownPolicy::AbortOnFirstError
                    ==> report.failures@.len() == 0) && final(self)@ == phase_after(
                    old(self)@,
                    seq![event, Event::ShutdownSucceeded],
                ),
                Step::Finished(Err(error)) => (error is RegistryPoisoned || (error is Shutdown
                    && old(self).shutdown_policy() == ShutdownPolicy::AbortOnFirstError))
                    && final(self)@ == phase_after(
                    old(self)@,
                    seq![event, Event::ShutdownFailed],
                ),
                _ => false,
            },
    {
        proof {
            reveal_with_fuel(phase_after, 3);
        }
        let outcome = state.stop_systems(self.policy);
        let (reached, _) = react(entered, shutdown_event(&outcome));
        self.phase = reached;
        assert(seq![event, Event::ShutdownSucceeded].drop_first() =~= seq![
            Event::ShutdownSucceeded,
        ]);
        assert(seq![event, Event::ShutdownFailed].drop_first() =~= seq![Event::ShutdownFailed]);
        Step::Finished(outcome)
    }
}

} // verus!
