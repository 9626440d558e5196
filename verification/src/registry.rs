//! The ordered registry of subsystems and its two sweeps.

use vstd::prelude::*;
use crate::order::{
    descending, lemma_start_order_exact, lemma_start_order_prefix, start_order, stop_order,
};
use crate::system::RustgineSystem;

verus! {

/// A subsystem together with the name it was registered under.
pub struct NamedSystem {
    /// Name used when the subsystem is reported; unique by convention only.
    pub name: String,
    /// Whether the sweeps visit this entry.
    pub enabled: bool,
    /// The subsystem itself.
    pub system: Box<dyn RustgineSystem>,
}

/// What the registry's contracts say about one entry: its name and whether it
/// is enabled. The subsystem behind it is never inspected.
pub ghost struct EntryView {
    pub name: Seq<char>,
    pub enabled: bool,
}

impl View for NamedSystem {
    type V = EntryView;

    open spec fn view(&self) -> EntryView {
        EntryView { name: self.name@, enabled: self.enabled }
    }
}

impl NamedSystem {
    /// An enabled entry that holds `system` under `name`.
    pub fn new<S: RustgineSystem + 'static>(name: &str, system: S) -> (entry: Self)
        ensures
            entry@ == (EntryView { name: name@, enabled: true }),
    {
        let boxed: Box<dyn RustgineSystem> = Box::new(system);
        NamedSystem { name: name.to_owned(), enabled: true, system: boxed }
    }
}

/// What a shutdown sweep does when a subsystem fails to shut down.
#[derive(Clone, Copy, Debug, PartialEq, Eq, Structural)]
pub enum ShutdownPolicy {
    /// Record the failure and go on with the remaining subsystems.
    ContinueOnError,
    /// Leave the remaining subsystems untouched.
    AbortOnFirstError,
}

impl Default for ShutdownPolicy {
    /// Shutdown goes on past a subsystem that fails, so that the remaining
    /// subsystems still release what they hold.
    fn default() -> (policy: Self)
        ensures
            policy == ShutdownPolicy::ContinueOnError,
    {
        ShutdownPolicy::ContinueOnError
    }
}

/// A lifecycle call that failed during a sweep.
#[derive(Debug)]
pub struct SweepFailure {
    /// Position of the entry in the registry.
    pub index: usize,
    /// Name of the entry.
    pub name: String,
    /// What the subsystem returned.
    pub cause: anyhow::Error,
}

impl SweepFailure {
    /// The failure `cause` of the entry at `index`, registered as `name`.
    fn new(index: usize, name: &String, cause: anyhow::Error) -> (failure: Self)
        ensures
            failure.index == index,
            failure.name@ == name@,
            failure.cause == cause,
    {
        SweepFailure { index, name: name.clone(), cause }
    }
}

/// The record of one sweep over the registry.
#[derive(Debug)]
pub struct SweepReport {
    /// Positions of the entries whose lifecycle call was made, in call order.
    pub visited: Vec<usize>,
    /// The calls among them that failed, in call order.
    pub failures: Vec<SweepFailure>,
}

/// One lifecycle call made on an entry of a registry.
pub ghost struct LifecycleCall {
    /// Position of the entry that was called.
    pub position: int,
    /// Whether the call was `startup`; it was `shutdown` otherwise.
    pub startup: bool,
    /// Whether the call returned success.
    pub succeeded: bool,
}

/// The elements of `positions` as mathematical integers.
pub open spec fn as_positions(positions: Seq<usize>) -> Seq<int> {
    positions.map_values(|p: usize| p as int)
}

impl SweepReport {
    /// Positions visited by the sweep, in call order.
    pub open spec fn positions(&self) -> Seq<int> {
        as_positions(self.visited@)
    }

    /// Positions of the entries whose call failed, in call order.
    pub open spec fn failed_positions(&self) -> Seq<int> {
        self.failures@.map_values(|f: SweepFailure| f.index as int)
    }

    /// The lifecycle calls the report stands for, in call order: one on each
    /// visited entry, `startup` ones or `shutdown` ones, failed where the
    /// report lists a failure of the entry.
    pub open spec fn calls(&self, startup: bool) -> Seq<LifecycleCall> {
        Seq::new(
            self.positions().len(),
            |k: int|
                LifecycleCall {
                    position: self.positions()[k],
                    startup,
                    succeeded: !self.failed_positions().contains(self.positions()[k]),
                },
        )
    }

    /// Every failure belongs to a visited entry of `entries` and carries that
    /// entry's name.
    pub open spec fn failures_within(&self, entries: Seq<EntryView>) -> bool {
        forall|k: int|
            0 <= k < self.failures@.len() ==> {
                &&& self.positions().contains(#[trigger] self.failures@[k].index as int)
                &&& 0 <= self.failures@[k].index < entries.len()
                &&& self.failures@[k].name@ == entries[self.failures@[k].index as int].name
            }
    }

    /// The report of a sweep that has made no call yet.
    pub fn new() -> (report: Self)
        ensures
            report.visited@ == Seq::<usize>::empty(),
            report.failures@ == Seq::<SweepFailure>::empty(),
    {
        SweepReport { visited: Vec::new(), failures: Vec::new() }
    }

    /// Notes that the lifecycle call on the entry at `index`, registered as
    /// `name`, returned `outcome`, and says whether the call succeeded.
    ///
    /// The entry joins the visited ones. A call that failed joins the
    /// failures with the cause it returned.
    pub fn record(
        &mut self,
        index: usize,
        name: &String,
        outcome: Result<(), anyhow::Error>,
    ) -> (succeeded: bool)
        ensures
            succeeded == outcome is Ok,
            final(self).visited@ == old(self).visited@.push(index),
            outcome is Ok ==> final(self).failures@ == old(self).failures@,
            outcome is Err ==> {
                &&& final(self).failures@.len() == old(self).failures@.len() + 1
                &&& final(self).failures@.drop_last() == old(self).failures@
                &&& final(self).failures@.last().index == index
                &&& final(self).failures@.last().name@ == name@
                &&& final(self).failures@.last().cause == outcome->Err_0
            },
    {
        self.visited.push(index);
        match outcome {
            Ok(()) => true,
            Err(cause) => {
                self.failures.push(SweepFailure::new(index, name, cause));
                assert(self.failures@.drop_last() =~= old(self).failures@);
                false
            },
        }
    }

    /// Whether every call of the sweep succeeded.
    pub fn is_clean(&self) -> (clean: bool)
        ensures
            clean == (self.failures@.len() == 0),
    {
        self.failures.len() == 0
    }
}

/// A report that gains a call on an entry it has not visited stands for
/// the calls it stood for, followed by that call.
proof fn lemma_report_gains_call(
    earlier: SweepReport,
    later: SweepReport,
    startup: bool,
    position: int,
    succeeded: bool,
)
    requires
        later.positions() == earlier.positions().push(position),
        !earlier.positions().contains(position),
        forall|k: int|
            0 <= k < earlier.failed_positions().len() ==> earlier.positions().contains(
                #[trigger] earlier.failed_positions()[k],
            ),
        succeeded ==> later.failed_positions() == earlier.failed_positions(),
        !succeeded ==> later.failed_positions() == earlier.failed_positions().push(position),
    ensures
        later.calls(startup) == earlier.calls(startup).push(
            LifecycleCall { position, startup, succeeded },
        ),
{
    let grown = earlier.calls(startup).push(LifecycleCall { position, startup, succeeded });
    assert forall|k: int| 0 <= k < later.calls(startup).len() implies later.calls(startup)[k]
        == grown[k] by {
        let at = later.positions()[k];
        if k < earlier.positions().len() {
            assert(at == earlier.positions()[k]);
            assert(earlier.positions().contains(at));
            if earlier.failed_positions().contains(at) {
                let f = choose|f: int|
                    0 <= f < earlier.failed_positions().len() && earlier.failed_positions()[f]
                        == at;
                assert(later.failed_positions()[f] == at);
            }
            if later.failed_positions().contains(at) {
                let f = choose|f: int|
                    0 <= f < later.failed_positions().len() && later.failed_positions()[f] == at;
                assert(earlier.failed_positions()[f] == at);
            }
        } else {
            if succeeded {
                if later.failed_positions().contains(at) {
                    let f = choose|f: int|
                        0 <= f < earlier.failed_positions().len()
                            && earlier.failed_positions()[f] == at;
                    assert(earlier.positions().contains(earlier.failed_positions()[f]));
                }
            } else {
                assert(later.failed_positions()[earlier.failed_positions().len() as int] == at);
            }
        }
    }
    assert(later.calls(startup) =~= grown);
}

/// Ordered collection of the registered subsystems. Registration order is the
/// startup order; shutdown uses its reverse.
///
/// A registry keeps, for its contracts alone, the list of the lifecycle
/// calls it has made on its entries.
pub struct Registry {
    entries: Vec<NamedSystem>,
    made: Ghost<Seq<LifecycleCall>>,
}

impl View for Registry {
    type V = Seq<EntryView>;

    closed spec fn view(&self) -> Seq<EntryView> {
        self.entries@.map_values(|e: NamedSystem| e@)
    }
}

/// The `enabled` flag of every entry of `entries`, in registration order.
pub open spec fn flags_of(entries: Seq<EntryView>) -> Seq<bool> {
    entries.map_values(|e: EntryView| e.enabled)
}

impl Registry {
    /// The `enabled` flag of every entry, in registration order.
    pub open spec fn flags(&self) -> Seq<bool> {
        flags_of(self@)
    }

    /// The lifecycle calls this registry has made on its entries, oldest
    /// first.
    pub closed spec fn calls(&self) -> Seq<LifecycleCall> {
        self.made@
    }

    /// An empty registry, on which no call was made.
    pub fn new() -> (registry: Self)
        ensures
            registry@ == Seq::<EntryView>::empty(),
            registry.calls() == Seq::<LifecycleCall>::empty(),
    {
        let registry = Registry { entries: Vec::new(), made: Ghost(Seq::empty()) };
        assert(registry@ =~= Seq::<EntryView>::empty());
        registry
    }

    /// Number of entries, disabled ones included.
    pub fn len(&self) -> (count: usize)
        ensures
            count == self@.len(),
    {
        self.entries.len()
    }

    /// Appends `system` under `name`, enabled.
    pub fn register<S: RustgineSystem + 'static>(&mut self, name: &str, system: S)
        ensures
            final(self)@ == old(self)@.push(EntryView { name: name@, enabled: true }),
            final(self).calls() == old(self).calls(),
    {
        let entry = NamedSystem::new(name, system);
        self.entries.push(entry);
        assert(self@ =~= old(self)@.push(EntryView { name: name@, enabled: true }));
    }

    /// The entry at `index`, if there is one.
    pub fn get(&self, index: usize) -> (entry: Option<&NamedSystem>)
        ensures
            index < self@.len() ==> entry is Some && entry->0@ == self@[index as int],
            index >= self@.len() ==> entry is None,
    {
        if index < self.entries.len() {
            Some(&self.entries[index])
        } else {
            None
        }
    }

    /// Sets the `enabled` flag of the entry at `index`. Returns whether there
    /// is such an entry; without one the registry is left as it was.
    pub fn set_enabled(&mut self, index: usize, enabled: bool) -> (found: bool)
        ensures
            found == (index < old(self)@.len()),
            found ==> final(self)@ == old(self)@.update(
                index as int,
                EntryView { name: old(self)@[index as int].name, enabled },
            ),
            !found ==> final(self)@ == old(self)@,
            final(self).calls() == old(self).calls(),
    {
        if index < self.entries.len() {
            self.entries[index].enabled = enabled;
            assert(self@ =~= old(self)@.update(
                index as int,
                EntryView { name: old(self)@[index as int].name, enabled },
            ));
            true
        } else {
            false
        }
    }

    /// Positions a startup sweep visits, in visiting order.
    pub fn startup_order(&self) -> (positions: Vec<usize>)
        ensures
            as_positions(positions@) == start_order(self.flags()),
    {
        let count: usize = self.entries.len();
        let mut positions: Vec<usize> = Vec::new();
        let mut next: usize = 0;
        assert(self.flags().take(0) =~= Seq::<bool>::empty());
        assert(as_positions(positions@) =~= start_order(self.flags().take(0)));
        while next < count
            invariant
                count == self.entries@.len(),
                next <= count,
                as_positions(positions@) == start_order(self.flags().take(next as int)),
            decreases count - next,
        {
            proof {
                let grown = self.flags().take(next + 1);
                assert(grown.drop_last() =~= self.flags().take(next as int));
                assert(grown.last() == self.entries@[next as int].enabled);
            }
            if self.entries[next].enabled {
                let ghost shorter = positions@;
                positions.push(next);
                assert(as_positions(positions@) =~= as_positions(shorter).push(next as int));
            }
            next = next + 1;
        }
        assert(self.flags().take(count as int) =~= self.flags());
        positions
    }

    /// Positions a shutdown sweep visits, in visiting order.
    pub fn shutdown_order(&self) -> (positions: Vec<usize>)
        ensures
            as_positions(positions@) == stop_order(self.flags()),
    {
        let count: usize = self.entries.len();
        let mut positions: Vec<usize> = Vec::new();
        let mut remaining: usize = count;
        assert(self.flags().take(count as int) =~= self.flags());
        assert(as_positions(positions@) + stop_order(self.flags()) =~= stop_order(self.flags()));
        while remaining > 0
            invariant
                count == self.entries@.len(),
                remaining <= count,
                stop_order(self.flags()) == as_positions(positions@) + stop_order(
                    self.flags().take(remaining as int),
                ),
            decreases remaining,
        {
            proof {
                let current = self.flags().take(remaining as int);
                assert(current.drop_last() =~= self.flags().take(remaining - 1));
                assert(current.last() == self.entries@[remaining - 1].enabled);
            }
            remaining = remaining - 1;
            if self.entries[remaining].enabled {
                let ghost shorter = positions@;
                positions.push(remaining);
                assert(as_positions(positions@) =~= as_positions(shorter).push(remaining as int));
                assert(as_positions(positions@) + stop_order(self.flags().take(remaining as int))
                    =~= as_positions(shorter) + (seq![remaining as int] + stop_order(
                    self.flags().take(remaining as int),
                )));
            }
        }
        assert(self.flags().take(0) =~= Seq::<bool>::empty());
        assert(as_positions(positions@) + Seq::<int>::empty() =~= as_positions(positions@));
        positions
    }

    /// Calls `startup` on the entry at `index` and notes the call.
    fn start_entry(&mut self, index: usize) -> (outcome: Result<(), anyhow::Error>)
        requires
            index < old(self)@.len(),
        ensures
            final(self)@ == old(self)@,
            final(self).calls() == old(self).calls().push(
                LifecycleCall { position: index as int, startup: true, succeeded: outcome is Ok },
            ),
    {
        let entry = &mut self.entries[index];
        let outcome = entry.system.startup();
        proof {
            self.made@ = self.made@.push(
                LifecycleCall { position: index as int, startup: true, succeeded: outcome is Ok },
            );
        }
        assert(self@ =~= old(self)@);
        outcome
    }

    /// Calls `shutdown` on the entry at `index` and notes the call.
    fn stop_entry(&mut self, index: usize) -> (outcome: Result<(), anyhow::Error>)
        requires
            index < old(self)@.len(),
        ensures
            final(self)@ == old(self)@,
            final(self).calls() == old(self).calls().push(
                LifecycleCall { position: index as int, startup: false, succeeded: outcome is Ok },
            ),
    {
        let entry = &mut self.entries[index];
        let outcome = entry.system.shutdown();
        proof {
            self.made@ = self.made@.push(
                LifecycleCall { position: index as int, startup: false, succeeded: outcome is Ok },
            );
        }
        assert(self@ =~= old(self)@);
        outcome
    }

    /// Starts the enabled subsystems in registration order and stops at the
    /// first one that fails: the entries after it are not started, the ones
    /// before it stay started.
    ///
    /// The report lists the entries whose `startup` was called. Without a
    /// failure that is the whole startup order; with one it is the startup
    /// order up to and including the entry that failed. The calls of the
    /// registry grow by the calls the report stands for.
    pub fn start_all(&mut self) -> (report: SweepReport)
        ensures
            final(self)@ == old(self)@,
            report.positions().len() <= start_order(old(self).flags()).len(),
            report.positions() == start_order(old(self).flags()).take(
                report.positions().len() as int,
            ),
            report.failures@.len() <= 1,
            report.failures@.len() == 0 ==> report.positions() == start_order(old(self).flags()),
            report.failures@.len() == 1 ==> report.positions().len() > 0
                && report.failures@[0].index == report.positions().last(),
            report.failures_within(old(self)@),
            final(self).calls() == old(self).calls() + report.calls(true),
    {
        let ghost before = self@;
        let ghost flags = self.flags();
        let ghost base = self.calls();
        let count: usize = self.entries.len();
        let mut report = SweepReport::new();
        let mut next: usize = 0;
        assert(flags.take(0) =~= Seq::<bool>::empty());
        assert(report.positions() =~= start_order(flags.take(0)));
        assert(self.calls() =~= base + report.calls(true));
        while next < count
            invariant
                before == old(self)@,
                base == old(self).calls(),
                self.calls() == base + report.calls(true),
                self@ == before,
                flags == self.flags(),
                count == before.len(),
                next <= count,
                report.positions() == start_order(flags.take(next as int)),
                report.failures@.len() == 0,
            decreases count - next,
        {
            proof {
                let grown = flags.take(next + 1);
                assert(grown.drop_last() =~= flags.take(next as int));
                assert(grown.last() == before[next as int].enabled);
            }
            if self.entries[next].enabled {
                let ghost shorter = report.visited@;
                let ghost earlier = report;
                let outcome = self.start_entry(next);
                let started = report.record(next, &self.entries[next].name, outcome);
                assert(report.positions() =~= as_positions(shorter).push(next as int));
                proof {
                    lemma_start_order_exact(flags.take(next as int));
                    if earlier.positions().contains(next as int) {
                        let at = choose|at: int|
                            0 <= at < earlier.positions().len() && earlier.positions()[at] == next;
                        assert(start_order(flags.take(next as int))[at] < next);
                    }
                    if started {
                        assert(report.failed_positions() =~= earlier.failed_positions());
                    } else {
                        assert(report.failed_positions() =~= earlier.failed_positions().push(
                            next as int,
                        ));
                    }
                    lemma_report_gains_call(earlier, report, true, next as int, started);
                    assert(self.calls() =~= base + report.calls(true));
                }
                if !started {
                    proof {
                        lemma_start_order_prefix(flags, next + 1);
                        assert(report.positions()[report.positions().len() - 1] == next);
                        assert(report.failures@[0] == report.failures@.last());
                    }
                    return report;
                }
            }
            next = next + 1;
        }
        assert(flags.take(count as int) =~= flags);
        report
    }

    /// Shuts the enabled subsystems down in the reverse of registration
    /// order.
    ///
    /// Under `ContinueOnError` every enabled subsystem is shut down whatever
    /// the others return, and the report collects the failures. Under
    /// `AbortOnFirstError` the sweep ends with the first subsystem that
    /// fails, which is then the last entry of the report. The calls of the
    /// registry grow by the calls the report stands for.
    pub fn stop_all(&mut self, policy: ShutdownPolicy) -> (report: SweepReport)
        ensures
            final(self)@ == old(self)@,
            report.positions().len() <= stop_order(old(self).flags()).len(),
            report.positions() == stop_order(old(self).flags()).take(
                report.positions().len() as int,
            ),
            policy == ShutdownPolicy::ContinueOnError ==> report.positions() == stop_order(
                old(self).flags(),
            ),
            policy == ShutdownPolicy::AbortOnFirstError ==> report.failures@.len() <= 1,
            policy == ShutdownPolicy::AbortOnFirstError && report.failures@.len() == 1
                ==> report.positions().len() > 0 && report.failures@[0].index
                == report.positions().last(),
            report.failures@.len() == 0 ==> report.positions() == stop_order(old(self).flags()),
            report.failures_within(old(self)@),
            descending(report.failed_positions()),
            final(self).calls() == old(self).calls() + report.calls(false),
    {
        let ghost before = self@;
        let ghost flags = self.flags();
        let ghost base = self.calls();
        let count: usize = self.entries.len();
        let mut report = SweepReport::new();
        let mut remaining: usize = count;
        let mut aborted: bool = false;
        assert(flags.take(count as int) =~= flags);
        assert(report.positions() + stop_order(flags) =~= stop_order(flags));
        assert(self.calls() =~= base + report.calls(false));
        while remaining > 0 && !aborted
            invariant
                self.calls() == base + report.calls(false),
                self@ == before,
                flags == self.flags(),
                count == before.len(),
                remaining <= count,
                stop_order(flags) == report.positions() + stop_order(flags.take(remaining as int)),
                forall|k: int|
                    0 <= k < report.visited@.len() ==> remaining <= #[trigger] report.visited@[k]
                        < count,
                report.failures_within(before),
                descending(report.failed_positions()),
                aborted ==> policy == ShutdownPolicy::AbortOnFirstError && report.failures@.len()
                    == 1 && report.visited@.len() > 0 && report.failures@[0].index
                    == report.visited@.last(),
                !aborted && policy == ShutdownPolicy::AbortOnFirstError ==> report.failures@.len()
                    == 0,
            decreases remaining + (if aborted { 0int } else { 1int }),
        {
            proof {
                let current = flags.take(remaining as int);
                assert(current.drop_last() =~= flags.take(remaining - 1));
                assert(current.last() == before[remaining - 1].enabled);
            }
            remaining = remaining - 1;
            if self.entries[remaining].enabled {
                let ghost earlier = report;
                let outcome = self.stop_entry(remaining);
                let stopped = report.record(remaining, &self.entries[remaining].name, outcome);
                proof {
                    assert(report.positions() =~= earlier.positions().push(remaining as int));
                    assert(report.positions() + stop_order(flags.take(remaining as int))
                        =~= earlier.positions() + (seq![remaining as int] + stop_order(
                        flags.take(remaining as int),
                    )));
                    assert(report.positions()[earlier.positions().len() as int] == remaining);
                    assert forall|k: int| 0 <= k < report.failures@.len() implies {
                        &&& report.positions().contains(#[trigger] report.failures@[k].index as int)
                        &&& 0 <= report.failures@[k].index < before.len()
                        &&& report.failures@[k].name@
                            == before[report.failures@[k].index as int].name
                    } by {
                        if k < earlier.failures@.len() {
                            if !stopped {
                                assert(report.failures@[k] == report.failures@.drop_last()[k]);
                            }
                            let at = choose|at: int|
                                0 <= at < earlier.positions().len() && earlier.positions()[at]
                                    == earlier.failures@[k].index as int;
                            assert(report.positions()[at] == earlier.failures@[k].index as int);
                        }
                    }
                    if earlier.positions().contains(remaining as int) {
                        let at = choose|at: int|
                            0 <= at < earlier.positions().len() && earlier.positions()[at]
                                == remaining;
                        assert(earlier.visited@[at] > remaining);
                    }
                    let failed_earlier = earlier.failed_positions();
                    assert forall|k: int|
                        0 <= k < failed_earlier.len() implies earlier.positions().contains(
                        #[trigger] failed_earlier[k],
                    ) by {
                        assert(earlier.positions().contains(earlier.failures@[k].index as int));
                    }
                    if stopped {
                        assert(report.failed_positions() =~= earlier.failed_positions());
                    } else {
                        assert(report.failed_positions() =~= earlier.failed_positions().push(
                            remaining as int,
                        ));
                    }
                    lemma_report_gains_call(earlier, report, false, remaining as int, stopped);
                    assert(self.calls() =~= base + report.calls(false));
                    let failed = report.failed_positions();
                    assert forall|a: int, b: int|
                        0 <= a < b < failed.len() implies failed[a] > failed[b] by {
                        if !stopped {
                            assert(report.failures@[a] == report.failures@.drop_last()[a]);
                        }
                        if b == earlier.failures@.len() {
                            let at = choose|at: int|
                                0 <= at < earlier.positions().len() && earlier.positions()[at]
                                    == earlier.failures@[a].index as int;
                            assert(earlier.visited@[at] > remaining);
                        } else {
                            if !stopped {
                                assert(report.failures@[b] == report.failures@.drop_last()[b]);
                            }
                            assert(earlier.failed_positions()[a] > earlier.failed_positions()[b]);
                        }
                    }
                }
                if !stopped {
                    match policy {
                        ShutdownPolicy::ContinueOnError => {},
                        ShutdownPolicy::AbortOnFirstError => {
                            aborted = true;
                        },
                    }
                }
            }
        }
        proof {
            if !aborted {
                assert(flags.take(0) =~= Seq::<bool>::empty());
                assert(report.positions() + Seq::<int>::empty() =~= report.positions());
            }
            assert(report.positions() =~= stop_order(flags).take(report.positions().len() as int));
        }
        report
    }
}

} // verus!
