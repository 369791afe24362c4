//! The monitor as a mathematical state machine: what discovery yields, which
//! containers a check restarts, and how each event moves the monitor on.

use crate::config::Configuration;
use crate::parse::DescriptorModel;
use crate::protocol::{
    ActionModel, CadenceModel, EventModel, HistoryModel, Phase, PlannedRestart, StatusModel,
    SETTLE_SECONDS,
};
use crate::state::{
    declare, distinct_identities, lemma_declare, lemma_record_at, lemma_with_failure,
    lemma_with_success, record_of, records_well_formed, running_count, with_failure,
    with_success, ManagedEntry,
};
use crate::text::text_set;
use vstd::prelude::*;

verus! {

/// `entries` after each of `names` was declared by `owning_unit`, in order.
pub open spec fn declare_each(
    entries: Seq<ManagedEntry>,
    names: Seq<Seq<char>>,
    owning_unit: Seq<char>,
) -> Seq<ManagedEntry>
    decreases names.len(),
{
    if names.len() == 0 {
        entries
    } else {
        declare(declare_each(entries, names.drop_last(), owning_unit), names.last(), owning_unit)
    }
}

/// `entries` after the containers of `descriptor` were declared. A
/// descriptor that could not be loaded declares nothing.
pub open spec fn declare_descriptor(
    entries: Seq<ManagedEntry>,
    descriptor: DescriptorModel,
) -> Seq<ManagedEntry> {
    match descriptor.containers {
        Some(names) => declare_each(entries, names, descriptor.path),
        None => entries,
    }
}

/// The managed set that discovery builds from `descriptors`: it starts
/// empty, and each descriptor in turn declares its containers.
pub open spec fn discovered(descriptors: Seq<DescriptorModel>) -> Seq<ManagedEntry>
    decreases descriptors.len(),
{
    if descriptors.len() == 0 {
        Seq::empty()
    } else {
        declare_descriptor(discovered(descriptors.drop_last()), descriptors.last())
    }
}

/// Whether a check at `now` restarts `entry`: it is not running, its failure
/// streak is below `max_consecutive_failures`, and it is not backing off.
pub open spec fn needs_restart(
    entry: ManagedEntry,
    running: Set<Seq<char>>,
    max_consecutive_failures: nat,
    now: nat,
) -> bool {
    !running.contains(entry.identity) && entry.record.eligible(max_consecutive_failures, now)
}

/// The restarts that a check at `now` decides on, in managed order.
pub open spec fn restart_candidates(
    entries: Seq<ManagedEntry>,
    running: Set<Seq<char>>,
    max_consecutive_failures: nat,
    now: nat,
) -> Seq<PlannedRestart>
    decreases entries.len(),
{
    if entries.len() == 0 {
        Seq::empty()
    } else {
        let earlier = restart_candidates(
            entries.drop_last(),
            running,
            max_consecutive_failures,
            now,
        );
        let last = entries.last();
        if needs_restart(last, running, max_consecutive_failures, now) {
            earlier.push(
                PlannedRestart { identity: last.identity, owning_unit: last.record.owning_unit },
            )
        } else {
            earlier
        }
    }
}

/// Whether `candidate` names an entry of `entries` that a check at `now`
/// restarts, and the compose file of that entry.
pub open spec fn restart_due(
    entries: Seq<ManagedEntry>,
    candidate: PlannedRestart,
    running: Set<Seq<char>>,
    max_consecutive_failures: nat,
    now: nat,
) -> bool {
    exists|at: int|
        0 <= at < entries.len() && (#[trigger] entries[at]).identity == candidate.identity
            && entries[at].record.owning_unit == candidate.owning_unit && needs_restart(
            entries[at],
            running,
            max_consecutive_failures,
            now,
        )
}

/// Whether `entry` was ever restarted or has failed.
pub open spec fn has_history(entry: ManagedEntry) -> bool {
    entry.record.restart_count > 0 || entry.record.consecutive_failures > 0
}

/// The counters of the entries that have a history, in managed order.
pub open spec fn histories_of(entries: Seq<ManagedEntry>) -> Seq<HistoryModel>
    decreases entries.len(),
{
    if entries.len() == 0 {
        Seq::empty()
    } else {
        let earlier = histories_of(entries.drop_last());
        let last = entries.last();
        if has_history(last) {
            earlier.push(
                HistoryModel {
                    identity: last.identity,
                    restart_count: last.record.restart_count,
                    consecutive_failures: last.record.consecutive_failures,
                },
            )
        } else {
            earlier
        }
    }
}

/// The status summary of `entries` against the observed set `running`.
pub open spec fn status_of(entries: Seq<ManagedEntry>, running: Set<Seq<char>>) -> StatusModel {
    StatusModel {
        total: entries.len(),
        running: running_count(entries, running),
        histories: histories_of(entries),
    }
}

/// The timer periods that `config` asks for.
pub open spec fn cadence_of(config: Configuration) -> CadenceModel {
    CadenceModel {
        check_interval_seconds: config.check_interval_seconds,
        status_interval_seconds: config.status_interval_seconds,
    }
}

/// The monitor, as a mathematical value.
pub struct MonitorModel {
    /// The active configuration.
    pub config: Configuration,
    /// Where the configuration is read from.
    pub config_path: Seq<char>,
    /// The managed set, in declaration order.
    pub managed: Seq<ManagedEntry>,
    /// The observed set of the last check.
    pub running: Set<Seq<char>>,
    /// What the monitor is doing.
    pub phase: Phase,
    /// The periods of the timers; `None` until the first check is over and
    /// the timers run.
    pub cadence: Option<CadenceModel>,
    /// The restarts that the running check has still to make; the first is
    /// the one in progress.
    pub pending: Seq<PlannedRestart>,
}

impl MonitorModel {
    /// A monitor that has not loaded anything yet: it starts by asking for
    /// the compose files.
    pub open spec fn initial(config: Configuration, config_path: Seq<char>) -> MonitorModel {
        MonitorModel {
            config,
            config_path,
            managed: Seq::empty(),
            running: Set::empty(),
            phase: Phase::StartingUp,
            cadence: None,
            pending: Seq::empty(),
        }
    }

    /// The periods with which the timers fire: those of the configuration
    /// that was active when the timers began to run.
    pub open spec fn timers(self) -> CadenceModel {
        match self.cadence {
            Some(cadence) => cadence,
            None => cadence_of(self.config),
        }
    }

    /// Whether a restart is in progress.
    pub open spec fn restarting(self) -> bool {
        self.phase == Phase::StoppingUnit || self.phase == Phase::StartingUnit || self.phase
            == Phase::Settling || self.phase == Phase::Verifying
    }

    /// Whether the restart at place `k` of the pending ones is of a managed
    /// container whose failure streak is below the limit.
    pub open spec fn pending_below_limit(self, k: int) -> bool {
        match record_of(self.managed, self.pending[k].identity) {
            Some(record) => record.consecutive_failures < self.config.max_consecutive_failures,
            None => false,
        }
    }

    /// No container is managed twice, and each record that has a history has
    /// its backoff clock set; while the monitor waits for a timer, the
    /// timers run; restarts are pending exactly while one is in progress; no
    /// container is pending twice, and each pending one is managed with a
    /// failure streak below the limit.
    pub open spec fn well_formed(self) -> bool {
        &&& distinct_identities(self.managed)
        &&& self.phase == Phase::Idle ==> self.cadence is Some
        &&& records_well_formed(self.managed)
        &&& self.restarting() <==> self.pending.len() > 0
        &&& forall|i: int, j: int|
            0 <= i < j < self.pending.len() ==> self.pending[i].identity
                != self.pending[j].identity
        &&& forall|k: int| 0 <= k < self.pending.len() ==> self.pending_below_limit(k)
    }

    /// Whether the counter of verified restarts can take the restart that is
    /// being verified.
    pub open spec fn can_count_restart(self) -> bool {
        self.phase == Phase::Verifying ==> match record_of(
            self.managed,
            self.pending[0].identity,
        ) {
            Some(record) => record.restart_count < u32::MAX,
            None => true,
        }
    }

    /// The action whose answer the monitor is waiting for.
    pub open spec fn awaited(self) -> ActionModel {
        match self.phase {
            Phase::StartingUp => ActionModel::LoadDescriptors(self.config.compose_files),
            Phase::Idle => ActionModel::AwaitTick(self.timers()),
            Phase::Discovering => ActionModel::LoadDescriptors(self.config.compose_files),
            Phase::Reporting => ActionModel::ReportStatus(status_of(self.managed, self.running)),
            Phase::LoadingConfig => ActionModel::LoadConfig(self.config_path),
            Phase::Listing => ActionModel::ListRunning,
            Phase::StoppingUnit => ActionModel::StopUnit(self.pending[0]),
            Phase::StartingUnit => ActionModel::StartUnit(self.pending[0]),
            Phase::Settling => ActionModel::Settle(SETTLE_SECONDS as nat),
            Phase::Verifying => ActionModel::ListRunning,
        }
    }

    /// The monitor in `phase`, and the action that it then waits for. The
    /// timers begin to run when the monitor first waits for them, with the
    /// periods of the configuration that is active then.
    pub open spec fn enter(self, phase: Phase) -> (MonitorModel, ActionModel) {
        let cadence = if phase == Phase::Idle {
            Some(self.timers())
        } else {
            self.cadence
        };
        let next = MonitorModel { phase, cadence, ..self };
        (next, next.awaited())
    }

    /// The next pending restart is begun; where none is left, the check is
    /// over.
    pub open spec fn attempt_next(self) -> (MonitorModel, ActionModel) {
        if self.pending.len() > 0 {
            self.enter(Phase::StoppingUnit)
        } else {
            self.enter(Phase::Idle)
        }
    }

    /// The restart in progress is done with.
    pub open spec fn finish_attempt(self, managed: Seq<ManagedEntry>) -> (
        MonitorModel,
        ActionModel,
    ) {
        (MonitorModel { managed, pending: self.pending.skip(1), ..self }).attempt_next()
    }

    /// The configuration file was read again. A configuration that names
    /// other compose files replaces the active one, and the check gives way
    /// to discovery. Otherwise the check goes on, unless nothing is managed.
    pub open spec fn after_config(self, loaded: Option<Configuration>) -> (
        MonitorModel,
        ActionModel,
    ) {
        match loaded {
            Some(config) if config.compose_files != self.config.compose_files => (MonitorModel {
                config,
                ..self
            }).enter(Phase::Discovering),
            _ => if self.managed.len() == 0 {
                self.enter(Phase::Idle)
            } else {
                self.enter(Phase::Listing)
            },
        }
    }

    /// The runtime named the running containers `names` at `now`: the
    /// observed set is replaced, and the restarts are decided.
    pub open spec fn after_listing(self, names: Seq<Seq<char>>, now: nat) -> (
        MonitorModel,
        ActionModel,
    ) {
        let running = text_set(names);
        (MonitorModel {
            running,
            pending: restart_candidates(
                self.managed,
                running,
                self.config.max_consecutive_failures,
                now,
            ),
            ..self
        }).attempt_next()
    }

    /// The runtime was asked again after the restart in progress. Where it
    /// answered, the restart is recorded as a success if the container is
    /// among `names`, as a failure if not; where it did not answer, nothing
    /// is recorded.
    pub open spec fn after_recheck(self, listed: Option<Seq<Seq<char>>>, now: nat) -> (
        MonitorModel,
        ActionModel,
    ) {
        let identity = self.pending[0].identity;
        match listed {
            Some(names) => if names.contains(identity) {
                self.finish_attempt(with_success(self.managed, identity, now))
            } else {
                self.finish_attempt(with_failure(self.managed, identity, now))
            },
            None => self.finish_attempt(self.managed),
        }
    }

    /// The monitor after `event` at `now`, and what it asks for next. An
    /// event that the monitor is not waiting for changes nothing, and the
    /// monitor asks again for what it is waiting for.
    pub open spec fn step(self, event: EventModel, now: nat) -> (MonitorModel, ActionModel) {
        match (self.phase, event) {
            (Phase::Idle, EventModel::CheckTick) => self.enter(Phase::LoadingConfig),
            (Phase::Idle, EventModel::StatusTick) => self.enter(Phase::Reporting),
            (Phase::Reporting, EventModel::StatusReported) => self.enter(Phase::Discovering),
            (Phase::StartingUp, EventModel::DescriptorsLoaded(descriptors)) => (MonitorModel {
                managed: discovered(descriptors),
                ..self
            }).enter(Phase::LoadingConfig),
            (Phase::Discovering, EventModel::DescriptorsLoaded(descriptors)) => (MonitorModel {
                managed: discovered(descriptors),
                ..self
            }).enter(Phase::Idle),
            (Phase::LoadingConfig, EventModel::ConfigLoaded(loaded)) => self.after_config(loaded),
            (Phase::Listing, EventModel::RunningListed(Some(names))) => self.after_listing(
                names,
                now,
            ),
            (Phase::Listing, EventModel::RunningListed(None)) => self.enter(Phase::Idle),
            (Phase::StoppingUnit, EventModel::UnitStopped(true)) => self.enter(
                Phase::StartingUnit,
            ),
            (Phase::StoppingUnit, EventModel::UnitStopped(false)) => self.finish_attempt(
                with_failure(self.managed, self.pending[0].identity, now),
            ),
            (Phase::StartingUnit, EventModel::UnitStarted(true)) => self.enter(Phase::Settling),
            (Phase::StartingUnit, EventModel::UnitStarted(false)) => self.finish_attempt(
                with_failure(self.managed, self.pending[0].identity, now),
            ),
            (Phase::Settling, EventModel::Settled) => self.enter(Phase::Verifying),
            (Phase::Verifying, EventModel::RunningListed(listed)) => self.after_recheck(
                listed,
                now,
            ),
            _ => (self, self.awaited()),
        }
    }
}

/// Declaring several containers keeps the identities distinct and the
/// records well formed.
pub proof fn lemma_declare_each(
    entries: Seq<ManagedEntry>,
    names: Seq<Seq<char>>,
    owning_unit: Seq<char>,
)
    requires
        distinct_identities(entries),
        records_well_formed(entries),
    ensures
        distinct_identities(declare_each(entries, names, owning_unit)),
        records_well_formed(declare_each(entries, names, owning_unit)),
    decreases names.len(),
{
    if names.len() > 0 {
        lemma_declare_each(entries, names.drop_last(), owning_unit);
        lemma_declare(
            declare_each(entries, names.drop_last(), owning_unit),
            names.last(),
            owning_unit,
        );
    }
}

/// Discovery never yields a container twice, and its records are well
/// formed.
pub proof fn lemma_discovered_distinct(descriptors: Seq<DescriptorModel>)
    ensures
        distinct_identities(discovered(descriptors)),
        records_well_formed(discovered(descriptors)),
    decreases descriptors.len(),
{
    if descriptors.len() > 0 {
        lemma_discovered_distinct(descriptors.drop_last());
        match descriptors.last().containers {
            Some(names) => lemma_declare_each(
                discovered(descriptors.drop_last()),
                names,
                descriptors.last().path,
            ),
            None => {},
        }
    }
}

/// Each restart that a check decides on is of a managed container that
/// needs it, and no container is restarted twice.
pub proof fn lemma_candidates_sound(
    entries: Seq<ManagedEntry>,
    running: Set<Seq<char>>,
    max_consecutive_failures: nat,
    now: nat,
)
    requires
        distinct_identities(entries),
    ensures
        ({
            let candidates = restart_candidates(entries, running, max_consecutive_failures, now);
            &&& forall|i: int, j: int|
                0 <= i < j < candidates.len() ==> candidates[i].identity
                    != candidates[j].identity
            &&& forall|k: int|
                0 <= k < candidates.len() ==> restart_due(
                    entries,
                    #[trigger] candidates[k],
                    running,
                    max_consecutive_failures,
                    now,
                )
        }),
    decreases entries.len(),
{
    if entries.len() > 0 {
        let shorter = entries.drop_last();
        let earlier = restart_candidates(shorter, running, max_consecutive_failures, now);
        let candidates = restart_candidates(entries, running, max_consecutive_failures, now);
        lemma_candidates_sound(shorter, running, max_consecutive_failures, now);
        assert forall|k: int| 0 <= k < candidates.len() implies restart_due(
            entries,
            #[trigger] candidates[k],
            running,
            max_consecutive_failures,
            now,
        ) by {
            if k < earlier.len() {
                assert(restart_due(shorter, earlier[k], running, max_consecutive_failures, now));
                let at = choose|at: int|
                    0 <= at < shorter.len() && (#[trigger] shorter[at]).identity
                        == earlier[k].identity && shorter[at].record.owning_unit
                        == earlier[k].owning_unit && needs_restart(
                        shorter[at],
                        running,
                        max_consecutive_failures,
                        now,
                    );
                assert(entries[at] == shorter[at]);
            } else {
                assert(entries[entries.len() - 1] == entries.last());
            }
        }
        assert forall|i: int, j: int| 0 <= i < j < candidates.len() implies candidates[i].identity
            != candidates[j].identity by {
            if j >= earlier.len() {
                assert(restart_due(shorter, earlier[i], running, max_consecutive_failures, now));
                let at = choose|at: int|
                    0 <= at < shorter.len() && (#[trigger] shorter[at]).identity
                        == earlier[i].identity && shorter[at].record.owning_unit
                        == earlier[i].owning_unit && needs_restart(
                        shorter[at],
                        running,
                        max_consecutive_failures,
                        now,
                    );
                assert(entries[at].identity != entries[entries.len() - 1].identity);
            }
        }
    }
}

/// Each transition keeps the monitor well formed.
pub proof fn lemma_step_well_formed(monitor: MonitorModel, event: EventModel, now: nat)
    requires
        monitor.well_formed(),
    ensures
        monitor.step(event, now).0.well_formed(),
{
    let next = monitor.step(event, now).0;
    if next.pending == monitor.pending && next.managed == monitor.managed && next.config
        == monitor.config {
        assert forall|k: int| 0 <= k < next.pending.len() implies next.pending_below_limit(k) by {
            assert(monitor.pending_below_limit(k));
        }
    }
    match (monitor.phase, event) {
        (Phase::StartingUp, EventModel::DescriptorsLoaded(descriptors)) => {
            lemma_discovered_distinct(descriptors);
        },
        (Phase::Discovering, EventModel::DescriptorsLoaded(descriptors)) => {
            lemma_discovered_distinct(descriptors);
        },
        (Phase::Listing, EventModel::RunningListed(Some(names))) => {
            let running = text_set(names);
            let limit = monitor.config.max_consecutive_failures;
            lemma_candidates_sound(monitor.managed, running, limit, now);
            assert forall|k: int| 0 <= k < next.pending.len() implies next.pending_below_limit(
                k,
            ) by {
                assert(restart_due(monitor.managed, next.pending[k], running, limit, now));
                let at = choose|at: int|
                    0 <= at < monitor.managed.len() && (#[trigger] monitor.managed[at]).identity
                        == next.pending[k].identity && monitor.managed[at].record.owning_unit
                        == next.pending[k].owning_unit && needs_restart(
                        monitor.managed[at],
                        running,
                        limit,
                        now,
                    );
                lemma_record_at(monitor.managed, at);
            }
        },
        (Phase::StoppingUnit, EventModel::UnitStopped(false)) => {
            lemma_attempt_finished(
                monitor,
                with_failure(monitor.managed, monitor.pending[0].identity, now),
                now,
            );
        },
        (Phase::StartingUnit, EventModel::UnitStarted(false)) => {
            lemma_attempt_finished(
                monitor,
                with_failure(monitor.managed, monitor.pending[0].identity, now),
                now,
            );
        },
        (Phase::Verifying, EventModel::RunningListed(listed)) => {
            let identity = monitor.pending[0].identity;
            match listed {
                Some(names) => {
                    if names.contains(identity) {
                        lemma_attempt_finished(
                            monitor,
                            with_success(monitor.managed, identity, now),
                            now,
                        );
                    } else {
                        lemma_attempt_finished(
                            monitor,
                            with_failure(monitor.managed, identity, now),
                            now,
                        );
                    }
                },
                None => {
                    lemma_attempt_finished(monitor, monitor.managed, now);
                },
            }
        },
        _ => {},
    }
}

/// Once the restart in progress is recorded, or left unrecorded, the monitor
/// is well formed again.
proof fn lemma_attempt_finished(monitor: MonitorModel, managed: Seq<ManagedEntry>, now: nat)
    requires
        monitor.well_formed(),
        monitor.pending.len() > 0,
        managed == monitor.managed || managed == with_success(
            monitor.managed,
            monitor.pending[0].identity,
            now,
        ) || managed == with_failure(monitor.managed, monitor.pending[0].identity, now),
    ensures
        monitor.finish_attempt(managed).0.well_formed(),
{
    let identity = monitor.pending[0].identity;
    let next = monitor.finish_attempt(managed).0;
    lemma_with_success(monitor.managed, identity, now);
    lemma_with_failure(monitor.managed, identity, now);
    assert forall|k: int| 0 <= k < next.pending.len() implies next.pending_below_limit(k) by {
        assert(next.pending[k] == monitor.pending[k + 1]);
        assert(monitor.pending_below_limit(k + 1));
        assert(monitor.pending[k + 1].identity != identity);
    }
    assert forall|i: int, j: int| 0 <= i < j < next.pending.len() implies next.pending[i].identity
        != next.pending[j].identity by {
        assert(next.pending[i] == monitor.pending[i + 1]);
        assert(next.pending[j] == monitor.pending[j + 1]);
    }
}

} // verus!
