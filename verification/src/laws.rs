//! What holds of the monitor on every input, proved from the definitions in
//! the other modules.

use crate::config::Configuration;
use crate::parse::DescriptorModel;
use crate::protocol::{ActionModel, EventModel, Phase};
use crate::reconcile::{
    cadence_of, declare_each, discovered, lemma_candidates_sound,
    lemma_discovered_distinct, needs_restart, restart_candidates,
    restart_due, MonitorModel,
};
use crate::state::{
    backoff_seconds, declare, distinct_identities, is_managed, lemma_position_unique,
    lemma_with_failure, lemma_with_success, position_of, record_of, ContainerRecord,
    ManagedEntry,
};
use crate::text::text_set;
use vstd::arithmetic::power2::{lemma2_to64, pow2};
use vstd::prelude::*;

verus! {

/// The backoff delay after `failures` consecutive failures is
/// `2^min(failures, 6)` seconds: at least one second, at most 64.
pub proof fn lemma_backoff_formula(failures: nat)
    ensures
        backoff_seconds(failures) == pow2(if failures <= 6 { failures } else { 6 }),
        1 <= backoff_seconds(failures) <= 64,
        failures >= 6 ==> backoff_seconds(failures) == 64,
{
    lemma2_to64();
}

/// The backoff delay never falls as the failure streak grows.
pub proof fn lemma_backoff_monotonic(fewer: nat, more: nat)
    requires
        fewer <= more,
    ensures
        backoff_seconds(fewer) <= backoff_seconds(more),
{
    lemma2_to64();
}

/// A verified restart clears the failure streak, counts exactly one more
/// restart and sets the backoff clock to the time of the call.
pub proof fn lemma_success_transition(record: ContainerRecord, now: nat)
    ensures
        record.after_success(now).consecutive_failures == 0,
        record.after_success(now).restart_count == record.restart_count + 1,
        record.after_success(now).last_restart_time == Some(now),
        record.after_success(now).owning_unit == record.owning_unit,
{
}

/// A failed restart adds exactly one to the failure streak and leaves the
/// restart count alone. It sets the backoff clock to the time of the call
/// only where the clock was not set; a clock that was set stays as it was.
pub proof fn lemma_failure_transition(record: ContainerRecord, now: nat)
    ensures
        record.after_failure(now).consecutive_failures == record.consecutive_failures + 1,
        record.after_failure(now).restart_count == record.restart_count,
        record.last_restart_time is Some ==> record.after_failure(now).last_restart_time
            == record.last_restart_time,
        record.last_restart_time is None ==> record.after_failure(now).last_restart_time == Some(
            now,
        ),
        record.after_failure(now).owning_unit == record.owning_unit,
{
}

/// A record with a history has its backoff clock set: this holds of a fresh
/// record, and each transition keeps it.
pub proof fn lemma_history_has_clock(record: ContainerRecord, owning_unit: Seq<char>, now: nat)
    ensures
        ContainerRecord::fresh(owning_unit).well_formed(),
        record.after_success(now).well_formed(),
        record.after_failure(now).well_formed(),
{
}

/// A container whose failure streak has reached the limit is not eligible,
/// however much time has passed.
pub proof fn lemma_exhausted_not_eligible(
    record: ContainerRecord,
    max_consecutive_failures: nat,
    now: nat,
)
    requires
        record.consecutive_failures >= max_consecutive_failures,
    ensures
        !record.eligible(max_consecutive_failures, now),
{
}

/// A check restarts no managed container whose failure streak has reached
/// the limit, whatever the time and whatever is running.
pub proof fn lemma_exhausted_never_selected(
    entries: Seq<ManagedEntry>,
    at: int,
    running: Set<Seq<char>>,
    max_consecutive_failures: nat,
    now: nat,
)
    requires
        distinct_identities(entries),
        0 <= at < entries.len(),
        entries[at].record.consecutive_failures >= max_consecutive_failures,
    ensures
        forall|k: int|
            0 <= k < restart_candidates(entries, running, max_consecutive_failures, now).len()
                ==> (#[trigger] restart_candidates(
                entries,
                running,
                max_consecutive_failures,
                now,
            )[k]).identity != entries[at].identity,
{
    let candidates = restart_candidates(entries, running, max_consecutive_failures, now);
    lemma_candidates_sound(entries, running, max_consecutive_failures, now);
    assert forall|k: int| 0 <= k < candidates.len() implies (#[trigger] candidates[k]).identity
        != entries[at].identity by {
        assert(restart_due(entries, candidates[k], running, max_consecutive_failures, now));
        let found = choose|found: int|
            0 <= found < entries.len() && (#[trigger] entries[found]).identity
                == candidates[k].identity && entries[found].record.owning_unit
                == candidates[k].owning_unit && needs_restart(
                entries[found],
                running,
                max_consecutive_failures,
                now,
            );
        if candidates[k].identity == entries[at].identity {
            lemma_position_unique(entries, found);
            lemma_position_unique(entries, at);
        }
    }
}

/// A check restarts every managed container that needs it: one that is not
/// running, below the failure limit and not backing off.
pub proof fn lemma_needy_is_selected(
    entries: Seq<ManagedEntry>,
    at: int,
    running: Set<Seq<char>>,
    max_consecutive_failures: nat,
    now: nat,
)
    requires
        0 <= at < entries.len(),
        needs_restart(entries[at], running, max_consecutive_failures, now),
    ensures
        exists|k: int|
            0 <= k < restart_candidates(entries, running, max_consecutive_failures, now).len()
                && (#[trigger] restart_candidates(
                entries,
                running,
                max_consecutive_failures,
                now,
            )[k]).identity == entries[at].identity,
    decreases entries.len(),
{
    let candidates = restart_candidates(entries, running, max_consecutive_failures, now);
    let shorter = entries.drop_last();
    let earlier = restart_candidates(shorter, running, max_consecutive_failures, now);
    if at == entries.len() - 1 {
        assert(candidates[earlier.len() as int].identity == entries[at].identity);
    } else {
        lemma_needy_is_selected(shorter, at, running, max_consecutive_failures, now);
        let k = choose|k: int|
            0 <= k < earlier.len() && (#[trigger] earlier[k]).identity == shorter[at].identity;
        assert(candidates[k] == earlier[k]);
    }
}

/// Where every managed container is running, a check restarts none.
pub proof fn lemma_all_running_no_restart(
    entries: Seq<ManagedEntry>,
    running: Set<Seq<char>>,
    max_consecutive_failures: nat,
    now: nat,
)
    requires
        forall|i: int|
            0 <= i < entries.len() ==> running.contains((#[trigger] entries[i]).identity),
    ensures
        restart_candidates(entries, running, max_consecutive_failures, now).len() == 0,
    decreases entries.len(),
{
    if entries.len() > 0 {
        let shorter = entries.drop_last();
        assert forall|i: int| 0 <= i < shorter.len() implies running.contains(
            (#[trigger] shorter[i]).identity,
        ) by {
            assert(shorter[i] == entries[i]);
        }
        lemma_all_running_no_restart(shorter, running, max_consecutive_failures, now);
        assert(entries.last() == entries[entries.len() - 1]);
    }
}

/// Whether every record in `entries` is without history.
pub open spec fn all_fresh(entries: Seq<ManagedEntry>) -> bool {
    forall|i: int|
        0 <= i < entries.len() ==> (#[trigger] entries[i]).record == ContainerRecord::fresh(
            entries[i].record.owning_unit,
        )
}

/// Declaring a container among records without history leaves all records
/// without history.
proof fn lemma_declare_fresh(
    entries: Seq<ManagedEntry>,
    identity: Seq<char>,
    owning_unit: Seq<char>,
)
    requires
        all_fresh(entries),
    ensures
        all_fresh(declare(entries, identity, owning_unit)),
{
    let declared = declare(entries, identity, owning_unit);
    assert forall|i: int| 0 <= i < declared.len() implies (#[trigger] declared[i]).record
        == ContainerRecord::fresh(declared[i].record.owning_unit) by {
        if is_managed(entries, identity) {
            if i != position_of(entries, identity) {
                assert(declared[i] == entries[i]);
            }
        } else if i < entries.len() {
            assert(declared[i] == entries[i]);
        }
    }
}

/// Declaring several containers among records without history leaves all
/// records without history.
proof fn lemma_declare_each_fresh(
    entries: Seq<ManagedEntry>,
    names: Seq<Seq<char>>,
    owning_unit: Seq<char>,
)
    requires
        all_fresh(entries),
    ensures
        all_fresh(declare_each(entries, names, owning_unit)),
    decreases names.len(),
{
    if names.len() > 0 {
        lemma_declare_each_fresh(entries, names.drop_last(), owning_unit);
        lemma_declare_fresh(
            declare_each(entries, names.drop_last(), owning_unit),
            names.last(),
            owning_unit,
        );
    }
}

/// Discovery gives every container a record without history: no restarts,
/// no failures, no backoff clock.
pub proof fn lemma_discovery_resets(descriptors: Seq<DescriptorModel>)
    ensures
        all_fresh(discovered(descriptors)),
        distinct_identities(discovered(descriptors)),
    decreases descriptors.len(),
{
    lemma_discovered_distinct(descriptors);
    if descriptors.len() > 0 {
        lemma_discovery_resets(descriptors.drop_last());
        match descriptors.last().containers {
            Some(names) => lemma_declare_each_fresh(
                discovered(descriptors.drop_last()),
                names,
                descriptors.last().path,
            ),
            None => {},
        }
    }
}

/// A record without history is eligible at once, whatever the time, where
/// the failure limit is not zero.
pub proof fn lemma_fresh_is_eligible(
    owning_unit: Seq<char>,
    max_consecutive_failures: nat,
    now: nat,
)
    requires
        max_consecutive_failures > 0,
    ensures
        ContainerRecord::fresh(owning_unit).eligible(max_consecutive_failures, now),
{
}

/// A descriptor that could not be loaded changes nothing in what discovery
/// yields from the others.
pub proof fn lemma_failed_descriptor_is_skipped(
    before: Seq<DescriptorModel>,
    failed: DescriptorModel,
    after: Seq<DescriptorModel>,
)
    requires
        failed.containers is None,
    ensures
        discovered(before.push(failed) + after) == discovered(before + after),
    decreases after.len(),
{
    if after.len() == 0 {
        assert(before.push(failed) + after =~= before.push(failed));
        assert(before + after =~= before);
        assert(before.push(failed).drop_last() =~= before);
    } else {
        lemma_failed_descriptor_is_skipped(before, failed, after.drop_last());
        assert((before.push(failed) + after).drop_last() =~= before.push(failed)
            + after.drop_last());
        assert((before + after).drop_last() =~= before + after.drop_last());
        assert((before.push(failed) + after).last() == after.last());
        assert((before + after).last() == after.last());
    }
}

/// A check that finds other compose files in the configuration than the
/// active ones swaps the configuration in and asks for discovery: it
/// restarts nothing and touches no record, whatever the containers' state.
/// When the compose files are loaded, the managed set is what discovery
/// yields, and the monitor waits for the next timer.
pub proof fn lemma_config_change_rediscovers(
    monitor: MonitorModel,
    loaded: Configuration,
    descriptors: Seq<DescriptorModel>,
    now: nat,
    later: nat,
)
    requires
        monitor.phase == Phase::LoadingConfig,
        loaded.compose_files != monitor.config.compose_files,
    ensures
        ({
            let (reloading, first) = monitor.step(EventModel::ConfigLoaded(Some(loaded)), now);
            let (rebuilt, second) = reloading.step(
                EventModel::DescriptorsLoaded(descriptors),
                later,
            );
            &&& first == ActionModel::LoadDescriptors(loaded.compose_files)
            &&& reloading == (MonitorModel { config: loaded, phase: Phase::Discovering, ..monitor })
            &&& second == ActionModel::AwaitTick(reloading.timers())
            &&& rebuilt == (MonitorModel {
                managed: discovered(descriptors),
                phase: Phase::Idle,
                cadence: Some(reloading.timers()),
                ..reloading
            })
        }),
{
}

/// A check begins a restart only of a managed container that, when the
/// runtime listed what was running, was not running, was below the failure
/// limit and was not backing off; and it ends at once only where no managed
/// container was so.
pub proof fn lemma_check_restarts_only_the_needy(
    monitor: MonitorModel,
    names: Seq<Seq<char>>,
    now: nat,
)
    requires
        monitor.well_formed(),
        monitor.phase == Phase::Listing,
    ensures
        match monitor.step(EventModel::RunningListed(Some(names)), now).1 {
            ActionModel::StopUnit(restart) => restart_due(
                monitor.managed,
                restart,
                text_set(names),
                monitor.config.max_consecutive_failures,
                now,
            ),
            ActionModel::AwaitTick(_) => restart_candidates(
                monitor.managed,
                text_set(names),
                monitor.config.max_consecutive_failures,
                now,
            ).len() == 0,
            _ => false,
        },
{
    lemma_candidates_sound(
        monitor.managed,
        text_set(names),
        monitor.config.max_consecutive_failures,
        now,
    );
}

/// A check whose listing fails ends there: no record changes, the observed
/// set stays, and nothing is restarted.
pub proof fn lemma_failed_listing_touches_nothing(monitor: MonitorModel, now: nat)
    requires
        monitor.phase == Phase::Listing,
    ensures
        monitor.step(EventModel::RunningListed(None), now) == (
            MonitorModel { phase: Phase::Idle, cadence: Some(monitor.timers()), ..monitor },
            ActionModel::AwaitTick(monitor.timers()),
        ),
{
}

/// The records change only when the compose files were loaded or a restart
/// in progress came to its end: timers, status reports, the configuration
/// and listings touch none.
pub proof fn lemma_records_change_rarely(monitor: MonitorModel, event: EventModel, now: nat)
    ensures
        monitor.step(event, now).0.managed == monitor.managed || (event is DescriptorsLoaded && (
            monitor.phase == Phase::StartingUp || monitor.phase == Phase::Discovering))
            || monitor.restarting(),
{
}

/// The active configuration changes only in a check, and only for one that
/// names other compose files.
pub proof fn lemma_config_changes_only_with_files(
    monitor: MonitorModel,
    event: EventModel,
    now: nat,
)
    ensures
        monitor.step(event, now).0.config != monitor.config ==> {
            &&& monitor.phase == Phase::LoadingConfig
            &&& event matches EventModel::ConfigLoaded(Some(loaded))
            &&& loaded.compose_files != monitor.config.compose_files
            &&& monitor.step(event, now).0.config == loaded
        },
{
}

/// The timers do not run before the first check is over; they begin with
/// the periods of the configuration that is active when the monitor first
/// waits for them, and keep those periods whatever is configured later.
pub proof fn lemma_timers_keep_their_periods(
    monitor: MonitorModel,
    event: EventModel,
    now: nat,
    config: Configuration,
    config_path: Seq<char>,
)
    ensures
        MonitorModel::initial(config, config_path).cadence is None,
        monitor.cadence is Some ==> monitor.step(event, now).0.cadence == monitor.cadence,
        monitor.cadence is None && monitor.step(event, now).0.cadence is Some ==> {
            &&& monitor.step(event, now).0.phase == Phase::Idle
            &&& monitor.step(event, now).0.cadence == Some(
                cadence_of(monitor.step(event, now).0.config),
            )
        },
{
}

/// A restart after which the container is seen running counts as a success
/// for that container: its record takes the success at the time of the
/// listing, every other record stays as it was, and so does the observed
/// set.
pub proof fn lemma_running_after_restart_is_success(
    monitor: MonitorModel,
    names: Seq<Seq<char>>,
    now: nat,
)
    requires
        monitor.well_formed(),
        monitor.phase == Phase::Verifying,
        names.contains(monitor.pending[0].identity),
    ensures
        ({
            let identity = monitor.pending[0].identity;
            let next = monitor.step(EventModel::RunningListed(Some(names)), now).0;
            &&& record_of(monitor.managed, identity) is Some
            &&& record_of(next.managed, identity) == Some(
                record_of(monitor.managed, identity)->0.after_success(now),
            )
            &&& forall|other: Seq<char>|
                other != identity ==> #[trigger] record_of(next.managed, other) == record_of(
                    monitor.managed,
                    other,
                )
            &&& next.running == monitor.running
        }),
{
    assert(monitor.pending_below_limit(0));
    lemma_with_success(monitor.managed, monitor.pending[0].identity, now);
}

/// A restart after which the container is not seen running counts as a
/// failure for that container: its record takes the failure at the time of
/// the listing, and every other record stays as it was.
pub proof fn lemma_absent_after_restart_is_failure(
    monitor: MonitorModel,
    names: Seq<Seq<char>>,
    now: nat,
)
    requires
        monitor.well_formed(),
        monitor.phase == Phase::Verifying,
        !names.contains(monitor.pending[0].identity),
    ensures
        ({
            let identity = monitor.pending[0].identity;
            let next = monitor.step(EventModel::RunningListed(Some(names)), now).0;
            &&& record_of(monitor.managed, identity) is Some
            &&& record_of(next.managed, identity) == Some(
                record_of(monitor.managed, identity)->0.after_failure(now),
            )
            &&& forall|other: Seq<char>|
                other != identity ==> #[trigger] record_of(next.managed, other) == record_of(
                    monitor.managed,
                    other,
                )
            &&& next.running == monitor.running
        }),
{
    assert(monitor.pending_below_limit(0));
    lemma_with_failure(monitor.managed, monitor.pending[0].identity, now);
}

/// A command that fails to stop or to start the deployment unit counts as a
/// failure for the container at once, without a settling delay or a second
/// listing: the monitor goes on to the next pending restart or waits for
/// the timers.
pub proof fn lemma_failed_command_is_failure(monitor: MonitorModel, now: nat)
    requires
        monitor.well_formed(),
        monitor.phase == Phase::StoppingUnit || monitor.phase == Phase::StartingUnit,
    ensures
        ({
            let identity = monitor.pending[0].identity;
            let event = if monitor.phase == Phase::StoppingUnit {
                EventModel::UnitStopped(false)
            } else {
                EventModel::UnitStarted(false)
            };
            let next = monitor.step(event, now).0;
            &&& record_of(monitor.managed, identity) is Some
            &&& record_of(next.managed, identity) == Some(
                record_of(monitor.managed, identity)->0.after_failure(now),
            )
            &&& forall|other: Seq<char>|
                other != identity ==> #[trigger] record_of(next.managed, other) == record_of(
                    monitor.managed,
                    other,
                )
            &&& next.phase == Phase::StoppingUnit || next.phase == Phase::Idle
            &&& next.pending == monitor.pending.skip(1)
        }),
{
    assert(monitor.pending_below_limit(0));
    lemma_with_failure(monitor.managed, monitor.pending[0].identity, now);
}

} // verus!
