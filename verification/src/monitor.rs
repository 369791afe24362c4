//! The monitor: it owns the configuration and the managed set, and answers
//! each event of its driver with the next action.

use crate::clock::Clock;
use crate::config::Config;
use crate::parse::{container_names, descriptor_views, Descriptor};
use crate::protocol::{
    cadence_view, history_views, listed_view, loaded_view, task_views, Action, Cadence,
    ContainerHistory, Event, Phase, RestartTask, StatusSummary, SETTLE_SECONDS,
};
use crate::reconcile::{
    declare_each, discovered, histories_of, lemma_step_well_formed,
    restart_candidates, status_of, MonitorModel,
};
use crate::state::{with_failure, ContainerState, MonitorState};
use crate::text::{clone_texts, contains_text, text_views};
use vstd::prelude::*;

verus! {

/// Supervises the containers that the configured compose files declare.
pub struct ContainerMonitor {
    config: Config,
    config_path: String,
    state: MonitorState,
    phase: Phase,
    cadence: Option<Cadence>,
    queue: Vec<RestartTask>,
    cursor: usize,
}

impl View for ContainerMonitor {
    type V = MonitorModel;

    closed spec fn view(&self) -> MonitorModel {
        MonitorModel {
            config: self.config@,
            config_path: self.config_path@,
            managed: self.state.managed(),
            running: self.state.running(),
            phase: self.phase,
            cadence: cadence_view(self.cadence),
            pending: task_views(self.queue@).skip(self.cursor as int),
        }
    }
}

impl ContainerMonitor {
    /// The monitor's model is well formed, and what is left of the restart
    /// queue is what the model holds as pending.
    pub closed spec fn well_formed(&self) -> bool {
        &&& self.cursor <= self.queue.len()
        &&& self@.well_formed()
    }

    /// A well-formed monitor has a well-formed model.
    pub proof fn lemma_well_formed(&self)
        requires
            self.well_formed(),
        ensures
            self@.well_formed(),
    {
    }

    /// A monitor for `config`, which was read from `config_path`. It manages
    /// nothing yet and waits for the compose files: see `awaited`.
    pub fn new(config: Config, config_path: String) -> (monitor: ContainerMonitor)
        ensures
            monitor.well_formed(),
            monitor@ == MonitorModel::initial(config@, config_path@),
    {
        let monitor = ContainerMonitor {
            config,
            config_path,
            state: MonitorState::new(),
            phase: Phase::StartingUp,
            cadence: None,
            queue: Vec::new(),
            cursor: 0,
        };
        assert(monitor@.pending =~= Seq::empty());
        monitor
    }

    /// What the monitor is doing.
    pub fn phase(&self) -> (phase: Phase)
        ensures
            phase == self@.phase,
    {
        self.phase
    }

    /// The active configuration.
    pub fn config(&self) -> (config: &Config)
        ensures
            config@ == self@.config,
    {
        &self.config
    }

    /// The managed containers and the observed set.
    pub fn state(&self) -> (state: &MonitorState)
        ensures
            state.managed() == self@.managed,
            state.running() == self@.running,
            self.well_formed() ==> state.well_formed(),
    {
        &self.state
    }

    /// Whether `state` may be restarted at `now`: its failure streak is below
    /// the configured limit and it is not backing off.
    pub fn should_restart_container(&self, state: &ContainerState, now: u64) -> (restart: bool)
        ensures
            restart == state@.eligible(self@.config.max_consecutive_failures, now as nat),
    {
        if state.consecutive_failures >= self.config.max_consecutive_failures {
            return false;
        }
        if state.is_in_backoff(now) {
            return false;
        }
        true
    }

    /// The status summary: how many containers are managed, how many of them
    /// were running at the last check, and the counters of those with a
    /// history.
    pub fn status_summary(&self) -> (summary: StatusSummary)
        ensures
            summary@ == status_of(self@.managed, self@.running),
    {
        let total = self.state.managed_count();
        let running = self.state.running_managed_count();
        let mut histories: Vec<ContainerHistory> = Vec::new();
        let mut i: usize = 0;
        while i < total
            invariant
                i <= total,
                total == self.state.managed().len(),
                history_views(histories@) =~= histories_of(self.state.managed().take(i as int)),
            decreases total - i,
        {
            let container = self.state.entry(i);
            proof {
                let next = self.state.managed().take(i + 1);
                assert(next.drop_last() =~= self.state.managed().take(i as int));
                assert(next.last() == self.state.managed()[i as int]);
            }
            if container.state.restart_count > 0 || container.state.consecutive_failures > 0 {
                histories.push(
                    ContainerHistory {
                        name: container.name.clone(),
                        restart_count: container.state.restart_count,
                        consecutive_failures: container.state.consecutive_failures,
                    },
                );
            }
            i = i + 1;
        }
        proof {
            assert(self.state.managed().take(total as int) =~= self.state.managed());
        }
        StatusSummary { total, running, histories }
    }

    /// Whether the counter of verified restarts can take the restart that is
    /// being verified. It cannot once a container has been restarted
    /// `u32::MAX` times.
    pub fn can_count_restart(&self) -> (room: bool)
        requires
            self.well_formed(),
        ensures
            room == self@.can_count_restart(),
    {
        match self.phase {
            Phase::Verifying => {
                assert(self@.pending[0] == self.queue[self.cursor as int]@);
                match self.state.container(self.queue[self.cursor].name.as_str()) {
                    Some(state) => state.restart_count < u32::MAX,
                    None => true,
                }
            },
            _ => true,
        }
    }

    /// Rebuilds the managed set from `descriptors`: every record of before is
    /// dropped, and each descriptor that could be loaded declares its
    /// containers, in order. One that could not be loaded declares nothing
    /// and does not hinder the others.
    fn discover_containers(&mut self, descriptors: &Vec<Descriptor>)
        ensures
            final(self).state.well_formed(),
            final(self).state.managed() == discovered(descriptor_views(descriptors@)),
            final(self).state.running() == old(self).state.running(),
            final(self).config == old(self).config,
            final(self).config_path == old(self).config_path,
            final(self).phase == old(self).phase,
            final(self).cadence == old(self).cadence,
            final(self).queue == old(self).queue,
            final(self).cursor == old(self).cursor,
    {
        self.state.clear_managed();
        let ghost all = descriptor_views(descriptors@);
        let mut i: usize = 0;
        while i < descriptors.len()
            invariant
                i <= descriptors.len(),
                all == descriptor_views(descriptors@),
                self.state.well_formed(),
                self.state.managed() == discovered(all.take(i as int)),
                self.state.running() == old(self).state.running(),
                self.config == old(self).config,
                self.config_path == old(self).config_path,
                self.phase == old(self).phase,
                self.cadence == old(self).cadence,
                self.queue == old(self).queue,
                self.cursor == old(self).cursor,
            decreases descriptors.len() - i,
        {
            let descriptor = &descriptors[i];
            let ghost before = self.state.managed();
            proof {
                assert(all.take(i + 1).drop_last() =~= all.take(i as int));
                assert(all.take(i + 1).last() == descriptor@);
            }
            match &descriptor.containers {
                Some(containers) => {
                    let ghost names = container_names(containers@);
                    let mut k: usize = 0;
                    while k < containers.len()
                        invariant
                            k <= containers.len(),
                            names == container_names(containers@),
                            self.state.well_formed(),
                            self.state.managed() == declare_each(
                                before,
                                names.take(k as int),
                                descriptor.path@,
                            ),
                            self.state.running() == old(self).state.running(),
                            self.config == old(self).config,
                            self.config_path == old(self).config_path,
                            self.phase == old(self).phase,
                            self.cadence == old(self).cadence,
                            self.queue == old(self).queue,
                            self.cursor == old(self).cursor,
                        decreases containers.len() - k,
                    {
                        proof {
                            assert(names.take(k + 1).drop_last() =~= names.take(k as int));
                            assert(names.take(k + 1).last() == containers[k as int].name@);
                        }
                        self.state.add_container(
                            containers[k].name.clone(),
                            descriptor.path.clone(),
                        );
                        k = k + 1;
                    }
                    proof {
                        assert(names.take(containers.len() as int) =~= names);
                    }
                },
                None => {},
            }
            i = i + 1;
        }
        proof {
            assert(all.take(descriptors.len() as int) =~= all);
        }
    }

    /// The restarts that a check at `now` decides on: one for each managed
    /// container that is not in the observed set and may be restarted.
    fn restart_candidates(&self, now: u64) -> (tasks: Vec<RestartTask>)
        ensures
            task_views(tasks@) == restart_candidates(
                self@.managed,
                self@.running,
                self@.config.max_consecutive_failures,
                now as nat,
            ),
    {
        let total = self.state.managed_count();
        let mut tasks: Vec<RestartTask> = Vec::new();
        let mut i: usize = 0;
        while i < total
            invariant
                i <= total,
                total == self.state.managed().len(),
                task_views(tasks@) =~= restart_candidates(
                    self.state.managed().take(i as int),
                    self.state.running(),
                    self.config@.max_consecutive_failures,
                    now as nat,
                ),
            decreases total - i,
        {
            let container = self.state.entry(i);
            proof {
                let next = self.state.managed().take(i + 1);
                assert(next.drop_last() =~= self.state.managed().take(i as int));
                assert(next.last() == self.state.managed()[i as int]);
            }
            if !self.state.is_running(container.name.as_str()) && self.should_restart_container(
                &container.state,
                now,
            ) {
                tasks.push(
                    RestartTask {
                        name: container.name.clone(),
                        compose_file: container.state.compose_file.clone(),
                    },
                );
            }
            i = i + 1;
        }
        proof {
            assert(self.state.managed().take(total as int) =~= self.state.managed());
        }
        tasks
    }

    /// A copy of the restart in progress.
    fn current_task(&self) -> (task: RestartTask)
        requires
            self.cursor < self.queue.len(),
        ensures
            task@ == self@.pending[0],
    {
        assert(self@.pending[0] == self.queue[self.cursor as int]@);
        let task = &self.queue[self.cursor];
        RestartTask { name: task.name.clone(), compose_file: task.compose_file.clone() }
    }

    /// The periods with which the timers fire.
    fn timers(&self) -> (cadence: Cadence)
        ensures
            cadence@ == self@.timers(),
    {
        match self.cadence {
            Some(cadence) => cadence,
            None => Cadence {
                check_interval_seconds: self.config.check_interval_seconds,
                status_interval_seconds: self.config.status_interval_seconds,
            },
        }
    }

    /// The action whose answer the monitor is waiting for. For a new monitor
    /// it is to load the compose files.
    pub fn awaited(&self) -> (action: Action)
        requires
            self.well_formed(),
        ensures
            action@ == self@.awaited(),
    {
        self.pending_action()
    }

    /// The action whose answer the monitor is waiting for.
    fn pending_action(&self) -> (action: Action)
        requires
            self.cursor <= self.queue.len(),
            self.phase == Phase::StoppingUnit || self.phase == Phase::StartingUnit
                ==> self.cursor < self.queue.len(),
        ensures
            action@ == self@.awaited(),
    {
        match self.phase {
            Phase::Idle => Action::AwaitTick(self.timers()),
            Phase::StartingUp => Action::LoadDescriptors(clone_texts(&self.config.compose_files)),
            Phase::Discovering => Action::LoadDescriptors(clone_texts(&self.config.compose_files)),
            Phase::Reporting => Action::ReportStatus(self.status_summary()),
            Phase::LoadingConfig => Action::LoadConfig(self.config_path.clone()),
            Phase::Listing => Action::ListRunning,
            Phase::StoppingUnit => Action::StopUnit(self.current_task()),
            Phase::StartingUnit => Action::StartUnit(self.current_task()),
            Phase::Settling => Action::Settle(SETTLE_SECONDS),
            Phase::Verifying => Action::ListRunning,
        }
    }

    /// Moves on to `phase` and asks for what that phase waits for.
    fn enter(&mut self, phase: Phase) -> (action: Action)
        requires
            old(self).cursor <= old(self).queue.len(),
            phase == Phase::StoppingUnit || phase == Phase::StartingUnit ==> old(self).cursor
                < old(self).queue.len(),
        ensures
            final(self).cursor <= final(self).queue.len(),
            (final(self)@, action@) == old(self)@.enter(phase),
    {
        match phase {
            Phase::Idle => {
                self.cadence = Some(self.timers());
            },
            _ => {},
        }
        self.phase = phase;
        self.pending_action()
    }

    /// Begins the next pending restart; where none is left, the check is
    /// over.
    fn attempt_next(&mut self) -> (action: Action)
        requires
            old(self).cursor <= old(self).queue.len(),
        ensures
            final(self).cursor <= final(self).queue.len(),
            (final(self)@, action@) == old(self)@.attempt_next(),
    {
        if self.cursor < self.queue.len() {
            self.enter(Phase::StoppingUnit)
        } else {
            self.enter(Phase::Idle)
        }
    }

    /// Leaves the restart in progress behind and goes on with the next.
    fn finish_attempt(&mut self) -> (action: Action)
        requires
            old(self).cursor < old(self).queue.len(),
        ensures
            final(self).cursor <= final(self).queue.len(),
            (final(self)@, action@) == old(self)@.finish_attempt(old(self)@.managed),
    {
        proof {
            let tasks = task_views(self.queue@);
            assert(tasks.skip(self.cursor as int).skip(1) =~= tasks.skip(self.cursor + 1));
        }
        self.cursor = self.cursor + 1;
        self.attempt_next()
    }

    /// The first load of the compose files is done: the managed set is built
    /// from `descriptors`, and a check follows at once, so that containers
    /// that are down already are restarted without waiting for the timer.
    fn startup_recovery(&mut self, descriptors: &Vec<Descriptor>) -> (action: Action)
        requires
            old(self).cursor <= old(self).queue.len(),
        ensures
            final(self).cursor <= final(self).queue.len(),
            (final(self)@, action@) == (MonitorModel {
                managed: discovered(descriptor_views(descriptors@)),
                ..old(self)@
            }).enter(Phase::LoadingConfig),
    {
        self.discover_containers(descriptors);
        self.enter(Phase::LoadingConfig)
    }

    /// A later load of the compose files is done: the managed set is built
    /// anew from `descriptors`, and the monitor waits for the next timer.
    fn rediscovered(&mut self, descriptors: &Vec<Descriptor>) -> (action: Action)
        requires
            old(self).cursor <= old(self).queue.len(),
        ensures
            final(self).cursor <= final(self).queue.len(),
            (final(self)@, action@) == (MonitorModel {
                managed: discovered(descriptor_views(descriptors@)),
                ..old(self)@
            }).enter(Phase::Idle),
    {
        self.discover_containers(descriptors);
        self.enter(Phase::Idle)
    }

    /// The configuration file was read again. A configuration that names
    /// other compose files takes the place of the active one, and the check
    /// gives way to discovery; a configuration that differs in anything else
    /// is dropped. Where the check goes on, the runtime is asked what is
    /// running, unless nothing is managed.
    fn reload_config(&mut self, loaded: Option<Config>) -> (action: Action)
        requires
            old(self).cursor <= old(self).queue.len(),
        ensures
            final(self).cursor <= final(self).queue.len(),
            (final(self)@, action@) == old(self)@.after_config(loaded_view(loaded)),
    {
        match loaded {
            Some(config) => {
                if !config.same_compose_files(&self.config) {
                    self.config = config;
                    return self.enter(Phase::Discovering);
                }
            },
            None => {},
        }
        if self.state.is_empty() {
            self.enter(Phase::Idle)
        } else {
            self.enter(Phase::Listing)
        }
    }

    /// The runtime named the running containers: the observed set is
    /// replaced, the containers that are down and may be restarted at `now`
    /// are queued, and the first restart begins.
    fn check_and_restart_containers(&mut self, running: &Vec<String>, now: u64) -> (action:
        Action)
        ensures
            final(self).cursor <= final(self).queue.len(),
            (final(self)@, action@) == old(self)@.after_listing(
                text_views(running@),
                now as nat,
            ),
    {
        self.state.update_running(running);
        let tasks = self.restart_candidates(now);
        self.queue = tasks;
        self.cursor = 0;
        proof {
            assert(task_views(self.queue@).skip(0) =~= task_views(self.queue@));
        }
        self.attempt_next()
    }

    /// The command that stops or starts the deployment unit failed: the
    /// restart has failed with it. The failure is recorded at `now`, and the
    /// next pending restart begins.
    fn restart_failed(&mut self, now: u64) -> (action: Action)
        requires
            old(self).well_formed(),
            old(self).phase == Phase::StoppingUnit || old(self).phase == Phase::StartingUnit,
        ensures
            final(self).cursor <= final(self).queue.len(),
            (final(self)@, action@) == old(self)@.finish_attempt(
                with_failure(
                    old(self)@.managed,
                    old(self)@.pending[0].identity,
                    now as nat,
                ),
            ),
    {
        proof {
            assert(self@.pending[0] == self.queue[self.cursor as int]@);
            assert(self@.pending_below_limit(0));
        }
        let name = self.queue[self.cursor].name.clone();
        self.state.record_failure(name.as_str(), now);
        self.finish_attempt()
    }

    /// The runtime was asked again after a restart. Where it answered, the
    /// restart is recorded at `now`: as a success if the container is
    /// running, as a failure if not. Where it did not answer, nothing is
    /// recorded. Then the next pending restart begins.
    fn verify_restart(&mut self, listed: Option<Vec<String>>, now: u64) -> (action: Action)
        requires
            old(self).well_formed(),
            old(self).phase == Phase::Verifying,
            old(self)@.can_count_restart(),
        ensures
            final(self).cursor <= final(self).queue.len(),
            (final(self)@, action@) == old(self)@.after_recheck(listed_view(listed), now as nat),
    {
        proof {
            assert(self@.pending[0] == self.queue[self.cursor as int]@);
            assert(self@.pending_below_limit(0));
        }
        let name = self.queue[self.cursor].name.clone();
        match listed {
            Some(names) => {
                if contains_text(&names, &name) {
                    self.state.record_success(name.as_str(), now);
                } else {
                    self.state.record_failure(name.as_str(), now);
                }
            },
            None => {},
        }
        self.finish_attempt()
    }

    /// Takes `event`, with which the driver answers the action that the
    /// monitor waits for, at the time `now` (in nanoseconds of a clock that
    /// never goes back), and answers with the next action. An event that the
    /// monitor is not waiting for changes nothing, and the monitor asks
    /// again for what it is waiting for.
    pub fn step(&mut self, event: Event, now: u64) -> (action: Action)
        requires
            old(self).well_formed(),
            old(self)@.can_count_restart(),
        ensures
            final(self).well_formed(),
            (final(self)@, action@) == old(self)@.step(event@, now as nat),
    {
        proof {
            lemma_step_well_formed(self@, event@, now as nat);
        }
        match (self.phase, event) {
            (Phase::Idle, Event::CheckTick) => self.enter(Phase::LoadingConfig),
            (Phase::Idle, Event::StatusTick) => self.enter(Phase::Reporting),
            (Phase::Reporting, Event::StatusReported) => self.enter(Phase::Discovering),
            (Phase::StartingUp, Event::DescriptorsLoaded(descriptors)) => self.startup_recovery(
                &descriptors,
            ),
            (Phase::Discovering, Event::DescriptorsLoaded(descriptors)) => self.rediscovered(
                &descriptors,
            ),
            (Phase::LoadingConfig, Event::ConfigLoaded(loaded)) => self.reload_config(loaded),
            (Phase::Listing, Event::RunningListed(Some(names))) => {
                self.check_and_restart_containers(&names, now)
            },
            (Phase::Listing, Event::RunningListed(None)) => self.enter(Phase::Idle),
            (Phase::StoppingUnit, Event::UnitStopped(true)) => self.enter(Phase::StartingUnit),
            (Phase::StoppingUnit, Event::UnitStopped(false)) => self.restart_failed(now),
            (Phase::StartingUnit, Event::UnitStarted(true)) => self.enter(Phase::Settling),
            (Phase::StartingUnit, Event::UnitStarted(false)) => self.restart_failed(now),
            (Phase::Settling, Event::Settled) => self.enter(Phase::Verifying),
            (Phase::Verifying, Event::RunningListed(listed)) => self.verify_restart(listed, now),
            _ => self.pending_action(),
        }
    }

    /// Takes `event` at the time that `clock` shows: see `step`.
    pub fn handle(&mut self, clock: &Clock, event: Event) -> (action: Action)
        requires
            old(self).well_formed(),
            old(self)@.can_count_restart(),
        ensures
            final(self).well_formed(),
            exists|now: nat|
                (final(self)@, action@) == #[trigger] old(self)@.step(event@, now),
    {
        let now = clock.now();
        let action = self.step(event, now);
        assert((self@, action@) == old(self)@.step(event@, now as nat));
        action
    }
}

} // verus!
