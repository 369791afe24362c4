//! What the monitor and its driver say to each other: the driver reports an
//! event, the monitor answers with the next thing to do.

use crate::config::{Config, Configuration};
use crate::parse::{descriptor_views, Descriptor, DescriptorModel};
use crate::text::text_views;
use vstd::prelude::*;

verus! {

/// Seconds to wait after a restart command before the container is looked
/// for.
pub const SETTLE_SECONDS: u64 = 10;

/// The periods of the two timers, as a mathematical value.
pub struct CadenceModel {
    /// Seconds between two checks.
    pub check_interval_seconds: nat,
    /// Seconds between two status reports.
    pub status_interval_seconds: nat,
}

/// The periods of the two timers.
#[derive(Clone, Copy, Debug, PartialEq, Eq, Structural)]
pub struct Cadence {
    /// Seconds between two checks.
    pub check_interval_seconds: u64,
    /// Seconds between two status reports.
    pub status_interval_seconds: u64,
}

impl View for Cadence {
    type V = CadenceModel;

    open spec fn view(&self) -> CadenceModel {
        CadenceModel {
            check_interval_seconds: self.check_interval_seconds as nat,
            status_interval_seconds: self.status_interval_seconds as nat,
        }
    }
}

/// The view of a cadence that may be missing.
pub open spec fn cadence_view(cadence: Option<Cadence>) -> Option<CadenceModel> {
    match cadence {
        Some(given) => Some(given@),
        None => None,
    }
}

/// What the monitor is doing.
#[derive(Clone, Copy, Debug, PartialEq, Eq, Structural)]
pub enum Phase {
    /// The compose files are being loaded for the first time; a check
    /// follows, and only then do the timers run.
    StartingUp,
    /// Waiting for a timer.
    Idle,
    /// The compose files are being loaded again.
    Discovering,
    /// The status summary is being reported.
    Reporting,
    /// A check has begun: the configuration file is being read again.
    LoadingConfig,
    /// A check goes on: the runtime is being asked what is running.
    Listing,
    /// The deployment unit of the first pending container is being stopped.
    StoppingUnit,
    /// It was stopped and is being started again.
    StartingUnit,
    /// It was started; the container is given time to come up.
    Settling,
    /// The runtime is being asked whether the restarted container is running.
    Verifying,
}

/// A restart that a check has decided on, as a mathematical value.
pub struct PlannedRestart {
    /// The container that is down.
    pub identity: Seq<char>,
    /// The compose file whose deployment unit is restarted for it.
    pub owning_unit: Seq<char>,
}

/// A restart that a check has decided on.
#[derive(Debug, Clone, PartialEq, Eq)]
pub struct RestartTask {
    /// The container that is down.
    pub name: String,
    /// The compose file whose deployment unit is restarted for it.
    pub compose_file: String,
}

impl View for RestartTask {
    type V = PlannedRestart;

    open spec fn view(&self) -> PlannedRestart {
        PlannedRestart { identity: self.name@, owning_unit: self.compose_file@ }
    }
}

/// The views of `tasks`, in order.
pub open spec fn task_views(tasks: Seq<RestartTask>) -> Seq<PlannedRestart> {
    Seq::new(tasks.len(), |i: int| tasks[i]@)
}

/// The counters of a container that has a history, as a mathematical value.
pub struct HistoryModel {
    /// The container's name.
    pub identity: Seq<char>,
    /// Its verified restarts.
    pub restart_count: nat,
    /// Its failed restarts since the last success.
    pub consecutive_failures: nat,
}

/// The counters of a container that has a history.
#[derive(Debug, Clone, PartialEq, Eq)]
pub struct ContainerHistory {
    /// The container's name.
    pub name: String,
    /// Its verified restarts.
    pub restart_count: u32,
    /// Its failed restarts since the last success.
    pub consecutive_failures: u32,
}

impl View for ContainerHistory {
    type V = HistoryModel;

    open spec fn view(&self) -> HistoryModel {
        HistoryModel {
            identity: self.name@,
            restart_count: self.restart_count as nat,
            consecutive_failures: self.consecutive_failures as nat,
        }
    }
}

/// The views of `histories`, in order.
pub open spec fn history_views(histories: Seq<ContainerHistory>) -> Seq<HistoryModel> {
    Seq::new(histories.len(), |i: int| histories[i]@)
}

/// A status summary, as a mathematical value.
pub struct StatusModel {
    /// How many containers are managed.
    pub total: nat,
    /// How many of them were running at the last check.
    pub running: nat,
    /// The containers that were restarted or have failed, in managed order.
    pub histories: Seq<HistoryModel>,
}

/// How the managed containers are doing.
#[derive(Debug, Clone, PartialEq, Eq)]
pub struct StatusSummary {
    /// How many containers are managed.
    pub total: usize,
    /// How many of them were running at the last check.
    pub running: usize,
    /// The containers that were restarted or have failed, in managed order.
    pub histories: Vec<ContainerHistory>,
}

impl View for StatusSummary {
    type V = StatusModel;

    open spec fn view(&self) -> StatusModel {
        StatusModel {
            total: self.total as nat,
            running: self.running as nat,
            histories: history_views(self.histories@),
        }
    }
}

/// The view of a configuration that may be missing.
pub open spec fn loaded_view(loaded: Option<Config>) -> Option<Configuration> {
    match loaded {
        Some(config) => Some(config@),
        None => None,
    }
}

/// The view of a list of names that may be missing.
pub open spec fn listed_view(listed: Option<Vec<String>>) -> Option<Seq<Seq<char>>> {
    match listed {
        Some(names) => Some(text_views(names@)),
        None => None,
    }
}

/// An event, as a mathematical value.
pub enum EventModel {
    CheckTick,
    StatusTick,
    StatusReported,
    DescriptorsLoaded(Seq<DescriptorModel>),
    ConfigLoaded(Option<Configuration>),
    RunningListed(Option<Seq<Seq<char>>>),
    UnitStopped(bool),
    UnitStarted(bool),
    Settled,
}

/// What the driver reports to the monitor.
#[derive(Debug, Clone, PartialEq, Eq)]
pub enum Event {
    /// The check timer fired.
    CheckTick,
    /// The status timer fired.
    StatusTick,
    /// The status summary was reported.
    StatusReported,
    /// The compose files were loaded: one entry for each path asked for.
    DescriptorsLoaded(Vec<Descriptor>),
    /// The configuration file was read again; `None` where that failed.
    ConfigLoaded(Option<Config>),
    /// The runtime named the running containers; `None` where it could not
    /// be asked.
    RunningListed(Option<Vec<String>>),
    /// The command that stops the deployment unit ended; `true` where it
    /// succeeded.
    UnitStopped(bool),
    /// The command that starts the deployment unit ended; `true` where it
    /// succeeded.
    UnitStarted(bool),
    /// The settling delay is over.
    Settled,
}

impl View for Event {
    type V = EventModel;

    open spec fn view(&self) -> EventModel {
        match *self {
            Event::CheckTick => EventModel::CheckTick,
            Event::StatusTick => EventModel::StatusTick,
            Event::StatusReported => EventModel::StatusReported,
            Event::DescriptorsLoaded(descriptors) => EventModel::DescriptorsLoaded(
                descriptor_views(descriptors@),
            ),
            Event::ConfigLoaded(loaded) => EventModel::ConfigLoaded(loaded_view(loaded)),
            Event::RunningListed(listed) => EventModel::RunningListed(listed_view(listed)),
            Event::UnitStopped(succeeded) => EventModel::UnitStopped(succeeded),
            Event::UnitStarted(succeeded) => EventModel::UnitStarted(succeeded),
            Event::Settled => EventModel::Settled,
        }
    }
}

/// An action, as a mathematical value.
pub enum ActionModel {
    AwaitTick(CadenceModel),
    LoadConfig(Seq<char>),
    LoadDescriptors(Seq<Seq<char>>),
    ListRunning,
    StopUnit(PlannedRestart),
    StartUnit(PlannedRestart),
    Settle(nat),
    ReportStatus(StatusModel),
}

/// What the monitor asks its driver to do next. Each action is answered by
/// one event.
#[derive(Debug, Clone, PartialEq, Eq)]
pub enum Action {
    /// Wait for the check timer or the status timer, which fire with these
    /// periods; answer with `CheckTick` or `StatusTick`.
    AwaitTick(Cadence),
    /// Read the configuration file at this path; answer with `ConfigLoaded`.
    LoadConfig(String),
    /// Load the compose files at these paths; answer with
    /// `DescriptorsLoaded`.
    LoadDescriptors(Vec<String>),
    /// Ask the runtime what is running; answer with `RunningListed`.
    ListRunning,
    /// Stop the deployment unit of the container named here; answer with
    /// `UnitStopped`.
    StopUnit(RestartTask),
    /// Start the deployment unit of the container named here; answer with
    /// `UnitStarted`.
    StartUnit(RestartTask),
    /// Wait this many seconds; answer with `Settled`.
    Settle(u64),
    /// Report this summary; answer with `StatusReported`.
    ReportStatus(StatusSummary),
}

impl View for Action {
    type V = ActionModel;

    open spec fn view(&self) -> ActionModel {
        match *self {
            Action::AwaitTick(cadence) => ActionModel::AwaitTick(cadence@),
            Action::LoadConfig(path) => ActionModel::LoadConfig(path@),
            Action::LoadDescriptors(paths) => ActionModel::LoadDescriptors(text_views(paths@)),
            Action::ListRunning => ActionModel::ListRunning,
            Action::StopUnit(task) => ActionModel::StopUnit(task@),
            Action::StartUnit(task) => ActionModel::StartUnit(task@),
            Action::Settle(seconds) => ActionModel::Settle(seconds as nat),
            Action::ReportStatus(summary) => ActionModel::ReportStatus(summary@),
        }
    }
}

} // verus!
