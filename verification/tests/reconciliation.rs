use rusty_podmon::clock::Clock;
use rusty_podmon::config::Config;
use rusty_podmon::monitor::ContainerMonitor;
use rusty_podmon::parse::{ComposeParser, ContainerSpec, Descriptor};
use rusty_podmon::protocol::{Action, Cadence, Event, Phase};

const SECOND: u64 = 1_000_000_000;

fn texts(list: &[&str]) -> Vec<String> {
    list.iter().map(|text| text.to_string()).collect()
}

fn config(files: &[&str], max_failures: u32) -> Config {
    Config {
        compose_files: texts(files),
        check_interval_seconds: 30,
        status_interval_seconds: 300,
        max_consecutive_failures: max_failures,
    }
}

fn declared(path: &str, names: &[&str]) -> Descriptor {
    Descriptor {
        path: path.to_string(),
        containers: Some(
            names.iter().map(|name| ContainerSpec { name: name.to_string() }).collect(),
        ),
    }
}

fn failed(path: &str) -> Descriptor {
    Descriptor { path: path.to_string(), containers: None }
}

/// A monitor that has loaded `descriptors` at startup and now waits for the
/// configuration of its first check.
fn started(files: &[&str], max_failures: u32, descriptors: Vec<Descriptor>) -> ContainerMonitor {
    let mut monitor = ContainerMonitor::new(config(files, max_failures), "monitor.toml".to_string());
    let action = monitor.awaited();
    assert!(matches!(action, Action::LoadDescriptors(ref paths) if *paths == texts(files)));
    let action = monitor.step(Event::DescriptorsLoaded(descriptors), 0);
    assert!(matches!(action, Action::LoadConfig(ref path) if path == "monitor.toml"));
    assert_eq!(monitor.phase(), Phase::LoadingConfig);
    monitor
}

/// A monitor that manages `names` of one compose file and waits for a timer.
fn idle(names: &[&str], max_failures: u32) -> ContainerMonitor {
    let mut monitor = started(&["/srv/app/compose.yml"], max_failures, vec![declared("/srv/app/compose.yml", names)]);
    monitor.step(Event::ConfigLoaded(None), 0);
    let action = monitor.step(Event::RunningListed(Some(texts(names))), 0);
    assert!(matches!(action, Action::AwaitTick(_)));
    monitor
}

/// Runs a check at `now` up to the listing of `running`.
fn check(monitor: &mut ContainerMonitor, running: &[&str], now: u64) -> Action {
    let action = monitor.step(Event::CheckTick, now);
    assert!(matches!(action, Action::LoadConfig(_)));
    let action = monitor.step(Event::ConfigLoaded(None), now);
    assert!(matches!(action, Action::ListRunning));
    monitor.step(Event::RunningListed(Some(texts(running))), now)
}

/// Carries a begun restart through: the unit stops and starts, and the
/// container is then among `running` or not.
fn restart(monitor: &mut ContainerMonitor, running: &[&str], now: u64) -> Action {
    let action = monitor.step(Event::UnitStopped(true), now);
    assert!(matches!(action, Action::StartUnit(_)));
    let action = monitor.step(Event::UnitStarted(true), now);
    assert!(matches!(action, Action::Settle(10)));
    let action = monitor.step(Event::Settled, now);
    assert!(matches!(action, Action::ListRunning));
    monitor.step(Event::RunningListed(Some(texts(running))), now)
}

fn counters(monitor: &ContainerMonitor, name: &str) -> (u32, u32, Option<u64>) {
    let state = monitor.state().container(name).unwrap();
    (state.restart_count, state.consecutive_failures, state.last_restart)
}

#[test]
fn new_monitor_asks_for_the_compose_files() {
    let monitor = ContainerMonitor::new(config(&["/a/compose.yml"], 5), "monitor.toml".to_string());
    assert_eq!(monitor.phase(), Phase::StartingUp);
    assert!(monitor.state().is_empty());
    assert_eq!(monitor.config().compose_files, texts(&["/a/compose.yml"]));
    assert!(monitor.can_count_restart());
    assert!(matches!(
        monitor.awaited(),
        Action::LoadDescriptors(ref paths) if *paths == texts(&["/a/compose.yml"])
    ));
}

#[test]
fn timers_are_not_asked_for_before_the_first_check_is_over() {
    let mut monitor = ContainerMonitor::new(config(&["/a/compose.yml"], 5), "monitor.toml".to_string());
    let action = monitor.step(Event::CheckTick, 0);
    assert!(matches!(action, Action::LoadDescriptors(_)));
    let action = monitor.step(Event::StatusTick, 0);
    assert!(matches!(action, Action::LoadDescriptors(_)));
    let action = monitor.step(Event::DescriptorsLoaded(vec![declared("/a/compose.yml", &["a"])]), 0);
    assert!(matches!(action, Action::LoadConfig(_)));
    let action = monitor.step(Event::ConfigLoaded(None), 0);
    assert!(matches!(action, Action::ListRunning));
    let action = monitor.step(Event::RunningListed(Some(texts(&["a"]))), 0);
    assert!(matches!(
        action,
        Action::AwaitTick(Cadence { check_interval_seconds: 30, status_interval_seconds: 300 })
    ));
}

#[test]
fn timers_keep_the_periods_they_began_with() {
    let mut monitor = idle(&["a"], 5);
    monitor.step(Event::CheckTick, SECOND);
    let mut changed = config(&["/srv/other/compose.yml"], 5);
    changed.check_interval_seconds = 7;
    changed.status_interval_seconds = 9;
    monitor.step(Event::ConfigLoaded(Some(changed)), SECOND);
    let action = monitor.step(Event::DescriptorsLoaded(vec![failed("/srv/other/compose.yml")]), SECOND);
    assert_eq!(monitor.config().check_interval_seconds, 7);
    assert!(matches!(
        action,
        Action::AwaitTick(Cadence { check_interval_seconds: 30, status_interval_seconds: 300 })
    ));
}

#[test]
fn timers_begin_with_the_configuration_of_the_first_wait() {
    let mut monitor = started(&["/a.yml"], 5, vec![declared("/a.yml", &["a"])]);
    let mut changed = config(&["/b.yml"], 5);
    changed.check_interval_seconds = 7;
    changed.status_interval_seconds = 9;
    let action = monitor.step(Event::ConfigLoaded(Some(changed)), SECOND);
    assert!(matches!(action, Action::LoadDescriptors(_)));
    let action = monitor.step(Event::DescriptorsLoaded(vec![declared("/b.yml", &["b"])]), SECOND);
    assert!(matches!(
        action,
        Action::AwaitTick(Cadence { check_interval_seconds: 7, status_interval_seconds: 9 })
    ));
}

#[test]
fn discovery_skips_the_descriptor_that_failed() {
    let good_one = "services:\n  web:\n    container_name: front\n";
    let broken = "services: [web\n  db: {";
    let good_two = "services:\n  db: {}\n  job:\n    restart: \"no\"\n";
    let files = ["/srv/one/compose.yml", "/srv/two/compose.yml", "/srv/Three/compose.yml"];
    let contents = [good_one, broken, good_two];
    let descriptors: Vec<Descriptor> = files
        .iter()
        .zip(contents.iter())
        .map(|(path, content)| Descriptor {
            path: path.to_string(),
            containers: ComposeParser::parse_containers(path, content).ok(),
        })
        .collect();
    assert!(descriptors[1].containers.is_none());
    let monitor = started(&files, 5, descriptors);
    let state = monitor.state();
    assert_eq!(state.managed_count(), 2);
    assert_eq!(state.entry(0).name, "front");
    assert_eq!(state.entry(0).state.compose_file, "/srv/one/compose.yml");
    assert_eq!(state.entry(1).name, "three_db_1");
    assert_eq!(state.entry(1).state.compose_file, "/srv/Three/compose.yml");
}

#[test]
fn discovery_with_every_descriptor_failed_manages_nothing() {
    let mut monitor = started(&["/a.yml", "/b.yml"], 5, vec![failed("/a.yml"), failed("/b.yml")]);
    assert!(monitor.state().is_empty());
    let action = monitor.step(Event::ConfigLoaded(None), 0);
    assert!(matches!(action, Action::AwaitTick(_)));
    assert_eq!(monitor.phase(), Phase::Idle);
}

#[test]
fn container_declared_twice_belongs_to_the_later_file() {
    let monitor = started(
        &["/a/compose.yml", "/b/compose.yml"],
        5,
        vec![declared("/a/compose.yml", &["web", "db"]), declared("/b/compose.yml", &["web"])],
    );
    assert_eq!(monitor.state().managed_count(), 2);
    assert_eq!(monitor.state().entry(0).name, "web");
    assert_eq!(monitor.state().entry(0).state.compose_file, "/b/compose.yml");
    assert_eq!(monitor.state().entry(1).name, "db");
}

#[test]
fn check_with_everything_running_restarts_nothing() {
    let mut monitor = started(&["/srv/app/compose.yml"], 5, vec![declared("/srv/app/compose.yml", &["web", "db"])]);
    let action = monitor.step(Event::ConfigLoaded(None), SECOND);
    assert!(matches!(action, Action::ListRunning));
    let action = monitor.step(Event::RunningListed(Some(texts(&["db", "web", "other"]))), SECOND);
    assert!(matches!(action, Action::AwaitTick(_)));
    assert_eq!(monitor.phase(), Phase::Idle);
    assert_eq!(counters(&monitor, "web"), (0, 0, None));
    assert_eq!(counters(&monitor, "db"), (0, 0, None));
    assert_eq!(monitor.state().running_managed_count(), 2);
}

#[test]
fn restart_that_brings_the_container_up_counts_as_success() {
    let mut monitor = idle(&["a"], 5);
    let action = check(&mut monitor, &[], 100 * SECOND);
    assert!(matches!(
        action,
        Action::StopUnit(ref task) if task.name == "a" && task.compose_file == "/srv/app/compose.yml"
    ));
    let action = monitor.step(Event::UnitStopped(true), 101 * SECOND);
    assert!(matches!(
        action,
        Action::StartUnit(ref task) if task.name == "a" && task.compose_file == "/srv/app/compose.yml"
    ));
    let action = monitor.step(Event::UnitStarted(true), 102 * SECOND);
    assert!(matches!(action, Action::Settle(10)));
    let action = monitor.step(Event::Settled, 112 * SECOND);
    assert!(matches!(action, Action::ListRunning));
    assert_eq!(monitor.phase(), Phase::Verifying);
    let action = monitor.step(Event::RunningListed(Some(texts(&["a"]))), 113 * SECOND);
    assert!(matches!(action, Action::AwaitTick(_)));
    assert_eq!(counters(&monitor, "a"), (1, 0, Some(113 * SECOND)));
}

#[test]
fn restart_that_leaves_the_container_down_counts_as_failure() {
    let mut monitor = idle(&["a"], 5);
    let action = check(&mut monitor, &[], 100 * SECOND);
    assert!(matches!(action, Action::StopUnit(_)));
    let action = restart(&mut monitor, &["someone_else"], 113 * SECOND);
    assert!(matches!(action, Action::AwaitTick(_)));
    assert_eq!(counters(&monitor, "a"), (0, 1, Some(113 * SECOND)));
}

#[test]
fn failed_stop_command_is_a_failed_restart_without_settling() {
    let mut monitor = idle(&["a", "b"], 5);
    let action = check(&mut monitor, &["b"], 50 * SECOND);
    assert!(matches!(action, Action::StopUnit(ref task) if task.name == "a"));
    let action = monitor.step(Event::UnitStopped(false), 51 * SECOND);
    assert!(matches!(action, Action::AwaitTick(_)));
    assert_eq!(counters(&monitor, "a"), (0, 1, Some(51 * SECOND)));
    assert_eq!(counters(&monitor, "b"), (0, 0, None));
}

#[test]
fn failed_start_command_is_a_failed_restart_without_settling() {
    let mut monitor = idle(&["a"], 5);
    check(&mut monitor, &[], 50 * SECOND);
    let action = monitor.step(Event::UnitStopped(true), 51 * SECOND);
    assert!(matches!(action, Action::StartUnit(_)));
    let action = monitor.step(Event::UnitStarted(false), 52 * SECOND);
    assert!(matches!(action, Action::AwaitTick(_)));
    assert_eq!(counters(&monitor, "a"), (0, 1, Some(52 * SECOND)));
}

#[test]
fn recheck_that_fails_records_nothing() {
    let mut monitor = idle(&["a"], 5);
    check(&mut monitor, &[], 50 * SECOND);
    monitor.step(Event::UnitStopped(true), 50 * SECOND);
    monitor.step(Event::UnitStarted(true), 50 * SECOND);
    monitor.step(Event::Settled, 60 * SECOND);
    let action = monitor.step(Event::RunningListed(None), 60 * SECOND);
    assert!(matches!(action, Action::AwaitTick(_)));
    assert_eq!(counters(&monitor, "a"), (0, 0, None));
}

#[test]
fn one_failed_restart_does_not_stop_the_others() {
    let mut monitor = idle(&["a", "b", "c"], 5);
    let action = check(&mut monitor, &["b"], 10 * SECOND);
    assert!(matches!(action, Action::StopUnit(ref task) if task.name == "a"));
    let action = monitor.step(Event::UnitStopped(false), 11 * SECOND);
    assert!(matches!(action, Action::StopUnit(ref task) if task.name == "c"));
    let action = restart(&mut monitor, &["b", "c"], 25 * SECOND);
    assert!(matches!(action, Action::AwaitTick(_)));
    assert_eq!(counters(&monitor, "a"), (0, 1, Some(11 * SECOND)));
    assert_eq!(counters(&monitor, "b"), (0, 0, None));
    assert_eq!(counters(&monitor, "c"), (1, 0, Some(25 * SECOND)));
}

#[test]
fn recheck_does_not_replace_the_observed_set() {
    let mut monitor = idle(&["a", "b"], 5);
    check(&mut monitor, &["b"], 10 * SECOND);
    restart(&mut monitor, &["a"], 25 * SECOND);
    assert!(monitor.state().is_running("b"));
    assert!(!monitor.state().is_running("a"));
}

#[test]
fn failed_listing_ends_the_check_and_touches_nothing() {
    let mut monitor = idle(&["a"], 5);
    monitor.step(Event::CheckTick, 10 * SECOND);
    monitor.step(Event::ConfigLoaded(None), 10 * SECOND);
    let action = monitor.step(Event::RunningListed(None), 10 * SECOND);
    assert!(matches!(action, Action::AwaitTick(_)));
    assert_eq!(monitor.phase(), Phase::Idle);
    assert_eq!(counters(&monitor, "a"), (0, 0, None));
    assert!(monitor.state().is_running("a"));
}

#[test]
fn changed_compose_files_lead_to_discovery_and_no_restart() {
    let mut monitor = idle(&["a"], 5);
    let action = monitor.step(Event::CheckTick, 10 * SECOND);
    assert!(matches!(action, Action::LoadConfig(ref path) if path == "monitor.toml"));
    let mut changed = config(&["/srv/app/compose.yml", "/srv/new/compose.yml"], 9);
    changed.check_interval_seconds = 7;
    let action = monitor.step(Event::ConfigLoaded(Some(changed)), 10 * SECOND);
    assert!(matches!(
        action,
        Action::LoadDescriptors(ref paths)
            if *paths == texts(&["/srv/app/compose.yml", "/srv/new/compose.yml"])
    ));
    assert_eq!(monitor.phase(), Phase::Discovering);
    assert_eq!(monitor.config().max_consecutive_failures, 9);
    assert_eq!(monitor.config().check_interval_seconds, 7);
    let action = monitor.step(
        Event::DescriptorsLoaded(vec![
            declared("/srv/app/compose.yml", &["a"]),
            declared("/srv/new/compose.yml", &["n"]),
        ]),
        11 * SECOND,
    );
    assert!(matches!(action, Action::AwaitTick(_)));
    assert_eq!(monitor.phase(), Phase::Idle);
    assert_eq!(monitor.state().managed_count(), 2);
    assert_eq!(counters(&monitor, "n"), (0, 0, None));
}

#[test]
fn changed_compose_files_drop_the_history() {
    let mut monitor = idle(&["a"], 5);
    check(&mut monitor, &[], 10 * SECOND);
    restart(&mut monitor, &[], 25 * SECOND);
    assert_eq!(counters(&monitor, "a"), (0, 1, Some(25 * SECOND)));
    monitor.step(Event::CheckTick, 100 * SECOND);
    monitor.step(Event::ConfigLoaded(Some(config(&["/other/compose.yml"], 5))), 100 * SECOND);
    monitor.step(Event::DescriptorsLoaded(vec![declared("/other/compose.yml", &["a"])]), 100 * SECOND);
    assert_eq!(counters(&monitor, "a"), (0, 0, None));
    assert_eq!(monitor.state().container("a").unwrap().compose_file, "/other/compose.yml");
}

#[test]
fn configuration_with_the_same_files_is_dropped() {
    let mut monitor = idle(&["a"], 5);
    monitor.step(Event::CheckTick, 10 * SECOND);
    let action = monitor.step(
        Event::ConfigLoaded(Some(config(&["/srv/app/compose.yml"], 1))),
        10 * SECOND,
    );
    assert!(matches!(action, Action::ListRunning));
    assert_eq!(monitor.config().max_consecutive_failures, 5);
}

#[test]
fn compose_files_in_another_order_are_a_change() {
    let mut monitor = started(
        &["/a.yml", "/b.yml"],
        5,
        vec![declared("/a.yml", &["a"]), declared("/b.yml", &["b"])],
    );
    let action = monitor.step(Event::ConfigLoaded(Some(config(&["/b.yml", "/a.yml"], 5))), SECOND);
    assert!(matches!(
        action,
        Action::LoadDescriptors(ref paths) if *paths == texts(&["/b.yml", "/a.yml"])
    ));
}

#[test]
fn container_at_the_failure_limit_is_left_alone_until_rediscovery() {
    let mut monitor = idle(&["a"], 2);
    let action = check(&mut monitor, &[], 100 * SECOND);
    assert!(matches!(action, Action::StopUnit(_)));
    restart(&mut monitor, &[], 110 * SECOND);
    let action = check(&mut monitor, &[], 200 * SECOND);
    assert!(matches!(action, Action::StopUnit(_)));
    restart(&mut monitor, &[], 210 * SECOND);
    assert_eq!(counters(&monitor, "a"), (0, 2, Some(110 * SECOND)));

    let action = check(&mut monitor, &[], 10_000 * SECOND);
    assert!(matches!(action, Action::AwaitTick(_)));
    let action = check(&mut monitor, &[], u64::MAX);
    assert!(matches!(action, Action::AwaitTick(_)));
    assert_eq!(counters(&monitor, "a"), (0, 2, Some(110 * SECOND)));

    let action = monitor.step(Event::StatusTick, 20_000 * SECOND);
    assert!(matches!(action, Action::ReportStatus(_)));
    let action = monitor.step(Event::StatusReported, 20_000 * SECOND);
    assert!(matches!(action, Action::LoadDescriptors(_)));
    let action = monitor.step(
        Event::DescriptorsLoaded(vec![declared("/srv/app/compose.yml", &["a"])]),
        20_000 * SECOND,
    );
    assert!(matches!(action, Action::AwaitTick(_)));
    assert_eq!(counters(&monitor, "a"), (0, 0, None));
    let action = check(&mut monitor, &[], 20_001 * SECOND);
    assert!(matches!(action, Action::StopUnit(ref task) if task.name == "a"));
}

#[test]
fn failure_limit_of_zero_never_restarts() {
    let mut monitor = idle(&["a"], 0);
    let action = check(&mut monitor, &[], 100 * SECOND);
    assert!(matches!(action, Action::AwaitTick(_)));
}

#[test]
fn container_in_backoff_is_not_restarted() {
    let mut monitor = idle(&["a"], 5);
    check(&mut monitor, &[], 100 * SECOND);
    restart(&mut monitor, &[], 110 * SECOND);
    check(&mut monitor, &[], 112 * SECOND - 1);
    assert_eq!(monitor.phase(), Phase::Idle);
    let action = check(&mut monitor, &[], 112 * SECOND);
    assert!(matches!(action, Action::StopUnit(_)));
    restart(&mut monitor, &[], 125 * SECOND);
    assert_eq!(counters(&monitor, "a"), (0, 2, Some(110 * SECOND)));
    let action = check(&mut monitor, &[], 114 * SECOND - 1);
    assert!(matches!(action, Action::AwaitTick(_)));
    let action = check(&mut monitor, &[], 114 * SECOND);
    assert!(matches!(action, Action::StopUnit(_)));
}

#[test]
fn check_without_containers_asks_for_no_listing() {
    let mut monitor = started(&["/a.yml"], 5, vec![declared("/a.yml", &[])]);
    let action = monitor.step(Event::ConfigLoaded(None), SECOND);
    assert!(matches!(action, Action::AwaitTick(_)));
    let action = monitor.step(Event::CheckTick, 2 * SECOND);
    assert!(matches!(action, Action::LoadConfig(_)));
    let action = monitor.step(Event::ConfigLoaded(Some(config(&["/a.yml"], 5))), 2 * SECOND);
    assert!(matches!(action, Action::AwaitTick(_)));
}

#[test]
fn startup_checks_at_once() {
    let mut monitor = started(&["/srv/app/compose.yml"], 5, vec![declared("/srv/app/compose.yml", &["a"])]);
    let action = monitor.step(Event::ConfigLoaded(None), SECOND);
    assert!(matches!(action, Action::ListRunning));
    let action = monitor.step(Event::RunningListed(Some(Vec::new())), SECOND);
    assert!(matches!(action, Action::StopUnit(ref task) if task.name == "a"));
}

#[test]
fn status_tick_reports_and_then_rediscovers() {
    let mut monitor = idle(&["a", "b", "c"], 5);
    check(&mut monitor, &["b"], 10 * SECOND);
    monitor.step(Event::UnitStopped(false), 11 * SECOND);
    restart(&mut monitor, &["b", "c"], 25 * SECOND);
    let action = monitor.step(Event::StatusTick, 30 * SECOND);
    match action {
        Action::ReportStatus(summary) => {
            assert_eq!(summary.total, 3);
            assert_eq!(summary.running, 1);
            assert_eq!(summary.histories.len(), 2);
            assert_eq!(summary.histories[0].name, "a");
            assert_eq!(summary.histories[0].restart_count, 0);
            assert_eq!(summary.histories[0].consecutive_failures, 1);
            assert_eq!(summary.histories[1].name, "c");
            assert_eq!(summary.histories[1].restart_count, 1);
            assert_eq!(summary.histories[1].consecutive_failures, 0);
        }
        other => panic!("unexpected action {:?}", other),
    }
    assert_eq!(monitor.phase(), Phase::Reporting);
    let action = monitor.step(Event::StatusReported, 30 * SECOND);
    assert!(matches!(
        action,
        Action::LoadDescriptors(ref paths) if *paths == texts(&["/srv/app/compose.yml"])
    ));
    let action = monitor.step(
        Event::DescriptorsLoaded(vec![declared("/srv/app/compose.yml", &["a", "b", "c"])]),
        31 * SECOND,
    );
    assert!(matches!(action, Action::AwaitTick(_)));
    let summary = monitor.status_summary();
    assert_eq!((summary.total, summary.running), (3, 1));
    assert!(summary.histories.is_empty());
}

#[test]
fn status_summary_changes_nothing() {
    let mut monitor = idle(&["a"], 5);
    check(&mut monitor, &[], 10 * SECOND);
    restart(&mut monitor, &["a"], 25 * SECOND);
    let first = monitor.status_summary();
    let second = monitor.status_summary();
    assert_eq!((first.total, first.running), (second.total, second.running));
    assert_eq!(first.histories.len(), 1);
    assert_eq!(second.histories.len(), 1);
    assert_eq!(counters(&monitor, "a"), (1, 0, Some(25 * SECOND)));
    assert_eq!(monitor.phase(), Phase::Idle);
}

#[test]
fn event_that_is_not_awaited_changes_nothing() {
    let mut monitor = idle(&["a"], 5);
    let action = monitor.step(Event::Settled, SECOND);
    assert!(matches!(action, Action::AwaitTick(_)));
    let action = monitor.step(Event::RunningListed(Some(Vec::new())), SECOND);
    assert!(matches!(action, Action::AwaitTick(_)));
    assert_eq!(monitor.phase(), Phase::Idle);
    check(&mut monitor, &[], 10 * SECOND);
    let action = monitor.step(Event::CheckTick, 11 * SECOND);
    assert!(matches!(action, Action::StopUnit(ref task) if task.name == "a"));
    let action = monitor.step(Event::UnitStarted(true), 11 * SECOND);
    assert!(matches!(action, Action::StopUnit(_)));
    assert_eq!(monitor.phase(), Phase::StoppingUnit);
    assert_eq!(counters(&monitor, "a"), (0, 0, None));
}

#[test]
fn should_restart_follows_limit_and_backoff() {
    let monitor = idle(&["a"], 3);
    let mut state = rusty_podmon::state::ContainerState::new("/x/compose.yml".to_string());
    assert!(monitor.should_restart_container(&state, 0));
    state.consecutive_failures = 2;
    state.last_restart = Some(10 * SECOND);
    assert!(!monitor.should_restart_container(&state, 13 * SECOND));
    assert!(monitor.should_restart_container(&state, 14 * SECOND));
    state.consecutive_failures = 3;
    assert!(!monitor.should_restart_container(&state, 1_000 * SECOND));
    state.consecutive_failures = 4;
    assert!(!monitor.should_restart_container(&state, 1_000 * SECOND));
}

#[test]
fn events_can_be_handled_by_the_clock() {
    let clock = Clock::start();
    let mut monitor = idle(&["a"], 5);
    monitor.handle(&clock, Event::CheckTick);
    monitor.handle(&clock, Event::ConfigLoaded(None));
    let action = monitor.handle(&clock, Event::RunningListed(Some(Vec::new())));
    assert!(matches!(action, Action::StopUnit(_)));
    let action = monitor.handle(&clock, Event::UnitStopped(false));
    assert!(matches!(action, Action::AwaitTick(_)));
    let (restarts, failures, clock_set) = counters(&monitor, "a");
    assert_eq!((restarts, failures), (0, 1));
    assert!(clock_set.is_some());
}
