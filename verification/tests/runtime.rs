use rusty_podmon::clock::Clock;
use rusty_podmon::podman::{PodmanClient, PodmanError};

#[test]
fn names_are_trimmed_lines() {
    let names = PodmanClient::container_names("web\n  db  \n\n\t\ncache");
    assert_eq!(names, vec!["web".to_string(), "db".to_string(), "cache".to_string()]);
}

#[test]
fn carriage_returns_end_lines_too() {
    let names = PodmanClient::container_names("web\r\ndb\r\n");
    assert_eq!(names, vec!["web".to_string(), "db".to_string()]);
}

#[test]
fn empty_listing_names_nothing() {
    assert!(PodmanClient::container_names("").is_empty());
    assert!(PodmanClient::container_names("\n \n").is_empty());
}

#[test]
fn repeated_names_are_kept_in_the_listing() {
    let names = PodmanClient::container_names("web\nweb\n");
    assert_eq!(names, vec!["web".to_string(), "web".to_string()]);
}

#[test]
fn listing_of_a_successful_command() {
    let result = PodmanClient::get_running_containers(true, b"app_web_1\napp_db_1\n".to_vec());
    assert_eq!(result, Ok(vec!["app_web_1".to_string(), "app_db_1".to_string()]));
}

#[test]
fn listing_with_characters_beyond_ascii() {
    let result = PodmanClient::get_running_containers(true, "caf\u{e9}\n".as_bytes().to_vec());
    assert_eq!(result, Ok(vec!["caf\u{e9}".to_string()]));
}

#[test]
fn failed_command_names_nothing() {
    let result = PodmanClient::get_running_containers(false, b"web\n".to_vec());
    assert_eq!(result, Err(PodmanError::CommandFailed));
}

#[test]
fn output_that_is_not_utf8_is_refused() {
    let result = PodmanClient::get_running_containers(true, vec![b'w', 0xff, b'\n']);
    assert_eq!(result, Err(PodmanError::InvalidUtf8));
}

#[test]
fn failed_command_wins_over_bad_output() {
    let result = PodmanClient::get_running_containers(false, vec![0xff]);
    assert_eq!(result, Err(PodmanError::CommandFailed));
}

#[test]
fn clock_never_goes_back() {
    let clock = Clock::start();
    let first = clock.now();
    let second = clock.now();
    assert!(second >= first);
}
