//! The monitor's configuration and its defaults.

use crate::text::text_views;
use vstd::prelude::*;
use vstd::string::StringExecFns;

verus! {

/// Seconds between two checks where the configuration names none.
pub fn default_check_interval() -> (seconds: u64)
    ensures
        seconds == 30,
{
    30
}

/// Seconds between two status reports where the configuration names none.
pub fn default_status_interval() -> (seconds: u64)
    ensures
        seconds == 300,
{
    300
}

/// Consecutive failed restarts after which a container is left alone, where
/// the configuration names no other number.
pub fn default_max_failures() -> (failures: u32)
    ensures
        failures == 5,
{
    5
}

/// A configuration, as a mathematical value.
pub struct Configuration {
    /// The descriptor paths, in the order of the configuration file.
    pub compose_files: Seq<Seq<char>>,
    /// Seconds between two checks.
    pub check_interval_seconds: nat,
    /// Seconds between two status reports.
    pub status_interval_seconds: nat,
    /// Failure streak at which restarts stop.
    pub max_consecutive_failures: nat,
}

/// What the monitor is told to supervise, and how often.
#[derive(Debug, Clone, PartialEq, Eq)]
pub struct Config {
    /// Paths of the compose files whose containers are supervised.
    pub compose_files: Vec<String>,
    /// Seconds between two checks.
    pub check_interval_seconds: u64,
    /// Seconds between two status reports.
    pub status_interval_seconds: u64,
    /// Failure streak at which restarts of a container stop.
    pub max_consecutive_failures: u32,
}

impl View for Config {
    type V = Configuration;

    open spec fn view(&self) -> Configuration {
        Configuration {
            compose_files: text_views(self.compose_files@),
            check_interval_seconds: self.check_interval_seconds as nat,
            status_interval_seconds: self.status_interval_seconds as nat,
            max_consecutive_failures: self.max_consecutive_failures as nat,
        }
    }
}

impl Config {
    /// A configuration for `compose_files` with the default intervals and the
    /// default failure limit.
    pub fn with_defaults(compose_files: Vec<String>) -> (config: Config)
        ensures
            config@ == (Configuration {
                compose_files: text_views(compose_files@),
                check_interval_seconds: 30,
                status_interval_seconds: 300,
                max_consecutive_failures: 5,
            }),
    {
        Config {
            compose_files,
            check_interval_seconds: default_check_interval(),
            status_interval_seconds: default_status_interval(),
            max_consecutive_failures: default_max_failures(),
        }
    }

    /// Whether `self` and `other` name the same compose files in the same
    /// order.
    pub fn same_compose_files(&self, other: &Config) -> (same: bool)
        ensures
            same == (self@.compose_files == other@.compose_files),
    {
        if self.compose_files.len() != other.compose_files.len() {
            assert(self@.compose_files.len() != other@.compose_files.len());
            return false;
        }
        let mut i: usize = 0;
        while i < self.compose_files.len()
            invariant
                i <= self.compose_files.len(),
                self.compose_files.len() == other.compose_files.len(),
                forall|k: int| 0 <= k < i ==> self.compose_files[k]@ == other.compose_files[k]@,
            decreases self.compose_files.len() - i,
        {
            if !(self.compose_files[i] == other.compose_files[i]) {
                assert(self@.compose_files[i as int] != other@.compose_files[i as int]);
                return false;
            }
            i = i + 1;
        }
        assert(self@.compose_files =~= other@.compose_files);
        true
    }
}

/// What the command line selects.
#[derive(Debug, Clone, PartialEq, Eq)]
pub struct Args {
    /// Path of the configuration file.
    pub config: String,
    /// Directory for the log files.
    pub log_dir: String,
    /// Log verbosity.
    pub log_level: String,
}

impl Default for Args {
    /// The configuration file `monitor.toml`, the log directory `logs` and
    /// the verbosity `info`.
    fn default() -> (args: Args)
        ensures
            args.config@ == "monitor.toml"@,
            args.log_dir@ == "logs"@,
            args.log_level@ == "info"@,
    {
        Args {
            config: String::from_str("monitor.toml"),
            log_dir: String::from_str("logs"),
            log_level: String::from_str("info"),
        }
    }
}

impl Args {
    /// The filter directive that lets the monitor's own messages through at
    /// the selected verbosity.
    pub fn log_filter(&self) -> (directive: String)
        ensures
            directive@ == "rusty_podmon="@ + self.log_level@,
    {
        let mut directive = String::from_str("rusty_podmon=");
        directive.append(self.log_level.as_str());
        directive
    }
}

} // verus!
