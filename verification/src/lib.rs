//! Supervision of the containers that Podman compose files declare.
//!
//! A monitor keeps a record for each declared container, compares the
//! declared containers with the running ones at every check, and has the
//! deployment unit of a container that is down restarted, with an
//! exponential backoff between attempts and a limit on consecutive failures.
//!
//! The library decides; it performs no input or output itself. Its driver
//! reports events to a [`monitor::ContainerMonitor`] and performs the action
//! that each event is answered with (see [`protocol`]). What the monitor
//! does is stated over mathematical models ([`reconcile`], [`state`]) and
//! proved; [`laws`] holds what follows for every input.
//!
//! The YAML parser, a few string and path functions of the standard library
//! and the clock are taken on trust: see [`yaml`], [`text`] and [`clock`].

pub mod clock;
pub mod config;
pub mod laws;
pub mod monitor;
pub mod parse;
pub mod podman;
pub mod protocol;
pub mod reconcile;
pub mod state;
pub mod text;
pub mod yaml;
