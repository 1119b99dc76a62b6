//! Health checks for mail accounts.
//!
//! A run logs in to every configured account once: connect, authenticate,
//! select the mailbox, check that the session is alive, log out. This crate
//! holds what such a run decides and computes, and performs no I/O itself:
//!
//! - [`address`] reads a server string (`host:port`, `[ipv6]:port` or a bare
//!   host) as host and port;
//! - [`probe`] is the lifecycle of one probe: it names the next step and
//!   takes in how the step went, until the outcome is known;
//! - [`scheduler`] hands the endpoints out to a bounded number of workers
//!   and counts the outcomes;
//! - [`config`] settles the number of workers, the configuration file and
//!   the exit status of the errors that end the program;
//! - [`report`] words the summary of a run and the line of a failed probe.
//!
//! The caller opens the connections, runs the worker threads and reads the
//! configuration file.

pub mod address;
pub mod config;
pub mod probe;
pub mod report;
pub mod scheduler;
