//! Run a command, capture its standard output and standard error line by
//! line, and relay each line as an RFC 5424 syslog record to a remote
//! receiver over an encrypted connection, preserving the child's exit code.
//!
//! This crate holds the verified core of that pipeline: splitting byte
//! streams into lines, the bounded hand-off queue, syslog record formatting,
//! address and identity configuration, the delivery worker's retry state
//! machine, and the mapping from outcomes to exit codes.

pub mod config;
pub mod delivery;
pub mod lines;
pub mod queue;
pub mod sender;
pub mod syslog;

pub use queue::DeliverValue;
