//! A verified model of a minimal self-updater helper.
//!
//! The helper replaces one application archive with a freshly downloaded
//! copy and then relaunches the host application.  Its heart is the
//! copy-then-relaunch sequencing: an unconditional grace wait, a bounded
//! copy-with-retry loop, and a single detached relaunch, each failure
//! mapped to a distinct process exit code.
//!
//! The sequencing decisions live in [`sequencer`] as a verified state
//! machine; the surrounding process (argument list, sleeps, file copy,
//! process creation, the append-only log file) performs the actions the
//! machine asks for and feeds the outcomes back as events.  [`logfmt`]
//! builds the timestamped log lines and [`paths`] resolves the working
//! directory and the log-file location.

pub mod logfmt;
pub mod paths;
pub mod sequencer;
