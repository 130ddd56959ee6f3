//! The core of a workspace formatting command: finding formatter binaries,
//! choosing the packages and files a run touches, and turning the outcome of
//! each per-file formatter run into a report. Everything that touches the
//! environment, the filesystem or a subprocess is handed in as plain values
//! or as a probe, so that the decisions themselves are verified.
pub mod collect;
pub mod error;
pub mod format;
pub mod locator;
pub mod paths;
pub mod runner;
pub mod targets;
pub mod workspace;
