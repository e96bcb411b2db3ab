//! Core of a terminal dashboard for immutable, numbered configuration
//! snapshots ("generations") kept per profile.  The library holds the
//! verified logic: the input-routing state machine, per-tab cursors, the
//! confirm/execute/undo workflow for destructive operations, the package
//! diff engine, and the pure parsers and command builders.  Everything
//! that touches the terminal, the file system or child processes lives
//! outside, hands the library plain values, and is driven by the actions
//! the library returns.

pub mod app;
pub mod commands;
pub mod config;
pub mod detect;
pub mod generations;
pub mod idset;
pub mod nav;
pub mod packages;
pub mod strutil;
pub mod types;
