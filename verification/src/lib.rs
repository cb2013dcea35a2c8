//! Core of a command-line package manager that installs prebuilt binaries
//! from release archives and tracks the installed state.
//!
//! The crate holds the verified logic: classifying user input, glob-based
//! cache lookup, package resolution, platform selection, and the install
//! pipeline state machine. All file, network and terminal work is left to
//! the surrounding application, which drives these functions with plain
//! values.

pub mod batch;
pub mod errors;
pub mod glob;
pub mod installer;
pub mod manifest;
pub mod package_resolver;
pub mod paths;
pub mod platform;
pub mod providers;
pub mod strutil;
