//! The command-line surface, as plain data: what the argument parser in the
//! surrounding program fills in and hands to the library.

use vstd::prelude::*;

verus! {

/// Verbosity of the surrounding program's logging.
#[derive(Copy, Clone, Debug, PartialEq, Eq, Structural)]
pub enum LogLevel {
    Off,
    Trace,
    Debug,
    Info,
    Warn,
    Error,
}

/// A semantic-version bump step. Accepted by the argument surface; the
/// arithmetic behind it is a declared, unimplemented capability.
#[derive(Copy, Clone, Debug, PartialEq, Eq, Structural)]
pub enum BumpLevel {
    Patch,
    Minor,
    Major,
}

/// The one supported command.
#[derive(Debug, Clone)]
pub enum Commands {
    /// Set a package's version across the manifest graph.
    SetVersion {
        /// Intended to broaden scope; not wired into the propagation engine.
        workspace: bool,
        /// The target package name.
        _crate: String,
        /// The root configuration file; the conventional name in the current
        /// location when absent.
        path: Option<String>,
        /// The new version, written through unchanged.
        set_version: Option<String>,
        /// Mutually exclusive with `set_version`.
        bump: Option<BumpLevel>,
    },
}

/// The parsed command line.
#[derive(Debug, Clone)]
pub struct Cli {
    pub name: Option<String>,
    pub log_level: Option<LogLevel>,
    pub command: Option<Commands>,
}

impl Commands {
    /// The root identifier the command works on: the given path, or the
    /// conventional file name in the current location.
    pub fn effective_path(&self) -> (r: String)
        ensures
            match self {
                Commands::SetVersion { path: Some(p), .. } => r@ == p@,
                Commands::SetVersion { path: None, .. } => r@ == "Cargo.toml"@,
            },
    {
        match self {
            Commands::SetVersion { path: Some(p), .. } => p.clone(),
            Commands::SetVersion { path: None, .. } => String::from_str("Cargo.toml"),
        }
    }
}

} // verus!
