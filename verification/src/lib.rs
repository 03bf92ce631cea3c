//! Synchronizes a version string across a multi-package project description:
//! a root configuration file, its declared member sub-projects, and the
//! dependency entries that refer to them.

pub mod cargo;
pub mod commands;
pub mod encode;
pub mod filesystem;
pub mod laws;
pub mod manifest;
pub mod parse;
pub mod paths;
