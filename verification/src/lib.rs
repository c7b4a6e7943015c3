//! A helper library for the dependencies of front-end (npm) projects:
//! configuration, lock-file dependency graphs, package version comparison
//! and the small decision rules around installing and updating packages.

pub mod command;
pub mod config;
pub mod core_config;
pub mod installer;
pub mod manager;
pub mod package;
pub mod text;
pub mod utils;
pub mod web;
