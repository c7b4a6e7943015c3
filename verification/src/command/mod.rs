//! The sub-commands of `rsup`: managing the configuration, and updating
//! `rsup` itself.

use vstd::prelude::*;
use vstd::string::*;
use crate::text::concat;

pub mod config;
pub mod update;

verus! {

/// The sub-commands.
#[derive(Debug)]
pub enum Commands {
    /// Manage the config file
    Config { config: config::Options },
    /// Update the rsup binary and web client
    Update { update: update::Options },
}

/// Where the `rsup` archive is downloaded in the installation directory.
pub fn rsup_archive_path(dir: &str) -> (r: String)
    ensures
        r@ == dir@ + "/rsup.tar.gz"@,
{
    concat(dir, "/rsup.tar.gz")
}

/// Where the web client archive is downloaded in the installation directory.
pub fn web_archive_path(dir: &str) -> (r: String)
    ensures
        r@ == dir@ + "/rsup-web.tar.gz"@,
{
    concat(dir, "/rsup-web.tar.gz")
}

/// Where the web client is unpacked in the installation directory.
pub fn web_dir(dir: &str) -> (r: String)
    ensures
        r@ == dir@ + "/web"@,
{
    concat(dir, "/web")
}

} // verus!
