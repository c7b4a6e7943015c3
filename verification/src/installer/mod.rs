//! The installer of `rsup`: where it installs, and how it adds `rsup` to the
//! shell's `PATH`.

use vstd::prelude::*;
use prompt::Origin;

pub mod config;
pub mod prompt;

verus! {

/// The installer's command line.
#[derive(Debug, Clone, Copy)]
pub struct Cli {
    /// where to download from
    pub origin: Option<Origin>,
}

} // verus!
