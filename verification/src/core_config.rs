//! The configuration record of the main program.

use vstd::prelude::*;

verus! {

/// The main program's configuration.
#[derive(Debug)]
pub struct Config {
    pub version: String,
    pub port: u16,
    pub dir: String,
}

} // verus!
