//! The `config` sub-command.

use vstd::prelude::*;

verus! {

/// What to do with the configuration.
#[derive(Debug)]
pub enum Options {
    List,
    /// Set config value
    SetValue { key: String, value: String },
    /// Get config value
    Get { key: String },
    Delete,
}

} // verus!
