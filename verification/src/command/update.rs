//! The `update` sub-command.

use vstd::prelude::*;

verus! {

/// What to update.
#[derive(Debug, Clone, Copy, PartialEq, Eq)]
pub enum Options {
    Rsup,
    Web,
}

} // verus!
