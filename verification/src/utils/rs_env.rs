//! The tools of a front-end environment (node, npm, pnpm, yarn).

use vstd::prelude::*;
use vstd::string::*;
use crate::text::{owned, str_eq};

verus! {

/// An installed tool.
#[derive(Debug, Clone)]
pub struct Env {
    /// the command name
    pub name: String,
    /// what `<name> -v` prints
    pub version: String,
    /// where the command is
    pub path: String,
    /// whether the command is a batch command on Windows
    pub is_cmd: bool,
}

/// The tools of the environment.
#[derive(Debug)]
pub struct EnvVec {
    pub node: Option<Env>,
    pub npm: Option<Env>,
    pub pnpm: Option<Env>,
    pub yarn: Option<Env>,
}

impl Env {
    /// Whether a tool is a batch command on Windows: all but `node`.
    pub fn is_batch(name: &str) -> (r: bool)
        ensures
            r == (name@ != "node"@),
    {
        !str_eq(name, "node")
    }

    /// The tool `name`, given where the system found it (empty when it did
    /// not) and the version it reports; `None` when it was not found.
    pub fn new(name: &str, path: String, version: String) -> (r: Option<Env>)
        ensures
            path@.len() == 0 ==> r is None,
            path@.len() > 0 ==> r is Some && r->Some_0.name@ == name@ && r->Some_0.path == path
                && r->Some_0.version == version && r->Some_0.is_cmd == (name@ != "node"@),
    {
        let is_cmd = Env::is_batch(name);
        if path.unicode_len() == 0 {
            None
        } else {
            Some(Env { name: owned(name), version, path, is_cmd })
        }
    }
}

} // verus!
