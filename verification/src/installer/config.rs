//! The configuration written at the first installation.

use vstd::prelude::*;
use vstd::string::*;
use crate::text::{owned, str_eq};

verus! {

/// The first configuration.
#[derive(Debug)]
pub struct Config {
    pub version: String,
    pub port: u16,
    pub dir: String,
}

/// The installation directory on an operating system.
pub open spec fn install_dir(os: Seq<char>) -> Seq<char> {
    if os == "windows"@ {
        "C:\\Program Files\\rsup"@
    } else {
        "/usr/local/bin/rsup"@
    }
}

impl Config {
    /// The first configuration for an installation at `config_url`: no
    /// version yet, port 8888.
    pub fn new(config_url: String) -> (r: Config)
        ensures
            r.version@ == Seq::<char>::empty(),
            r.port == 8888,
            r.dir == config_url,
    {
        Config { version: String::new(), port: 8888, dir: config_url }
    }

    /// The installation directory on an operating system (`std::env::consts::OS`).
    pub fn get_url(os: &str) -> (r: String)
        ensures
            r@ == install_dir(os@),
    {
        if str_eq(os, "windows") {
            owned("C:\\Program Files\\rsup")
        } else {
            owned("/usr/local/bin/rsup")
        }
    }
}

} // verus!
