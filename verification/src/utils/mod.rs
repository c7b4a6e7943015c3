//! Download addresses of the `rsup` releases and the system commands that
//! tell whether a tool is installed.

use vstd::prelude::*;
use vstd::string::*;
use crate::text::{concat, owned, str_eq};

pub mod rs_env;

verus! {

/// Where the releases are published.
#[derive(Debug, Clone, Copy, PartialEq, Eq)]
pub enum Origin {
    Github,
    Gitee,
}

/// The release version that is downloaded.
pub const VERSION: &'static str = "latest";

/// The address of an origin's account.
pub open spec fn origin_url(o: Origin) -> Seq<char> {
    match o {
        Origin::Github => "https://github.com/ngd-b"@,
        Origin::Gitee => "https://gitee.com/hboot"@,
    }
}

impl Origin {
    /// The address of the origin's account.
    pub fn get_pkg_url(&self) -> (r: String)
        ensures
            r@ == origin_url(*self),
    {
        match self {
            Origin::Github => owned("https://github.com/ngd-b"),
            Origin::Gitee => owned("https://gitee.com/hboot"),
        }
    }
}

/// The release package suffix for an operating system.
pub open spec fn os_suffix(os: Seq<char>) -> Seq<char> {
    if os == "windows"@ {
        "windows-latest"@
    } else if os == "macos"@ {
        "macos-latest"@
    } else {
        "ubuntu-latest"@
    }
}

/// The archive format of the release package for an operating system: a
/// `.zip` for Windows, a `.tar.gz` elsewhere.
pub open spec fn archive_ext(os: Seq<char>) -> Seq<char> {
    if os == "windows"@ {
        ".zip"@
    } else {
        ".tar.gz"@
    }
}

/// The download addresses of the `rsup` binary and of the web client, on an
/// operating system (`std::env::consts::OS`), from an origin (GitHub by default).
pub fn get_pkg_url(origin: Option<Origin>, os: &str) -> (r: (String, String))
    ensures
        ({
            let base = origin_url(
                match origin {
                    Some(o) => o,
                    None => Origin::Github,
                },
            );
            &&& r.0@ == base + "/rsup/releases/download/"@ + "latest"@ + "/rsup-"@ + os_suffix(os@)
                + archive_ext(os@)
            &&& r.1@ == base + "/rsup-web/releases/download/"@ + "latest"@ + "/rsup-web.tar.gz"@
        }),
{
    let origin = match origin {
        Some(o) => o,
        None => Origin::Github,
    };
    let base = origin.get_pkg_url();
    let url = concat(concat(base.as_str(), "/rsup/releases/download/").as_str(), VERSION);
    let web_url = concat(concat(base.as_str(), "/rsup-web/releases/download/").as_str(), VERSION);
    let windows = str_eq(os, "windows");
    let suffix = if windows {
        "windows-latest"
    } else if str_eq(os, "macos") {
        "macos-latest"
    } else {
        "ubuntu-latest"
    };
    let ext = if windows {
        ".zip"
    } else {
        ".tar.gz"
    };
    let url = concat(concat(concat(url.as_str(), "/rsup-").as_str(), suffix).as_str(), ext);
    let web_url = concat(web_url.as_str(), "/rsup-web.tar.gz");
    (url, web_url)
}

/// The command that locates a program: `where` on Windows, `which` elsewhere.
pub fn which_command(is_windows: bool) -> (r: String)
    ensures
        r@ == if is_windows {
            "where"@
        } else {
            "which"@
        },
{
    if is_windows {
        owned("where")
    } else {
        owned("which")
    }
}

/// The program name under which a command is run: on Windows a batch
/// command gets `.cmd` appended.
pub fn command_file_name(name: &str, is_windows: bool, is_cmd: bool) -> (r: String)
    ensures
        r@ == if is_windows && is_cmd {
            name@ + ".cmd"@
        } else {
            name@
        },
{
    if is_windows && is_cmd {
        concat(name, ".cmd")
    } else {
        owned(name)
    }
}

} // verus!
