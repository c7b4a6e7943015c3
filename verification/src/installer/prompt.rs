//! Choices of the installer: the download origin, and adding `rsup` to `PATH`.

use vstd::prelude::*;
use vstd::string::*;
use crate::text::{concat, contains_str, occurs_at, occurs_in, owned, str_eq, str_views};

verus! {

/// Where the installer downloads from.
#[derive(Debug, Clone, Copy, PartialEq, Eq)]
pub enum Origin {
    Github,
    Gitee,
}

/// The address of an origin's account.
pub open spec fn origin_url(o: Origin) -> Seq<char> {
    match o {
        Origin::Github => "https://github.com/ngd-b"@,
        Origin::Gitee => "https://gitee.com/hboot"@,
    }
}

/// The name of an origin.
pub open spec fn origin_name(o: Origin) -> Seq<char> {
    match o {
        Origin::Github => "github"@,
        Origin::Gitee => "gitee"@,
    }
}

impl Origin {
    /// The address of the origin's account.
    pub fn get_pkg_url(&self) -> (r: String)
        ensures
            r@ == origin_url(*self),
    {
        match self {
            Origin::Github => owned("https://github.com/ngd-b"),
            Origin::Gitee => owned("https://gitee.com/hboot"),
        }
    }

    /// The origin's name.
    pub fn as_str(&self) -> (r: &'static str)
        ensures
            r@ == origin_name(*self),
    {
        match self {
            Origin::Github => "github",
            Origin::Gitee => "gitee",
        }
    }

    /// The names of the origins, in the order they are offered.
    pub fn choices() -> (r: Vec<&'static str>)
        ensures
            r@.len() == 2,
            r@[0]@ == origin_name(Origin::Github),
            r@[1]@ == origin_name(Origin::Gitee),
    {
        let mut v: Vec<&'static str> = Vec::new();
        v.push(Origin::Github.as_str());
        v.push(Origin::Gitee.as_str());
        v
    }
}

/// The origin chosen at a position of `choices` (none past the end).
pub fn origin_at(index: usize) -> (r: Option<Origin>)
    ensures
        index == 0 ==> r == Some(Origin::Github),
        index == 1 ==> r == Some(Origin::Gitee),
        index > 1 ==> r is None,
{
    if index == 0 {
        Some(Origin::Github)
    } else if index == 1 {
        Some(Origin::Gitee)
    } else {
        None
    }
}

/// Why `rsup` was not added to `PATH`.
#[derive(Debug, Clone, PartialEq, Eq)]
pub enum EnvError {
    /// Windows is not supported.
    NotSupportWindows,
    /// The shell configuration file does not exist.
    ConfigNotFound(String),
    /// The user declined.
    Declined,
}

/// Whether `PATH` can be changed on an operating system: not on Windows.
pub fn check_env_os(os: &str) -> (r: Result<(), EnvError>)
    ensures
        os@ == "windows"@ ==> r == Err::<(), EnvError>(EnvError::NotSupportWindows),
        os@ != "windows"@ ==> r is Ok,
{
    if str_eq(os, "windows") {
        Err(EnvError::NotSupportWindows)
    } else {
        Ok(())
    }
}

/// The shell configuration file: `.zshrc` on macOS, `.bashrc` elsewhere.
pub open spec fn shell_file(os: Seq<char>) -> Seq<char> {
    if os == "macos"@ {
        ".zshrc"@
    } else {
        ".bashrc"@
    }
}

/// The shell configuration file of an operating system.
pub fn shell_file_name(os: &str) -> (r: String)
    ensures
        r@ == shell_file(os@),
{
    if str_eq(os, "macos") {
        owned(".zshrc")
    } else {
        owned(".bashrc")
    }
}

/// The path of the shell configuration file in the home directory.
pub fn shell_config_path(home: &str, file: &str) -> (r: String)
    ensures
        r@ == home@ + "/"@ + file@,
{
    concat(concat(home, "/").as_str(), file)
}

/// Whether the configuration already mentions the directory.
pub fn is_path_added(content: &str, path: &str) -> (r: bool)
    ensures
        r == occurs_in(content@, path@),
{
    contains_str(content, path)
}

/// The lines that add a directory to `PATH` in a shell configuration.
pub open spec fn export_lines(path: Seq<char>) -> Seq<char> {
    "\n# Add rsup to PATH\n"@ + "export PATH=\""@ + path + ":$PATH\"\n"@
}

/// The lines appended to the shell configuration.
pub fn path_export_lines(path: &str) -> (r: String)
    ensures
        r@ == export_lines(path@),
{
    concat(concat(concat("\n# Add rsup to PATH\n", "export PATH=\"").as_str(), path).as_str(), ":$PATH\"\n")
}

/// The shell configuration after adding `path` to `PATH`: unchanged when it
/// already mentions `path`, else with the export lines appended.
pub open spec fn path_edit(content: Seq<char>, path: Seq<char>) -> Seq<char> {
    if occurs_in(content, path) {
        content
    } else {
        content + export_lines(path)
    }
}

/// After adding a directory to `PATH` the configuration mentions it, so
/// adding it a second time changes nothing.
pub proof fn lemma_path_edit_idempotent(content: Seq<char>, path: Seq<char>)
    ensures
        occurs_in(path_edit(content, path), path),
        path_edit(path_edit(content, path), path) == path_edit(content, path),
{
    if !occurs_in(content, path) {
        let head = "\n# Add rsup to PATH\n"@;
        let open = "export PATH=\""@;
        let tail = ":$PATH\"\n"@;
        let edited = content + (head + open + path + tail);
        let i: int = (content.len() + head.len() + open.len()) as int;
        assert(edited =~= content + head + open + path + tail);
        assert(edited.subrange(i, i + path.len() as int) =~= path);
        assert(occurs_at(edited, path, i));
    }
}

} // verus!
