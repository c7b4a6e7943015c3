//! Package information from the npm registry, and the choice of the newer
//! versions of a dependency that an update may go to.

use vstd::prelude::*;
use vstd::string::*;
use crate::manager::keys_unique;
use crate::text::{contains_string, occurs_at, occurs_in, owned, str_views};

verus! {

/// What the registry tells of a package.
#[derive(Debug)]
pub struct PkgInfo {
    pub name: String,
    pub readme: Option<String>,
    /// the version the project requires (not a registry field)
    pub version: Option<String>,
    pub description: Option<String>,
    pub homepage: Option<String>,
    pub keywords: Option<Vec<String>>,
    pub license: Option<String>,
    pub dist_tags: DistTags,
    /// the published versions, by version text
    pub versions: Vec<(String, VersionInfo)>,
    pub is_dev: bool,
    pub is_finish: bool,
    pub is_del: bool,
}

/// The `dist-tags` of a package.
#[derive(Debug)]
pub struct DistTags {
    pub latest: String,
}

/// Where a published version can be downloaded.
#[derive(Debug)]
pub struct Dist {
    pub shasum: Option<String>,
    pub size: Option<usize>,
    pub tarball: Option<String>,
    pub integrity: Option<String>,
}

/// A person of a package.
#[derive(Debug)]
pub struct Memeber {
    pub name: String,
    pub email: Option<String>,
}

/// The author of a package: a person, or a plain string.
#[derive(Debug)]
pub enum Author {
    Memeber(Memeber),
    String(String),
}

/// One published version of a package.
#[derive(Debug)]
pub struct VersionInfo {
    pub name: String,
    pub version: Option<String>,
    pub homepage: Option<String>,
    pub description: Option<String>,
    pub keywords: Option<Vec<String>>,
    pub author: Option<Author>,
    pub maintainers: Option<Vec<Memeber>>,
    pub dependencies: Option<Vec<(String, String)>>,
    pub dev_dependencies: Option<Vec<(String, String)>>,
    pub peer_dependencies: Option<Vec<(String, String)>>,
    pub dist: Option<Dist>,
}

impl PkgInfo {
    /// Package information with every field empty.
    pub fn default() -> (r: PkgInfo)
        ensures
            r.name@ == Seq::<char>::empty(),
            r.readme is None,
            r.version is None,
            r.description is None,
            r.homepage is None,
            r.keywords is None,
            r.license is None,
            r.dist_tags.latest@ == Seq::<char>::empty(),
            r.versions@.len() == 0,
            !r.is_dev,
            !r.is_finish,
            !r.is_del,
    {
        PkgInfo {
            name: String::new(),
            readme: None,
            version: None,
            description: None,
            homepage: None,
            keywords: None,
            license: None,
            dist_tags: DistTags { latest: String::new() },
            versions: Vec::new(),
            is_dev: false,
            is_finish: false,
            is_del: false,
        }
    }
}

/// `semver::Version`, declared to Verus as an opaque type.
#[verifier::external_type_specification]
#[verifier::external_body]
pub struct ExVersion(semver::Version);

/// `regex::Regex`, declared to Verus as an opaque type.
#[verifier::external_type_specification]
#[verifier::external_body]
pub struct ExRegex(regex::Regex);

/// Whether `semver::Version::parse` accepts the text.
pub uninterp spec fn semver_valid(text: Seq<char>) -> bool;

/// The sign (-1, 0 or 1) of `semver::Version::cmp` on the versions that two
/// texts parse to.
pub uninterp spec fn semver_order(a: Seq<char>, b: Seq<char>) -> int;

/// Whether the version that a text parses to has an empty pre-release part.
pub uninterp spec fn semver_is_release(text: Seq<char>) -> bool;

/// The text (`Display`) of the version that a text parses to.
pub uninterp spec fn semver_text(text: Seq<char>) -> Seq<char>;

/// Whether `regex::Regex::new` accepts the pattern.
pub uninterp spec fn regex_compiles(pattern: Seq<char>) -> bool;

/// The text of capture group `index` of the first match of the pattern in
/// `text` (`Regex::captures`, then `Captures::get`), if there is one.
pub uninterp spec fn regex_capture(pattern: Seq<char>, text: Seq<char>, index: nat) -> Option<Seq<char>>;

/// A parsed semantic version, with the text it was parsed from.
pub struct SemVersion {
    text: String,
    version: semver::Version,
}

impl View for SemVersion {
    type V = Seq<char>;

    closed spec fn view(&self) -> Seq<char> {
        self.text@
    }
}

/// A compiled regular expression, with its pattern.
pub struct CompiledRegex {
    pattern: String,
    re: regex::Regex,
}

impl View for CompiledRegex {
    type V = Seq<char>;

    closed spec fn view(&self) -> Seq<char> {
        self.pattern@
    }
}

/// Parses a version with `semver::Version::parse`. Trusted: it succeeds exactly
/// when `semver_valid` holds of the text, and the version keeps the text.
#[verifier::external_body]
fn parse_version(text: &str) -> (r: Option<SemVersion>)
    ensures
        r is Some == semver_valid(text@),
        r matches Some(v) ==> v@ == text@,
{
    semver::Version::parse(text).ok().map(|version| SemVersion { text: text.to_string(), version })
}

/// Compares two versions with `semver::Version`'s `cmp`. Trusted: the result,
/// -1, 0 or 1 for less, equal or greater, is `semver_order` of the two texts.
#[verifier::external_body]
fn version_compare(a: &SemVersion, b: &SemVersion) -> (r: i8)
    ensures
        r == semver_order(a@, b@),
{
    match a.version.cmp(&b.version) {
        core::cmp::Ordering::Less => -1,
        core::cmp::Ordering::Equal => 0,
        core::cmp::Ordering::Greater => 1,
    }
}

/// Whether a version has no pre-release part (`semver::Prerelease::is_empty`).
/// Trusted: this is `semver_is_release` of its text.
#[verifier::external_body]
fn version_is_release(v: &SemVersion) -> (r: bool)
    ensures
        r == semver_is_release(v@),
{
    v.version.pre.is_empty()
}

/// Writes a version out with `semver::Version`'s `Display`. Trusted: the text
/// is `semver_text` of the text it was parsed from.
#[verifier::external_body]
fn version_text(v: &SemVersion) -> (r: String)
    ensures
        r@ == semver_text(v@),
{
    v.version.to_string()
}

/// Compiles a pattern with `regex::Regex::new`. Trusted: it succeeds exactly
/// when `regex_compiles` holds of the pattern, and keeps the pattern.
#[verifier::external_body]
fn regex_new(pattern: &str) -> (r: Option<CompiledRegex>)
    ensures
        r is Some == regex_compiles(pattern@),
        r matches Some(x) ==> x@ == pattern@,
{
    regex::Regex::new(pattern).ok().map(|re| CompiledRegex { pattern: pattern.to_string(), re })
}

/// The text of capture group `index` of the first match of the expression in
/// `text` (`regex::Regex::captures`, `Captures::get`, `Match::as_str`). Trusted:
/// it is `regex_capture` of the pattern, the text and the index.
#[verifier::external_body]
fn regex_group(re: &CompiledRegex, text: &str, index: usize) -> (r: Option<String>)
    ensures
        match r {
            Some(s) => regex_capture(re@, text@, index as nat) == Some(s@),
            None => regex_capture(re@, text@, index as nat) is None,
        },
{
    re.re.captures(text).and_then(|caps| caps.get(index)).map(|m| m.as_str().to_string())
}

/// The pattern that finds the `major.minor.patch` core of a version range
/// such as `^1.2.3` or `~1.2.3-beta`.
pub open spec fn version_pattern() -> Seq<char> {
    "^[^\\d]*(\\d+\\.\\d+\\.\\d+).*"@
}

/// The group that clearing keeps is a whole `major.minor.patch` core: three
/// runs of one or more digits separated by dots (`(\d+\.\d+\.\d+)`), after
/// any non-digit prefix; so `^4.17.21` keeps `4.17.21`, not a shorter patch.
pub proof fn lemma_version_pattern_core()
    ensures
        occurs_at(version_pattern(), "^[^\\d]*"@, 0),
        occurs_at(version_pattern(), "(\\d+\\.\\d+\\.\\d+)"@, 7),
        occurs_in(version_pattern(), "(\\d+\\.\\d+\\.\\d+)"@),
        occurs_at(version_pattern(), ".*"@, 22),
        version_pattern().len() == 24,
{
    reveal_strlit("^[^\\d]*(\\d+\\.\\d+\\.\\d+).*");
    reveal_strlit("^[^\\d]*");
    reveal_strlit("(\\d+\\.\\d+\\.\\d+)");
    reveal_strlit(".*");
    assert(version_pattern().subrange(22, 24) =~= ".*"@);
    assert(version_pattern().subrange(0, 7) =~= "^[^\\d]*"@);
    assert(version_pattern().subrange(7, 22) =~= "(\\d+\\.\\d+\\.\\d+)"@);
    assert(occurs_at(version_pattern(), "(\\d+\\.\\d+\\.\\d+)"@, 7));
}

/// A version range with its prefix (and suffix) removed: the first group of
/// `version_pattern`, or the range unchanged when the pattern does not match.
pub open spec fn cleared_version(v: Seq<char>) -> Seq<char> {
    match regex_capture(version_pattern(), v, 1) {
        Some(m) => m,
        None => v,
    }
}

/// Strips the prefix of a version range (`^1.2.3` gives `1.2.3`).
fn clear_version(v: &str) -> (r: String)
    requires
        regex_compiles(version_pattern()),
    ensures
        r@ == cleared_version(v@),
{
    match regex_new("^[^\\d]*(\\d+\\.\\d+\\.\\d+).*") {
        Some(re) => match regex_group(&re, v, 1) {
            Some(m) => m,
            None => owned(v),
        },
        None => {
            assert(false);
            owned(v)
        },
    }
}

/// Whether `compare_version` can run: the pattern compiles, and the cleared
/// current version and the latest version are semantic versions.
pub open spec fn version_bounds(current: Seq<char>, latest: Seq<char>) -> bool {
    &&& regex_compiles(version_pattern())
    &&& semver_valid(cleared_version(current))
    &&& semver_valid(latest)
}

/// A published version (by its text) that an update from `current` up to
/// `latest` may go to: newer than the current, not newer than the latest, no
/// pre-release.
pub open spec fn is_upgrade(current: Seq<char>, latest: Seq<char>, k: Seq<char>) -> bool {
    &&& semver_valid(k)
    &&& semver_order(k, cleared_version(current)) > 0
    &&& semver_order(k, latest) <= 0
    &&& semver_is_release(k)
}

/// A published version may be updated to exactly when it parses, is newer
/// than the current range's core (the first group of the pattern, or the
/// range itself when it does not match), is not newer than the latest
/// version, and is no pre-release.
pub proof fn lemma_upgrade_conditions(current: Seq<char>, latest: Seq<char>, k: Seq<char>)
    ensures
        is_upgrade(current, latest, k) <==> {
            let core = match regex_capture("^[^\\d]*(\\d+\\.\\d+\\.\\d+).*"@, current, 1) {
                Some(m) => m,
                None => current,
            };
            &&& semver_valid(k)
            &&& semver_order(k, core) > 0
            &&& semver_order(k, latest) <= 0
            &&& semver_is_release(k)
        },
{
}

/// The text `t` is the version text of an upgrade among the keys.
pub open spec fn is_upgrade_text<V>(current: Seq<char>, latest: Seq<char>, all: Seq<(String, V)>, t: Seq<char>) -> bool {
    exists|j: int| 0 <= j < all.len() && is_upgrade(current, latest, #[trigger] all[j].0@) && semver_text(all[j].0@) == t
}

/// The published versions that an update may go to: the entries whose key is
/// the text of an upgrade, in their order.
pub open spec fn upgrades<V>(current: Seq<char>, latest: Seq<char>, all: Seq<(String, V)>) -> Seq<(String, V)> {
    all.filter(upgrade_entry(current, latest, all))
}

/// The entries kept by `upgrades`.
pub open spec fn upgrade_entry<V>(current: Seq<char>, latest: Seq<char>, all: Seq<(String, V)>) -> spec_fn((String, V)) -> bool {
    |e: (String, V)| is_upgrade_text(current, latest, all, e.0@)
}

/// The versions of `all_v` newer than `current_v` (a version range, whose
/// prefix is ignored) and not newer than `latest_v`, without pre-releases.
pub fn compare_version<V>(current_v: &str, latest_v: &str, all_v: Vec<(String, V)>) -> (r: Vec<(String, V)>)
    requires
        version_bounds(current_v@, latest_v@),
    ensures
        r@ == upgrades(current_v@, latest_v@, all_v@),
        keys_unique(all_v@) ==> keys_unique(r@),
{
    let ghost all = all_v@;
    let cleared = clear_version(current_v);
    let c_v = match parse_version(cleared.as_str()) {
        Some(v) => v,
        None => {
            assert(false);
            return Vec::new();
        },
    };
    let l_v = match parse_version(latest_v) {
        Some(v) => v,
        None => {
            assert(false);
            return Vec::new();
        },
    };
    let mut selected: Vec<String> = Vec::new();
    let mut i: usize = 0;
    while i < all_v.len()
        invariant
            all == all_v@,
            i <= all_v.len(),
            c_v@ == cleared_version(current_v@),
            l_v@ == latest_v@,
            forall|t: Seq<char>| str_views(selected@).contains(t) <==> exists|j: int| 0 <= j < i && is_upgrade(current_v@, latest_v@, #[trigger] all[j].0@) && semver_text(all[j].0@) == t,
        decreases all_v.len() - i,
    {
        let k = &all_v[i].0;
        let ghost before = selected@;
        match parse_version(k.as_str()) {
            Some(v) => {
                if version_compare(&v, &c_v) > 0 && version_compare(&v, &l_v) <= 0 && version_is_release(&v) {
                    let t = version_text(&v);
                    selected.push(t);
                    proof {
                        assert(str_views(selected@) =~= str_views(before).push(t@));
                    }
                }
            },
            None => {},
        }
        proof {
            assert forall|t: Seq<char>| str_views(selected@).contains(t) <==> exists|j: int| 0 <= j < i + 1 && is_upgrade(current_v@, latest_v@, #[trigger] all[j].0@) && semver_text(all[j].0@) == t by {
                if str_views(selected@).contains(t) && !str_views(before).contains(t) {
                    assert(is_upgrade(current_v@, latest_v@, all[i as int].0@) && semver_text(all[i as int].0@) == t);
                }
                if exists|j: int| 0 <= j < i + 1 && is_upgrade(current_v@, latest_v@, #[trigger] all[j].0@) && semver_text(all[j].0@) == t {
                    let j = choose|j: int| 0 <= j < i + 1 && is_upgrade(current_v@, latest_v@, #[trigger] all[j].0@) && semver_text(all[j].0@) == t;
                    if j < i {
                        assert(str_views(before).contains(t));
                        let w = choose|w: int| 0 <= w < str_views(before).len() && str_views(before)[w] == t;
                        assert(str_views(selected@)[w] == t);
                    } else {
                        assert(str_views(selected@)[str_views(selected@).len() - 1] == t);
                    }
                }
            }
        }
        i = i + 1;
    }
    let r = keep_selected(all_v, &selected);
    proof {
        assert(is_selected::<V>(str_views(selected@)) =~= upgrade_entry(current_v@, latest_v@, all));
    }
    r
}

/// The entries whose key is one of the texts `selected`.
pub open spec fn is_selected<V>(selected: Seq<Seq<char>>) -> spec_fn((String, V)) -> bool {
    |e: (String, V)| selected.contains(e.0@)
}

/// The entries of `all` whose key is one of the version texts `selected`, in
/// their order.
pub fn keep_selected<V>(all_v: Vec<(String, V)>, selected: &Vec<String>) -> (r: Vec<(String, V)>)
    ensures
        r@ == all_v@.filter(is_selected::<V>(str_views(selected@))),
        keys_unique(all_v@) ==> keys_unique(r@),
{
    let ghost all = all_v@;
    let ghost pred = is_selected::<V>(str_views(selected@));
    let mut rest = all_v;
    let mut out: Vec<(String, V)> = Vec::new();
    let n = rest.len();
    let mut taken: usize = 0;
    assert(all.take(0) =~= Seq::<(String, V)>::empty());
    assert(all.skip(0) =~= all);
    while rest.len() > 0
        invariant
            taken + rest.len() == n,
            n == all.len(),
            pred == is_selected::<V>(str_views(selected@)),
            rest@ == all.skip(taken as int),
            out@ == all.take(taken as int).filter(pred),
        decreases rest.len(),
    {
        let e = rest.remove(0);
        let keep = contains_string(selected, &e.0);
        proof {
            assert(e == all[taken as int]);
            assert(all.take(taken + 1).drop_last() =~= all.take(taken as int));
            assert(all.take(taken + 1).last() == e);
            assert(rest@ =~= all.skip(taken + 1));
            let t1 = all.take(taken + 1);
            reveal(Seq::filter);
            assert(pred(e) == keep);
            assert(t1.filter(pred) == if pred(t1.last()) {
                t1.drop_last().filter(pred).push(t1.last())
            } else {
                t1.drop_last().filter(pred)
            });
        }
        if keep {
            out.push(e);
        }
        taken = taken + 1;
    }
    assert(all.take(n as int) =~= all);
    proof {
        if keys_unique(all) {
            lemma_filter_keys_unique(all, pred);
        }
    }
    out
}

/// Keeping some entries of a map keeps its keys unique.
proof fn lemma_filter_keys_unique<V>(s: Seq<(String, V)>, p: spec_fn((String, V)) -> bool)
    requires
        keys_unique(s),
    ensures
        keys_unique(s.filter(p)),
    decreases s.len(),
{
    reveal(Seq::filter);
    if s.len() > 0 {
        let rest = s.drop_last();
        assert(keys_unique(rest)) by {
            assert forall|i: int, j: int| 0 <= i < j < rest.len() implies #[trigger] rest[i].0@
                != #[trigger] rest[j].0@ by {
                assert(rest[i] == s[i] && rest[j] == s[j]);
            }
        }
        lemma_filter_keys_unique(rest, p);
        let f = rest.filter(p);
        if p(s.last()) {
            let g = f.push(s.last());
            assert forall|i: int, j: int| 0 <= i < j < g.len() implies #[trigger] g[i].0@ != #[trigger] g[j].0@ by {
                if j == f.len() {
                    assert(f.contains(f[i]));
                    rest.lemma_filter_contains_rev(p, f[i]);
                    let k = choose|k: int| 0 <= k < rest.len() && rest[k] == f[i];
                    assert(s[k] == rest[k]);
                    assert(s[k].0@ != s[s.len() - 1].0@);
                } else {
                    assert(g[i] == f[i] && g[j] == f[j]);
                }
            }
        }
    }
}

/// Every version kept by `compare_version` is one of the published versions,
/// newer than the current version and not newer than the latest one, and no
/// pre-release; every published version that is such an upgrade is kept.
pub proof fn lemma_upgrades_exact<V>(current: Seq<char>, latest: Seq<char>, all: Seq<(String, V)>)
    ensures
        forall|i: int|
            0 <= i < upgrades(current, latest, all).len() ==> {
                let e = #[trigger] upgrades(current, latest, all)[i];
                &&& all.contains(e)
                &&& exists|j: int|
                    0 <= j < all.len() && is_upgrade(current, latest, #[trigger] all[j].0@) && semver_text(all[j].0@)
                        == e.0@
            },
        forall|j: int| 0 <= j < all.len() && is_upgrade(current, latest, #[trigger] all[j].0@) && semver_text(all[j].0@) == all[j].0@
            ==> upgrades(current, latest, all).contains(all[j]),
        upgrades(current, latest, all).len() <= all.len(),
{
    let pred = upgrade_entry(current, latest, all);
    all.lemma_filter_len(pred);
    assert forall|i: int| 0 <= i < upgrades(current, latest, all).len() implies {
        let e = #[trigger] upgrades(current, latest, all)[i];
        &&& all.contains(e)
        &&& exists|j: int|
            0 <= j < all.len() && is_upgrade(current, latest, #[trigger] all[j].0@) && semver_text(all[j].0@) == e.0@
    } by {
        all.lemma_filter_pred(pred, i);
        let e = all.filter(pred)[i];
        assert(all.filter(pred).contains(e));
        all.lemma_filter_contains_rev(pred, e);
    }
    assert forall|j: int| 0 <= j < all.len() && is_upgrade(current, latest, #[trigger] all[j].0@) && semver_text(all[j].0@) == all[j].0@
        implies upgrades(current, latest, all).contains(all[j]) by {
        assert(pred(all[j]));
        all.lemma_filter_contains(pred, j);
    }
}

/// `compare_version` where it can run; `None` where the pattern does not
/// compile or a version does not parse (where `compare_version` would fail).
pub fn try_compare_version<V>(current_v: &str, latest_v: &str, all_v: Vec<(String, V)>) -> (r: Option<Vec<(String, V)>>)
    ensures
        match r {
            Some(v) => version_bounds(current_v@, latest_v@) && v@ == upgrades(current_v@, latest_v@, all_v@)
                && (keys_unique(all_v@) ==> keys_unique(v@)),
            None => !version_bounds(current_v@, latest_v@),
        },
{
    if !version_bounds_hold(current_v, latest_v) {
        return None;
    }
    Some(compare_version(current_v, latest_v, all_v))
}

/// Whether `compare_version` can run on these versions.
pub fn version_bounds_hold(current_v: &str, latest_v: &str) -> (r: bool)
    ensures
        r == version_bounds(current_v@, latest_v@),
{
    match regex_new("^[^\\d]*(\\d+\\.\\d+\\.\\d+).*") {
        None => false,
        Some(_) => {
            let cleared = clear_version(current_v);
            parse_version(cleared.as_str()).is_some() && parse_version(latest_v).is_some()
        },
    }
}

} // verus!
