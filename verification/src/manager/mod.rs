//! Lock files of the package managers (npm, pnpm, yarn): which manager a
//! project uses, and the dependency graph that a lock file records.

use vstd::prelude::*;
use vstd::string::*;
use crate::text::{owned, str_eq};

pub mod npm_lock;
pub mod pnpm_lock;

verus! {

/// The package managers.
#[derive(Debug, Clone, Copy, PartialEq, Eq)]
pub enum ManagerType {
    Npm,
    Yarn,
    Pnpm,
}

/// The name of a package manager.
pub open spec fn manager_name(m: ManagerType) -> Seq<char> {
    match m {
        ManagerType::Npm => "npm"@,
        ManagerType::Yarn => "yarn"@,
        ManagerType::Pnpm => "pnpm"@,
    }
}

/// The manager that a name denotes; an unknown name denotes npm.
pub open spec fn manager_from_name(s: Seq<char>) -> ManagerType {
    if s == "npm"@ {
        ManagerType::Npm
    } else if s == "yarn"@ {
        ManagerType::Yarn
    } else if s == "pnpm"@ {
        ManagerType::Pnpm
    } else {
        ManagerType::Npm
    }
}

/// The lock file that a manager writes next to `package.json`.
pub open spec fn lock_file_name(m: ManagerType) -> Seq<char> {
    match m {
        ManagerType::Npm => "package-lock.json"@,
        ManagerType::Yarn => "yarn.lock"@,
        ManagerType::Pnpm => "pnpm-lock.yaml"@,
    }
}

impl ManagerType {
    /// The manager's name: `npm`, `yarn` or `pnpm`.
    pub fn to_string(&self) -> (r: String)
        ensures
            r@ == manager_name(*self),
    {
        match self {
            ManagerType::Npm => owned("npm"),
            ManagerType::Yarn => owned("yarn"),
            ManagerType::Pnpm => owned("pnpm"),
        }
    }

    /// The manager that `s` names; any other text gives npm.
    pub fn from_str(s: &str) -> (r: ManagerType)
        ensures
            r == manager_from_name(s@),
    {
        if str_eq(s, "npm") {
            ManagerType::Npm
        } else if str_eq(s, "yarn") {
            ManagerType::Yarn
        } else if str_eq(s, "pnpm") {
            ManagerType::Pnpm
        } else {
            ManagerType::Npm
        }
    }

    /// The name of the lock file that this manager writes.
    pub fn lock_file(&self) -> (r: String)
        ensures
            r@ == lock_file_name(*self),
    {
        match self {
            ManagerType::Npm => owned("package-lock.json"),
            ManagerType::Yarn => owned("yarn.lock"),
            ManagerType::Pnpm => owned("pnpm-lock.yaml"),
        }
    }
}

/// Reading a manager's name back gives the same manager.
pub proof fn lemma_manager_name_roundtrip(m: ManagerType)
    ensures
        manager_from_name(manager_name(m)) == m,
{
    reveal_strlit("npm");
    reveal_strlit("yarn");
    reveal_strlit("pnpm");
    assert("npm"@.len() == 3);
    assert("yarn"@.len() == 4);
    assert("pnpm"@.len() == 4);
    assert("yarn"@[0] != "pnpm"@[0]);
}

/// The manager that a project directory uses, from which lock files it holds:
/// `package-lock.json` before `pnpm-lock.yaml` before `yarn.lock`.
pub open spec fn current_manager(has_npm_lock: bool, has_pnpm_lock: bool, has_yarn_lock: bool) -> Option<ManagerType> {
    if has_npm_lock {
        Some(ManagerType::Npm)
    } else if has_pnpm_lock {
        Some(ManagerType::Pnpm)
    } else if has_yarn_lock {
        Some(ManagerType::Yarn)
    } else {
        None
    }
}

/// A manager is found exactly when some lock file is present; the manager
/// found has its lock file present, and every lock file before it in the
/// order `package-lock.json`, `pnpm-lock.yaml`, `yarn.lock` is absent.
pub proof fn lemma_manager_detection(has_npm_lock: bool, has_pnpm_lock: bool, has_yarn_lock: bool)
    ensures
        (has_npm_lock || has_pnpm_lock || has_yarn_lock) <==> current_manager(has_npm_lock, has_pnpm_lock, has_yarn_lock) is Some,
        current_manager(has_npm_lock, has_pnpm_lock, has_yarn_lock) == Some(ManagerType::Npm) ==> has_npm_lock,
        current_manager(has_npm_lock, has_pnpm_lock, has_yarn_lock) == Some(ManagerType::Pnpm) ==> has_pnpm_lock && !has_npm_lock,
        current_manager(has_npm_lock, has_pnpm_lock, has_yarn_lock) == Some(ManagerType::Yarn) ==> has_yarn_lock && !has_npm_lock
            && !has_pnpm_lock,
{
}

/// The manager found for a project names itself back, and the lock file that
/// `pkg_lock` then reads is one that the project has.
pub proof fn lemma_found_manager_reads_present_lock(has_npm_lock: bool, has_pnpm_lock: bool, has_yarn_lock: bool)
    requires
        current_manager(has_npm_lock, has_pnpm_lock, has_yarn_lock) is Some,
    ensures
        ({
            let m = current_manager(has_npm_lock, has_pnpm_lock, has_yarn_lock).unwrap();
            &&& manager_from_name(manager_name(m)) == m
            &&& lock_file_name(m) == "package-lock.json"@ ==> has_npm_lock
            &&& lock_file_name(m) == "pnpm-lock.yaml"@ ==> has_pnpm_lock
            &&& lock_file_name(m) == "yarn.lock"@ ==> has_yarn_lock
        }),
{
    let m = current_manager(has_npm_lock, has_pnpm_lock, has_yarn_lock).unwrap();
    lemma_manager_name_roundtrip(m);
    reveal_strlit("package-lock.json");
    reveal_strlit("pnpm-lock.yaml");
    reveal_strlit("yarn.lock");
    assert("package-lock.json"@.len() == 17);
    assert("pnpm-lock.yaml"@.len() == 14);
    assert("yarn.lock"@.len() == 9);
}

/// The name of the manager that a project directory uses, given which of the
/// lock files `package-lock.json`, `pnpm-lock.yaml` and `yarn.lock` exist there.
pub fn get_current_manager(has_npm_lock: bool, has_pnpm_lock: bool, has_yarn_lock: bool) -> (r: Option<String>)
    ensures
        match current_manager(has_npm_lock, has_pnpm_lock, has_yarn_lock) {
            Some(m) => r is Some && r.unwrap()@ == manager_name(m),
            None => r is None,
        },
{
    if has_npm_lock {
        Some(ManagerType::Npm.to_string())
    } else if has_pnpm_lock {
        Some(ManagerType::Pnpm.to_string())
    } else if has_yarn_lock {
        Some(ManagerType::Yarn.to_string())
    } else {
        None
    }
}

/// One package of a lock file, and a node of a dependency graph.
/// Maps (`dependencies`, ...) are lists of (name, version range) pairs.
#[derive(Debug)]
pub struct PkgInfo {
    pub name: String,
    pub version: String,
    pub resolved: String,
    pub integrity: Option<String>,
    pub dev: Option<bool>,
    pub has_install_script: Option<bool>,
    pub has_shrinkwrap: Option<bool>,
    pub peer_dependencies: Vec<(String, String)>,
    pub dependencies: Vec<(String, String)>,
    pub dev_dependencies: Vec<(String, String)>,
    pub is_peer: bool,
    /// the package already occurs on the path from the root
    pub is_loop: bool,
    /// the dependencies of the package, as graph nodes
    pub relations: Vec<PkgInfo>,
    /// where the package was found in the lock file
    pub path: String,
}

/// The summary of a lock file.
#[derive(Debug)]
pub struct LockPkg {
    pub name: String,
    pub version: i32,
    pub packages: Vec<(String, PkgInfo)>,
}

/// Why a dependency graph could not be read.
#[derive(Debug, Clone, PartialEq, Eq)]
pub enum GraphError {
    /// The npm lock file is older than version 2.
    UnsupportedNpmLockfile,
    /// The pnpm lock file is neither version 6.0 nor 9.0.
    UnsupportedPnpmLockfile,
    /// The lock file has no package for the named dependency.
    DependencyNotFound(String),
}

/// Two optional strings with the same text.
pub open spec fn opt_str_eq(a: Option<String>, b: Option<String>) -> bool {
    match (a, b) {
        (Some(x), Some(y)) => x@ == y@,
        (None, None) => true,
        _ => false,
    }
}

/// Two packages that agree on every field but the graph ones
/// (`name`, `is_peer`, `is_loop`, `relations`, `path`).
pub open spec fn same_package_data(a: PkgInfo, b: PkgInfo) -> bool {
    &&& a.version@ == b.version@
    &&& a.resolved@ == b.resolved@
    &&& opt_str_eq(a.integrity, b.integrity)
    &&& a.dev == b.dev
    &&& a.has_install_script == b.has_install_script
    &&& a.has_shrinkwrap == b.has_shrinkwrap
    &&& a.peer_dependencies@ == b.peer_dependencies@
    &&& a.dependencies@ == b.dependencies@
    &&& a.dev_dependencies@ == b.dev_dependencies@
}

/// Two package nodes equal in every field, down the whole graph.
pub open spec fn info_eqv(a: PkgInfo, b: PkgInfo) -> bool
    decreases a, 0nat,
{
    &&& same_package_data(a, b)
    &&& a.name@ == b.name@
    &&& a.path@ == b.path@
    &&& a.is_peer == b.is_peer
    &&& a.is_loop == b.is_loop
    &&& infos_eqv(a.relations@, b.relations@)
}

/// Two lists of graph nodes equal element by element, down the whole graphs.
pub open spec fn infos_eqv(a: Seq<PkgInfo>, b: Seq<PkgInfo>) -> bool
    decreases a, 1nat,
{
    if a.len() == 0 {
        b.len() == 0
    } else {
        &&& b.len() > 0
        &&& infos_eqv(a.drop_last(), b.drop_last())
        &&& info_eqv(a.last(), b.last())
    }
}

/// A node with the default (empty) fields, but for its name and `is_peer`.
pub open spec fn is_default_node(g: PkgInfo, name: Seq<char>, peer: bool) -> bool {
    &&& g.name@ == name
    &&& g.version@ == Seq::<char>::empty()
    &&& g.resolved@ == Seq::<char>::empty()
    &&& g.integrity is None
    &&& g.dev is None
    &&& g.has_install_script is None
    &&& g.has_shrinkwrap is None
    &&& g.peer_dependencies@.len() == 0
    &&& g.dependencies@.len() == 0
    &&& g.dev_dependencies@.len() == 0
    &&& g.is_peer == peer
    &&& !g.is_loop
    &&& g.relations@.len() == 0
    &&& g.path@ == Seq::<char>::empty()
}

/// Copy of an optional string.
pub fn clone_opt_string(s: &Option<String>) -> (r: Option<String>)
    ensures
        r == *s,
{
    match s {
        Some(x) => Some(x.clone()),
        None => None,
    }
}

/// Copy of a list of (name, version) pairs.
pub fn clone_pairs(v: &Vec<(String, String)>) -> (r: Vec<(String, String)>)
    ensures
        r@ == v@,
{
    let mut r: Vec<(String, String)> = Vec::new();
    let mut i: usize = 0;
    while i < v.len()
        invariant
            i <= v.len(),
            r@ == v@.take(i as int),
        decreases v.len() - i,
    {
        let (a, b) = &v[i];
        r.push((a.clone(), b.clone()));
        assert(v@.take(i + 1) =~= v@.take(i as int).push(v@[i as int]));
        i = i + 1;
    }
    assert(v@.take(v.len() as int) =~= v@);
    r
}

impl PkgInfo {
    /// A node with every field empty.
    pub fn default() -> (r: PkgInfo)
        ensures
            is_default_node(r, Seq::empty(), false),
    {
        PkgInfo {
            name: String::new(),
            version: String::new(),
            resolved: String::new(),
            integrity: None,
            dev: None,
            has_install_script: None,
            has_shrinkwrap: None,
            peer_dependencies: Vec::new(),
            dependencies: Vec::new(),
            dev_dependencies: Vec::new(),
            is_peer: false,
            is_loop: false,
            relations: Vec::new(),
            path: String::new(),
        }
    }

    /// A copy of the node and of the whole graph below it.
    pub fn deep_clone(&self) -> (r: PkgInfo)
        ensures
            info_eqv(r, *self),
        decreases self,
    {
        let mut rel: Vec<PkgInfo> = Vec::new();
        let mut i: usize = 0;
        while i < self.relations.len()
            invariant
                i <= self.relations.len(),
                infos_eqv(rel@, self.relations@.take(i as int)),
            decreases self.relations.len() - i,
        {
            assert(decreases_to!(self => self.relations));
            let c = self.relations[i].deep_clone();
            let ghost prev = rel@;
            rel.push(c);
            proof {
                assert(rel@.drop_last() =~= prev);
                assert(self.relations@.take(i + 1).drop_last() =~= self.relations@.take(i as int));
            }
            i = i + 1;
        }
        assert(self.relations@.take(i as int) =~= self.relations@);
        let r = PkgInfo {
            name: self.name.clone(),
            version: self.version.clone(),
            resolved: self.resolved.clone(),
            integrity: clone_opt_string(&self.integrity),
            dev: self.dev,
            has_install_script: self.has_install_script,
            has_shrinkwrap: self.has_shrinkwrap,
            peer_dependencies: clone_pairs(&self.peer_dependencies),
            dependencies: clone_pairs(&self.dependencies),
            dev_dependencies: clone_pairs(&self.dev_dependencies),
            is_peer: self.is_peer,
            is_loop: self.is_loop,
            relations: rel,
            path: self.path.clone(),
        };
        r
    }
}


/// `i` is the first entry whose key is `key`.
pub open spec fn is_first_key<V>(es: Seq<(String, V)>, key: Seq<char>, i: int) -> bool {
    &&& 0 <= i < es.len()
    &&& es[i].0@ == key
    &&& forall|j: int| 0 <= j < i ==> es[j].0@ != key
}

/// The entry of a map (a list of key, value pairs) with the given key.
pub open spec fn key_index<V>(es: Seq<(String, V)>, key: Seq<char>) -> Option<int> {
    if exists|i: int| is_first_key(es, key, i) {
        Some(choose|i: int| is_first_key(es, key, i))
    } else {
        None
    }
}

/// No key occurs twice in a map kept as a list of (key, value) pairs.
pub open spec fn keys_unique<V>(es: Seq<(String, V)>) -> bool {
    forall|i: int, j: int| 0 <= i < j < es.len() ==> #[trigger] es[i].0@ != #[trigger] es[j].0@
}

/// Where no key occurs twice, the entry found for a key is the one entry
/// that holds it, as in a map.
pub proof fn lemma_key_index_unique<V>(es: Seq<(String, V)>, i: int)
    requires
        keys_unique(es),
        0 <= i < es.len(),
    ensures
        key_index(es, es[i].0@) == Some(i),
{
    let key = es[i].0@;
    assert(is_first_key(es, key, i));
    let c = choose|c: int| is_first_key(es, key, c);
    if c < i {
        assert(es[c].0@ != es[i].0@);
    } else if c > i {
        assert(es[i].0@ != key);
    }
}

/// A list whose keys are those of `a`, one by one, has unique keys when `a` has.
pub proof fn lemma_same_keys_unique<V, W>(a: Seq<(String, V)>, b: Seq<(String, W)>)
    requires
        keys_unique(a),
        a.len() == b.len(),
        forall|i: int| 0 <= i < a.len() ==> #[trigger] b[i].0@ == a[i].0@,
    ensures
        keys_unique(b),
{
    assert forall|i: int, j: int| 0 <= i < j < b.len() implies #[trigger] b[i].0@ != #[trigger] b[j].0@ by {
        assert(a[i].0@ != a[j].0@);
    }
}

/// Looks up a key in a map kept as a list of (key, value) pairs.
pub fn find_key<V>(es: &Vec<(String, V)>, key: &str) -> (r: Option<usize>)
    ensures
        match key_index(es@, key@) {
            Some(i) => r == Some(i as usize),
            None => r is None,
        },
        r matches Some(i) ==> is_first_key(es@, key@, i as int),
        r is None ==> forall|j: int| 0 <= j < es.len() ==> #[trigger] es@[j].0@ != key@,
{
    let mut i: usize = 0;
    while i < es.len()
        invariant
            i <= es.len(),
            forall|j: int| 0 <= j < i ==> es@[j].0@ != key@,
        decreases es.len() - i,
    {
        if str_eq(es[i].0.as_str(), key) {
            assert(is_first_key(es@, key@, i as int));
            let ghost c = choose|c: int| is_first_key(es@, key@, c);
            assert(c == i) by {
                if c < i {
                } else if c > i {
                    assert(es@[i as int].0@ == key@);
                }
            }
            return Some(i);
        }
        i = i + 1;
    }
    assert(!exists|c: int| is_first_key(es@, key@, c));
    None
}

/// Empty package data: no version, resolution, flags or dependencies.
pub open spec fn empty_package_data(g: PkgInfo) -> bool {
    &&& g.resolved@ == Seq::<char>::empty()
    &&& g.integrity is None
    &&& g.dev is None
    &&& g.has_install_script is None
    &&& g.has_shrinkwrap is None
    &&& g.peer_dependencies@.len() == 0
    &&& g.dependencies@.len() == 0
    &&& g.dev_dependencies@.len() == 0
}

/// Two packages that agree on every field but the graph ones and the version.
pub open spec fn same_data_but_version(a: PkgInfo, b: PkgInfo) -> bool {
    &&& a.resolved@ == b.resolved@
    &&& opt_str_eq(a.integrity, b.integrity)
    &&& a.dev == b.dev
    &&& a.has_install_script == b.has_install_script
    &&& a.has_shrinkwrap == b.has_shrinkwrap
    &&& a.peer_dependencies@ == b.peer_dependencies@
    &&& a.dependencies@ == b.dependencies@
    &&& a.dev_dependencies@ == b.dev_dependencies@
}


/// Two package maps with the same keys and equal packages, entry by entry.
pub open spec fn entries_eqv(a: Seq<(String, PkgInfo)>, b: Seq<(String, PkgInfo)>) -> bool
    decreases a.len(),
{
    if a.len() == 0 {
        b.len() == 0
    } else {
        &&& b.len() > 0
        &&& entries_eqv(a.drop_last(), b.drop_last())
        &&& a.last().0@ == b.last().0@
        &&& info_eqv(a.last().1, b.last().1)
    }
}

/// A copy of a package map.
pub fn clone_entries(v: &Vec<(String, PkgInfo)>) -> (r: Vec<(String, PkgInfo)>)
    ensures
        entries_eqv(r@, v@),
{
    let mut r: Vec<(String, PkgInfo)> = Vec::new();
    let mut i: usize = 0;
    assert(v@.take(0) =~= Seq::<(String, PkgInfo)>::empty());
    while i < v.len()
        invariant
            i <= v.len(),
            entries_eqv(r@, v@.take(i as int)),
        decreases v.len() - i,
    {
        let (k, p) = &v[i];
        let ghost before = r@;
        r.push((k.clone(), p.deep_clone()));
        assert(r@.drop_last() =~= before);
        assert(v@.take(i + 1).drop_last() =~= v@.take(i as int));
        i = i + 1;
    }
    assert(v@.take(v.len() as int) =~= v@);
    r
}


/// A lock file from which the dependency graph of a project's dependency can be read.
pub trait PkgLock {
    /// The dependencies whose graph can be asked for.
    spec fn can_read_graph(&self, dep: Seq<char>) -> bool;

    /// What reading the graph of `dep` gives.
    spec fn graph_ok(&self, dep: Seq<char>, r: Result<PkgInfo, GraphError>) -> bool;

    /// The dependency graph of the project's dependency `name`.
    fn read_pkg_graph(&self, name: String) -> (r: Result<PkgInfo, GraphError>)
        requires
            self.can_read_graph(name@),
        ensures
            self.graph_ok(name@, r),
    ;
}

/// A parsed lock file of one of the managers whose graphs can be read.
#[derive(Debug)]
pub enum LockFile {
    Npm(npm_lock::Pkg),
    Pnpm(pnpm_lock::Pkg),
}

impl PkgLock for LockFile {
    open spec fn can_read_graph(&self, dep: Seq<char>) -> bool {
        match self {
            LockFile::Npm(p) => p.can_read_graph(dep),
            LockFile::Pnpm(p) => p.can_read_graph(dep),
        }
    }

    open spec fn graph_ok(&self, dep: Seq<char>, r: Result<PkgInfo, GraphError>) -> bool {
        match self {
            LockFile::Npm(p) => p.graph_ok(dep, r),
            LockFile::Pnpm(p) => p.graph_ok(dep, r),
        }
    }

    fn read_pkg_graph(&self, name: String) -> (r: Result<PkgInfo, GraphError>) {
        match self {
            LockFile::Npm(p) => p.read_pkg_graph(name),
            LockFile::Pnpm(p) => p.read_pkg_graph(name),
        }
    }
}

impl LockFile {
    /// Whether the graph of `name` can be asked for.
    pub fn can_read(&self, name: &str) -> (r: bool)
        ensures
            r == self.can_read_graph(name@),
    {
        match self {
            LockFile::Npm(_) => true,
            LockFile::Pnpm(p) => p.can_read(name),
        }
    }
}

/// Which lock file to read for a manager name.
#[derive(Debug)]
pub struct LockSource {
    pub manager: ManagerType,
    /// the name of the lock file, next to `package.json`
    pub lock_file: String,
}

/// The lock-file reader that a manager name selects: the manager (npm for
/// an unknown name) and its lock file.
pub fn pkg_lock(name: &str) -> (r: LockSource)
    ensures
        r.manager == manager_from_name(name@),
        r.lock_file@ == lock_file_name(r.manager),
{
    let manager = ManagerType::from_str(name);
    LockSource { manager, lock_file: manager.lock_file() }
}

/// The dependency graph of the project's dependency `name`, read from its
/// parsed lock file.
pub fn run_package_lock(lock: &LockFile, name: String) -> (r: Result<PkgInfo, GraphError>)
    requires
        lock.can_read_graph(name@),
    ensures
        lock.graph_ok(name@, r),
{
    lock.read_pkg_graph(name)
}

} // verus!
