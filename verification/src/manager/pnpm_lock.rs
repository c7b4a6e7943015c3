//! The dependency graph of a pnpm lock file (`pnpm-lock.yaml`, versions 6.0
//! and 9.0), whose packages are keyed by `name@version`.

use vstd::prelude::*;
use vstd::string::*;
use crate::manager::{
    PkgLock,
    clone_entries, entries_eqv, find_key, empty_package_data, infos_eqv, is_first_key, key_index,
    same_data_but_version, GraphError, LockPkg, ManagerType, PkgInfo,
};
use crate::text::{
    clone_strings, concat, contains_string, lemma_distinct_bound, lemma_flat_map_contains, owned,
    parse_i32, parse_signed, str_eq, str_views,
};

verus! {

/// The `settings` of a pnpm lock file.
#[derive(Debug, Clone, Copy)]
pub struct PkgSetting {
    pub auto_install_peers: bool,
    pub exclude_links_from_lockfile: bool,
}

impl Default for PkgSetting {
    fn default() -> (r: Self)
        ensures
            r.auto_install_peers,
            !r.exclude_links_from_lockfile,
    {
        PkgSetting { auto_install_peers: true, exclude_links_from_lockfile: false }
    }
}

/// A dependency of the project as the lock file records it.
#[derive(Debug)]
pub struct PkgDependence {
    pub specifier: String,
    pub version: String,
}

/// The dependencies of one project of a workspace (pnpm 9).
#[derive(Debug)]
pub struct PkgImporter {
    pub dependencies: Vec<(String, PkgDependence)>,
    pub dev_dependencies: Vec<(String, PkgDependence)>,
}

/// A pnpm lock file.
#[derive(Debug)]
pub struct Pkg {
    pub name: String,
    pub version: String,
    pub lockfile_version: String,
    pub settings: PkgSetting,
    /// packages by `/name@version` (pnpm 8)
    pub packages: Vec<(String, PkgInfo)>,
    /// the project's dependencies (pnpm 8)
    pub dependencies: Vec<(String, PkgDependence)>,
    pub dev_dependencies: Vec<(String, PkgDependence)>,
    /// the projects of the workspace (pnpm 9)
    pub importers: Vec<(String, PkgImporter)>,
    /// packages by `name@version` (pnpm 9)
    pub snapshots: Vec<(String, PkgInfo)>,
}

impl Default for Pkg {
    fn default() -> (r: Self)
        ensures
            r.name@ == Seq::<char>::empty(),
            r.version@ == Seq::<char>::empty(),
            r.lockfile_version@ == Seq::<char>::empty(),
            r.settings.auto_install_peers,
            !r.settings.exclude_links_from_lockfile,
            r.packages@.len() == 0,
            r.dependencies@.len() == 0,
            r.dev_dependencies@.len() == 0,
            r.importers@.len() == 0,
            r.snapshots@.len() == 0,
    {
        Pkg {
            name: String::new(),
            version: String::new(),
            lockfile_version: String::new(),
            settings: PkgSetting::default(),
            packages: Vec::new(),
            dependencies: Vec::new(),
            dev_dependencies: Vec::new(),
            importers: Vec::new(),
            snapshots: Vec::new(),
        }
    }
}

/// Lock file version 6.0 (pnpm 8).
pub open spec fn is_v6(lock: Pkg) -> bool {
    lock.lockfile_version@ == "6.0"@
}

/// Lock file version 9.0 (pnpm 9).
pub open spec fn is_v9(lock: Pkg) -> bool {
    lock.lockfile_version@ == "9.0"@
}

/// The key of a package: `name@version` in version 9.0, `/name@version` otherwise.
pub open spec fn pkey(lock: Pkg, name: Seq<char>, version: Seq<char>) -> Seq<char> {
    if is_v9(lock) {
        name + "@"@ + version
    } else {
        "/"@ + name + "@"@ + version
    }
}

/// Where the packages are: `packages` in 6.0, `snapshots` in 9.0, nowhere otherwise.
pub open spec fn table(lock: Pkg) -> Seq<(String, PkgInfo)> {
    if is_v6(lock) {
        lock.packages@
    } else if is_v9(lock) {
        lock.snapshots@
    } else {
        Seq::empty()
    }
}

/// The (name, version) pairs of a package's dependencies, then peer dependencies.
pub open spec fn dep_pairs(e: PkgInfo) -> Seq<(Seq<char>, Seq<char>)> {
    e.dependencies@.map_values(|d: (String, String)| (d.0@, d.1@))
        + e.peer_dependencies@.map_values(|d: (String, String)| (d.0@, d.1@))
}

/// Every key that a graph below the root can pass: the key of a dependency of some package.
pub open spec fn candidates(lock: Pkg) -> Seq<Seq<char>> {
    table(lock).flat_map(
        |a: (String, PkgInfo)|
            dep_pairs(a.1).map_values(|d: (Seq<char>, Seq<char>)| pkey(lock, d.0, d.1)),
    )
}

/// How long a path of distinct keys can get.
pub open spec fn bound(lock: Pkg) -> int {
    candidates(lock).len() as int + 1
}

/// The keys on a path: the root's, then distinct keys of dependencies.
pub open spec fn visited_ok(lock: Pkg, visited: Seq<Seq<char>>) -> bool {
    &&& visited.len() >= 1
    &&& visited.no_duplicates()
    &&& forall|k: int| 1 <= k < visited.len() ==> candidates(lock).contains(#[trigger] visited[k])
}

/// `rel` are the graph nodes of the dependencies `pairs` (the first `nd` plain,
/// the rest peer dependencies), with `visited` the keys on the path so far.
pub open spec fn graph_children(
    lock: Pkg,
    visited: Seq<Seq<char>>,
    pairs: Seq<(Seq<char>, Seq<char>)>,
    nd: int,
    rel: Seq<PkgInfo>,
) -> bool
    decreases bound(lock) - visited.len(), 1nat, pairs.len(),
{
    if pairs.len() == 0 {
        rel.len() == 0
    } else {
        &&& rel.len() == pairs.len()
        &&& graph_children(lock, visited, pairs.drop_last(), nd, rel.drop_last())
        &&& graph_node(
            lock,
            pairs.last().0,
            pairs.last().1,
            visited,
            pairs.len() - 1 >= nd,
            rel.last(),
        )
    }
}

/// `g` is the graph node of the dependency `name` at `version`: the package
/// with that key (or an empty node), named and versioned as required, with the
/// key as its path; a key already on the path makes it a loop.
pub open spec fn graph_node(
    lock: Pkg,
    name: Seq<char>,
    version: Seq<char>,
    visited: Seq<Seq<char>>,
    peer: bool,
    g: PkgInfo,
) -> bool
    decreases bound(lock) - visited.len(), 0nat, 0nat,
{
    let key = pkey(lock, name, version);
    let t = table(lock);
    &&& g.name@ == name
    &&& g.version@ == version
    &&& g.path@ == key
    &&& g.is_peer == peer
    &&& match key_index(t, key) {
        Some(i) => {
            let e = t[i].1;
            &&& same_data_but_version(g, e)
            &&& if visited.contains(key) {
                g.is_loop && infos_eqv(g.relations@, e.relations@)
            } else if visited.len() + 1 > bound(lock) {
                false
            } else {
                &&& g.is_loop == e.is_loop
                &&& graph_children(
                    lock,
                    visited.push(key),
                    dep_pairs(e),
                    e.dependencies.len() as int,
                    g.relations@,
                )
            }
        },
        None => {
            &&& empty_package_data(g)
            &&& g.relations@.len() == 0
            &&& g.is_loop == visited.contains(key)
        },
    }
}

/// The project's dependencies and dev dependencies: the top-level ones in 6.0,
/// those of the importer `.` (else ``) in 9.0.
pub open spec fn root_deps(lock: Pkg) -> (Seq<(String, PkgDependence)>, Seq<(String, PkgDependence)>) {
    if is_v6(lock) {
        (lock.dependencies@, lock.dev_dependencies@)
    } else {
        let imp = match key_index(lock.importers@, "."@) {
            Some(i) => lock.importers@[i].1,
            None => lock.importers@[key_index(lock.importers@, Seq::<char>::empty()).unwrap()].1,
        };
        (imp.dependencies@, imp.dev_dependencies@)
    }
}

/// The version that the project requires of `dep`: from its dependencies,
/// else from its dev dependencies.
pub open spec fn root_version(lock: Pkg, dep: Seq<char>) -> Seq<char> {
    let (deps, devs) = root_deps(lock);
    match key_index(deps, dep) {
        Some(i) => deps[i].1.version@,
        None => devs[key_index(devs, dep).unwrap()].1.version@,
    }
}

/// The inputs on which reading a graph does not fail outright: in 9.0 an
/// importer `.` or ``, and `dep` among the project's (dev) dependencies.
pub open spec fn can_read_graph(lock: Pkg, dep: Seq<char>) -> bool {
    (is_v6(lock) || is_v9(lock)) ==> {
        &&& is_v9(lock) ==> (key_index(lock.importers@, "."@) is Some || key_index(
            lock.importers@,
            Seq::<char>::empty(),
        ) is Some)
        &&& (key_index(root_deps(lock).0, dep) is Some || key_index(root_deps(lock).1, dep) is Some)
    }
}

/// The children of a node are its dependencies, then its peer dependencies,
/// in order, each named and versioned after the dependency, with the key of
/// that name and version as its path, and exactly the peer ones flagged.
pub proof fn lemma_children_order(
    lock: Pkg,
    visited: Seq<Seq<char>>,
    pairs: Seq<(Seq<char>, Seq<char>)>,
    nd: int,
    rel: Seq<PkgInfo>,
)
    requires
        graph_children(lock, visited, pairs, nd, rel),
    ensures
        rel.len() == pairs.len(),
        forall|k: int|
            0 <= k < rel.len() ==> {
                &&& #[trigger] rel[k].name@ == pairs[k].0
                &&& rel[k].version@ == pairs[k].1
                &&& rel[k].path@ == pkey(lock, pairs[k].0, pairs[k].1)
                &&& rel[k].is_peer == (k >= nd)
            },
    decreases pairs.len(),
{
    if pairs.len() > 0 {
        lemma_children_order(lock, visited, pairs.drop_last(), nd, rel.drop_last());
        assert forall|k: int| 0 <= k < rel.len() implies {
            &&& #[trigger] rel[k].name@ == pairs[k].0
            &&& rel[k].version@ == pairs[k].1
            &&& rel[k].path@ == pkey(lock, pairs[k].0, pairs[k].1)
            &&& rel[k].is_peer == (k >= nd)
        } by {
            if k < rel.len() - 1 {
                assert(rel.drop_last()[k] == rel[k]);
                assert(pairs.drop_last()[k] == pairs[k]);
                assert(rel.drop_last()[k].name@ == pairs.drop_last()[k].0);
            } else {
                assert(rel[k] == rel.last());
                assert(pairs[k] == pairs.last());
                assert(graph_node(lock, pairs.last().0, pairs.last().1, visited, pairs.len() - 1 >= nd, rel.last()));
            }
        }
    }
}

/// The project's dependency `dep` is looked for in the root lists: in 6.0
/// the top-level `dependencies` then `devDependencies`, in 9.0 those of the
/// importer `.` (else ``). A name in either list can be read, and its graph root has
/// the version recorded there, the runtime list first.
pub proof fn lemma_root_lists(lock: Pkg, dep: Seq<char>)
    ensures
        is_v6(lock) ==> {
            let deps = lock.dependencies@;
            let devs = lock.dev_dependencies@;
            &&& (key_index(deps, dep) is Some || key_index(devs, dep) is Some) ==> can_read_graph(lock, dep)
            &&& key_index(deps, dep) matches Some(i) ==> root_version(lock, dep) == deps[i].1.version@
            &&& key_index(deps, dep) is None ==> (key_index(devs, dep) matches Some(j) ==> root_version(lock, dep)
                == devs[j].1.version@)
        },
        is_v9(lock) && (key_index(lock.importers@, "."@) is Some || key_index(lock.importers@, ""@) is Some) ==> {
            let imp = lock.importers@[if key_index(lock.importers@, "."@) is Some {
                key_index(lock.importers@, "."@).unwrap()
            } else {
                key_index(lock.importers@, ""@).unwrap()
            }].1;
            let deps = imp.dependencies@;
            let devs = imp.dev_dependencies@;
            &&& (key_index(deps, dep) is Some || key_index(devs, dep) is Some) ==> can_read_graph(lock, dep)
            &&& key_index(deps, dep) matches Some(i) ==> root_version(lock, dep) == deps[i].1.version@
            &&& key_index(deps, dep) is None ==> (key_index(devs, dep) matches Some(j) ==> root_version(lock, dep)
                == devs[j].1.version@)
        },
{
    reveal_strlit("6.0");
    reveal_strlit("9.0");
    reveal_strlit("");
    assert("6.0"@[0] != "9.0"@[0]);
    assert(""@ =~= Seq::<char>::empty());
}

/// What `read_pkg_graph` gives for the dependency `dep`.
pub open spec fn graph_result(lock: Pkg, dep: Seq<char>, r: Result<PkgInfo, GraphError>) -> bool {
    if !is_v6(lock) && !is_v9(lock) {
        r == Err::<PkgInfo, GraphError>(GraphError::UnsupportedPnpmLockfile)
    } else {
        let version = root_version(lock, dep);
        let key = pkey(lock, dep, version);
        match key_index(table(lock), key) {
            None => r is Err && r->Err_0 is DependencyNotFound && r->Err_0->DependencyNotFound_0@
                == dep,
            Some(i) => {
                let e = table(lock)[i].1;
                r is Ok && {
                    let g = r->Ok_0;
                    &&& same_data_but_version(g, e)
                    &&& g.name@ == dep
                    &&& g.version@ == version
                    &&& g.path@ == key
                    &&& g.is_peer == e.is_peer
                    &&& g.is_loop == e.is_loop
                    &&& graph_children(
                        lock,
                        seq![key],
                        dep_pairs(e),
                        e.dependencies.len() as int,
                        g.relations@,
                    )
                }
            },
        }
    }
}

proof fn lemma_candidate(lock: Pkg, i: int, k: int)
    requires
        0 <= i < table(lock).len(),
        0 <= k < dep_pairs(table(lock)[i].1).len(),
    ensures
        candidates(lock).contains(
            pkey(lock, dep_pairs(table(lock)[i].1)[k].0, dep_pairs(table(lock)[i].1)[k].1),
        ),
{
    let f = |a: (String, PkgInfo)|
        dep_pairs(a.1).map_values(|d: (Seq<char>, Seq<char>)| pkey(lock, d.0, d.1));
    lemma_flat_map_contains(table(lock), f, i, k);
}

impl Pkg {
    /// Whether the lock file version is 6.0.
    fn v6(&self) -> (r: bool)
        ensures
            r == is_v6(*self),
    {
        str_eq(self.lockfile_version.as_str(), "6.0")
    }

    /// Whether the lock file version is 9.0.
    fn v9(&self) -> (r: bool)
        ensures
            r == is_v9(*self),
    {
        str_eq(self.lockfile_version.as_str(), "9.0")
    }

    /// The key of the package `name` at `version`.
    pub fn get_package_key(&self, name: &str, version: &str) -> (r: String)
        ensures
            r@ == pkey(*self, name@, version@),
    {
        if self.v9() {
            concat(concat(name, "@").as_str(), version)
        } else {
            concat(concat(concat("/", name).as_str(), "@").as_str(), version)
        }
    }

    /// The position of the package with the given key.
    fn package_index(&self, key: &str) -> (r: Option<usize>)
        ensures
            match key_index(table(*self), key@) {
                Some(i) => r == Some(i as usize),
                None => r is None,
            },
            r matches Some(i) ==> is_first_key(table(*self), key@, i as int),
    {
        if self.v6() {
            find_key(&self.packages, key)
        } else if self.v9() {
            find_key(&self.snapshots, key)
        } else {
            assert(!exists|c: int| is_first_key(table(*self), key@, c));
            None
        }
    }

    /// The package at a position of the table.
    fn entry(&self, i: usize) -> (r: &PkgInfo)
        requires
            i < table(*self).len(),
        ensures
            *r == table(*self)[i as int].1,
    {
        if self.v6() {
            &self.packages[i].1
        } else {
            &self.snapshots[i].1
        }
    }

    /// A copy of the package with the given key.
    pub fn get_package_info(&self, key: &str) -> (r: Option<PkgInfo>)
        ensures
            match key_index(table(*self), key@) {
                Some(i) => r is Some && crate::manager::info_eqv(r->Some_0, table(*self)[i].1),
                None => r is None,
            },
    {
        match self.package_index(key) {
            Some(i) => Some(self.entry(i).deep_clone()),
            None => None,
        }
    }

    /// The graph nodes of the dependencies, then the peer dependencies, of
    /// the package at position `parent`.
    pub fn read_pkg_child_graph(&self, parent: usize, visited: &Vec<String>) -> (rel: Vec<PkgInfo>)
        requires
            parent < table(*self).len(),
            visited_ok(*self, str_views(visited@)),
        ensures
            graph_children(
                *self,
                str_views(visited@),
                dep_pairs(table(*self)[parent as int].1),
                table(*self)[parent as int].1.dependencies.len() as int,
                rel@,
            ),
        decreases bound(*self) - visited.len(), 1nat,
    {
        let ghost vis = str_views(visited@);
        let e = self.entry(parent);
        let ghost pairs = dep_pairs(*e);
        let ghost nd = e.dependencies.len() as int;
        let nd_exec = e.dependencies.len();
        let np_exec = e.peer_dependencies.len();
        proof {
            lemma_distinct_bound(vis, candidates(*self));
            assert(pairs.take(0) =~= Seq::<(Seq<char>, Seq<char>)>::empty());
        }
        let mut rel: Vec<PkgInfo> = Vec::new();
        let mut i: usize = 0;
        while i < nd_exec
            invariant
                vis == str_views(visited@),
                parent < table(*self).len(),
                *e == table(*self)[parent as int].1,
                pairs == dep_pairs(*e),
                nd == nd_exec,
                nd_exec == e.dependencies.len(),
                pairs.len() == nd + np_exec,
                visited_ok(*self, vis),
                vis.len() <= bound(*self),
                i <= nd_exec,
                graph_children(*self, vis, pairs.take(i as int), nd, rel@),
            decreases nd_exec - i,
        {
            let (n, v) = &e.dependencies[i];
            assert(pairs[i as int] == (n@, v@));
            let child = self.read_pkg_graph_recursively(n, v, visited, false, Ghost(parent as int), Ghost(i as int));
            let ghost before = rel@;
            rel.push(child);
            proof {
                let t = pairs.take(i + 1);
                assert(t.drop_last() =~= pairs.take(i as int));
                assert(t.last() == pairs[i as int]);
                assert(rel@.drop_last() =~= before);
            }
            i = i + 1;
        }
        let mut j: usize = 0;
        while j < np_exec
            invariant
                vis == str_views(visited@),
                parent < table(*self).len(),
                *e == table(*self)[parent as int].1,
                pairs == dep_pairs(*e),
                nd == nd_exec,
                nd_exec == e.dependencies.len(),
                np_exec == e.peer_dependencies.len(),
                pairs.len() == nd + np_exec,
                visited_ok(*self, vis),
                vis.len() <= bound(*self),
                j <= np_exec,
                graph_children(*self, vis, pairs.take(nd + j), nd, rel@),
            decreases np_exec - j,
        {
            let ghost idx: int = nd + j;
            let (n, v) = &e.peer_dependencies[j];
            assert(pairs[idx] == (n@, v@));
            let child = self.read_pkg_graph_recursively(n, v, visited, true, Ghost(parent as int), Ghost(idx));
            let ghost before = rel@;
            rel.push(child);
            proof {
                let t = pairs.take(idx + 1);
                assert(t.drop_last() =~= pairs.take(idx));
                assert(t.last() == pairs[idx]);
                assert(rel@.drop_last() =~= before);
            }
            j = j + 1;
        }
        assert(pairs.take(nd + np_exec) =~= pairs);
        rel
    }

    /// The graph node of the dependency `name` at `version`, the `k`-th
    /// dependency of the package at position `parent`.
    pub fn read_pkg_graph_recursively(
        &self,
        name: &String,
        version: &String,
        visited: &Vec<String>,
        peer: bool,
        Ghost(parent): Ghost<int>,
        Ghost(k): Ghost<int>,
    ) -> (g: PkgInfo)
        requires
            0 <= parent < table(*self).len(),
            0 <= k < dep_pairs(table(*self)[parent].1).len(),
            (name@, version@) == dep_pairs(table(*self)[parent].1)[k],
            visited_ok(*self, str_views(visited@)),
            visited.len() <= bound(*self),
        ensures
            graph_node(*self, name@, version@, str_views(visited@), peer, g),
        decreases bound(*self) - visited.len(), 0nat,
    {
        let ghost vis = str_views(visited@);
        let key = self.get_package_key(name.as_str(), version.as_str());
        let found = self.package_index(key.as_str());
        let mut g = match found {
            Some(i) => self.entry(i).deep_clone(),
            None => PkgInfo::default(),
        };
        g.name = name.clone();
        g.version = version.clone();
        g.path = key.clone();
        g.is_peer = peer;
        if contains_string(visited, &key) {
            g.is_loop = true;
            return g;
        }
        match found {
            None => g,
            Some(i) => {
                let mut visited2 = clone_strings(visited);
                visited2.push(key);
                proof {
                    let vis2 = str_views(visited2@);
                    assert(vis2 =~= vis.push(key@));
                    lemma_candidate(*self, parent, k);
                    assert(visited_ok(*self, vis2)) by {
                        assert forall|a: int, b: int| 0 <= a < vis2.len() && 0 <= b < vis2.len() && a != b implies vis2[a] != vis2[b] by {
                            if a < vis.len() && b < vis.len() {
                            } else if a == vis.len() {
                                assert(vis.contains(vis[b]));
                            } else {
                                assert(vis.contains(vis[a]));
                            }
                        }
                        assert forall|q: int| 1 <= q < vis2.len() implies candidates(*self).contains(#[trigger] vis2[q]) by {
                            if q < vis.len() {
                                assert(vis2[q] == vis[q]);
                            }
                        }
                    }
                    lemma_distinct_bound(vis2, candidates(*self));
                }
                g.relations = self.read_pkg_child_graph(i, &visited2);
                g
            },
        }
    }

    /// Whether the graph of `dep` can be asked for (`can_read_graph`).
    pub fn can_read(&self, dep: &str) -> (r: bool)
        ensures
            r == can_read_graph(*self, dep@),
    {
        if !self.v6() && !self.v9() {
            return true;
        }
        if self.v9() && find_key(&self.importers, ".").is_none() && find_key(&self.importers, "").is_none() {
            proof {
                reveal_strlit("");
                assert(""@ =~= Seq::<char>::empty());
            }
            return false;
        }
        proof {
            reveal_strlit("");
            assert(""@ =~= Seq::<char>::empty());
        }
        let (deps, devs) = self.root_lists();
        find_key(deps, dep).is_some() || find_key(devs, dep).is_some()
    }

    /// The project's dependency lists in this lock file.
    fn root_lists(&self) -> (r: (&Vec<(String, PkgDependence)>, &Vec<(String, PkgDependence)>))
        requires
            is_v6(*self) || is_v9(*self),
            is_v9(*self) ==> (key_index(self.importers@, "."@) is Some || key_index(
                self.importers@,
                Seq::<char>::empty(),
            ) is Some),
        ensures
            (r.0@, r.1@) == root_deps(*self),
    {
        if self.v6() {
            (&self.dependencies, &self.dev_dependencies)
        } else {
            match find_key(&self.importers, ".") {
                Some(i) => (&self.importers[i].1.dependencies, &self.importers[i].1.dev_dependencies),
                None => {
                    let j = find_key(&self.importers, "");
                    proof {
                        reveal_strlit("");
                    }
                    assert(""@ =~= Seq::<char>::empty());
                    match j {
                        Some(j) => (&self.importers[j].1.dependencies, &self.importers[j].1.dev_dependencies),
                        None => {
                            assert(false);
                            (&self.dependencies, &self.dev_dependencies)
                        },
                    }
                },
            }
        }
    }

    /// The summary of the lock file: the manager `pnpm`, the lock file
    /// version as an integer (0 when it is not one, as `6.0` is not), and
    /// a copy of the packages.
    pub fn get_data(&self) -> (r: LockPkg)
        ensures
            r.name@ == crate::manager::manager_name(ManagerType::Pnpm),
            r.version == match parse_signed(self.lockfile_version@, i32::MIN as int, i32::MAX as int) {
                Some(v) => v as i32,
                None => 0i32,
            },
            entries_eqv(r.packages@, self.packages@),
    {
        let v = match parse_i32(self.lockfile_version.as_str()) {
            Some(v) => v,
            None => 0,
        };
        LockPkg {
            name: ManagerType::Pnpm.to_string(),
            version: v,
            packages: clone_entries(&self.packages),
        }
    }
}


impl PkgLock for Pkg {
    open spec fn can_read_graph(&self, dep: Seq<char>) -> bool {
        can_read_graph(*self, dep)
    }

    open spec fn graph_ok(&self, dep: Seq<char>, r: Result<PkgInfo, GraphError>) -> bool {
        graph_result(*self, dep, r)
    }

    /// The dependency graph of the project's dependency `dep_name`.
    fn read_pkg_graph(&self, dep_name: String) -> (r: Result<PkgInfo, GraphError>)
    {
        if !self.v6() && !self.v9() {
            return Err(GraphError::UnsupportedPnpmLockfile);
        }
        let (deps, devs) = self.root_lists();
        let version = match find_key(deps, dep_name.as_str()) {
            Some(i) => deps[i].1.version.clone(),
            None => match find_key(devs, dep_name.as_str()) {
                Some(i) => devs[i].1.version.clone(),
                None => {
                    assert(false);
                    String::new()
                },
            },
        };
        let key = self.get_package_key(dep_name.as_str(), version.as_str());
        match self.package_index(key.as_str()) {
            None => Err(GraphError::DependencyNotFound(dep_name)),
            Some(idx) => {
                let mut g = self.entry(idx).deep_clone();
                g.name = dep_name;
                g.path = key.clone();
                g.version = version;
                let mut visited: Vec<String> = Vec::new();
                visited.push(key);
                proof {
                    assert(str_views(visited@) =~= seq![key@]);
                }
                g.relations = self.read_pkg_child_graph(idx, &visited);
                Ok(g)
            },
        }
    }
}

} // verus!
