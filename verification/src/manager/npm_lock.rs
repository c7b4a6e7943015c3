//! The dependency graph of an npm lock file (`package-lock.json`, version 2
//! and later), whose packages are keyed by their `node_modules` path.

use vstd::prelude::*;
use vstd::string::*;
use crate::manager::{
    PkgLock,
    find_key, infos_eqv, is_default_node, is_first_key, key_index, same_package_data, GraphError,
    PkgInfo,
};
use crate::text::{
    clone_strings, concat, contains_string, join_strings, join_with, lemma_distinct_bound,
    lemma_flat_map_contains, str_views,
};

verus! {

/// An npm lock file.
#[derive(Debug)]
pub struct Pkg {
    pub name: String,
    pub version: String,
    pub lockfile_version: i32,
    /// packages by `node_modules/...` path
    pub packages: Vec<(String, PkgInfo)>,
}

/// The lock-file key of a package reached through the dependency names `keys`:
/// `node_modules/a/node_modules/b/...`.
pub open spec fn npm_key(keys: Seq<Seq<char>>) -> Seq<char> {
    "node_modules/"@ + join_with(keys, "/node_modules/"@)
}

/// The `m`-th place (from the deepest, `m == prefix.len()`, up to the top,
/// `m == 1`) where the last package of `prefix` may be installed: the first
/// `m - 1` names of the path, then the package's own name.
pub open spec fn hoisted(prefix: Seq<Seq<char>>, m: int) -> Seq<Seq<char>> {
    prefix.take(m - 1).push(prefix.last())
}

/// The nearest place, searching from the deepest (`m`) upwards, where the
/// last package of `prefix` is installed.
pub open spec fn resolve(es: Seq<(String, PkgInfo)>, prefix: Seq<Seq<char>>, m: nat) -> Option<nat>
    decreases m,
{
    if m == 0 {
        None
    } else if key_index(es, npm_key(hoisted(prefix, m as int))) is Some {
        Some(m)
    } else {
        resolve(es, prefix, (m - 1) as nat)
    }
}

/// The places where a dependency reached by the names `p1..pn` is looked for
/// keep the ancestors and end with the package's own name: the `m`-th is
/// `p1..p(m-1)` followed by `pn`; the deepest is the path itself, and the
/// last one tried is the top level.
pub proof fn lemma_fallback_places(prefix: Seq<Seq<char>>, m: int)
    requires
        1 <= m <= prefix.len(),
    ensures
        hoisted(prefix, m).len() == m,
        hoisted(prefix, m)[m - 1] == prefix[prefix.len() - 1],
        forall|j: int| 0 <= j < m - 1 ==> #[trigger] hoisted(prefix, m)[j] == prefix[j],
        m == prefix.len() ==> hoisted(prefix, m) == prefix,
        hoisted(prefix, 1) == seq![prefix[prefix.len() - 1]],
{
    if m == prefix.len() {
        assert(hoisted(prefix, m) =~= prefix);
    }
    assert(hoisted(prefix, 1) =~= seq![prefix[prefix.len() - 1]]);
}

/// A copy installed at the dependency's own nested path (`node_modules/p1/
/// node_modules/.../node_modules/pn`) is the one it resolves to, before any
/// copy higher up.
pub proof fn lemma_nested_copy_preferred(es: Seq<(String, PkgInfo)>, prefix: Seq<Seq<char>>)
    requires
        prefix.len() >= 1,
        key_index(es, npm_key(prefix)) is Some,
    ensures
        resolve(es, prefix, prefix.len()) == Some(prefix.len()),
{
    lemma_fallback_places(prefix, prefix.len() as int);
}

/// The copy of a package that a dependency resolves to is the nearest
/// installed one: the deepest place along the path that holds the package,
/// with no deeper place holding it; none is found only when no place holds it.
pub proof fn lemma_resolve_nearest(es: Seq<(String, PkgInfo)>, prefix: Seq<Seq<char>>, n: nat)
    ensures
        match resolve(es, prefix, n) {
            Some(m) => {
                &&& 1 <= m <= n
                &&& key_index(es, npm_key(hoisted(prefix, m as int))) is Some
                &&& forall|j: int| m < j <= n ==> key_index(es, #[trigger] npm_key(hoisted(prefix, j))) is None
            },
            None => forall|j: int| 1 <= j <= n ==> key_index(es, #[trigger] npm_key(hoisted(prefix, j))) is None,
        },
    decreases n,
{
    if n > 0 {
        lemma_resolve_nearest(es, prefix, (n - 1) as nat);
    }
}

/// The mark of a package version on a path: `name@version`.
pub open spec fn vkey(name: Seq<char>, version: Seq<char>) -> Seq<char> {
    name + "@"@ + version
}

/// The names of a package's dependencies, then of its peer dependencies.
pub open spec fn dep_names(e: PkgInfo) -> Seq<Seq<char>> {
    e.dependencies@.map_values(|d: (String, String)| d.0@) + e.peer_dependencies@.map_values(
        |d: (String, String)| d.0@,
    )
}

/// Every `name@version` mark that a graph below the root can hold: a
/// dependency name of some package with the version of some package.
pub open spec fn candidates(es: Seq<(String, PkgInfo)>) -> Seq<Seq<char>> {
    es.flat_map(
        |a: (String, PkgInfo)|
            dep_names(a.1).flat_map(
                |n: Seq<char>| es.map_values(|b: (String, PkgInfo)| vkey(n, b.1.version@)),
            ),
    )
}

/// How long a path of distinct marks can get.
pub open spec fn bound(es: Seq<(String, PkgInfo)>) -> int {
    candidates(es).len() as int + 1
}

/// The marks on a path: the root's, then distinct marks of dependencies.
pub open spec fn visited_ok(es: Seq<(String, PkgInfo)>, visited: Seq<Seq<char>>) -> bool {
    &&& visited.len() >= 1
    &&& visited.no_duplicates()
    &&& forall|k: int| 1 <= k < visited.len() ==> candidates(es).contains(#[trigger] visited[k])
}

/// `rel` are the graph nodes of the dependencies `names` (the first `nd` of
/// them plain dependencies, the rest peer dependencies) of a package reached
/// by `prefix`, with `visited` the marks on the path so far.
pub open spec fn graph_children(
    es: Seq<(String, PkgInfo)>,
    prefix: Seq<Seq<char>>,
    visited: Seq<Seq<char>>,
    names: Seq<Seq<char>>,
    nd: int,
    rel: Seq<PkgInfo>,
) -> bool
    decreases bound(es) - visited.len(), 1nat, names.len(),
{
    if names.len() == 0 {
        rel.len() == 0
    } else {
        &&& rel.len() == names.len()
        &&& graph_children(es, prefix, visited, names.drop_last(), nd, rel.drop_last())
        &&& graph_node(es, prefix.push(names.last()), visited, names.len() - 1 >= nd, rel.last())
    }
}

/// `g` is the graph node of the package reached by the dependency names
/// `prefix`: the package found at the nearest place from the deepest up, with
/// the name it was required by and the key it was found at; a mark already on
/// the path makes it a loop (and its dependencies are not followed); a package
/// found nowhere is an empty node with its name.
pub open spec fn graph_node(
    es: Seq<(String, PkgInfo)>,
    prefix: Seq<Seq<char>>,
    visited: Seq<Seq<char>>,
    peer: bool,
    g: PkgInfo,
) -> bool
    decreases bound(es) - visited.len(), 0nat, 0nat,
{
    let name = prefix.last();
    match resolve(es, prefix, prefix.len()) {
        None => is_default_node(g, name, peer),
        Some(m) => {
            let key = npm_key(hoisted(prefix, m as int));
            let e = es[key_index(es, key).unwrap()].1;
            let v = vkey(name, e.version@);
            &&& same_package_data(g, e)
            &&& g.name@ == name
            &&& g.path@ == key
            &&& g.is_peer == peer
            &&& if visited.contains(v) {
                g.is_loop && infos_eqv(g.relations@, e.relations@)
            } else if visited.len() + 1 > bound(es) {
                false
            } else {
                &&& g.is_loop == e.is_loop
                &&& graph_children(
                    es,
                    prefix,
                    visited.push(v),
                    dep_names(e),
                    e.dependencies.len() as int,
                    g.relations@,
                )
            }
        },
    }
}

/// The children of a node are its dependencies, then its peer dependencies,
/// in order, each named after the dependency, and exactly the peer ones
/// flagged as peers.
pub proof fn lemma_children_order(
    es: Seq<(String, PkgInfo)>,
    prefix: Seq<Seq<char>>,
    visited: Seq<Seq<char>>,
    names: Seq<Seq<char>>,
    nd: int,
    rel: Seq<PkgInfo>,
)
    requires
        graph_children(es, prefix, visited, names, nd, rel),
    ensures
        rel.len() == names.len(),
        forall|k: int| 0 <= k < rel.len() ==> #[trigger] rel[k].name@ == names[k] && rel[k].is_peer == (k >= nd),
    decreases names.len(),
{
    if names.len() > 0 {
        lemma_children_order(es, prefix, visited, names.drop_last(), nd, rel.drop_last());
        assert(prefix.push(names.last()).last() == names.last());
        assert forall|k: int| 0 <= k < rel.len() implies #[trigger] rel[k].name@ == names[k] && rel[k].is_peer == (k >= nd) by {
            if k < rel.len() - 1 {
                assert(rel.drop_last()[k] == rel[k]);
                assert(names.drop_last()[k] == names[k]);
            } else {
                assert(rel[k] == rel.last());
                assert(graph_node(es, prefix.push(names.last()), visited, names.len() - 1 >= nd, rel.last()));
            }
        }
    }
}

/// What `read_pkg_graph` gives for the dependency `dep`.
pub open spec fn graph_result(lock: Pkg, dep: Seq<char>, r: Result<PkgInfo, GraphError>) -> bool {
    let es = lock.packages@;
    let key = npm_key(seq![dep]);
    if lock.lockfile_version < 2 {
        r == Err::<PkgInfo, GraphError>(GraphError::UnsupportedNpmLockfile)
    } else {
        match key_index(es, key) {
            None => r is Err && r->Err_0 is DependencyNotFound && r->Err_0->DependencyNotFound_0@
                == dep,
            Some(i) => {
                let e = es[i].1;
                r is Ok && {
                    let g = r->Ok_0;
                    &&& same_package_data(g, e)
                    &&& g.name@ == dep
                    &&& g.path@ == key
                    &&& g.is_peer == e.is_peer
                    &&& g.is_loop == e.is_loop
                    &&& graph_children(
                        es,
                        seq![dep],
                        seq![vkey(dep, e.version@)],
                        dep_names(e),
                        e.dependencies.len() as int,
                        g.relations@,
                    )
                }
            },
        }
    }
}

/// Every dependency name with the version of any package is a candidate mark.
proof fn lemma_candidate(es: Seq<(String, PkgInfo)>, i: int, k: int, j: int)
    requires
        0 <= i < es.len(),
        0 <= k < dep_names(es[i].1).len(),
        0 <= j < es.len(),
    ensures
        candidates(es).contains(vkey(dep_names(es[i].1)[k], es[j].1.version@)),
{
    let n = dep_names(es[i].1)[k];
    let inner = |n: Seq<char>| es.map_values(|b: (String, PkgInfo)| vkey(n, b.1.version@));
    let outer = |a: (String, PkgInfo)| dep_names(a.1).flat_map(inner);
    lemma_flat_map_contains(dep_names(es[i].1), inner, k, j);
    let piece = outer(es[i]);
    let w = choose|w: int| 0 <= w < piece.len() && piece[w] == vkey(n, es[j].1.version@);
    lemma_flat_map_contains(es, outer, i, w);
}

impl Pkg {
    /// The graph nodes of the dependencies, then the peer dependencies, of the
    /// package at `parent`, reached by `prefix`.
    fn read_pkg_child_graph(&self, parent: usize, prefix: &Vec<String>, visited: &Vec<String>) -> (rel: Vec<PkgInfo>)
        requires
            parent < self.packages.len(),
            visited_ok(self.packages@, str_views(visited@)),
        ensures
            graph_children(
                self.packages@,
                str_views(prefix@),
                str_views(visited@),
                dep_names(self.packages@[parent as int].1),
                self.packages@[parent as int].1.dependencies.len() as int,
                rel@,
            ),
        decreases bound(self.packages@) - visited.len(), 1nat,
    {
        let ghost es = self.packages@;
        let ghost pv = str_views(prefix@);
        let ghost vis = str_views(visited@);
        let e = &self.packages[parent].1;
        let ghost names = dep_names(*e);
        let ghost nd = e.dependencies.len() as int;
        let nd_exec = e.dependencies.len();
        let np_exec = e.peer_dependencies.len();
        proof {
            lemma_distinct_bound(vis, candidates(es));
            assert(names.take(0) =~= Seq::<Seq<char>>::empty());
            assert(names.len() == nd + np_exec);
        }
        let mut rel: Vec<PkgInfo> = Vec::new();
        let mut i: usize = 0;
        while i < nd_exec
            invariant
                es == self.packages@,
                pv == str_views(prefix@),
                vis == str_views(visited@),
                parent < es.len(),
                *e == es[parent as int].1,
                names == dep_names(*e),
                nd == nd_exec,
                nd_exec == e.dependencies.len(),
                names.len() == nd + np_exec,
                visited_ok(es, vis),
                vis.len() <= bound(es),
                i <= nd_exec,
                graph_children(es, pv, vis, names.take(i as int), nd, rel@),
            decreases nd_exec - i,
        {
            let child_name = e.dependencies[i].0.clone();
            assert(child_name@ == names[i as int]);
            let mut p = clone_strings(prefix);
            p.push(child_name);
            assert(str_views(p@) =~= pv.push(names[i as int]));
            let child = self.read_pkg_graph_recursively(&p, visited, false, parent, Ghost(i as int));
            let ghost before = rel@;
            rel.push(child);
            proof {
                let t = names.take(i + 1);
                assert(t.drop_last() =~= names.take(i as int));
                assert(t.last() == names[i as int]);
                assert(rel@.drop_last() =~= before);
            }
            i = i + 1;
        }
        let mut j: usize = 0;
        while j < np_exec
            invariant
                es == self.packages@,
                pv == str_views(prefix@),
                vis == str_views(visited@),
                parent < es.len(),
                *e == es[parent as int].1,
                names == dep_names(*e),
                nd == nd_exec,
                nd_exec == e.dependencies.len(),
                np_exec == e.peer_dependencies.len(),
                names.len() == nd + np_exec,
                visited_ok(es, vis),
                vis.len() <= bound(es),
                j <= np_exec,
                graph_children(es, pv, vis, names.take(nd + j), nd, rel@),
            decreases np_exec - j,
        {
            let ghost idx: int = nd + j;
            let child_name = e.peer_dependencies[j].0.clone();
            assert(child_name@ == names[idx]);
            let mut p = clone_strings(prefix);
            p.push(child_name);
            assert(str_views(p@) =~= pv.push(names[idx]));
            let child = self.read_pkg_graph_recursively(&p, visited, true, parent, Ghost(idx));
            let ghost before = rel@;
            rel.push(child);
            proof {
                let t = names.take(idx + 1);
                assert(t.drop_last() =~= names.take(idx));
                assert(t.last() == names[idx]);
                assert(rel@.drop_last() =~= before);
            }
            j = j + 1;
        }
        assert(names.take(nd + np_exec) =~= names);
        rel
    }

    /// The graph node of the package reached by the dependency names `prefix`;
    /// its name is the `k`-th dependency name of the package at `parent`.
    fn read_pkg_graph_recursively(
        &self,
        prefix: &Vec<String>,
        visited: &Vec<String>,
        peer: bool,
        parent: usize,
        Ghost(k): Ghost<int>,
    ) -> (g: PkgInfo)
        requires
            prefix.len() >= 1,
            parent < self.packages.len(),
            0 <= k < dep_names(self.packages@[parent as int].1).len(),
            prefix@.last()@ == dep_names(self.packages@[parent as int].1)[k],
            visited_ok(self.packages@, str_views(visited@)),
            visited.len() <= bound(self.packages@),
        ensures
            graph_node(self.packages@, str_views(prefix@), str_views(visited@), peer, g),
        decreases bound(self.packages@) - visited.len(), 0nat,
    {
        let ghost es = self.packages@;
        let ghost pv = str_views(prefix@);
        let ghost vis = str_views(visited@);
        let n = prefix.len();
        let mut keys = clone_strings(prefix);
        let mut m: usize = n;
        assert(pv.take(n - 1).push(pv.last()) =~= pv);
        assert(str_views(keys@) == hoisted(pv, m as int));
        loop
            invariant
                es == self.packages@,
                pv == str_views(prefix@),
                vis == str_views(visited@),
                n == prefix.len(),
                n >= 1,
                parent < es.len(),
                0 <= k < dep_names(es[parent as int].1).len(),
                pv.last() == dep_names(es[parent as int].1)[k],
                visited_ok(es, vis),
                1 <= m <= n,
                keys.len() == m,
                str_views(keys@) == hoisted(pv, m as int),
                resolve(es, pv, n as nat) == resolve(es, pv, m as nat),
            ensures
                m == 1,
                resolve(es, pv, n as nat) == resolve(es, pv, m as nat),
                key_index(es, npm_key(hoisted(pv, 1))) is None,
            decreases m,
        {
            let key = join_strings("node_modules/", &keys, "/node_modules/");
            match find_key(&self.packages, key.as_str()) {
                Some(idx) => {
                    let e = &self.packages[idx].1;
                    let mut g = e.deep_clone();
                    assert(same_package_data(g, *e));
                    assert(infos_eqv(g.relations@, e.relations@));
                    assert(is_first_key(es, key@, idx as int));
                    let name = prefix[n - 1].clone();
                    assert(name@ == pv.last());
                    let v = concat(concat(name.as_str(), "@").as_str(), g.version.as_str());
                    g.name = name;
                    g.path = key;
                    g.is_peer = peer;
                    if contains_string(visited, &v) {
                        g.is_loop = true;
                        return g;
                    }
                    let mut visited2 = clone_strings(visited);
                    visited2.push(v);
                    proof {
                        let vis2 = str_views(visited2@);
                        assert(vis2 =~= vis.push(v@));
                        lemma_candidate(es, parent as int, k, idx as int);
                        assert(visited_ok(es, vis2)) by {
                            assert forall|a: int, b: int| 0 <= a < vis2.len() && 0 <= b < vis2.len() && a != b implies vis2[a] != vis2[b] by {
                                if a < vis.len() && b < vis.len() {
                                } else if a == vis.len() {
                                    assert(vis.contains(vis[b]));
                                } else {
                                    assert(vis.contains(vis[a]));
                                }
                            }
                            assert forall|q: int| 1 <= q < vis2.len() implies candidates(es).contains(#[trigger] vis2[q]) by {
                                if q < vis.len() {
                                    assert(vis2[q] == vis[q]);
                                } else {
                                    assert(vis2[q] == vkey(dep_names(es[parent as int].1)[k], es[idx as int].1.version@));
                                }
                            }
                        }
                        lemma_distinct_bound(vis2, candidates(es));
                    }
                    let rel = self.read_pkg_child_graph(idx, prefix, &visited2);
                    g.relations = rel;
                    return g;
                },
                None => {
                    if keys.len() <= 1 {
                        assert(key_index(es, npm_key(hoisted(pv, m as int))) is None);
                        break;
                    }
                    let ghost hk = str_views(keys@);
                    let ghost old_keys = keys@;
                    keys.remove(keys.len() - 2);
                    proof {
                        assert(keys@ == old_keys.remove(m - 2));
                        assert(str_views(keys@) =~= hk.remove(m - 2));
                        assert(hk.remove(m - 2) =~= hoisted(pv, m - 1));
                    }
                    m = m - 1;
                },
            }
        }
        assert(m == 1);
        assert(resolve(es, pv, 0) is None);
        let mut g = PkgInfo::default();
        g.name = prefix[n - 1].clone();
        g.is_peer = peer;
        g
    }
}


impl PkgLock for Pkg {
    open spec fn can_read_graph(&self, dep: Seq<char>) -> bool {
        true
    }

    open spec fn graph_ok(&self, dep: Seq<char>, r: Result<PkgInfo, GraphError>) -> bool {
        graph_result(*self, dep, r)
    }

    /// The dependency graph of the dependency `dep_name` of the project.
    fn read_pkg_graph(&self, dep_name: String) -> (r: Result<PkgInfo, GraphError>)
    {
        if self.lockfile_version < 2 {
            return Err(GraphError::UnsupportedNpmLockfile);
        }
        let mut prefix: Vec<String> = Vec::new();
        prefix.push(dep_name.clone());
        assert(str_views(prefix@) =~= seq![dep_name@]);
        let key = join_strings("node_modules/", &prefix, "/node_modules/");
        match find_key(&self.packages, key.as_str()) {
            None => Err(GraphError::DependencyNotFound(dep_name)),
            Some(idx) => {
                let e = &self.packages[idx].1;
                let mut g = e.deep_clone();
                let v = concat(concat(dep_name.as_str(), "@").as_str(), g.version.as_str());
                g.name = dep_name;
                g.path = key;
                let mut visited: Vec<String> = Vec::new();
                visited.push(v);
                proof {
                    assert(str_views(visited@) =~= seq![v@]);
                }
                let rel = self.read_pkg_child_graph(idx, &prefix, &visited);
                g.relations = rel;
                Ok(g)
            },
        }
    }
}

} // verus!
