//! The project being managed: its `package.json`, its dependencies with
//! their registry information, and the updates made to them.

use vstd::prelude::*;
use crate::manager::{find_key, is_first_key, key_index, keys_unique, lemma_same_keys_unique};
use crate::text::{concat, ends_with, is_suffix, str_views};
use package_info::{compare_version, upgrades, version_bounds, version_bounds_hold, PkgInfo};
use package_json::{was_updated, PkgJson, RemoveParams, UpdateParams};

pub mod package_info;
pub mod package_json;

verus! {

/// The command line of the dependency reader.
#[derive(Debug)]
pub struct Args {
    /// the path to the `package.json` file, or to its directory
    pub dir: String,
}

/// The `package.json` file that a path names: the path itself when it ends
/// in `package.json`, else the file of that name in it.
pub fn file_exist(dir: String) -> (r: String)
    ensures
        r@ == if is_suffix(dir@, "package.json"@) {
            dir@
        } else {
            dir@ + "/package.json"@
        },
{
    if ends_with(dir.as_str(), "package.json") {
        dir
    } else {
        concat(dir.as_str(), "/package.json")
    }
}

/// Where to find `package.json` for a path given on the command line.
#[derive(Debug)]
pub enum PackageJsonPath {
    /// at this path
    Exact(String),
    /// next to the file at this path
    NextTo(String),
}

/// Where `package.json` is for a path: inside it when it is a directory, the
/// path itself when it ends in `package.json`, else next to the file it names.
pub fn package_json_location(dir: &str, is_dir: bool) -> (r: PackageJsonPath)
    ensures
        is_dir ==> (r matches PackageJsonPath::Exact(p) && p@ == dir@ + "/package.json"@),
        !is_dir && is_suffix(dir@, "package.json"@) ==> (r matches PackageJsonPath::Exact(p) && p@ == dir@),
        !is_dir && !is_suffix(dir@, "package.json"@) ==> (r matches PackageJsonPath::NextTo(p) && p@ == dir@),
{
    if is_dir {
        PackageJsonPath::Exact(concat(dir, "/package.json"))
    } else if ends_with(dir, "package.json") {
        PackageJsonPath::Exact(crate::text::owned(dir))
    } else {
        PackageJsonPath::NextTo(crate::text::owned(dir))
    }
}

/// The project and its dependencies, by name.
#[derive(Debug)]
pub struct Pkg {
    pub path: String,
    pub name: Option<String>,
    pub version: Option<String>,
    pub description: Option<String>,
    pub scripts: Vec<(String, String)>,
    /// the package manager of the project
    pub manager_name: Option<String>,
    pub dependencies: Vec<(String, PkgInfo)>,
    pub dev_dependencies: Vec<(String, PkgInfo)>,
}

/// `b` is `a` after an update to `version`: the required version set, the
/// versions reduced to the possible upgrades from it, and no longer removed.
pub open spec fn updated_info(a: PkgInfo, b: PkgInfo, version: String) -> bool {
    &&& b.name == a.name
    &&& b.readme == a.readme
    &&& b.version == Some(version)
    &&& b.description == a.description
    &&& b.homepage == a.homepage
    &&& b.keywords == a.keywords
    &&& b.license == a.license
    &&& b.dist_tags == a.dist_tags
    &&& b.versions@ == upgrades(version@, a.dist_tags.latest@, a.versions@)
    &&& b.is_dev == a.is_dev
    &&& b.is_finish == a.is_finish
    &&& !b.is_del
}

/// `b` is `a` marked as removed.
pub open spec fn removed_info(a: PkgInfo, b: PkgInfo) -> bool {
    b == PkgInfo { is_del: true, ..a }
}

/// A dependency marked removed and then updated is no longer removed: it has
/// the new version and the upgrades from it, and keeps the rest of what it
/// had before it was removed.
pub proof fn lemma_update_restores_removed(a: PkgInfo, b: PkgInfo, c: PkgInfo, version: String)
    requires
        removed_info(a, b),
        updated_info(b, c, version),
    ensures
        !c.is_del,
        c.version == Some(version),
        c.versions@ == upgrades(version@, a.dist_tags.latest@, a.versions@),
        c.name == a.name,
        c.readme == a.readme,
        c.description == a.description,
        c.homepage == a.homepage,
        c.keywords == a.keywords,
        c.license == a.license,
        c.dist_tags == a.dist_tags,
        c.is_dev == a.is_dev,
        c.is_finish == a.is_finish,
{
}

/// Marking a dependency removed twice is the same as marking it once.
pub proof fn lemma_remove_twice(a: PkgInfo, b: PkgInfo, c: PkgInfo)
    requires
        removed_info(a, b),
        removed_info(b, c),
    ensures
        c == b,
{
}

/// `b` is the registry information `a` made the entry of a dependency that
/// requires `version`: upgrades computed, version set, loading finished.
pub open spec fn fetched_info(a: PkgInfo, b: PkgInfo, version: String, is_dev: bool) -> bool {
    &&& b.name == a.name
    &&& b.readme == a.readme
    &&& b.version == Some(version)
    &&& b.description == a.description
    &&& b.homepage == a.homepage
    &&& b.keywords == a.keywords
    &&& b.license == a.license
    &&& b.dist_tags == a.dist_tags
    &&& b.versions@ == upgrades(version@, a.dist_tags.latest@, a.versions@)
    &&& b.is_dev == is_dev
    &&& b.is_finish
    &&& b.is_del == a.is_del
}

/// The list `b` is `a` with entry `i` changed as `changed` says and the
/// others as they were.
pub open spec fn entry_changed(
    a: Seq<(String, PkgInfo)>,
    b: Seq<(String, PkgInfo)>,
    i: int,
    changed: spec_fn(PkgInfo, PkgInfo) -> bool,
) -> bool {
    &&& 0 <= i < a.len()
    &&& b.len() == a.len()
    &&& b[i].0 == a[i].0
    &&& changed(a[i].1, b[i].1)
    &&& forall|j: int| 0 <= j < a.len() && j != i ==> b[j] == a[j]
}

/// The list `b` is the map `a` with `value` stored under `key`: in place of
/// the entry with that key, or appended when there is none.
pub open spec fn map_inserted(a: Seq<(String, PkgInfo)>, b: Seq<(String, PkgInfo)>, key: String, value: PkgInfo) -> bool {
    match key_index(a, key@) {
        Some(i) => b == a.update(i, (a[i].0, value)),
        None => b == a.push((key, value)),
    }
}

/// The entry for a dependency, built from its name and version range.
pub open spec fn generated_info(k: String, v: String, info: PkgInfo) -> bool {
    &&& info.name == k
    &&& info.version == Some(v)
    &&& info.readme is None
    &&& info.description is None
    &&& info.homepage is None
    &&& info.keywords is None
    &&& info.license is None
    &&& info.dist_tags.latest@ == Seq::<char>::empty()
    &&& info.versions@.len() == 0
    &&& !info.is_dev
    &&& !info.is_finish
    &&& !info.is_del
}

/// `r` has one generated entry per (name, version range) of `d`, in order.
pub open spec fn generated_list(d: Seq<(String, String)>, r: Seq<(String, PkgInfo)>) -> bool {
    &&& r.len() == d.len()
    &&& forall|i: int| 0 <= i < d.len() ==> #[trigger] r[i].0 == d[i].0 && generated_info(d[i].0, d[i].1, r[i].1)
}

/// Stores `value` under `key` in a map kept as a list of pairs.
pub fn map_insert(list: &mut Vec<(String, PkgInfo)>, key: String, value: PkgInfo)
    ensures
        map_inserted(old(list)@, final(list)@, key, value),
        keys_unique(old(list)@) ==> keys_unique(final(list)@),
{
    match find_key(list, key.as_str()) {
        Some(i) => {
            let (k, _old) = list.remove(i);
            list.insert(i, (k, value));
            assert(final(list)@ =~= old(list)@.update(i as int, (old(list)@[i as int].0, value)));
            proof {
                if keys_unique(old(list)@) {
                    lemma_same_keys_unique(old(list)@, final(list)@);
                }
            }
        },
        None => {
            let ghost before = list@;
            list.push((key, value));
            proof {
                if keys_unique(before) {
                    assert forall|a: int, b: int| 0 <= a < b < list@.len() implies #[trigger] list@[a].0@
                        != #[trigger] list@[b].0@ by {
                        if b == before.len() {
                            assert(before[a].0@ != key@);
                        } else {
                            assert(before[a].0@ != before[b].0@);
                        }
                    }
                }
            }
        },
    }
}

/// A change of one entry that keeps its key keeps the keys unique.
proof fn lemma_entry_changed_keys(a: Seq<(String, PkgInfo)>, b: Seq<(String, PkgInfo)>, i: int)
    requires
        0 <= i < a.len(),
        b.len() == a.len(),
        b[i].0 == a[i].0,
        forall|j: int| 0 <= j < a.len() && j != i ==> b[j] == a[j],
        keys_unique(a),
    ensures
        keys_unique(b),
{
    assert forall|j: int| 0 <= j < a.len() implies #[trigger] b[j].0@ == a[j].0@ by {
        if j != i {
            assert(b[j] == a[j]);
        }
    }
    lemma_same_keys_unique(a, b);
}

/// Updates the entry `name` of a dependency list to the required `version`.
fn update_entry(list: &mut Vec<(String, PkgInfo)>, name: &str, version: String)
    requires
        key_index(old(list)@, name@) is Some,
        version_bounds(version@, old(list)@[key_index(old(list)@, name@).unwrap()].1.dist_tags.latest@),
    ensures
        entry_changed(
            old(list)@,
            final(list)@,
            key_index(old(list)@, name@).unwrap(),
            |a: PkgInfo, b: PkgInfo| updated_info(a, b, version),
        ),
{
    let i = match find_key(list, name) {
        Some(i) => i,
        None => {
            assert(false);
            return;
        },
    };
    let (k, info) = list.remove(i);
    let PkgInfo {
        name: n,
        readme,
        version: _,
        description,
        homepage,
        keywords,
        license,
        dist_tags,
        versions,
        is_dev,
        is_finish,
        is_del: _,
    } = info;
    let new_versions = compare_version(version.as_str(), dist_tags.latest.as_str(), versions);
    let new_info = PkgInfo {
        name: n,
        readme,
        version: Some(version),
        description,
        homepage,
        keywords,
        license,
        dist_tags,
        versions: new_versions,
        is_dev,
        is_finish,
        is_del: false,
    };
    list.insert(i, (k, new_info));
}

/// Marks the entry `name` of a dependency list as removed.
fn remove_entry(list: &mut Vec<(String, PkgInfo)>, name: &str)
    requires
        key_index(old(list)@, name@) is Some,
    ensures
        entry_changed(
            old(list)@,
            final(list)@,
            key_index(old(list)@, name@).unwrap(),
            |a: PkgInfo, b: PkgInfo| removed_info(a, b),
        ),
{
    let i = match find_key(list, name) {
        Some(i) => i,
        None => {
            assert(false);
            return;
        },
    };
    let (k, mut info) = list.remove(i);
    info.is_del = true;
    list.insert(i, (k, info));
}

/// `a` and `b` hold the same project: the same fields and the same
/// dependency lists.
pub open spec fn same_pkg(a: Pkg, b: Pkg) -> bool {
    &&& a.list(true) == b.list(true)
    &&& a.list(false) == b.list(false)
    &&& a.path == b.path
    &&& a.name == b.name
    &&& a.version == b.version
    &&& a.description == b.description
    &&& a.scripts == b.scripts
    &&& a.manager_name == b.manager_name
}

/// `b` is `a` after the update `p` (`update_pkg_info`): the dependency can be
/// updated, its entry changes as an update does, and nothing else changes.
pub open spec fn update_step(a: Pkg, b: Pkg, p: UpdateParams) -> bool {
    &&& a.can_update(p)
    &&& entry_changed(
        a.list(p.is_dev),
        b.list(p.is_dev),
        key_index(a.list(p.is_dev), p.name@).unwrap(),
        |x: PkgInfo, y: PkgInfo| updated_info(x, y, p.version),
    )
    &&& b.list(!p.is_dev) == a.list(!p.is_dev)
    &&& b.path == a.path
    &&& b.name == a.name
    &&& b.version == a.version
    &&& b.description == a.description
    &&& b.scripts == a.scripts
    &&& b.manager_name == a.manager_name
}

/// The projects `states` go from the first to the last by the updates `ps`,
/// one update each.
pub open spec fn update_chain(states: Seq<Pkg>, ps: Seq<UpdateParams>) -> bool {
    &&& states.len() == ps.len() + 1
    &&& forall|k: int| 0 <= k < ps.len() ==> update_step(states[k], states[k + 1], #[trigger] ps[k])
}

/// The update requests whose dependency was installed (its name is among
/// `names`), in request order.
pub open spec fn installed_requests(params: Seq<UpdateParams>, names: Seq<Seq<char>>) -> Seq<UpdateParams> {
    params.filter(|p: UpdateParams| names.contains(p.name@))
}

proof fn lemma_chain_push(states: Seq<Pkg>, ps: Seq<UpdateParams>, x: Pkg, p: UpdateParams)
    requires
        update_chain(states, ps),
        update_step(states.last(), x, p),
    ensures
        update_chain(states.push(x), ps.push(p)),
{
    let st2 = states.push(x);
    let ps2 = ps.push(p);
    assert forall|k: int| 0 <= k < ps2.len() implies update_step(st2[k], st2[k + 1], #[trigger] ps2[k]) by {
        if k < ps.len() {
            assert(st2[k] == states[k] && st2[k + 1] == states[k + 1] && ps2[k] == ps[k]);
        } else {
            assert(st2[k] == states.last() && st2[k + 1] == x && ps2[k] == p);
        }
    }
}

proof fn lemma_chain_same_last(states: Seq<Pkg>, ps: Seq<UpdateParams>, x: Pkg)
    requires
        update_chain(states, ps),
        ps.len() > 0,
        same_pkg(states.last(), x),
    ensures
        update_chain(states.update(states.len() - 1, x), ps),
{
    let st2 = states.update(states.len() - 1, x);
    assert forall|k: int| 0 <= k < ps.len() implies update_step(st2[k], st2[k + 1], #[trigger] ps[k]) by {
        assert(update_step(states[k], states[k + 1], ps[k]));
        assert(st2[k] == states[k]);
    }
}

impl Pkg {
    /// A project with nothing known yet.
    pub fn new() -> (r: Pkg)
        ensures
            r.path@ == Seq::<char>::empty(),
            r.name is None,
            r.version is None,
            r.description is None,
            r.manager_name is None,
            r.scripts@.len() == 0,
            r.dependencies@.len() == 0,
            r.dev_dependencies@.len() == 0,
            r.wf(),
    {
        Pkg {
            path: String::new(),
            name: None,
            version: None,
            description: None,
            manager_name: None,
            scripts: Vec::new(),
            dependencies: Vec::new(),
            dev_dependencies: Vec::new(),
        }
    }

    /// The entries of the dependencies of a `package.json` table: one per
    /// (name, version range), in order, named and versioned, otherwise empty.
    pub fn generate_pkg_info(data: Option<Vec<(String, String)>>) -> (r: Vec<(String, PkgInfo)>)
        ensures
            data is None ==> r@.len() == 0,
            data matches Some(d) ==> generated_list(d@, r@),
            data matches Some(d) && keys_unique(d@) ==> keys_unique(r@),
    {
        let mut res: Vec<(String, PkgInfo)> = Vec::new();
        match data {
            None => {
                assert(res@.len() == 0);
                res
            },
            Some(d) => {
                let mut i: usize = 0;
                while i < d.len()
                    invariant
                        i <= d.len(),
                        generated_list(d@.take(i as int), res@),
                    decreases d.len() - i,
                {
                    let (k, v) = &d[i];
                    let mut info = PkgInfo::default();
                    info.name = k.clone();
                    info.version = Some(v.clone());
                    let ghost before = res@;
                    let key = k.clone();
                    let ghost entry = (key, info);
                    res.push((key, info));
                    proof {
                        let t = d@.take(i + 1);
                        assert forall|j: int| 0 <= j < t.len() implies #[trigger] res@[j].0 == t[j].0 && generated_info(t[j].0, t[j].1, res@[j].1) by {
                            if j < i {
                                assert(res@[j] == before[j]);
                                assert(t[j] == d@.take(i as int)[j]);
                                assert(before[j].0 == d@.take(i as int)[j].0);
                            } else {
                                assert(t[j] == d@[i as int]);
                                assert(res@[j] == entry);
                            }
                        }
                    }
                    i = i + 1;
                }
                assert(d@.take(d.len() as int) =~= d@);
                proof {
                    if keys_unique(d@) {
                        lemma_same_keys_unique(d@, res@);
                    }
                }
                assert(generated_list(d@, res@));
                res
            },
        }
    }

    /// The project's maps have no key twice: the scripts, the dependencies
    /// and the dev dependencies.
    pub open spec fn wf(self) -> bool {
        &&& keys_unique(self.scripts@)
        &&& keys_unique(self.dependencies@)
        &&& keys_unique(self.dev_dependencies@)
    }

    /// The dependency list that `is_dev` chooses.
    pub open spec fn list(self, is_dev: bool) -> Seq<(String, PkgInfo)> {
        if is_dev {
            self.dev_dependencies@
        } else {
            self.dependencies@
        }
    }

    /// Whether the dependency of `params` can be updated: it is in the list
    /// that `is_dev` chooses, and its versions can be compared.
    pub open spec fn can_update(self, params: UpdateParams) -> bool {
        &&& key_index(self.list(params.is_dev), params.name@) is Some
        &&& version_bounds(
            params.version@,
            self.list(params.is_dev)[key_index(self.list(params.is_dev), params.name@).unwrap()].1.dist_tags.latest@,
        )
    }

    /// Updates one dependency to a required version: the entry gets the
    /// version, the upgrades from it, and is no longer marked removed.
    pub fn update_pkg_info(&mut self, params: UpdateParams)
        requires
            old(self).can_update(params),
        ensures
            entry_changed(
                old(self).list(params.is_dev),
                final(self).list(params.is_dev),
                key_index(old(self).list(params.is_dev), params.name@).unwrap(),
                |a: PkgInfo, b: PkgInfo| updated_info(a, b, params.version),
            ),
            final(self).list(!params.is_dev) == old(self).list(!params.is_dev),
            final(self).path == old(self).path,
            final(self).name == old(self).name,
            final(self).version == old(self).version,
            final(self).description == old(self).description,
            final(self).scripts == old(self).scripts,
            final(self).manager_name == old(self).manager_name,
            old(self).wf() ==> final(self).wf(),
    {
        let ghost i = key_index(old(self).list(params.is_dev), params.name@).unwrap();
        let UpdateParams { name, version, is_dev, is_change: _ } = params;
        if is_dev {
            update_entry(&mut self.dev_dependencies, name.as_str(), version);
        } else {
            update_entry(&mut self.dependencies, name.as_str(), version);
        }
        proof {
            if old(self).wf() {
                lemma_entry_changed_keys(old(self).list(is_dev), self.list(is_dev), i);
            }
        }
    }

    /// `update_pkg_info` where the dependency exists and its versions can be
    /// compared; otherwise `false`, with nothing changed.
    pub fn try_update_pkg_info(&mut self, params: UpdateParams) -> (r: bool)
        ensures
            r == old(self).can_update(params),
            r ==> entry_changed(
                old(self).list(params.is_dev),
                final(self).list(params.is_dev),
                key_index(old(self).list(params.is_dev), params.name@).unwrap(),
                |a: PkgInfo, b: PkgInfo| updated_info(a, b, params.version),
            ),
            !r ==> final(self).list(params.is_dev) == old(self).list(params.is_dev),
            final(self).list(!params.is_dev) == old(self).list(!params.is_dev),
            final(self).path == old(self).path,
            final(self).name == old(self).name,
            final(self).version == old(self).version,
            final(self).description == old(self).description,
            final(self).scripts == old(self).scripts,
            final(self).manager_name == old(self).manager_name,
            old(self).wf() ==> final(self).wf(),
    {
        let found = if params.is_dev {
            find_key(&self.dev_dependencies, params.name.as_str())
        } else {
            find_key(&self.dependencies, params.name.as_str())
        };
        let i = match found {
            None => return false,
            Some(i) => i,
        };
        let ok = if params.is_dev {
            version_bounds_hold(params.version.as_str(), self.dev_dependencies[i].1.dist_tags.latest.as_str())
        } else {
            version_bounds_hold(params.version.as_str(), self.dependencies[i].1.dist_tags.latest.as_str())
        };
        if !ok {
            return false;
        }
        self.update_pkg_info(params);
        true
    }

    /// Applies the update requests whose dependency was installed (its name
    /// is among `names`), in order; `false`, stopping there, at the first one
    /// whose dependency cannot be updated.
    pub fn apply_updates(&mut self, params: &Vec<UpdateParams>, names: &Vec<String>) -> (r: bool)
        ensures
            r ==> exists|st: Seq<Pkg>|
                #![trigger update_chain(st, installed_requests(params@, str_views(names@)))]
                update_chain(st, installed_requests(params@, str_views(names@))) && same_pkg(st[0], *old(self))
                    && same_pkg(st.last(), *final(self)),
            !r ==> exists|st: Seq<Pkg>, i: int|
                #![trigger update_chain(st, installed_requests(params@.take(i), str_views(names@)))]
                0 <= i < params.len() && str_views(names@).contains(params@[i].name@) && update_chain(
                    st,
                    installed_requests(params@.take(i), str_views(names@)),
                ) && same_pkg(st[0], *old(self)) && same_pkg(st.last(), *final(self))
                    && !final(self).can_update(params@[i]),
            old(self).wf() ==> final(self).wf(),
    {
        let ghost nv = str_views(names@);
        let ghost pred = |p: UpdateParams| nv.contains(p.name@);
        let ghost mut st: Seq<Pkg> = seq![*self];
        let ghost orig = *self;
        let mut i: usize = 0;
        assert(params@.take(0) =~= Seq::<UpdateParams>::empty());
        proof {
            reveal(Seq::filter);
        }
        while i < params.len()
            invariant
                i <= params.len(),
                nv == str_views(names@),
                pred == (|p: UpdateParams| nv.contains(p.name@)),
                st.len() >= 1,
                same_pkg(st[0], orig),
                same_pkg(st.last(), *self),
                update_chain(st, installed_requests(params@.take(i as int), nv)),
                orig == *old(self),
                orig.wf() ==> self.wf(),
            decreases params.len() - i,
        {
            let ghost before = *self;
            let ghost sel = installed_requests(params@.take(i as int), nv);
            let ghost t = params@.take(i + 1);
            assert(t.drop_last() =~= params@.take(i as int));
            assert(t.last() == params@[i as int]);
            let installed = was_updated(names, &params[i].name);
            if installed {
                let p = UpdateParams {
                    name: params[i].name.clone(),
                    version: params[i].version.clone(),
                    is_dev: params[i].is_dev,
                    is_change: params[i].is_change,
                };
                assert(p == params@[i as int]);
                if !self.try_update_pkg_info(p) {
                    proof {
                        assert(same_pkg(before, *self));
                        assert(!self.can_update(params@[i as int]));
                        assert(update_chain(st, installed_requests(params@.take(i as int), str_views(names@))));
                    }
                    return false;
                }
                proof {
                    assert(update_step(st.last(), *self, params@[i as int])) by {
                        assert(update_step(before, *self, params@[i as int]));
                    }
                    lemma_chain_push(st, sel, *self, params@[i as int]);
                    reveal(Seq::filter);
                    assert(installed_requests(t, nv) == sel.push(params@[i as int]));
                    st = st.push(*self);
                }
            } else {
                proof {
                    reveal(Seq::filter);
                    assert(installed_requests(t, nv) == sel);
                }
            }
            i = i + 1;
        }
        assert(params@.take(params.len() as int) =~= params@);
        true
    }

    /// Marks one dependency as removed (it can be restored by an update).
    pub fn remove_pkg_info(&mut self, params: RemoveParams)
        requires
            key_index(old(self).list(params.is_dev), params.name@) is Some,
        ensures
            entry_changed(
                old(self).list(params.is_dev),
                final(self).list(params.is_dev),
                key_index(old(self).list(params.is_dev), params.name@).unwrap(),
                |a: PkgInfo, b: PkgInfo| removed_info(a, b),
            ),
            final(self).list(!params.is_dev) == old(self).list(!params.is_dev),
            final(self).path == old(self).path,
            final(self).name == old(self).name,
            final(self).version == old(self).version,
            final(self).description == old(self).description,
            final(self).scripts == old(self).scripts,
            final(self).manager_name == old(self).manager_name,
            old(self).wf() ==> final(self).wf(),
    {
        if params.is_dev {
            remove_entry(&mut self.dev_dependencies, params.name.as_str());
        } else {
            remove_entry(&mut self.dependencies, params.name.as_str());
        }
        proof {
            if old(self).wf() {
                lemma_entry_changed_keys(
                    old(self).list(params.is_dev),
                    self.list(params.is_dev),
                    key_index(old(self).list(params.is_dev), params.name@).unwrap(),
                );
            }
        }
    }

    /// Takes in a project's `package.json`: its path, name, version and
    /// description, its dependencies and dev dependencies (as fresh entries),
    /// and the package manager found beside it.
    pub fn apply_pkg_json(&mut self, path: String, json: PkgJson, manager_name: Option<String>)
        ensures
            final(self).path == path,
            final(self).name == json.name,
            final(self).version == json.version,
            final(self).description == json.description,
            final(self).manager_name == manager_name,
            final(self).scripts == old(self).scripts,
            json.dependencies is None ==> final(self).dependencies@.len() == 0,
            json.dependencies matches Some(d) ==> generated_list(d@, final(self).dependencies@),
            json.dev_dependencies is None ==> final(self).dev_dependencies@.len() == 0,
            json.dev_dependencies matches Some(d) ==> generated_list(d@, final(self).dev_dependencies@),
            keys_unique(old(self).scripts@) && json.wf() ==> final(self).wf(),
    {
        let PkgJson { name, version, description, scripts: _, dependencies, dev_dependencies } = json;
        self.path = path;
        self.name = name;
        self.version = version;
        self.description = description;
        self.dependencies = Pkg::generate_pkg_info(dependencies);
        self.dev_dependencies = Pkg::generate_pkg_info(dev_dependencies);
        self.manager_name = manager_name;
    }

    /// Stores the registry information of a dependency that requires
    /// `version`: its upgrades computed, the version set, loading finished.
    pub fn apply_fetched_info(&mut self, name: String, version: String, is_dev: bool, info: PkgInfo)
        requires
            version_bounds(version@, info.dist_tags.latest@),
        ensures
            exists|b: PkgInfo| fetched_info(info, b, version, is_dev) && map_inserted(old(self).list(is_dev), final(self).list(is_dev), name, b),
            final(self).list(!is_dev) == old(self).list(!is_dev),
            final(self).path == old(self).path,
            final(self).name == old(self).name,
            final(self).version == old(self).version,
            final(self).description == old(self).description,
            final(self).scripts == old(self).scripts,
            final(self).manager_name == old(self).manager_name,
            old(self).wf() ==> final(self).wf(),
    {
        let ghost old_info = info;
        let PkgInfo {
            name: n,
            readme,
            version: _,
            description,
            homepage,
            keywords,
            license,
            dist_tags,
            versions,
            is_dev: _,
            is_finish: _,
            is_del,
        } = info;
        let new_versions = compare_version(version.as_str(), dist_tags.latest.as_str(), versions);
        let new_info = PkgInfo {
            name: n,
            readme,
            version: Some(version),
            description,
            homepage,
            keywords,
            license,
            dist_tags,
            versions: new_versions,
            is_dev,
            is_finish: true,
            is_del,
        };
        assert(fetched_info(old_info, new_info, version, is_dev));
        if is_dev {
            map_insert(&mut self.dev_dependencies, name, new_info);
        } else {
            map_insert(&mut self.dependencies, name, new_info);
        }
    }

    /// `apply_fetched_info` where the versions can be compared; otherwise
    /// `false`, with nothing changed.
    pub fn try_apply_fetched_info(&mut self, name: String, version: String, is_dev: bool, info: PkgInfo) -> (r: bool)
        ensures
            r == version_bounds(version@, info.dist_tags.latest@),
            r ==> exists|b: PkgInfo| fetched_info(info, b, version, is_dev) && map_inserted(old(self).list(is_dev), final(self).list(is_dev), name, b),
            !r ==> final(self).list(is_dev) == old(self).list(is_dev),
            final(self).list(!is_dev) == old(self).list(!is_dev),
            final(self).path == old(self).path,
            final(self).name == old(self).name,
            final(self).version == old(self).version,
            final(self).description == old(self).description,
            final(self).scripts == old(self).scripts,
            final(self).manager_name == old(self).manager_name,
            old(self).wf() ==> final(self).wf(),
    {
        if !version_bounds_hold(version.as_str(), info.dist_tags.latest.as_str()) {
            return false;
        }
        self.apply_fetched_info(name, version, is_dev, info);
        true
    }
}

} // verus!
