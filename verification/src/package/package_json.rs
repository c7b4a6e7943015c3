//! The project's `package.json`, and the requests to install, update and
//! remove its dependencies.

use vstd::prelude::*;
use vstd::string::*;
use crate::text::{concat, contains_string, owned, str_views};
use crate::utils::rs_env::Env;
use crate::manager::keys_unique;

verus! {

/// The parts of `package.json` that are read.
#[derive(Debug)]
pub struct PkgJson {
    pub name: Option<String>,
    pub version: Option<String>,
    pub description: Option<String>,
    pub scripts: Option<Vec<(String, String)>>,
    pub dependencies: Option<Vec<(String, String)>>,
    pub dev_dependencies: Option<Vec<(String, String)>>,
}

impl PkgJson {
    /// The tables of `package.json` are maps: no name occurs twice in one.
    pub open spec fn wf(self) -> bool {
        &&& (self.scripts matches Some(m) ==> keys_unique(m@))
        &&& (self.dependencies matches Some(m) ==> keys_unique(m@))
        &&& (self.dev_dependencies matches Some(m) ==> keys_unique(m@))
    }
}

/// A request to install `name` at `version`.
#[derive(Debug)]
pub struct UpdateParams {
    pub name: String,
    pub version: String,
    pub is_dev: bool,
    /// whether the dependency moves between dependencies and dev dependencies
    pub is_change: Option<bool>,
}

/// A request to remove `name`.
#[derive(Debug)]
pub struct RemoveParams {
    pub name: String,
    pub is_dev: bool,
}

/// A request to install all dependencies.
#[derive(Debug)]
pub struct QuickInstallParams {
    pub manager_name: String,
    pub is_registry: bool,
    pub registry: Option<String>,
    pub params: Option<Vec<String>>,
}


/// Why a package manager command cannot be run.
#[derive(Debug, Clone, PartialEq, Eq)]
pub enum CommandError {
    /// The package manager is not installed.
    EnvNotFound(String),
}

/// The program to run for a package manager found on the system: on
/// Windows a batch command gets `.cmd` appended.
pub open spec fn command_program(env: Env, is_windows: bool) -> Seq<char> {
    if is_windows && env.is_cmd {
        env.name@ + ".cmd"@
    } else {
        env.name@
    }
}

/// The program that runs the package manager `manager_name`, found as `env`
/// (or not found); an error names the manager when it is not installed.
pub fn manager_command(env: Option<Env>, manager_name: &str, is_windows: bool) -> (r: Result<String, CommandError>)
    ensures
        match env {
            Some(e) => r is Ok && r->Ok_0@ == command_program(e, is_windows),
            None => r is Err && r->Err_0 is EnvNotFound && r->Err_0->EnvNotFound_0@ == manager_name@,
        },
{
    match env {
        Some(e) => {
            if is_windows && e.is_cmd {
                Ok(concat(e.name.as_str(), ".cmd"))
            } else {
                Ok(e.name)
            }
        },
        None => Err(CommandError::EnvNotFound(owned(manager_name))),
    }
}

/// The arguments of `install` for all dependencies: `install`, then
/// `--registry <registry>` when asked for, then the extra arguments.
pub open spec fn quick_install_arg_list(p: QuickInstallParams) -> Seq<Seq<char>> {
    let base = if p.is_registry {
        seq!["install"@, "--registry"@, p.registry.unwrap()@]
    } else {
        seq!["install"@]
    };
    match p.params {
        Some(extra) => base + str_views(extra@),
        None => base,
    }
}

/// The quick install arguments start with `install`, then `--registry` and
/// the registry exactly when one is asked for, and end with all the extra
/// arguments, whether or not a registry is given.
pub proof fn lemma_quick_install_args(p: QuickInstallParams)
    requires
        p.is_registry ==> p.registry is Some,
    ensures
        ({
            let a = quick_install_arg_list(p);
            let extra = match p.params {
                Some(e) => str_views(e@),
                None => Seq::<Seq<char>>::empty(),
            };
            let base_len: int = if p.is_registry { 3 } else { 1 };
            &&& a.len() == base_len + extra.len()
            &&& a[0] == "install"@
            &&& p.is_registry ==> a[1] == "--registry"@ && a[2] == p.registry.unwrap()@
            &&& a.skip(base_len) == extra
        }),
{
    let a = quick_install_arg_list(p);
    let extra = match p.params {
        Some(e) => str_views(e@),
        None => Seq::<Seq<char>>::empty(),
    };
    let base_len: int = if p.is_registry { 3 } else { 1 };
    assert(a.skip(base_len) =~= extra);
}

/// The arguments of the quick install command.
pub fn quick_install_args(params: QuickInstallParams) -> (r: Vec<String>)
    requires
        params.is_registry ==> params.registry is Some,
    ensures
        str_views(r@) == quick_install_arg_list(params),
{
    let ghost p = params;
    let QuickInstallParams { manager_name: _, is_registry, registry, params: extra } = params;
    let mut args: Vec<String> = Vec::new();
    args.push(owned("install"));
    if is_registry {
        args.push(owned("--registry"));
        match registry {
            Some(reg) => args.push(reg),
            None => {
                assert(false);
            },
        }
    }
    let ghost base = str_views(args@);
    assert(base =~= if p.is_registry {
        seq!["install"@, "--registry"@, p.registry.unwrap()@]
    } else {
        seq!["install"@]
    });
    match extra {
        Some(extra) => {
            let mut i: usize = 0;
            while i < extra.len()
                invariant
                    i <= extra.len(),
                    str_views(args@) == base + str_views(extra@).take(i as int),
                decreases extra.len() - i,
            {
                let ghost before = args@;
                args.push(extra[i].clone());
                assert(str_views(args@) =~= str_views(before).push(extra@[i as int]@));
                assert(str_views(extra@).take(i + 1) =~= str_views(extra@).take(i as int).push(extra@[i as int]@));
                assert(str_views(args@) =~= base + str_views(extra@).take(i + 1));
                i = i + 1;
            }
            assert(str_views(extra@).take(extra.len() as int) =~= str_views(extra@));
        },
        None => {
            assert(str_views(args@) =~= base);
        },
    }
    args
}

/// The arguments that install one dependency: `install name@version`, and
/// `-D` for a dev dependency.
pub open spec fn update_arg_list(p: UpdateParams) -> Seq<Seq<char>> {
    let spec_name = p.name@ + "@"@ + p.version@;
    if p.is_dev {
        seq!["install"@, spec_name, "-D"@]
    } else {
        seq!["install"@, spec_name]
    }
}

/// The arguments of the command that installs `params.name` at `params.version`.
pub fn update_args(params: &UpdateParams) -> (r: Vec<String>)
    ensures
        str_views(r@) == update_arg_list(*params),
{
    let mut args: Vec<String> = Vec::new();
    args.push(owned("install"));
    args.push(concat(concat(params.name.as_str(), "@").as_str(), params.version.as_str()));
    if params.is_dev {
        args.push(owned("-D"));
    }
    assert(str_views(args@) =~= update_arg_list(*params));
    args
}

/// The arguments of the command that removes `params.name`: `remove name`.
pub fn remove_args(params: &RemoveParams) -> (r: Vec<String>)
    ensures
        str_views(r@) == seq!["remove"@, params.name@],
{
    let mut args: Vec<String> = Vec::new();
    args.push(owned("remove"));
    args.push(params.name.clone());
    assert(str_views(args@) =~= seq!["remove"@, params.name@]);
    args
}

/// The names of the requests that succeeded (`ok[i]` for `params[i]`), in order.
pub open spec fn succeeded_names(params: Seq<UpdateParams>, ok: Seq<bool>) -> Seq<Seq<char>>
    decreases params.len(),
{
    if params.len() == 0 {
        Seq::empty()
    } else {
        let prev = succeeded_names(params.drop_last(), ok);
        if ok[params.len() - 1] {
            prev.push(params.last().name@)
        } else {
            prev
        }
    }
}

/// The names of the successful requests as a filter: the positions whose
/// update succeeded, in order, mapped to their requests' names.
pub open spec fn succeeded_by_filter(params: Seq<UpdateParams>, ok: Seq<bool>) -> Seq<Seq<char>> {
    Seq::new(params.len(), |k: int| k).filter(|k: int| ok[k]).map_values(|k: int| params[k].name@)
}

/// The names that a batch update reports are those of the requests that
/// succeeded, in request order: a filter of the requests by their outcome.
pub proof fn lemma_succeeded_names_filter(params: Seq<UpdateParams>, ok: Seq<bool>)
    ensures
        succeeded_names(params, ok) == succeeded_by_filter(params, ok),
    decreases params.len(),
{
    let n = params.len();
    let pred = |k: int| ok[k];
    let g = |k: int| params[k].name@;
    if n == 0 {
        reveal(Seq::filter);
        assert(Seq::new(0, |k: int| k).filter(pred) =~= Seq::<int>::empty());
        assert(succeeded_by_filter(params, ok) =~= Seq::<Seq<char>>::empty());
    } else {
        let rest = params.drop_last();
        lemma_succeeded_names_filter(rest, ok);
        let ids = Seq::new(n, |k: int| k);
        let ids1 = Seq::new((n - 1) as nat, |k: int| k);
        assert(ids.drop_last() =~= ids1);
        let f1 = ids1.filter(pred);
        let g1 = |k: int| rest[k].name@;
        assert forall|j: int| 0 <= j < f1.len() implies f1.map_values(g1)[j] == f1.map_values(g)[j] by {
            assert(f1.contains(f1[j]));
            ids1.lemma_filter_contains_rev(pred, f1[j]);
            assert(0 <= f1[j] < n - 1);
        }
        assert(f1.map_values(g1) =~= f1.map_values(g));
        reveal(Seq::filter);
        assert(ids.filter(pred) == if pred(ids.last()) {
            ids.drop_last().filter(pred).push(ids.last())
        } else {
            ids.drop_last().filter(pred)
        });
        if ok[n - 1] {
            assert(ids.filter(pred) == f1.push(n - 1));
            assert(f1.push(n - 1).map_values(g) =~= f1.map_values(g).push(params[n - 1].name@));
        } else {
            assert(ids.filter(pred) == f1);
        }
    }
}

/// The names of the dependencies whose update succeeded, in request order.
pub fn collect_updated(params: &Vec<UpdateParams>, ok: &Vec<bool>) -> (r: Vec<String>)
    requires
        ok.len() == params.len(),
    ensures
        str_views(r@) == succeeded_names(params@, ok@),
{
    let mut names: Vec<String> = Vec::new();
    let mut i: usize = 0;
    assert(params@.take(0) =~= Seq::<UpdateParams>::empty());
    while i < params.len()
        invariant
            i <= params.len(),
            ok.len() == params.len(),
            str_views(names@) == succeeded_names(params@.take(i as int), ok@),
        decreases params.len() - i,
    {
        let ghost before = names@;
        let ghost t = params@.take(i + 1);
        assert(t.drop_last() =~= params@.take(i as int));
        if ok[i] {
            names.push(params[i].name.clone());
            assert(str_views(names@) =~= str_views(before).push(params@[i as int].name@));
        }
        i = i + 1;
    }
    assert(params@.take(params.len() as int) =~= params@);
    names
}

/// Whether a dependency was among those updated.
pub fn was_updated(names: &Vec<String>, name: &String) -> (r: bool)
    ensures
        r == str_views(names@).contains(name@),
{
    contains_string(names, name)
}

/// The steps of an update request: a dependency that moves between
/// dependencies and dev dependencies is removed from where it is, then
/// installed on the other side.
#[derive(Debug)]
pub struct UpdatePlan {
    pub remove: Option<RemoveParams>,
    pub install: UpdateParams,
}

/// What an update request installs: the dependency at the version, on the
/// other side when its type changes.
pub open spec fn install_params(p: UpdateParams) -> UpdateParams {
    UpdateParams {
        is_dev: if p.is_change == Some(true) {
            !p.is_dev
        } else {
            p.is_dev
        },
        ..p
    }
}

/// What an update request removes first: the dependency from where it is,
/// when its type changes.
pub open spec fn remove_params(p: UpdateParams) -> Option<RemoveParams> {
    if p.is_change == Some(true) {
        Some(RemoveParams { name: p.name, is_dev: p.is_dev })
    } else {
        None
    }
}

/// The steps of an update request.
pub fn plan_update(params: &UpdateParams) -> (r: UpdatePlan)
    ensures
        r.install == install_params(*params),
        r.remove == remove_params(*params),
{
    let change = match params.is_change {
        Some(c) => c,
        None => false,
    };
    let install = UpdateParams {
        name: params.name.clone(),
        version: params.version.clone(),
        is_dev: if change { !params.is_dev } else { params.is_dev },
        is_change: params.is_change,
    };
    if change {
        UpdatePlan { remove: Some(RemoveParams { name: params.name.clone(), is_dev: params.is_dev }), install }
    } else {
        UpdatePlan { remove: None, install }
    }
}

/// The registry address of a package: `registry/name`.
pub fn registry_url(registry: &str, name: &str) -> (r: String)
    ensures
        r@ == registry@ + "/"@ + name@,
{
    concat(concat(registry, "/").as_str(), name)
}

} // verus!
