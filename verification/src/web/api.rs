//! The requests of the dependency interface, and which request each route
//! takes.

use vstd::prelude::*;
use crate::package::package_json::{
    install_params, plan_update, remove_params, QuickInstallParams, RemoveParams, UpdateParams,
};

verus! {

/// A request for the dependency graph of one dependency.
#[derive(Debug)]
pub struct RelationGraphReq {
    pub name: String,
}

/// The parameters of a request of the dependency interface.
#[derive(Debug)]
pub enum ReqParams {
    UpdatePkg(UpdateParams),
    RemovePkg(RemoveParams),
    RelationGraph(RelationGraphReq),
    /// install all dependencies at once
    QuickInstall(QuickInstallParams),
    BatchUpdatePkg(Vec<UpdateParams>),
}

/// The routes of the dependency interface that take parameters.
#[derive(Debug, Clone, Copy, PartialEq, Eq)]
pub enum Route {
    Update,
    Graph,
    Remove,
    QuickInstall,
    BatchUpdate,
}

/// Whether a route serves a request with these parameters; any other
/// parameters are answered "Invalid request parameters".
pub open spec fn serves(route: Route, req: ReqParams) -> bool {
    match route {
        Route::Update => req is UpdatePkg,
        Route::Graph => req is RelationGraph,
        Route::Remove => req is RemovePkg,
        Route::QuickInstall => req is QuickInstall,
        Route::BatchUpdate => req is BatchUpdatePkg,
    }
}

/// The message of the answer to parameters that a route does not serve.
pub open spec fn invalid_request_msg() -> Seq<char> {
    "Invalid request parameters"@
}

impl ReqParams {
    /// Whether `route` serves these parameters.
    pub fn is_for(&self, route: Route) -> (r: bool)
        ensures
            r == serves(route, *self),
    {
        match (route, self) {
            (Route::Update, ReqParams::UpdatePkg(_)) => true,
            (Route::Graph, ReqParams::RelationGraph(_)) => true,
            (Route::Remove, ReqParams::RemovePkg(_)) => true,
            (Route::QuickInstall, ReqParams::QuickInstall(_)) => true,
            (Route::BatchUpdate, ReqParams::BatchUpdatePkg(_)) => true,
            _ => false,
        }
    }
}

/// The error message of a route for parameters it does not serve, `None`
/// when it serves them.
pub fn check_request(route: Route, req: &ReqParams) -> (r: Option<String>)
    ensures
        serves(route, *req) <==> r is None,
        r is Some ==> r->0@ == invalid_request_msg(),
{
    if req.is_for(route) {
        None
    } else {
        Some(crate::text::owned("Invalid request parameters"))
    }
}

/// Where a request that changes the dependencies stands.
#[derive(Debug)]
pub enum DepFlow {
    /// removing a dependency whose type changes, before installing it on the
    /// other side
    Switching(UpdateParams),
    /// installing a dependency at a version
    Installing(UpdateParams),
    /// removing a dependency
    Removing(RemoveParams),
    /// answered
    Done,
}

/// What the service does next for such a request.
#[derive(Debug)]
pub enum DepAction {
    /// run the package manager's remove
    RunRemove(RemoveParams),
    /// run the package manager's install
    RunInstall(UpdateParams),
    /// record the update in the project, tell the clients, answer success
    CommitUpdate(UpdateParams),
    /// record the removal in the project, tell the clients, answer success
    CommitRemove(RemoveParams),
    /// answer with this error
    Fail(String),
}

impl DepFlow {
    /// The first step of an update request: remove first when the
    /// dependency's type changes, else install.
    pub fn start_update(params: UpdateParams) -> (r: (DepFlow, DepAction))
        ensures
            remove_params(params) matches Some(rm) ==> r.0 == DepFlow::Switching(params) && r.1
                == DepAction::RunRemove(rm),
            remove_params(params) is None ==> r.0 == DepFlow::Installing(params) && r.1 == DepAction::RunInstall(
                install_params(params),
            ),
    {
        let plan = plan_update(&params);
        match plan.remove {
            Some(rm) => (DepFlow::Switching(params), DepAction::RunRemove(rm)),
            None => (DepFlow::Installing(params), DepAction::RunInstall(plan.install)),
        }
    }

    /// The first step of a remove request: run the remove.
    pub fn start_remove(params: RemoveParams) -> (r: (DepFlow, DepAction))
        ensures
            r.0 == DepFlow::Removing(params),
            r.1 == DepAction::RunRemove(params),
    {
        let copy = RemoveParams { name: params.name.clone(), is_dev: params.is_dev };
        (DepFlow::Removing(params), DepAction::RunRemove(copy))
    }

    /// The step after the package manager ran, with its outcome: a failure is
    /// answered with its message; after the removal of a switching dependency
    /// comes its install; after the last run the change is recorded.
    pub fn next(self, outcome: Result<(), String>) -> (r: (DepFlow, DepAction))
        requires
            !(self is Done),
        ensures
            outcome matches Err(e) ==> r.0 == DepFlow::Done && r.1 == DepAction::Fail(e),
            outcome is Ok ==> match self {
                DepFlow::Switching(p) => r.0 == DepFlow::Installing(p) && r.1 == DepAction::RunInstall(
                    install_params(p),
                ),
                DepFlow::Installing(p) => r.0 == DepFlow::Done && r.1 == DepAction::CommitUpdate(p),
                DepFlow::Removing(p) => r.0 == DepFlow::Done && r.1 == DepAction::CommitRemove(p),
                DepFlow::Done => false,
            },
    {
        match outcome {
            Err(e) => (DepFlow::Done, DepAction::Fail(e)),
            Ok(()) => match self {
                DepFlow::Switching(p) => {
                    let plan = plan_update(&p);
                    (DepFlow::Installing(p), DepAction::RunInstall(plan.install))
                },
                DepFlow::Installing(p) => (DepFlow::Done, DepAction::CommitUpdate(p)),
                DepFlow::Removing(p) => (DepFlow::Done, DepAction::CommitRemove(p)),
                DepFlow::Done => (DepFlow::Done, DepAction::Fail(crate::text::owned("Invalid request parameters"))),
            },
        }
    }
}

} // verus!
