//! Core of a window-manager rule daemon: condition matching, rule
//! evaluation planning, configuration parsing, gateway output parsing,
//! and the shared service state with its refresh protocol.
use vstd::prelude::*;

pub mod aerospace;
pub mod config;
pub mod rules;
pub mod text;

use crate::aerospace::{view_windows, WindowInfo, WindowInfoView};
use crate::config::{Config, RuleView};
use crate::text::view_strings;

verus! {

/// One request of the request/response protocol; a connection carries
/// exactly one.
#[derive(Debug, PartialEq)]
pub enum Request {
    GetWindows,
    GetConfig,
    Reload,
    EvaluateRules { workspace: String },
}

pub ghost enum RequestView {
    GetWindows,
    GetConfig,
    Reload,
    EvaluateRules { workspace: Seq<char> },
}

impl View for Request {
    type V = RequestView;

    open spec fn view(&self) -> RequestView {
        match self {
            Request::GetWindows => RequestView::GetWindows,
            Request::GetConfig => RequestView::GetConfig,
            Request::Reload => RequestView::Reload,
            Request::EvaluateRules { workspace } => RequestView::EvaluateRules {
                workspace: workspace@,
            },
        }
    }
}

/// One response of the request/response protocol.
#[derive(Debug, PartialEq)]
pub enum Response {
    Windows(Vec<WindowInfo>),
    Config(Config),
    Success,
    Error(String),
    RulesEvaluated { actions_performed: Vec<String> },
}

pub ghost enum ResponseView {
    Windows(Seq<WindowInfoView>),
    Config(Seq<RuleView>),
    Success,
    Error(Seq<char>),
    RulesEvaluated { actions_performed: Seq<Seq<char>> },
}

impl View for Response {
    type V = ResponseView;

    open spec fn view(&self) -> ResponseView {
        match self {
            Response::Windows(w) => ResponseView::Windows(view_windows(w@)),
            Response::Config(c) => ResponseView::Config(c@),
            Response::Success => ResponseView::Success,
            Response::Error(e) => ResponseView::Error(e@),
            Response::RulesEvaluated { actions_performed } => ResponseView::RulesEvaluated {
                actions_performed: view_strings(actions_performed@),
            },
        }
    }
}

/// The one shared snapshot of the service: the latest window records, the
/// loaded rules (absent until a load has succeeded), and the configured
/// path. The rules are always either absent or a completely parsed set.
#[derive(Debug)]
pub struct ServiceState {
    pub windows: Vec<WindowInfo>,
    pub config: Option<Config>,
    pub config_path: Option<String>,
}

pub ghost struct ServiceStateView {
    pub windows: Seq<WindowInfoView>,
    pub config: Option<Seq<RuleView>>,
    pub config_path: Option<Seq<char>>,
}

/// The view of an optionally loaded rule set.
pub open spec fn view_config_opt(c: Option<Config>) -> Option<Seq<RuleView>> {
    match c {
        Some(c) => Some(c@),
        None => None,
    }
}

/// The view of an optionally known path.
pub open spec fn view_path_opt(p: Option<String>) -> Option<Seq<char>> {
    match p {
        Some(p) => Some(p@),
        None => None,
    }
}

impl View for ServiceState {
    type V = ServiceStateView;

    open spec fn view(&self) -> ServiceStateView {
        ServiceStateView {
            windows: view_windows(self.windows@),
            config: view_config_opt(self.config),
            config_path: view_path_opt(self.config_path),
        }
    }
}

impl ServiceState {
    /// The state at startup: no windows, no rules loaded yet, and the
    /// explicitly supplied configuration path, if any.
    pub fn new(config_path: Option<String>) -> (r: ServiceState)
        ensures
            r@.windows == Seq::<WindowInfoView>::empty(),
            r@.config is None,
            r@.config_path == view_path_opt(config_path),
    {
        let state = ServiceState { windows: Vec::new(), config: None, config_path };
        proof {
            assert(state@.windows =~= Seq::<WindowInfoView>::empty());
        }
        state
    }
}

/// Installs the result of a full refresh. With a fresh window snapshot in
/// hand, windows and rules are both replaced in this one step, under one
/// exclusive borrow, so a reader never sees the new snapshot with the old
/// rules or the reverse. With no snapshot (the gateway query failed), the
/// state stays exactly as it was: stale but consistent.
pub fn full_refresh_step(
    state: &mut ServiceState,
    windows: Option<Vec<WindowInfo>>,
    config: Option<Config>,
)
    ensures
        match windows {
            Some(w) => final(state)@ == (ServiceStateView {
                windows: view_windows(w@),
                config: view_config_opt(config),
                config_path: old(state)@.config_path,
            }),
            None => final(state)@ == old(state)@,
        },
{
    match windows {
        Some(w) => {
            state.windows = w;
            state.config = config;
        },
        None => {},
    }
}

/// Installs the result of a configuration-only refresh: the rules are
/// replaced (or cleared, when the file is gone or invalid); the window
/// snapshot and the path stay.
pub fn config_refresh_step(state: &mut ServiceState, config: Option<Config>)
    ensures
        final(state)@ == (ServiceStateView { config: view_config_opt(config), ..old(state)@ }),
{
    state.config = config;
}

/// What the service does with one decoded request.
#[derive(Debug, PartialEq)]
pub enum DispatchStep {
    /// The response is ready; send it and close.
    Respond(Response),
    /// A full refresh must run, after which the success response is owed.
    FullRefresh,
    /// A fresh window query for this workspace must run, after which the
    /// rules are evaluated against its result.
    QueryWorkspace { workspace: String },
}

pub ghost enum DispatchStepView {
    Respond(ResponseView),
    FullRefresh,
    QueryWorkspace { workspace: Seq<char> },
}

impl View for DispatchStep {
    type V = DispatchStepView;

    open spec fn view(&self) -> DispatchStepView {
        match self {
            DispatchStep::Respond(r) => DispatchStepView::Respond(r@),
            DispatchStep::FullRefresh => DispatchStepView::FullRefresh,
            DispatchStep::QueryWorkspace { workspace } => DispatchStepView::QueryWorkspace {
                workspace: workspace@,
            },
        }
    }
}

/// How one request is decided against the state: window and configuration
/// reads are answered from the snapshot; a reload and an evaluation ask for
/// outside work; a request that needs rules when none were ever loaded is
/// refused with the no-config error, never answered with a default.
pub open spec fn spec_dispatch(req: RequestView, st: ServiceStateView) -> DispatchStepView {
    match req {
        RequestView::GetWindows => DispatchStepView::Respond(ResponseView::Windows(st.windows)),
        RequestView::GetConfig => match st.config {
            Some(rules) => DispatchStepView::Respond(ResponseView::Config(rules)),
            None => DispatchStepView::Respond(ResponseView::Error("no config loaded"@)),
        },
        RequestView::Reload => DispatchStepView::FullRefresh,
        RequestView::EvaluateRules { workspace } => match st.config {
            Some(_) => DispatchStepView::QueryWorkspace { workspace },
            None => DispatchStepView::Respond(ResponseView::Error("no config loaded"@)),
        },
    }
}

fn clone_windows(v: &Vec<WindowInfo>) -> (r: Vec<WindowInfo>)
    ensures
        view_windows(r@) == view_windows(v@),
{
    let mut r: Vec<WindowInfo> = Vec::new();
    let mut i: usize = 0;
    while i < v.len()
        invariant
            r@.len() == i,
            0 <= i <= v@.len(),
            forall|j: int| 0 <= j < i ==> r@[j]@ == v@[j]@,
        decreases v@.len() - i,
    {
        r.push(v[i].clone());
        i += 1;
    }
    proof {
        assert(view_windows(r@) =~= view_windows(v@));
    }
    r
}

/// Decides one request against the current shared state, copying out of the
/// snapshot what the response needs; the caller performs whatever outside
/// work the decision asks for only after releasing the state.
pub fn dispatch_request(req: &Request, state: &ServiceState) -> (r: DispatchStep)
    ensures
        r@ == spec_dispatch(req@, state@),
{
    match req {
        Request::GetWindows => DispatchStep::Respond(
            Response::Windows(clone_windows(&state.windows)),
        ),
        Request::GetConfig => match &state.config {
            Some(c) => DispatchStep::Respond(Response::Config(c.clone())),
            None => DispatchStep::Respond(Response::Error(no_config_error())),
        },
        Request::Reload => DispatchStep::FullRefresh,
        Request::EvaluateRules { workspace } => match &state.config {
            Some(_) => DispatchStep::QueryWorkspace { workspace: workspace.clone() },
            None => DispatchStep::Respond(Response::Error(no_config_error())),
        },
    }
}

fn no_config_error() -> (r: String)
    ensures
        r@ == "no config loaded"@,
{
    let mut s = String::new();
    s.append("no config loaded");
    proof {
        assert(s@ =~= "no config loaded"@);
    }
    s
}

/// The error response for an evaluation whose fresh workspace query could
/// not be served.
pub fn evaluation_failure_response(detail: &str) -> (r: Response)
    ensures
        r@ == ResponseView::Error("rule evaluation failed: "@ + detail@),
{
    let mut s = String::new();
    s.append("rule evaluation failed: ");
    s.append(detail);
    Response::Error(s)
}

} // verus!
