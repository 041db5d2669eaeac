//! The Project gRPC service, backed by the Switchboard catalog: how its
//! requests become catalog calls and how answers go back on the wire.
use vstd::prelude::*;
use crate::text::owned;
use crate::json::JsonValue;
use crate::model::error::{SwitchboardError, code_name};
use crate::model::project::{ProjectSummary, definition_for_create, definition_for_create_spec};
use crate::grpc::agent::{Code, Status};
use crate::grpc::workspace::absent_if_empty;

verus! {

/// The Project service.
#[derive(Debug, Default, Clone, Copy)]
pub struct ProjectServiceImpl;

impl ProjectServiceImpl {
    pub fn new() -> (r: Self) {
        ProjectServiceImpl
    }
}

/// Health check of an agent template.
#[derive(Debug, Clone, PartialEq, Eq)]
pub struct HealthCheckConfig {
    pub path: String,
    pub interval_ms: i32,
    pub timeout_ms: i32,
    pub retries: i32,
}

/// An agent a project can run.
#[derive(Debug, Clone, PartialEq, Eq)]
pub struct AgentTemplate {
    pub name: String,
    pub command: String,
    pub port_env: String,
    pub health_check: Option<HealthCheckConfig>,
    pub env: Vec<(String, String)>,
    pub capabilities: Vec<String>,
}

/// Context files bundled for a project's agents.
#[derive(Debug, Clone, PartialEq, Eq)]
pub struct ProjectContext {
    pub files: Vec<String>,
    pub repo_includes: Vec<String>,
    pub max_bytes: u64,
}

/// A project on the wire.
#[derive(Debug, Clone, PartialEq, Eq)]
pub struct Project {
    pub name: String,
    pub repo: String,
    pub branch: String,
    pub agents: Vec<AgentTemplate>,
    pub context: Option<ProjectContext>,
}

/// Request to register a project.
#[derive(Debug, Clone, PartialEq, Eq)]
pub struct RegisterProjectRequest {
    pub name: String,
    pub repo: String,
    pub branch: String,
    pub agents: Vec<AgentTemplate>,
}

/// Request to unregister a project.
#[derive(Debug, Clone, PartialEq, Eq)]
pub struct UnregisterProjectRequest {
    pub name: String,
}

/// A listed catalog entry on the wire: its id as the name, nothing else.
pub fn listed_project(p: ProjectSummary) -> (r: Project)
    ensures
        r.name == p.project_id,
        r.repo@.len() == 0,
        r.branch@.len() == 0,
        r.agents@.len() == 0,
        r.context is None,
{
    proof { reveal_strlit(""); }
    Project { name: p.project_id, repo: owned(""), branch: owned(""), agents: Vec::new(), context: None }
}

fn text_opt(s: &String) -> (r: Option<&str>)
    ensures
        match r { Some(t) => Some(t@), None => None::<Seq<char>> } == absent_if_empty(s@),
{
    if s.unicode_len() == 0 { None } else { Some(s.as_str()) }
}

/// The catalog definition a registration creates: the name, and the repo
/// and branch where given.
pub fn register_definition(req: &RegisterProjectRequest) -> (r: JsonValue)
    ensures
        r@ == definition_for_create_spec(req.name@, None, absent_if_empty(req.repo@), absent_if_empty(req.branch@), None),
{
    definition_for_create(req.name.as_str(), None, text_opt(&req.repo), text_opt(&req.branch), None)
}

/// The reply to a registration: the catalog's id for it, with the request's
/// repo, branch and agents.
pub fn registered_project(req: RegisterProjectRequest, created: ProjectSummary) -> (r: Project)
    ensures
        r.name == created.project_id,
        r.repo == req.repo,
        r.branch == req.branch,
        r.agents == req.agents,
        r.context is None,
{
    Project { name: created.project_id, repo: req.repo, branch: req.branch, agents: req.agents, context: None }
}

/// The calls of the Project service that reach the catalog.
#[derive(Debug, Clone, Copy, PartialEq, Eq, Structural)]
pub enum ProjectCall {
    List,
    Register,
    Lookup,
    Delete,
}

/// The code each call refuses with when the catalog fails.
pub open spec fn project_failure_code(call: ProjectCall) -> Code {
    match call {
        ProjectCall::List => Code::Unavailable,
        ProjectCall::Register => Code::InvalidArgument,
        ProjectCall::Lookup => Code::NotFound,
        ProjectCall::Delete => Code::FailedPrecondition,
    }
}

/// The refusal of a call whose catalog request failed.
pub fn project_call_failure(call: ProjectCall, e: &SwitchboardError) -> (r: Status)
    ensures
        r.code == project_failure_code(call),
        r.message@ == code_name(e.code) + ": "@ + e.message@,
{
    let code = match call {
        ProjectCall::List => Code::Unavailable,
        ProjectCall::Register => Code::InvalidArgument,
        ProjectCall::Lookup => Code::NotFound,
        ProjectCall::Delete => Code::FailedPrecondition,
    };
    Status { code, message: e.to_string() }
}

} // verus!
