//! The WorkSession gRPC service: how its requests become service calls and
//! how the service's answers and refusals go back on the wire.
use vstd::prelude::*;
use crate::text::owned;
use crate::model::error::{SwitchboardError, code_name, opt_view};
use crate::model::lifecycle::WorkSessionState;
use crate::model::work_session::{CreateWorkSessionRequest as ServiceCreate, RealizationOptions};
use crate::model::work_profile::WorkProfile;
use crate::grpc::agent::{Code, Status};

verus! {

/// The WorkSession service.
#[derive(Debug, Default, Clone, Copy)]
pub struct WorkSessionServiceImpl;

impl WorkSessionServiceImpl {
    pub fn new() -> (r: Self) {
        WorkSessionServiceImpl
    }
}

/// Request to create a work session.
#[derive(Debug, Clone, PartialEq, Eq)]
pub struct CreateWorkSessionRequest {
    pub work_session_id: String,
    pub project_id: String,
    pub work_profile_id: String,
    pub display_name: String,
    pub headless: bool,
}

/// Request to list work sessions, optionally of one project.
#[derive(Debug, Clone, PartialEq, Eq)]
pub struct ListWorkSessionsRequest {
    pub project_id: String,
}

/// Request to move a work session to another state (a wire state number).
#[derive(Debug, Clone, PartialEq, Eq)]
pub struct TransitionWorkSessionRequest {
    pub work_session_id: String,
    pub state: i32,
}

/// Request to destroy a work session.
#[derive(Debug, Clone, PartialEq, Eq)]
pub struct DestroyWorkSessionRequest {
    pub work_session_id: String,
    pub keep_worktree: bool,
}

/// A work profile on the wire.
#[derive(Debug, Clone, PartialEq, Eq)]
pub struct WorkProfileMessage {
    pub work_profile_id: String,
    pub display_name: String,
    pub description: String,
}

/// The state a wire number names; `0` and unknown numbers name none.
pub open spec fn state_of_number(s: i32) -> Option<WorkSessionState> {
    if s == 1 {
        Some(WorkSessionState::Proposed)
    } else if s == 2 {
        Some(WorkSessionState::Open)
    } else if s == 3 {
        Some(WorkSessionState::Paused)
    } else if s == 4 {
        Some(WorkSessionState::Closed)
    } else if s == 5 {
        Some(WorkSessionState::Aborted)
    } else {
        None
    }
}

/// The state a transition asks for; any other number is an invalid argument.
pub fn map_proto_state(s: i32) -> (r: Result<WorkSessionState, Status>)
    ensures
        match state_of_number(s) {
            Some(st) => r matches Ok(x) && x == st,
            None => r matches Err(e) && e.code == Code::InvalidArgument
                && e.message@ == "invalid state: "@ + crate::decimal::int_decimal(s as int),
        },
{
    if s == 1 {
        Ok(WorkSessionState::Proposed)
    } else if s == 2 {
        Ok(WorkSessionState::Open)
    } else if s == 3 {
        Ok(WorkSessionState::Paused)
    } else if s == 4 {
        Ok(WorkSessionState::Closed)
    } else if s == 5 {
        Ok(WorkSessionState::Aborted)
    } else {
        let n = crate::decimal::i64_to_decimal(s as i64);
        Err(Status { code: Code::InvalidArgument, message: crate::text::concat("invalid state: ", n.as_str()) })
    }
}

/// Empty wire text stands for an absent value.
pub open spec fn absent_if_empty(s: Seq<char>) -> Option<Seq<char>> {
    if s.len() == 0 { None } else { Some(s) }
}

fn optional(s: String) -> (r: Option<String>)
    ensures
        opt_view(r) == absent_if_empty(s@),
{
    if s.unicode_len() == 0 { None } else { Some(s) }
}

/// The service request for a wire request: empty profile and display name
/// are omitted, and a headless request realizes no tag, apps or window
/// manager.
pub fn create_request(req: CreateWorkSessionRequest) -> (r: ServiceCreate)
    ensures
        r.work_session_id == req.work_session_id,
        r.project_id == req.project_id,
        opt_view(r.work_profile_id) == absent_if_empty(req.work_profile_id@),
        opt_view(r.display_name) == absent_if_empty(req.display_name@),
        r.realization == (RealizationOptions {
            create_tag: !req.headless,
            launch_apps: !req.headless,
            headless: req.headless,
            no_wm: req.headless,
        }),
{
    let h = req.headless;
    ServiceCreate {
        work_session_id: req.work_session_id,
        project_id: req.project_id,
        work_profile_id: optional(req.work_profile_id),
        display_name: optional(req.display_name),
        realization: RealizationOptions { create_tag: !h, launch_apps: !h, headless: h, no_wm: h },
    }
}

/// The project a listing is limited to: none when the request names none.
pub fn list_filter(req: &ListWorkSessionsRequest) -> (r: Option<&str>)
    ensures
        match r {
            Some(p) => req.project_id@.len() > 0 && p@ == req.project_id@,
            None => req.project_id@.len() == 0,
        },
{
    if req.project_id.unicode_len() == 0 { None } else { Some(req.project_id.as_str()) }
}

/// A service error as a refusal with `code`, carrying the error's text.
pub fn service_status(code: Code, e: &SwitchboardError) -> (r: Status)
    ensures
        r.code == code,
        r.message@ == code_name(e.code) + ": "@ + e.message@,
{
    Status { code, message: e.to_string() }
}

/// The code each call refuses with when the service fails: listing calls
/// report the service unavailable, a lookup reports the session not found,
/// and changes report a failed precondition.
pub open spec fn failure_code(call: SessionCall) -> Code {
    match call {
        SessionCall::Create | SessionCall::Transition | SessionCall::Destroy => Code::FailedPrecondition,
        SessionCall::List | SessionCall::ListProfiles => Code::Unavailable,
        SessionCall::Get => Code::NotFound,
    }
}

/// The calls of the WorkSession service.
#[derive(Debug, Clone, Copy, PartialEq, Eq, Structural)]
pub enum SessionCall {
    Create,
    List,
    Get,
    Transition,
    Destroy,
    ListProfiles,
}

/// The refusal of a call whose service request failed.
pub fn call_failure(call: SessionCall, e: &SwitchboardError) -> (r: Status)
    ensures
        r.code == failure_code(call),
        r.message@ == code_name(e.code) + ": "@ + e.message@,
{
    let code = match call {
        SessionCall::Create | SessionCall::Transition | SessionCall::Destroy => Code::FailedPrecondition,
        SessionCall::List | SessionCall::ListProfiles => Code::Unavailable,
        SessionCall::Get => Code::NotFound,
    };
    service_status(code, e)
}

/// A profile on the wire: absent texts become empty.
pub fn work_profile_message(p: WorkProfile) -> (r: WorkProfileMessage)
    ensures
        r.work_profile_id == p.work_profile_id,
        r.display_name@ == match opt_view(p.display_name) { Some(d) => d, None => Seq::empty() },
        r.description@ == match opt_view(p.description) { Some(d) => d, None => Seq::empty() },
{
    proof { reveal_strlit(""); }
    WorkProfileMessage {
        work_profile_id: p.work_profile_id,
        display_name: match p.display_name { Some(d) => d, None => owned("") },
        description: match p.description { Some(d) => d, None => owned("") },
    }
}

} // verus!
