//! WorkSession records and creation requests.
use vstd::prelude::*;
use crate::json::JsonValue;
use crate::model::lifecycle::WorkSessionState;
use crate::model::runtime::{RealizationStatus, WorkSessionRuntime};
use crate::model::error::opt_view;

verus! {

/// Exact WorkProfile ID used when callers omit a profile choice.
pub const DEFAULT_WORK_PROFILE_ID: &'static str = "default";

/// Authoritative WorkSession record (Switchboard).
#[derive(Debug, Clone)]
pub struct WorkSession {
    pub version: String,
    pub work_session_id: String,
    pub display_name: Option<String>,
    pub project_id: Option<String>,
    pub project_snapshot_id: Option<String>,
    pub project_revision: Option<String>,
    pub work_profile_id: Option<String>,
    pub agent_profile_ids: Vec<String>,
    pub state: WorkSessionState,
    pub policy: Option<JsonValue>,
    pub created_at: Option<String>,
    pub updated_at: Option<String>,
    pub closed_at: Option<String>,
}

/// Host-local realization inputs — not WorkSession identity.
#[derive(Debug, Clone, Copy, PartialEq, Eq, Structural)]
pub struct RealizationOptions {
    pub create_tag: bool,
    pub launch_apps: bool,
    pub headless: bool,
    /// When true, skip window-manager operations (CI / headless hosts).
    pub no_wm: bool,
}

impl RealizationOptions {
    pub fn default_options() -> (r: Self)
        ensures
            !r.create_tag && !r.launch_apps && !r.headless && !r.no_wm,
    {
        RealizationOptions { create_tag: false, launch_apps: false, headless: false, no_wm: false }
    }
}

impl Default for RealizationOptions {
    fn default() -> (r: Self)
        ensures
            !r.create_tag && !r.launch_apps && !r.headless && !r.no_wm,
    {
        RealizationOptions::default_options()
    }
}

/// Public creation request shared by CLI/REST/MCP/gRPC/UI.
#[derive(Debug, Clone)]
pub struct CreateWorkSessionRequest {
    pub work_session_id: String,
    pub project_id: String,
    /// Omission resolves only to exact ID `default`.
    pub work_profile_id: Option<String>,
    pub display_name: Option<String>,
    pub realization: RealizationOptions,
}

/// The profile a request resolves to: a non-empty explicit id, else `default`.
pub open spec fn resolved_profile(p: Option<Seq<char>>) -> Seq<char> {
    match p {
        Some(s) => if s.len() > 0 { s } else { "default"@ },
        None => "default"@,
    }
}

impl CreateWorkSessionRequest {
    pub fn resolved_work_profile_id(&self) -> (r: &str)
        ensures
            r@ == resolved_profile(opt_view(self.work_profile_id)),
    {
        match &self.work_profile_id {
            Some(s) => if s.as_str().unicode_len() > 0 { s.as_str() } else { DEFAULT_WORK_PROFILE_ID },
            None => DEFAULT_WORK_PROFILE_ID,
        }
    }
}

/// Creation response with authoritative session + safe local realization status.
#[derive(Debug, Clone)]
pub struct CreateWorkSessionResponse {
    pub work_session: WorkSession,
    pub work_profile_id: String,
    pub project_revision: Option<String>,
    pub project_snapshot_id: Option<String>,
    pub realization_status: RealizationStatus,
    pub runtime: Option<WorkSessionRuntime>,
    pub error: Option<String>,
}

/// Combined view for list/detail APIs (authoritative + safe runtime facts).
#[derive(Debug, Clone)]
pub struct WorkSessionView {
    pub work_session: WorkSession,
    pub runtime: Option<WorkSessionRuntime>,
}

} // verus!
