//! ARP v1 wire messages, as plain data. Enumerations carry their wire numbers
//! in declaration order, the unspecified value first.
use vstd::prelude::*;

verus! {

/// Seconds and nanoseconds since the Unix epoch.
#[derive(Debug, Clone, Copy, PartialEq, Eq, Structural)]
pub struct Timestamp {
    pub seconds: i64,
    pub nanos: i32,
}

/// Agent lifecycle status on the wire.
#[derive(Debug, Clone, Copy, PartialEq, Eq, Structural)]
pub enum AgentStatus {
    Unspecified,
    Starting,
    Ready,
    Busy,
    Error,
    Stopping,
    Stopped,
}

impl AgentStatus {
    /// Wire number.
    pub fn value(self) -> (r: i32)
        ensures
            r == agent_status_number(self),
    {
        match self {
            AgentStatus::Unspecified => 0,
            AgentStatus::Starting => 1,
            AgentStatus::Ready => 2,
            AgentStatus::Busy => 3,
            AgentStatus::Error => 4,
            AgentStatus::Stopping => 5,
            AgentStatus::Stopped => 6,
        }
    }
}

pub open spec fn agent_status_number(s: AgentStatus) -> i32 {
    match s {
        AgentStatus::Unspecified => 0,
        AgentStatus::Starting => 1,
        AgentStatus::Ready => 2,
        AgentStatus::Busy => 3,
        AgentStatus::Error => 4,
        AgentStatus::Stopping => 5,
        AgentStatus::Stopped => 6,
    }
}

/// WorkSession lifecycle state on the wire.
#[derive(Debug, Clone, Copy, PartialEq, Eq, Structural)]
pub enum WorkSessionState {
    Unspecified,
    Proposed,
    Open,
    Paused,
    Closed,
    Aborted,
}

pub open spec fn work_session_state_number(s: WorkSessionState) -> i32 {
    match s {
        WorkSessionState::Unspecified => 0,
        WorkSessionState::Proposed => 1,
        WorkSessionState::Open => 2,
        WorkSessionState::Paused => 3,
        WorkSessionState::Closed => 4,
        WorkSessionState::Aborted => 5,
    }
}

impl WorkSessionState {
    /// Wire number.
    pub fn value(self) -> (r: i32)
        ensures
            r == work_session_state_number(self),
    {
        match self {
            WorkSessionState::Unspecified => 0,
            WorkSessionState::Proposed => 1,
            WorkSessionState::Open => 2,
            WorkSessionState::Paused => 3,
            WorkSessionState::Closed => 4,
            WorkSessionState::Aborted => 5,
        }
    }
}

/// Discovery payload status of a work session.
#[derive(Debug, Clone, Copy, PartialEq, Eq, Structural)]
pub enum WorkspaceStatus {
    Unspecified,
    Active,
    Inactive,
}

impl WorkspaceStatus {
    /// Wire number.
    pub fn value(self) -> (r: i32)
        ensures
            r == match self {
                WorkspaceStatus::Unspecified => 0i32,
                WorkspaceStatus::Active => 1i32,
                WorkspaceStatus::Inactive => 2i32,
            },
    {
        match self {
            WorkspaceStatus::Unspecified => 0,
            WorkspaceStatus::Active => 1,
            WorkspaceStatus::Inactive => 2,
        }
    }
}

/// Token permission level on the wire.
#[derive(Debug, Clone, Copy, PartialEq, Eq, Structural)]
pub enum Permission {
    Unspecified,
    Session,
    Project,
    Admin,
}

/// A wire number that names no variant.
#[derive(Debug, Clone, Copy, PartialEq, Eq, Structural)]
pub struct UnknownEnumValue(pub i32);

pub open spec fn permission_of_number(v: i32) -> Option<Permission> {
    if v == 0 {
        Some(Permission::Unspecified)
    } else if v == 1 {
        Some(Permission::Session)
    } else if v == 2 {
        Some(Permission::Project)
    } else if v == 3 {
        Some(Permission::Admin)
    } else {
        None
    }
}

pub open spec fn permission_number(p: Permission) -> i32 {
    match p {
        Permission::Unspecified => 0,
        Permission::Session => 1,
        Permission::Project => 2,
        Permission::Admin => 3,
    }
}

impl Permission {
    /// Wire number.
    pub fn value(self) -> (r: i32)
        ensures
            r == permission_number(self),
    {
        match self {
            Permission::Unspecified => 0,
            Permission::Session => 1,
            Permission::Project => 2,
            Permission::Admin => 3,
        }
    }

    /// The variant with wire number `v`.
    pub fn try_from(v: i32) -> (r: Result<Permission, UnknownEnumValue>)
        ensures
            match r {
                Ok(p) => permission_of_number(v) == Some(p),
                Err(e) => permission_of_number(v) is None && e.0 == v,
            },
    {
        if v == 0 {
            Ok(Permission::Unspecified)
        } else if v == 1 {
            Ok(Permission::Session)
        } else if v == 2 {
            Ok(Permission::Project)
        } else if v == 3 {
            Ok(Permission::Admin)
        } else {
            Err(UnknownEnumValue(v))
        }
    }
}

/// Which agents a discovery request reaches.
#[derive(Debug, Clone, Copy, PartialEq, Eq, Structural)]
pub enum DiscoveryScope {
    Unspecified,
    Local,
    Network,
}

impl DiscoveryScope {
    /// The variant with wire number `v`.
    pub fn try_from(v: i32) -> (r: Result<DiscoveryScope, UnknownEnumValue>)
        ensures
            match r {
                Ok(s) => (v == 0 && s == DiscoveryScope::Unspecified) || (v == 1 && s == DiscoveryScope::Local)
                    || (v == 2 && s == DiscoveryScope::Network),
                Err(e) => (v < 0 || v > 2) && e.0 == v,
            },
    {
        if v == 0 {
            Ok(DiscoveryScope::Unspecified)
        } else if v == 1 {
            Ok(DiscoveryScope::Local)
        } else if v == 2 {
            Ok(DiscoveryScope::Network)
        } else {
            Err(UnknownEnumValue(v))
        }
    }
}

/// Project scope on the wire.
#[derive(Debug, Clone, PartialEq, Eq)]
pub struct Scope {
    pub global: bool,
    pub projects: Vec<String>,
}

/// An issued token on the wire.
#[derive(Debug, Clone, PartialEq, Eq)]
pub struct Token {
    pub id: String,
    pub subject: String,
    pub scope: Option<Scope>,
    pub permission: i32,
    pub session_id: String,
    pub issued_at: Option<Timestamp>,
    pub expires_at: Option<Timestamp>,
    pub parent_token_id: String,
}

/// Request for a new token.
#[derive(Debug, Clone, PartialEq, Eq)]
pub struct CreateTokenRequest {
    pub subject: String,
    pub scope: Option<Scope>,
    pub permission: i32,
    pub expires_in_seconds: i64,
}

/// A new token and its bearer text.
#[derive(Debug, Clone, PartialEq, Eq)]
pub struct CreateTokenResponse {
    pub token: Option<Token>,
    pub bearer_token: String,
}

/// A running agent on the wire.
#[derive(Debug, Clone, PartialEq, Eq)]
pub struct AgentInstance {
    pub id: String,
    pub template: String,
    pub workspace: String,
    pub status: i32,
    pub port: i32,
    pub direct_url: String,
    pub proxy_url: String,
    pub pid: i32,
    pub context_id: String,
    pub token_id: String,
    pub session_id: String,
    pub spawned_by: String,
    pub started_at: Option<Timestamp>,
}

/// Discovery payload for one work session.
#[derive(Debug, Clone, PartialEq, Eq)]
pub struct Workspace {
    pub name: String,
    pub project: String,
    pub dir: String,
    pub status: i32,
    pub agents: Vec<AgentInstance>,
    pub created_at: Option<Timestamp>,
}

/// A work session on the wire.
#[derive(Debug, Clone, PartialEq, Eq)]
pub struct WorkSession {
    pub work_session_id: String,
    pub project_id: String,
    pub work_profile_id: String,
    pub project_revision: String,
    pub project_snapshot_id: String,
    pub state: i32,
    pub display_name: String,
    pub workspace_path: String,
    pub realization_status: String,
    pub created_at: Option<Timestamp>,
}

/// Request to start an agent in a work session.
#[derive(Debug, Clone, PartialEq, Eq)]
pub struct SpawnAgentRequest {
    pub workspace: String,
    pub template: String,
    pub name: String,
    /// Extra environment, one entry per variable.
    pub env: Vec<(String, String)>,
}

/// Filters of an agent listing; empty text and status 0 filter nothing.
#[derive(Debug, Clone, PartialEq, Eq)]
pub struct ListAgentsRequest {
    pub workspace: String,
    pub status: i32,
    pub template: String,
}

/// Request for one agent's status.
#[derive(Debug, Clone, PartialEq, Eq)]
pub struct GetAgentStatusRequest {
    pub agent_id: String,
}

/// A message for an agent.
#[derive(Debug, Clone, PartialEq, Eq)]
pub struct SendAgentMessageRequest {
    pub agent_id: String,
    pub message: String,
    pub context_id: String,
    pub blocking: bool,
}

/// A task for an agent.
#[derive(Debug, Clone, PartialEq, Eq)]
pub struct CreateAgentTaskRequest {
    pub agent_id: String,
    pub message: String,
    pub context_id: String,
}

/// Request for the status of an agent's task.
#[derive(Debug, Clone, PartialEq, Eq)]
pub struct GetAgentTaskStatusRequest {
    pub agent_id: String,
    pub task_id: String,
    pub history_length: i32,
}

/// Request to stop an agent.
#[derive(Debug, Clone, PartialEq, Eq)]
pub struct StopAgentRequest {
    pub agent_id: String,
    pub grace_period_ms: i32,
}

/// Request to restart an agent.
#[derive(Debug, Clone, PartialEq, Eq)]
pub struct RestartAgentRequest {
    pub agent_id: String,
}

} // verus!
