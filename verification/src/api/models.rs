//! Records exchanged with the host's REST API.
use vstd::prelude::*;
use crate::text::{concat, owned};
use crate::decimal::{decimal, u64_to_decimal};

verus! {

/// A WorkSession as the client shows it.
#[derive(Debug, Clone)]
pub struct WorkSessionInfo {
    pub work_session_id: String,
    pub project_id: Option<String>,
    pub work_profile_id: Option<String>,
    pub state: String,
    pub project_revision: Option<String>,
    pub project_snapshot_id: Option<String>,
    pub display_name: Option<String>,
    pub dir: Option<String>,
    pub realization_status: Option<String>,
    pub headless: bool,
}

/// A WorkProfile as the client shows it.
#[derive(Debug, Clone)]
pub struct WorkProfileInfo {
    pub work_profile_id: String,
    pub display_name: Option<String>,
    pub description: Option<String>,
}

/// A Project as the client lists it.
#[derive(Debug, Clone)]
pub struct ProjectInfo {
    pub project_id: String,
    pub title: String,
    pub description: Option<String>,
    pub revision: Option<String>,
    pub source_revision: Option<String>,
}

/// A Project with its definition.
#[derive(Debug, Clone)]
pub struct ProjectDetail {
    pub project_id: String,
    pub revision: String,
    pub source_revision: String,
    /// JSON text of the definition object.
    pub definition_json: String,
}

/// Request to create a WorkSession.
#[derive(Debug, Clone)]
pub struct CreateWorkSessionReq {
    pub work_session_id: String,
    pub project_id: String,
    /// Empty means omitted (the exact ID `default` is used).
    pub work_profile_id: String,
    pub display_name: String,
    pub headless: bool,
}

/// Request to create a Project.
#[derive(Debug, Clone)]
pub struct CreateProjectReq {
    pub project_id: String,
    pub description: String,
    pub repo: String,
    pub branch: String,
}

/// Where the host listens and the token it accepts.
#[derive(Debug, Clone)]
pub struct ServerConnection {
    pub host: String,
    pub port: u16,
    pub token: String,
}

/// Why a request failed.
#[derive(Debug)]
pub enum ApiError {
    Network { message: String },
    Server { status: u16, message: String },
    Parse { message: String },
    AuthFailed,
}

/// Display text of an error.
pub open spec fn api_error_text(e: ApiError) -> Seq<char> {
    match e {
        ApiError::Network { message } => "Network error: "@ + message@,
        ApiError::Server { status, message } => "Server error ("@ + decimal(status as nat) + "): "@ + message@,
        ApiError::Parse { message } => "Parse error: "@ + message@,
        ApiError::AuthFailed => "Authentication failed"@,
    }
}

impl ApiError {
    /// Display text.
    pub fn to_string(&self) -> (r: String)
        ensures
            r@ == api_error_text(*self),
    {
        match self {
            ApiError::Network { message } => concat("Network error: ", message.as_str()),
            ApiError::Server { status, message } => {
                let n = u64_to_decimal(*status as u64);
                let a = concat("Server error (", n.as_str());
                let b = concat(a.as_str(), "): ");
                concat(b.as_str(), message.as_str())
            },
            ApiError::Parse { message } => concat("Parse error: ", message.as_str()),
            ApiError::AuthFailed => owned("Authentication failed"),
        }
    }
}

} // verus!
