//! Stable error codes and the structured error returned across boundaries.
use vstd::prelude::*;
use crate::text::{str_eq, owned, concat};
use crate::json::{JsonValue, JsonView, view_get, view_get_str};

verus! {

/// Stable error codes aligned with Switchboard work-model tool errors.
#[derive(Debug, Clone, Copy, PartialEq, Eq, Structural)]
pub enum ErrorCode {
    NotFound,
    AlreadyExists,
    InvalidInput,
    InvalidReference,
    InvalidTransition,
    Conflict,
    Referenced,
    PolicyBroadening,
    Unavailable,
    InternalError,
    LockTimeout,
    MissingDefaultProfile,
    Unauthorized,
    UnsupportedOldState,
}

/// Wire name of a code.
pub open spec fn code_name(c: ErrorCode) -> Seq<char> {
    match c {
        ErrorCode::NotFound => "not_found"@,
        ErrorCode::AlreadyExists => "already_exists"@,
        ErrorCode::InvalidInput => "invalid_input"@,
        ErrorCode::InvalidReference => "invalid_reference"@,
        ErrorCode::InvalidTransition => "invalid_transition"@,
        ErrorCode::Conflict => "conflict"@,
        ErrorCode::Referenced => "referenced"@,
        ErrorCode::PolicyBroadening => "policy_broadening"@,
        ErrorCode::Unavailable => "unavailable"@,
        ErrorCode::InternalError => "internal_error"@,
        ErrorCode::LockTimeout => "lock_timeout"@,
        ErrorCode::MissingDefaultProfile => "missing_default_profile"@,
        ErrorCode::Unauthorized => "unauthorized"@,
        ErrorCode::UnsupportedOldState => "unsupported_old_state"@,
    }
}

/// Code for a wire name, accepting the legacy aliases; unknown names map to
/// `InternalError`.
pub open spec fn parse_code(t: Seq<char>) -> ErrorCode {
    if t == "not_found"@ || t == "project_not_found"@ {
        ErrorCode::NotFound
    } else if t == "already_exists"@ || t == "project_already_exists"@ {
        ErrorCode::AlreadyExists
    } else if t == "invalid_input"@ || t == "invalid_definition"@ {
        ErrorCode::InvalidInput
    } else if t == "invalid_reference"@ {
        ErrorCode::InvalidReference
    } else if t == "invalid_transition"@ {
        ErrorCode::InvalidTransition
    } else if t == "conflict"@ || t == "revision_conflict"@ {
        ErrorCode::Conflict
    } else if t == "referenced"@ {
        ErrorCode::Referenced
    } else if t == "policy_broadening"@ {
        ErrorCode::PolicyBroadening
    } else if t == "unavailable"@ {
        ErrorCode::Unavailable
    } else if t == "lock_timeout"@ {
        ErrorCode::LockTimeout
    } else if t == "missing_default_profile"@ {
        ErrorCode::MissingDefaultProfile
    } else if t == "unauthorized"@ || t == "permission_denied"@ {
        ErrorCode::Unauthorized
    } else if t == "unsupported_old_state"@ {
        ErrorCode::UnsupportedOldState
    } else {
        ErrorCode::InternalError
    }
}

impl ErrorCode {
    pub fn as_str(self) -> (r: &'static str)
        ensures
            r@ == code_name(self),
    {
        match self {
            ErrorCode::NotFound => "not_found",
            ErrorCode::AlreadyExists => "already_exists",
            ErrorCode::InvalidInput => "invalid_input",
            ErrorCode::InvalidReference => "invalid_reference",
            ErrorCode::InvalidTransition => "invalid_transition",
            ErrorCode::Conflict => "conflict",
            ErrorCode::Referenced => "referenced",
            ErrorCode::PolicyBroadening => "policy_broadening",
            ErrorCode::Unavailable => "unavailable",
            ErrorCode::InternalError => "internal_error",
            ErrorCode::LockTimeout => "lock_timeout",
            ErrorCode::MissingDefaultProfile => "missing_default_profile",
            ErrorCode::Unauthorized => "unauthorized",
            ErrorCode::UnsupportedOldState => "unsupported_old_state",
        }
    }

    pub fn parse(s: &str) -> (r: Self)
        ensures
            r == parse_code(s@),
    {
        if str_eq(s, "not_found") || str_eq(s, "project_not_found") {
            ErrorCode::NotFound
        } else if str_eq(s, "already_exists") || str_eq(s, "project_already_exists") {
            ErrorCode::AlreadyExists
        } else if str_eq(s, "invalid_input") || str_eq(s, "invalid_definition") {
            ErrorCode::InvalidInput
        } else if str_eq(s, "invalid_reference") {
            ErrorCode::InvalidReference
        } else if str_eq(s, "invalid_transition") {
            ErrorCode::InvalidTransition
        } else if str_eq(s, "conflict") || str_eq(s, "revision_conflict") {
            ErrorCode::Conflict
        } else if str_eq(s, "referenced") {
            ErrorCode::Referenced
        } else if str_eq(s, "policy_broadening") {
            ErrorCode::PolicyBroadening
        } else if str_eq(s, "unavailable") {
            ErrorCode::Unavailable
        } else if str_eq(s, "lock_timeout") {
            ErrorCode::LockTimeout
        } else if str_eq(s, "missing_default_profile") {
            ErrorCode::MissingDefaultProfile
        } else if str_eq(s, "unauthorized") || str_eq(s, "permission_denied") {
            ErrorCode::Unauthorized
        } else if str_eq(s, "unsupported_old_state") {
            ErrorCode::UnsupportedOldState
        } else {
            ErrorCode::InternalError
        }
    }
}

/// Every code's wire name parses back to that code.
pub proof fn lemma_code_name_roundtrip(c: ErrorCode)
    ensures
        parse_code(code_name(c)) == c,
{
    reveal_strlit("not_found");
    reveal_strlit("project_not_found");
    reveal_strlit("already_exists");
    reveal_strlit("project_already_exists");
    reveal_strlit("invalid_input");
    reveal_strlit("invalid_definition");
    reveal_strlit("invalid_reference");
    reveal_strlit("invalid_transition");
    reveal_strlit("conflict");
    reveal_strlit("revision_conflict");
    reveal_strlit("referenced");
    reveal_strlit("policy_broadening");
    reveal_strlit("unavailable");
    reveal_strlit("lock_timeout");
    reveal_strlit("missing_default_profile");
    reveal_strlit("unauthorized");
    reveal_strlit("permission_denied");
    reveal_strlit("unsupported_old_state");
    reveal_strlit("internal_error");
    assert("not_found"@.len() == 9 && "project_not_found"@.len() == 17);
    assert("already_exists"@.len() == 14 && "project_already_exists"@.len() == 22);
    assert("invalid_input"@.len() == 13 && "invalid_definition"@.len() == 18);
    assert("invalid_reference"@.len() == 17 && "invalid_transition"@.len() == 18);
    assert("conflict"@.len() == 8 && "revision_conflict"@.len() == 17);
    assert("referenced"@.len() == 10 && "policy_broadening"@.len() == 17);
    assert("unavailable"@.len() == 11 && "lock_timeout"@.len() == 12);
    assert("missing_default_profile"@.len() == 23 && "unauthorized"@.len() == 12);
    assert("permission_denied"@.len() == 17 && "unsupported_old_state"@.len() == 21);
    assert("internal_error"@.len() == 14);
    assert("project_not_found"@[1] == 'r' && "invalid_reference"@[0] == 'i');
    assert("revision_conflict"@[0] == 'r' && "policy_broadening"@[1] == 'o');
    assert("permission_denied"@[1] == 'e');
    assert("invalid_definition"@[8] == 'd' && "invalid_transition"@[8] == 't');
    assert("already_exists"@[0] == 'a' && "internal_error"@[0] == 'i');
    assert("lock_timeout"@[0] == 'l' && "unauthorized"@[0] == 'u');
}

/// Model of a `SwitchboardError`.
pub struct ErrorView {
    pub code: ErrorCode,
    pub message: Seq<char>,
    pub operation: Option<Seq<char>>,
    pub entity_kind: Option<Seq<char>>,
    pub entity_id: Option<Seq<char>>,
    pub project_id: Option<Seq<char>>,
    pub work_profile_id: Option<Seq<char>>,
    pub work_session_id: Option<Seq<char>>,
    pub expected: Option<Seq<char>>,
    pub current: Option<Seq<char>>,
    pub cause: Option<Seq<char>>,
}

pub open spec fn opt_view(o: Option<String>) -> Option<Seq<char>> {
    match o {
        Some(s) => Some(s@),
        None => None,
    }
}

/// Structured error returned across CLI/REST/MCP/gRPC/UI boundaries.
#[derive(Debug, Clone)]
pub struct SwitchboardError {
    pub code: ErrorCode,
    pub message: String,
    pub operation: Option<String>,
    pub entity_kind: Option<String>,
    pub entity_id: Option<String>,
    pub project_id: Option<String>,
    pub work_profile_id: Option<String>,
    pub work_session_id: Option<String>,
    pub expected: Option<String>,
    pub current: Option<String>,
    /// Safe human cause (never bearer tokens).
    pub cause: Option<String>,
}

impl View for SwitchboardError {
    type V = ErrorView;

    open spec fn view(&self) -> ErrorView {
        ErrorView {
            code: self.code,
            message: self.message@,
            operation: opt_view(self.operation),
            entity_kind: opt_view(self.entity_kind),
            entity_id: opt_view(self.entity_id),
            project_id: opt_view(self.project_id),
            work_profile_id: opt_view(self.work_profile_id),
            work_session_id: opt_view(self.work_session_id),
            expected: opt_view(self.expected),
            current: opt_view(self.current),
            cause: opt_view(self.cause),
        }
    }
}

/// An error with only a code and a message.
pub open spec fn plain_error(code: ErrorCode, message: Seq<char>) -> ErrorView {
    ErrorView {
        code,
        message,
        operation: None,
        entity_kind: None,
        entity_id: None,
        project_id: None,
        work_profile_id: None,
        work_session_id: None,
        expected: None,
        current: None,
        cause: None,
    }
}

/// `Some(s)` when `s` is present and non-empty.
pub open spec fn nonempty(o: Option<Seq<char>>) -> Option<Seq<char>> {
    match o {
        Some(s) => if s.len() > 0 { Some(s) } else { None },
        None => None,
    }
}

/// `second` when present, otherwise `first`.
pub open spec fn prefer(first: Option<Seq<char>>, second: Option<Seq<char>>) -> Option<Seq<char>> {
    match second {
        Some(s) => Some(s),
        None => first,
    }
}

/// The error object inside a Switchboard body: its `error` member when
/// present, otherwise the body itself.
pub open spec fn error_object(body: JsonView) -> JsonView {
    match view_get(body, "error"@) {
        Some(e) => e,
        None => body,
    }
}

/// What `from_switchboard_body` builds from a body and an operation name.
pub open spec fn error_from_body(body: JsonView, op: Seq<char>) -> ErrorView {
    let err = error_object(body);
    ErrorView {
        code: match view_get_str(err, "code"@) {
            Some(c) => parse_code(c),
            None => ErrorCode::InternalError,
        },
        message: match view_get_str(err, "message"@) {
            Some(m) => m,
            None => "switchboard error"@,
        },
        operation: Some(op),
        entity_kind: view_get_str(err, "entity_kind"@),
        entity_id: view_get_str(err, "entity_id"@),
        project_id: prefer(nonempty(view_get_str(err, "project_id"@)), nonempty(view_get_str(err, "projectId"@))),
        work_profile_id: nonempty(view_get_str(err, "work_profile_id"@)),
        work_session_id: nonempty(view_get_str(err, "work_session_id"@)),
        expected: prefer(view_get_str(err, "expected"@), view_get_str(err, "expectedSourceRevision"@)),
        current: prefer(view_get_str(err, "current"@), view_get_str(err, "currentSourceRevision"@)),
        cause: None,
    }
}

fn nonempty_str(o: Option<String>) -> (r: Option<String>)
    ensures
        opt_view(r) == nonempty(opt_view(o)),
{
    match o {
        Some(s) => if s.as_str().unicode_len() > 0 { Some(s) } else { None },
        None => None,
    }
}

fn prefer_str(first: Option<String>, second: Option<String>) -> (r: Option<String>)
    ensures
        opt_view(r) == prefer(opt_view(first), opt_view(second)),
{
    match second {
        Some(s) => Some(s),
        None => first,
    }
}

impl SwitchboardError {
    /// Display text: `"{code}: {message}"`.
    pub fn to_string(&self) -> (r: String)
        ensures
            r@ == code_name(self.code) + ": "@ + self.message@,
    {
        let a = crate::text::concat(self.code.as_str(), ": ");
        crate::text::concat(a.as_str(), self.message.as_str())
    }

    pub fn new(code: ErrorCode, message: &str) -> (r: Self)
        ensures
            r@ == plain_error(code, message@),
    {
        SwitchboardError {
            code,
            message: owned(message),
            operation: None,
            entity_kind: None,
            entity_id: None,
            project_id: None,
            work_profile_id: None,
            work_session_id: None,
            expected: None,
            current: None,
            cause: None,
        }
    }

    pub fn with_operation(self, op: &str) -> (r: Self)
        ensures
            r@ == (ErrorView { operation: Some(op@), ..self@ }),
    {
        let mut s = self;
        s.operation = Some(owned(op));
        s
    }

    pub fn with_entity(self, kind: &str, id: &str) -> (r: Self)
        ensures
            r@ == (ErrorView { entity_kind: Some(kind@), entity_id: Some(id@), ..self@ }),
    {
        let mut s = self;
        s.entity_kind = Some(owned(kind));
        s.entity_id = Some(owned(id));
        s
    }

    pub fn with_cause(self, cause: &str) -> (r: Self)
        ensures
            r@ == (ErrorView { cause: Some(cause@), ..self@ }),
    {
        let mut s = self;
        s.cause = Some(owned(cause));
        s
    }

    pub fn unavailable(op: &str, cause: &str) -> (r: Self)
        ensures
            r@ == (ErrorView {
                operation: Some(op@),
                cause: Some(cause@),
                ..plain_error(ErrorCode::Unavailable, "Switchboard unavailable for "@ + op@)
            }),
    {
        let msg = concat("Switchboard unavailable for ", op);
        SwitchboardError::new(ErrorCode::Unavailable, msg.as_str()).with_operation(op).with_cause(cause)
    }

    pub fn missing_default() -> (r: Self)
        ensures
            r@ == (ErrorView {
                entity_kind: Some("work_profile"@),
                entity_id: Some("default"@),
                operation: Some("resolve_default_work_profile"@),
                ..plain_error(
                    ErrorCode::MissingDefaultProfile,
                    "WorkProfile with work_profile_id exactly \"default\" is missing in Switchboard; create it or pass an explicit work_profile_id"@,
                )
            }),
    {
        SwitchboardError::new(
            ErrorCode::MissingDefaultProfile,
            "WorkProfile with work_profile_id exactly \"default\" is missing in Switchboard; create it or pass an explicit work_profile_id",
        ).with_entity("work_profile", "default").with_operation("resolve_default_work_profile")
    }

    /// Decode a Switchboard error body (either `{"error": {...}}` or the
    /// error object itself).
    pub fn from_switchboard_body(body: &JsonValue, operation: &str) -> (r: Self)
        ensures
            r@ == error_from_body(body@, operation@),
    {
        let err: &JsonValue = match body.get("error") {
            Some(e) => e,
            None => body,
        };
        let code = match err.get_str("code") {
            Some(c) => ErrorCode::parse(c.as_str()),
            None => ErrorCode::InternalError,
        };
        let message = match err.get_str("message") {
            Some(m) => m,
            None => owned("switchboard error"),
        };
        let project_id = prefer_str(nonempty_str(err.get_str("project_id")), nonempty_str(err.get_str("projectId")));
        SwitchboardError {
            code,
            message,
            operation: Some(owned(operation)),
            entity_kind: err.get_str("entity_kind"),
            entity_id: err.get_str("entity_id"),
            project_id,
            work_profile_id: nonempty_str(err.get_str("work_profile_id")),
            work_session_id: nonempty_str(err.get_str("work_session_id")),
            expected: prefer_str(err.get_str("expected"), err.get_str("expectedSourceRevision")),
            current: prefer_str(err.get_str("current"), err.get_str("currentSourceRevision")),
            cause: None,
        }
    }
}

} // verus!
