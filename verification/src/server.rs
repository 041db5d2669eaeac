//! The REST host's decisions: ports, how errors become HTTP replies, who is
//! admitted, and how request bodies become service calls.
use vstd::prelude::*;
use crate::text::{concat, owned};
use crate::model::error::{ErrorCode, SwitchboardError, code_name, opt_view};
use crate::model::lifecycle::{WorkSessionState, parse_state};
use crate::model::work_session::{CreateWorkSessionRequest, WorkSessionView};
use crate::model::project::{definition_for_create, definition_for_create_spec};
use crate::cli::{cli_realization, realization_from_flags};
use crate::auth::{ScopedToken, TokenView, ScopeView, Permission, localhost_admin_token,
    bearer_of, bearer_credential, legacy_valid, validate_legacy_token_at, opt_str};
use crate::json::{JsonValue, JsonView};

verus! {

/// Port of the REST and A2A server.
pub const DEFAULT_PORT: u16 = 9099;

/// Port of the gRPC server.
pub const DEFAULT_GRPC_PORT: u16 = 9098;

/// HTTP status of a Switchboard error code.
pub open spec fn status_for(code: ErrorCode) -> u16 {
    match code {
        ErrorCode::NotFound | ErrorCode::MissingDefaultProfile => 404,
        ErrorCode::AlreadyExists | ErrorCode::Conflict => 409,
        ErrorCode::InvalidInput
        | ErrorCode::InvalidReference
        | ErrorCode::InvalidTransition
        | ErrorCode::PolicyBroadening
        | ErrorCode::Referenced => 400,
        ErrorCode::Unauthorized => 401,
        ErrorCode::Unavailable => 503,
        _ => 500,
    }
}

/// HTTP status of a Switchboard error code.
pub fn error_status(code: ErrorCode) -> (r: u16)
    ensures
        r == status_for(code),
{
    match code {
        ErrorCode::NotFound | ErrorCode::MissingDefaultProfile => 404,
        ErrorCode::AlreadyExists | ErrorCode::Conflict => 409,
        ErrorCode::InvalidInput
        | ErrorCode::InvalidReference
        | ErrorCode::InvalidTransition
        | ErrorCode::PolicyBroadening
        | ErrorCode::Referenced => 400,
        ErrorCode::Unauthorized => 401,
        ErrorCode::Unavailable => 503,
        _ => 500,
    }
}

/// Body of a refused request: a message, and the error code's wire name
/// where the refusal came from the service.
pub struct ErrorBody {
    pub error: String,
    pub code: Option<String>,
}

/// A refused request: its HTTP status and body.
pub struct Refusal {
    pub status: u16,
    pub body: ErrorBody,
}

/// A refusal with a plain message.
pub fn refusal(status: u16, msg: &str) -> (r: Refusal)
    ensures
        r.status == status,
        r.body.error@ == msg@,
        r.body.code is None,
{
    Refusal { status, body: ErrorBody { error: owned(msg), code: None } }
}

/// The reply to a service error: the status of its code, its display text
/// and its code's wire name.
pub fn service_refusal(e: &SwitchboardError) -> (r: Refusal)
    ensures
        r.status == status_for(e.code),
        r.body.error@ == code_name(e.code) + ": "@ + e.message@,
        opt_view(r.body.code) == Some(code_name(e.code)),
{
    Refusal {
        status: error_status(e.code),
        body: ErrorBody { error: e.to_string(), code: Some(owned(e.code.as_str())) },
    }
}

/// The synthetic token of a caller admitted without a credential of its own.
pub open spec fn is_localhost_admin(t: TokenView) -> bool {
    &&& t.id == "localhost-admin"@
    &&& t.subject == "localhost"@
    &&& t.scope == ScopeView::Global
    &&& t.permission == Permission::Admin
    &&& t.session_id is None
    &&& t.expires_at is None
    &&& t.parent_token_id is None
}

/// Who is admitted, and as whom. With authentication off, or from the
/// loopback address, the caller acts as the local admin. Otherwise a valid
/// scoped token (`scoped`, decoded from `header`) is used as it is; failing
/// that, a valid legacy bearer token admits the caller as the local admin.
/// Everyone else is refused with 401.
pub fn admit_caller(
    disable_auth: bool,
    is_local: bool,
    header: Option<&str>,
    scoped: Option<ScopedToken>,
    secret: &[u8],
    now: u64,
) -> (r: Result<ScopedToken, Refusal>)
    ensures
        disable_auth || is_local ==> (r matches Ok(t) && is_localhost_admin(t@)),
        !(disable_auth || is_local) ==> match scoped {
            Some(s) => r matches Ok(t) && t@ == s@,
            None => match bearer_of(opt_str(header)) {
                Some(c) if legacy_valid(c, secret@, now) => r matches Ok(t) && is_localhost_admin(t@),
                _ => r matches Err(e) && e.status == 401 && e.body.error@ == "invalid or missing token"@
                    && e.body.code is None,
            },
        },
{
    if disable_auth || is_local {
        return Ok(localhost_admin_token());
    }
    match scoped {
        Some(s) => return Ok(s),
        None => {},
    }
    match bearer_credential(header) {
        Some(c) => {
            if validate_legacy_token_at(c.as_str(), secret, now) {
                return Ok(localhost_admin_token());
            }
        },
        None => {},
    }
    Err(refusal(401, "invalid or missing token"))
}

/// Body of `POST /api/work-sessions`.
pub struct CreateWorkSessionHttpReq {
    pub work_session_id: String,
    pub project_id: String,
    pub work_profile_id: Option<String>,
    pub display_name: Option<String>,
    pub headless: bool,
    pub no_tag: bool,
    pub no_launch: bool,
}

/// The service request for a create body: headless hosts get no tag, no
/// launched apps and no window manager.
pub fn create_request(req: CreateWorkSessionHttpReq) -> (r: CreateWorkSessionRequest)
    ensures
        r.work_session_id == req.work_session_id,
        r.project_id == req.project_id,
        r.work_profile_id == req.work_profile_id,
        r.display_name == req.display_name,
        r.realization == cli_realization(req.no_tag, req.no_launch, req.headless),
{
    let realization = realization_from_flags(req.no_tag, req.no_launch, req.headless);
    CreateWorkSessionRequest {
        work_session_id: req.work_session_id,
        project_id: req.project_id,
        work_profile_id: req.work_profile_id,
        display_name: req.display_name,
        realization,
    }
}

/// Listed and detailed sessions carry no raw secrets: a runtime holds only a
/// token reference, so the view goes out as it is.
pub fn redact_runtime_secrets(view: WorkSessionView) -> (r: WorkSessionView)
    ensures
        r == view,
{
    view
}

/// What `{:?}` prints for a string.
pub uninterp spec fn debug_text(s: Seq<char>) -> Seq<char>;

/// A character that `{:?}` prints as it is.
pub open spec fn plain_char(c: char) -> bool {
    ('a' <= c && c <= 'z') || ('A' <= c && c <= 'Z') || ('0' <= c && c <= '9') || c == '_' || c == '-'
}

/// `format!("{:?}", s)`: std's `Debug` for `str`, which quotes the text and
/// escapes quotes, backslashes, control and non-printable characters. The
/// contract names the result, and states it only for text of letters,
/// digits, `_` and `-`, which nothing escapes.
#[verifier::external_body]
fn debug_quoted(s: &str) -> (r: String)
    ensures
        r@ == debug_text(s@),
        (forall|i: int| 0 <= i < s@.len() ==> plain_char(#[trigger] s@[i])) ==> r@ == "\""@ + s@ + "\""@,
{
    format!("{:?}", s)
}

/// The state a transition body asks for, or a 400 naming the text.
pub fn transition_target(state: &str) -> (r: Result<WorkSessionState, Refusal>)
    ensures
        match parse_state(state@) {
            Some(st) => r == Ok::<WorkSessionState, Refusal>(st),
            None => r matches Err(e) && e.status == 400 && e.body.error@ == "invalid state "@ + debug_text(state@)
                && e.body.code is None,
        },
{
    match WorkSessionState::parse(state) {
        Some(st) => Ok(st),
        None => {
            let q = debug_quoted(state);
            let msg = concat("invalid state ", q.as_str());
            Err(refusal(400, msg.as_str()))
        },
    }
}

/// Body of `POST /api/projects`.
pub struct CreateProjectHttpReq {
    pub project_id: String,
    pub description: Option<String>,
    pub repo: Option<String>,
    pub branch: Option<String>,
    pub definition: Option<JsonValue>,
}

pub open spec fn opt_json(o: Option<JsonValue>) -> Option<JsonView> {
    match o {
        Some(j) => Some(j@),
        None => None,
    }
}

/// The definition a create body sends: the one given, or one built from its
/// fields.
pub fn project_definition(req: &CreateProjectHttpReq) -> (r: JsonValue)
    ensures
        r@ == match opt_json(req.definition) {
            Some(d) => d,
            None => definition_for_create_spec(
                req.project_id@, opt_view(req.description), opt_view(req.repo), opt_view(req.branch), None),
        },
{
    match &req.definition {
        Some(d) => d.deep_clone(),
        None => {
            let description: Option<&str> = match &req.description { Some(s) => Some(s.as_str()), None => None };
            let repo: Option<&str> = match &req.repo { Some(s) => Some(s.as_str()), None => None };
            let branch: Option<&str> = match &req.branch { Some(s) => Some(s.as_str()), None => None };
            definition_for_create(req.project_id.as_str(), description, repo, branch, None)
        },
    }
}

/// The change an update body sends: its patch, else its definition; with
/// neither it is refused with 400.
pub fn update_patch(patch: Option<JsonValue>, definition: Option<JsonValue>) -> (r: Result<JsonValue, Refusal>)
    ensures
        match (opt_json(patch), opt_json(definition)) {
            (Some(p), _) => r matches Ok(j) && j@ == p,
            (None, Some(d)) => r matches Ok(j) && j@ == d,
            (None, None) => r matches Err(e) && e.status == 400 && e.body.error@ == "patch or definition required"@
                && e.body.code is None,
        },
{
    match patch {
        Some(p) => Ok(p),
        None => match definition {
            Some(d) => Ok(d),
            None => Err(refusal(400, "patch or definition required")),
        },
    }
}

/// A delete names the revision it expects; without one it is refused with 400.
pub fn check_delete_revision(expected_source_revision: &str) -> (r: Result<(), Refusal>)
    ensures
        expected_source_revision@.len() == 0 <==> r is Err,
        r matches Err(e) ==> e.status == 400 && e.body.error@ == "expected_source_revision query param required"@
            && e.body.code is None,
{
    if expected_source_revision.unicode_len() == 0 {
        Err(refusal(400, "expected_source_revision query param required"))
    } else {
        Ok(())
    }
}

} // verus!
