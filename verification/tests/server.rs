use awesometree::auth::{generate_token_at, Permission, ScopedToken, TokenScope};
use awesometree::json::JsonValue;
use awesometree::model::error::{ErrorCode, SwitchboardError};
use awesometree::model::lifecycle::WorkSessionState;
use awesometree::server::{
    admit_caller, check_delete_revision, create_request, error_status, project_definition, service_refusal,
    transition_target, update_patch, CreateProjectHttpReq, CreateWorkSessionHttpReq, DEFAULT_GRPC_PORT,
    DEFAULT_PORT,
};

const SECRET: &[u8] = b"0123456789abcdef0123456789abcdef";

#[test]
fn default_port_is_expected() {
    assert_eq!(DEFAULT_PORT, 9099);
    assert_eq!(DEFAULT_GRPC_PORT, 9098);
}

#[test]
fn error_codes_map_to_http_statuses() {
    assert_eq!(error_status(ErrorCode::NotFound), 404);
    assert_eq!(error_status(ErrorCode::MissingDefaultProfile), 404);
    assert_eq!(error_status(ErrorCode::AlreadyExists), 409);
    assert_eq!(error_status(ErrorCode::Conflict), 409);
    assert_eq!(error_status(ErrorCode::InvalidInput), 400);
    assert_eq!(error_status(ErrorCode::InvalidReference), 400);
    assert_eq!(error_status(ErrorCode::InvalidTransition), 400);
    assert_eq!(error_status(ErrorCode::PolicyBroadening), 400);
    assert_eq!(error_status(ErrorCode::Referenced), 400);
    assert_eq!(error_status(ErrorCode::Unauthorized), 401);
    assert_eq!(error_status(ErrorCode::Unavailable), 503);
    assert_eq!(error_status(ErrorCode::InternalError), 500);
    assert_eq!(error_status(ErrorCode::LockTimeout), 500);
    assert_eq!(error_status(ErrorCode::UnsupportedOldState), 500);
}

#[test]
fn service_error_reply_carries_text_and_code() {
    let e = SwitchboardError::new(ErrorCode::NotFound, "project x");
    let r = service_refusal(&e);
    assert_eq!(r.status, 404);
    assert_eq!(r.body.error, "not_found: project x");
    assert_eq!(r.body.code.as_deref(), Some("not_found"));
}

fn scoped() -> ScopedToken {
    ScopedToken {
        id: "tok-1".into(),
        subject: "user".into(),
        scope: TokenScope::Projects(vec!["p".into()]),
        permission: Permission::Session,
        session_id: None,
        issued_at: "2026-01-01T00:00:00Z".into(),
        expires_at: None,
        parent_token_id: None,
    }
}

#[test]
fn local_and_unauthenticated_callers_are_admin() {
    let t = admit_caller(false, true, None, None, SECRET, 10).ok().unwrap();
    assert_eq!(t.id, "localhost-admin");
    assert_eq!(t.permission, Permission::Admin);
    let t = admit_caller(true, false, None, None, SECRET, 10).ok().unwrap();
    assert_eq!(t.subject, "localhost");
}

#[test]
fn scoped_token_is_used_as_it_is() {
    let t = admit_caller(false, false, Some("Bearer x"), Some(scoped()), SECRET, 10).ok().unwrap();
    assert_eq!(t.id, "tok-1");
    assert_eq!(t.permission, Permission::Session);
}

#[test]
fn legacy_token_admits_as_admin() {
    let token = generate_token_at(SECRET, 1_000, 42);
    let header = format!("Bearer {token}");
    let t = admit_caller(false, false, Some(&header), None, SECRET, 1_010).ok().unwrap();
    assert_eq!(t.id, "localhost-admin");
}

#[test]
fn missing_or_bad_token_is_refused() {
    let r = admit_caller(false, false, None, None, SECRET, 10).err().unwrap();
    assert_eq!(r.status, 401);
    assert_eq!(r.body.error, "invalid or missing token");
    assert!(r.body.code.is_none());
    let token = generate_token_at(SECRET, 1_000, 42);
    let r = admit_caller(false, false, Some(&token), None, SECRET, 1_010).err().unwrap();
    assert_eq!(r.status, 401);
    let r = admit_caller(false, false, Some("Bearer 1:2:3"), None, SECRET, 10).err().unwrap();
    assert_eq!(r.status, 401);
}

#[test]
fn create_body_becomes_service_request() {
    let req = CreateWorkSessionHttpReq {
        work_session_id: "ws-1".into(),
        project_id: "proj".into(),
        work_profile_id: None,
        display_name: None,
        headless: false,
        no_tag: false,
        no_launch: true,
    };
    let r = create_request(req);
    assert_eq!(r.work_session_id, "ws-1");
    assert_eq!(r.project_id, "proj");
    assert!(r.work_profile_id.is_none());
    assert!(r.realization.create_tag);
    assert!(!r.realization.launch_apps);
    assert!(!r.realization.headless);
    assert!(!r.realization.no_wm);

    let headless = create_request(CreateWorkSessionHttpReq {
        work_session_id: "ws-2".into(),
        project_id: "proj".into(),
        work_profile_id: Some("default".into()),
        display_name: Some("Two".into()),
        headless: true,
        no_tag: false,
        no_launch: false,
    });
    assert!(!headless.realization.create_tag);
    assert!(!headless.realization.launch_apps);
    assert!(headless.realization.headless);
    assert!(headless.realization.no_wm);
    assert_eq!(headless.display_name.as_deref(), Some("Two"));
}

#[test]
fn transition_body_names_a_state() {
    assert_eq!(transition_target("paused").ok(), Some(WorkSessionState::Paused));
    let r = transition_target("bogus").err().unwrap();
    assert_eq!(r.status, 400);
    assert_eq!(r.body.error, "invalid state \"bogus\"");
}

#[test]
fn update_needs_patch_or_definition() {
    let p = JsonValue::Str("p".into());
    let d = JsonValue::Str("d".into());
    assert!(matches!(update_patch(Some(p), Some(d)), Ok(JsonValue::Str(s)) if s == "p"));
    let d = JsonValue::Str("d".into());
    assert!(matches!(update_patch(None, Some(d)), Ok(JsonValue::Str(s)) if s == "d"));
    let r = update_patch(None, None).err().unwrap();
    assert_eq!(r.status, 400);
    assert_eq!(r.body.error, "patch or definition required");
}

#[test]
fn delete_needs_expected_revision() {
    assert!(check_delete_revision("rev-1").is_ok());
    let r = check_delete_revision("").err().unwrap();
    assert_eq!(r.status, 400);
    assert_eq!(r.body.error, "expected_source_revision query param required");
}

#[test]
fn create_project_builds_definition_when_none_given() {
    let req = CreateProjectHttpReq {
        project_id: "demo".into(),
        description: Some("A demo".into()),
        repo: None,
        branch: None,
        definition: None,
    };
    let d = project_definition(&req);
    assert_eq!(d.get_str("name").as_deref(), Some("demo"));
    assert_eq!(d.get_str("description").as_deref(), Some("A demo"));
    let given = CreateProjectHttpReq {
        project_id: "demo".into(),
        description: None,
        repo: None,
        branch: None,
        definition: Some(JsonValue::Str("raw".into())),
    };
    assert!(matches!(project_definition(&given), JsonValue::Str(s) if s == "raw"));
}
