use awesometree::auth::{Permission as TokenPermission, ScopedToken, TokenScope};
use awesometree::grpc::convert::{
    agent_status_to_proto, agent_to_proto, work_session_state_to_proto, work_session_to_discovery_payload,
};
use awesometree::grpc::discovery::card_matches_capability;
use awesometree::grpc::proto::{self, CreateTokenRequest, Permission, Scope};
use awesometree::grpc::token::{plan_token, proto_scope, token_to_proto, TokenServiceImpl};
use awesometree::json::JsonValue;
use awesometree::model::lifecycle::WorkSessionState;
use awesometree::state::{AgentInstanceState, AgentStatus};

fn sample_agent() -> AgentInstanceState {
    AgentInstanceState {
        id: "a1".into(),
        template: "crush".into(),
        name: "bot".into(),
        work_session_id: "ws1".into(),
        status: AgentStatus::Ready,
        port: 9100,
        host: None,
        pid: None,
        started_at: "t".into(),
        token_id: None,
        session_id: None,
        spawned_by: None,
    }
}

fn caller(permission: TokenPermission, scope: TokenScope) -> ScopedToken {
    ScopedToken {
        id: "caller".into(),
        subject: "boss".into(),
        scope,
        permission,
        session_id: None,
        issued_at: "2026-01-01T00:00:00Z".into(),
        expires_at: None,
        parent_token_id: None,
    }
}

fn request(scope: Option<Scope>, permission: i32) -> CreateTokenRequest {
    CreateTokenRequest { subject: String::new(), scope, permission, expires_in_seconds: 0 }
}

#[test]
fn agent_status_roundtrip() {
    assert_eq!(agent_status_to_proto(&AgentStatus::Ready), proto::AgentStatus::Ready as i32);
}

#[test]
fn agent_to_proto_maps_work_session() {
    let p = agent_to_proto(&sample_agent());
    assert_eq!(p.workspace, "ws1");
    assert_eq!(p.id, "a1");
    assert_eq!(p.direct_url, "http://127.0.0.1:9100");
    assert_eq!(p.started_at, None);
    assert_eq!(p.token_id, "");
}

#[test]
fn agent_to_proto_reads_start_time() {
    let mut a = sample_agent();
    a.started_at = "1970-01-01T00:01:40Z".into();
    let p = agent_to_proto(&a);
    assert_eq!(p.started_at, Some(proto::Timestamp { seconds: 100, nanos: 0 }));
}

#[test]
fn discovery_payload_status_and_agents() {
    let agents = vec![sample_agent()];
    let w = work_session_to_discovery_payload("ws1", "proj", "/d", true, &agents);
    assert_eq!(w.status, proto::WorkspaceStatus::Active as i32);
    assert_eq!(w.agents.len(), 1);
    let w = work_session_to_discovery_payload("ws1", "proj", "/d", false, &[]);
    assert_eq!(w.status, proto::WorkspaceStatus::Inactive as i32);
}

#[test]
fn lifecycle_states_map_to_wire_numbers() {
    assert_eq!(work_session_state_to_proto(WorkSessionState::Proposed), proto::WorkSessionState::Proposed as i32);
    assert_eq!(work_session_state_to_proto(WorkSessionState::Aborted), proto::WorkSessionState::Aborted as i32);
}

#[test]
fn proto_permission_values() {
    assert_eq!(Permission::Session as i32, 1);
    assert_eq!(Permission::Project as i32, 2);
    assert_eq!(Permission::Admin as i32, 3);
}

#[test]
fn proto_scope_global() {
    let scope = Scope { global: true, projects: vec![] };
    assert!(scope.global);
    assert!(scope.projects.is_empty());
}

#[test]
fn proto_scope_projects() {
    let scope = Scope { global: false, projects: vec!["proj-a".into(), "proj-b".into()] };
    assert!(!scope.global);
    assert_eq!(scope.projects.len(), 2);
    assert_eq!(scope.projects[0], "proj-a");
}

#[test]
fn proto_permission_try_from() {
    assert_eq!(Permission::try_from(1), Ok(Permission::Session));
    assert_eq!(Permission::try_from(2), Ok(Permission::Project));
    assert_eq!(Permission::try_from(3), Ok(Permission::Admin));
    assert!(Permission::try_from(99).is_err());
}

#[test]
fn token_service_impl_is_default() {
    let _svc = TokenServiceImpl::default();
}

#[test]
fn token_plan_requires_admin() {
    let c = caller(TokenPermission::Project, TokenScope::Global);
    assert_eq!(plan_token(&c, &request(None, 0)).unwrap_err(), "admin permission required to create tokens");
}

#[test]
fn token_plan_inherits_caller_defaults() {
    let c = caller(TokenPermission::Admin, TokenScope::Projects(vec!["a".into()]));
    let plan = plan_token(&c, &request(None, 0)).unwrap();
    assert_eq!(plan.subject, "boss");
    assert_eq!(plan.scope, TokenScope::Projects(vec!["a".into()]));
    assert_eq!(plan.permission, TokenPermission::Admin);
    assert!(plan.expires_in.is_none());
    let plan = plan_token(&c, &request(Some(Scope { global: false, projects: vec![] }), 1)).unwrap();
    assert_eq!(plan.scope, TokenScope::Projects(vec!["a".into()]));
    assert_eq!(plan.permission, TokenPermission::Session);
}

#[test]
fn token_plan_refuses_wider_scope() {
    let c = caller(TokenPermission::Admin, TokenScope::Projects(vec!["a".into()]));
    assert_eq!(
        plan_token(&c, &request(Some(Scope { global: true, projects: vec![] }), 0)).unwrap_err(),
        "cannot create global-scope token from project-scoped caller"
    );
    assert_eq!(
        plan_token(&c, &request(Some(Scope { global: false, projects: vec!["a".into(), "b".into()] }), 0)).unwrap_err(),
        "cannot include project 'b' not in caller's scope"
    );
}

#[test]
fn token_plan_subject_and_lifetime() {
    let c = caller(TokenPermission::Admin, TokenScope::Global);
    let req = CreateTokenRequest { subject: "svc".into(), scope: None, permission: 2, expires_in_seconds: 60 };
    let plan = plan_token(&c, &req).unwrap();
    assert_eq!(plan.subject, "svc");
    assert_eq!(plan.expires_in, Some(60));
    assert_eq!(plan.permission, TokenPermission::Project);
}

#[test]
fn token_to_proto_fields() {
    let mut t = caller(TokenPermission::Project, TokenScope::Projects(vec!["a".into()]));
    t.issued_at = "1970-01-01T00:00:10Z".into();
    let p = token_to_proto(&t);
    assert_eq!(p.permission, Permission::Project as i32);
    assert_eq!(p.scope, Some(Scope { global: false, projects: vec!["a".into()] }));
    assert_eq!(p.issued_at, Some(proto::Timestamp { seconds: 10, nanos: 0 }));
    assert_eq!(p.session_id, "");
    assert_eq!(proto_scope(&TokenScope::Global), Scope { global: true, projects: vec![] });
}

#[test]
fn card_capability_filter() {
    let skill = JsonValue::Object(vec![(
        "tags".to_string(),
        JsonValue::Array(vec![JsonValue::Str("rust".into()), JsonValue::Str("review".into())]),
    )]);
    let card = JsonValue::Object(vec![("skills".to_string(), JsonValue::Array(vec![skill]))]);
    assert!(card_matches_capability(&card, "review"));
    assert!(!card_matches_capability(&card, "python"));
    assert!(!card_matches_capability(&JsonValue::Null, "review"));
}
