use awesometree::auth::{Permission, ScopedToken, TokenScope};
use awesometree::grpc::agent::Code;
use awesometree::grpc::extract_token;
use awesometree::grpc::project::{
    listed_project, project_call_failure, register_definition, registered_project, AgentTemplate, ProjectCall,
    RegisterProjectRequest,
};
use awesometree::grpc::workspace::{
    call_failure, create_request, list_filter, map_proto_state, work_profile_message, CreateWorkSessionRequest,
    ListWorkSessionsRequest, SessionCall,
};
use awesometree::model::error::{ErrorCode, SwitchboardError};
use awesometree::model::lifecycle::WorkSessionState;
use awesometree::model::project::ProjectSummary;
use awesometree::model::work_profile::WorkProfile;

#[test]
fn proto_states_map_to_lifecycle_states() {
    assert_eq!(map_proto_state(1).ok(), Some(WorkSessionState::Proposed));
    assert_eq!(map_proto_state(2).ok(), Some(WorkSessionState::Open));
    assert_eq!(map_proto_state(3).ok(), Some(WorkSessionState::Paused));
    assert_eq!(map_proto_state(4).ok(), Some(WorkSessionState::Closed));
    assert_eq!(map_proto_state(5).ok(), Some(WorkSessionState::Aborted));
    let e = map_proto_state(0).err().unwrap();
    assert_eq!(e.code, Code::InvalidArgument);
    assert_eq!(e.message, "invalid state: 0");
    let e = map_proto_state(-7).err().unwrap();
    assert_eq!(e.message, "invalid state: -7");
    let e = map_proto_state(i32::MIN).err().unwrap();
    assert_eq!(e.message, "invalid state: -2147483648");
}

#[test]
fn grpc_create_omits_empty_fields() {
    let r = create_request(CreateWorkSessionRequest {
        work_session_id: "ws".into(),
        project_id: "p".into(),
        work_profile_id: "".into(),
        display_name: "".into(),
        headless: false,
    });
    assert!(r.work_profile_id.is_none());
    assert!(r.display_name.is_none());
    assert!(r.realization.create_tag && r.realization.launch_apps);
    assert!(!r.realization.headless && !r.realization.no_wm);
    let r = create_request(CreateWorkSessionRequest {
        work_session_id: "ws".into(),
        project_id: "p".into(),
        work_profile_id: "fast".into(),
        display_name: "Fast".into(),
        headless: true,
    });
    assert_eq!(r.work_profile_id.as_deref(), Some("fast"));
    assert_eq!(r.display_name.as_deref(), Some("Fast"));
    assert!(!r.realization.create_tag && !r.realization.launch_apps);
    assert!(r.realization.headless && r.realization.no_wm);
}

#[test]
fn listing_filter_only_when_named() {
    assert_eq!(list_filter(&ListWorkSessionsRequest { project_id: "".into() }), None);
    assert_eq!(list_filter(&ListWorkSessionsRequest { project_id: "p".into() }), Some("p"));
}

#[test]
fn service_failures_get_call_codes() {
    let e = SwitchboardError::new(ErrorCode::Conflict, "busy");
    let s = call_failure(SessionCall::Create, &e);
    assert_eq!(s.code, Code::FailedPrecondition);
    assert_eq!(s.message, "conflict: busy");
    assert_eq!(call_failure(SessionCall::List, &e).code, Code::Unavailable);
    assert_eq!(call_failure(SessionCall::Get, &e).code, Code::NotFound);
    assert_eq!(call_failure(SessionCall::ListProfiles, &e).code, Code::Unavailable);
    assert_eq!(project_call_failure(ProjectCall::Register, &e).code, Code::InvalidArgument);
    assert_eq!(project_call_failure(ProjectCall::Lookup, &e).code, Code::NotFound);
    assert_eq!(project_call_failure(ProjectCall::Delete, &e).code, Code::FailedPrecondition);
    assert_eq!(project_call_failure(ProjectCall::List, &e).message, "conflict: busy");
}

#[test]
fn work_profile_on_the_wire() {
    let m = work_profile_message(WorkProfile {
        version: "1".into(),
        work_profile_id: "default".into(),
        display_name: None,
        description: Some("d".into()),
        project_ids: vec![],
        intended_resources: vec![],
        default_policy: None,
    });
    assert_eq!(m.work_profile_id, "default");
    assert_eq!(m.display_name, "");
    assert_eq!(m.description, "d");
}

fn summary(id: &str) -> ProjectSummary {
    ProjectSummary { project_id: id.into(), title: id.into(), description: None, revision: None, source_revision: None }
}

#[test]
fn projects_on_the_wire() {
    let p = listed_project(summary("alpha"));
    assert_eq!(p.name, "alpha");
    assert!(p.repo.is_empty() && p.branch.is_empty() && p.agents.is_empty() && p.context.is_none());

    let req = RegisterProjectRequest {
        name: "beta".into(),
        repo: "git@x:beta".into(),
        branch: "".into(),
        agents: vec![AgentTemplate {
            name: "a".into(),
            command: "run".into(),
            port_env: "".into(),
            health_check: None,
            env: vec![],
            capabilities: vec![],
        }],
    };
    let d = register_definition(&req);
    assert_eq!(d.get_str("name").as_deref(), Some("beta"));
    assert_eq!(d.get_str("repo").as_deref(), Some("git@x:beta"));
    assert!(d.get_str("branch").is_none());
    let r = registered_project(req, summary("beta-id"));
    assert_eq!(r.name, "beta-id");
    assert_eq!(r.repo, "git@x:beta");
    assert_eq!(r.agents.len(), 1);
}

#[test]
fn grpc_caller_defaults_to_local_admin() {
    let t = extract_token(None);
    assert_eq!(t.id, "localhost-admin");
    assert_eq!(t.permission, Permission::Admin);
    let scoped = ScopedToken {
        id: "x".into(),
        subject: "s".into(),
        scope: TokenScope::Global,
        permission: Permission::Session,
        session_id: None,
        issued_at: "now".into(),
        expires_at: None,
        parent_token_id: None,
    };
    assert_eq!(extract_token(Some(scoped)).id, "x");
}
