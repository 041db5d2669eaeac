use awesometree::auth::{Permission, ScopedToken, TokenScope};
use awesometree::grpc::agent::{
    as_task, check_agent_access, check_ready, check_spawn_request, check_spawn_scope, context_or, is_listed_for,
    is_task, message_send_body, require, rpc_result, serve_command, spawn_env, spawn_name, starting_agent, stopping,
    tasks_get_body, Code,
};
use awesometree::grpc::proto::{ListAgentsRequest, SpawnAgentRequest};
use awesometree::json::{json_eq, JsonValue};
use awesometree::state::{AgentInstanceState, AgentStatus};

fn token(scope: TokenScope, permission: Permission, session: Option<&str>) -> ScopedToken {
    ScopedToken {
        id: "caller".into(),
        subject: "s".into(),
        scope,
        permission,
        session_id: session.map(|s| s.to_string()),
        issued_at: String::new(),
        expires_at: None,
        parent_token_id: None,
    }
}

fn agent(status: AgentStatus, session: Option<&str>) -> AgentInstanceState {
    AgentInstanceState {
        id: "a-1".into(),
        template: "crush".into(),
        name: "coder".into(),
        work_session_id: "ws".into(),
        status,
        port: 9101,
        host: None,
        pid: Some(5),
        started_at: "t0".into(),
        token_id: None,
        session_id: session.map(|s| s.to_string()),
        spawned_by: None,
    }
}

fn s(v: &str) -> JsonValue {
    JsonValue::Str(v.into())
}

fn obj(entries: Vec<(&str, JsonValue)>) -> JsonValue {
    JsonValue::Object(entries.into_iter().map(|(k, v)| (k.to_string(), v)).collect())
}

fn spawn_req(workspace: &str, template: &str, name: &str) -> SpawnAgentRequest {
    SpawnAgentRequest { workspace: workspace.into(), template: template.into(), name: name.into(), env: Vec::new() }
}

#[test]
fn spawn_request_needs_workspace_and_template() {
    let t = token(TokenScope::Global, Permission::Session, Some("s1"));
    assert!(check_spawn_request(&t, &spawn_req("ws", "crush", "")).is_ok());
    let e = check_spawn_request(&t, &spawn_req("", "crush", "")).unwrap_err();
    assert_eq!(e.code, Code::InvalidArgument);
    assert_eq!(e.message, "workspace is required");
    let e = check_spawn_request(&t, &spawn_req("ws", "", "")).unwrap_err();
    assert_eq!(e.message, "template is required");
}

#[test]
fn spawn_scope_and_name() {
    let t = token(TokenScope::Projects(vec!["p1".into()]), Permission::Project, None);
    assert!(check_spawn_scope(&t, "p1").is_ok());
    let e = check_spawn_scope(&t, "p2").unwrap_err();
    assert_eq!(e.code, Code::PermissionDenied);
    assert_eq!(e.message, "token scope does not include project 'p2'");
    assert_eq!(spawn_name(&spawn_req("ws", "crush", "")), "crush");
    assert_eq!(spawn_name(&spawn_req("ws", "crush", "mine")), "mine");
    assert_eq!(serve_command("crush"), "crush serve");
}

#[test]
fn spawn_env_sets_token() {
    let env = vec![("A".to_string(), "1".to_string()), ("ARP_TOKEN".to_string(), "old".to_string())];
    let out = spawn_env(env, "new".into());
    assert_eq!(out, vec![("A".to_string(), "1".to_string()), ("ARP_TOKEN".to_string(), "new".to_string())]);
    let out = spawn_env(Vec::new(), "tok".into());
    assert_eq!(out, vec![("ARP_TOKEN".to_string(), "tok".to_string())]);
}

#[test]
fn started_agent_record() {
    let a = starting_agent(
        "coder-1234abcd".into(),
        "crush".into(),
        "coder".into(),
        "ws".into(),
        9105,
        "2026-01-01T00:00:00Z".into(),
        Some("tok".into()),
        Some("sess".into()),
        Some("caller".into()),
    );
    assert_eq!(a.status, AgentStatus::Starting);
    assert_eq!(a.port, 9105);
    assert!(a.pid.is_none() && a.host.is_none());
    assert_eq!(a.session_id.as_deref(), Some("sess"));
    assert_eq!(a.spawned_by.as_deref(), Some("caller"));
    let b = stopping(&a);
    assert_eq!(b.status, AgentStatus::Stopping);
    assert_eq!(b.id, a.id);
}

#[test]
fn access_checks_scope_then_session() {
    let a = agent(AgentStatus::Ready, Some("s1"));
    let narrow = token(TokenScope::Projects(vec!["p1".into()]), Permission::Session, Some("s1"));
    let e = check_agent_access(&narrow, "p2", &a, "session mismatch").unwrap_err();
    assert_eq!(e.code, Code::PermissionDenied);
    assert_eq!(e.message, "token scope mismatch");
    assert!(check_agent_access(&narrow, "p1", &a, "session mismatch").is_ok());
    let other = token(TokenScope::Global, Permission::Session, Some("s2"));
    let e = check_agent_access(&other, "p1", &a, "session-scoped token can only stop own-session agents").unwrap_err();
    assert_eq!(e.message, "session-scoped token can only stop own-session agents");
    let admin = token(TokenScope::Global, Permission::Admin, None);
    assert!(check_agent_access(&admin, "p1", &a, "session mismatch").is_ok());
}

#[test]
fn readiness_and_required_fields() {
    assert!(check_ready("a-1", &agent(AgentStatus::Ready, None)).is_ok());
    assert!(check_ready("a-1", &agent(AgentStatus::Busy, None)).is_ok());
    let e = check_ready("a-1", &agent(AgentStatus::Starting, None)).unwrap_err();
    assert_eq!(e.code, Code::FailedPrecondition);
    assert_eq!(e.message, "agent 'a-1' is not ready (status: starting)");
    let e = require("", "agent_id").unwrap_err();
    assert_eq!(e.message, "agent_id is required");
    assert!(require("x", "agent_id").is_ok());
}

#[test]
fn listing_filters() {
    let admin = token(TokenScope::Global, Permission::Admin, None);
    let all = ListAgentsRequest { workspace: String::new(), status: 0, template: String::new() };
    let a = agent(AgentStatus::Ready, None);
    assert!(is_listed_for(&admin, &all, "ws", "p", &a));
    let by_ws = ListAgentsRequest { workspace: "other".into(), ..all.clone() };
    assert!(!is_listed_for(&admin, &by_ws, "ws", "p", &a));
    let ready = ListAgentsRequest { status: 2, ..all.clone() };
    assert!(is_listed_for(&admin, &ready, "ws", "p", &a));
    let busy = ListAgentsRequest { status: 3, ..all.clone() };
    assert!(!is_listed_for(&admin, &busy, "ws", "p", &a));
    let tmpl = ListAgentsRequest { template: "other".into(), ..all.clone() };
    assert!(!is_listed_for(&admin, &tmpl, "ws", "p", &a));
    let sess = token(TokenScope::Global, Permission::Session, Some("s9"));
    assert!(!is_listed_for(&sess, &all, "ws", "p", &a));
    let narrow = token(TokenScope::Projects(vec!["q".into()]), Permission::Admin, None);
    assert!(!is_listed_for(&narrow, &all, "ws", "p", &a));
}

#[test]
fn json_rpc_bodies() {
    let body = message_send_body("rid", "hello", "ctx");
    let want = obj(vec![
        ("jsonrpc", s("2.0")),
        ("id", s("rid")),
        ("method", s("message/send")),
        (
            "params",
            obj(vec![(
                "message",
                obj(vec![
                    ("role", s("user")),
                    ("parts", JsonValue::Array(vec![obj(vec![("kind", s("text")), ("text", s("hello"))])])),
                    ("contextId", s("ctx")),
                ]),
            )]),
        ),
    ]);
    assert!(json_eq(&body, &want));
    let body = tasks_get_body("rid", "task-1", "5");
    assert_eq!(body.get_str("method").as_deref(), Some("tasks/get"));
    let params = body.get("params").unwrap();
    assert_eq!(params.get_str("id").as_deref(), Some("task-1"));
    assert!(json_eq(params.get("historyLength").unwrap(), &JsonValue::Number("5".into())));
}

#[test]
fn replies_become_tasks() {
    let task = obj(vec![("id", s("t-9")), ("status", obj(vec![("state", s("working"))]))]);
    let reply = obj(vec![("jsonrpc", s("2.0")), ("result", task.clone())]);
    assert!(json_eq(rpc_result(&reply), &task));
    assert!(is_task(rpc_result(&reply)));
    assert!(json_eq(&as_task(&task, "ctx", "fresh"), &task));
    let message = obj(vec![("role", s("agent"))]);
    assert!(json_eq(rpc_result(&message), &message));
    assert!(!is_task(&message));
    let wrapped = as_task(&message, "ctx", "fresh");
    assert!(json_eq(
        &wrapped,
        &obj(vec![
            ("id", s("fresh")),
            ("contextId", s("ctx")),
            ("status", obj(vec![("state", s("completed"))])),
            ("result", message.clone()),
        ])
    ));
    assert_eq!(context_or("", "new".into()), "new");
    assert_eq!(context_or("given", "new".into()), "given");
}

use awesometree::grpc::bridge::{error_body, http_status, list_agents_request, ListAgentsQuery};

#[test]
fn refusals_map_to_http() {
    assert_eq!(http_status(Code::InvalidArgument), 400);
    assert_eq!(http_status(Code::NotFound), 404);
    assert_eq!(http_status(Code::PermissionDenied), 403);
    assert_eq!(http_status(Code::FailedPrecondition), 412);
    assert_eq!(http_status(Code::ResourceExhausted), 429);
    assert_eq!(http_status(Code::Unavailable), 503);
    assert_eq!(http_status(Code::Internal), 500);
    let body = error_body(Code::NotFound, "agent 'x' not found");
    assert_eq!(body.get_str("error").as_deref(), Some("agent 'x' not found"));
    assert!(json_eq(body.get("code").unwrap(), &JsonValue::Number("5".into())));
    let req = list_agents_request(ListAgentsQuery { workspace: "w".into(), template: "t".into(), status: 2 });
    assert_eq!(req, ListAgentsRequest { workspace: "w".into(), status: 2, template: "t".into() });
}
