use awesometree::auth::{Permission, ScopedToken, TokenScope};
use awesometree::json::{json_eq, JsonValue};
use awesometree::mcp::prompts::parallel_implementation;
use awesometree::mcp::resources::{list_resources, resource_of, status_resource, unknown_resource, ResourceRef};
use awesometree::mcp::tools_agent::{
    agent_card_url, agent_list, agent_to_json, discovery_targets, message_body, message_send_url, parse_permission,
    parse_scope, restart_reply, stop_reply, task_reply, task_status_url, token_reply,
};
use awesometree::mcp::tools_session::{
    check_session_access, create_request, deleted_reply, destroyed_reply, transition_target, visible_projects,
    visible_sessions,
};
use awesometree::mcp::{caller_token, check_agent_access, check_catalog_permission, check_project_access};
use awesometree::model::lifecycle::WorkSessionState;
use awesometree::model::project::ProjectSummary;
use awesometree::model::work_session::{WorkSession, WorkSessionView};
use awesometree::state::{AgentInstanceState, AgentStatus, Store};

fn s(v: &str) -> JsonValue {
    JsonValue::Str(v.into())
}

fn obj(entries: Vec<(&str, JsonValue)>) -> JsonValue {
    JsonValue::Object(entries.into_iter().map(|(k, v)| (k.to_string(), v)).collect())
}

fn token(scope: TokenScope, permission: Permission, session: Option<&str>) -> ScopedToken {
    ScopedToken {
        id: "tok-1".into(),
        subject: "me".into(),
        scope,
        permission,
        session_id: session.map(|s| s.to_string()),
        issued_at: "2026-01-01T00:00:00Z".into(),
        expires_at: None,
        parent_token_id: None,
    }
}

fn agent(id: &str, name: &str, status: AgentStatus) -> AgentInstanceState {
    AgentInstanceState {
        id: id.into(),
        template: "crush".into(),
        name: name.into(),
        work_session_id: String::new(),
        status,
        port: 9102,
        host: None,
        pid: None,
        started_at: "t0".into(),
        token_id: None,
        session_id: None,
        spawned_by: None,
    }
}

#[test]
fn caller_is_local_admin() {
    let t = caller_token();
    assert_eq!(t.permission, Permission::Admin);
    assert_eq!(t.scope, TokenScope::Global);
    assert_eq!(t.subject, "localhost");
}

#[test]
fn access_checks() {
    let narrow = token(TokenScope::Projects(vec!["p".into()]), Permission::Session, Some("s1"));
    let mut a = agent("a-1", "n", AgentStatus::Ready);
    assert_eq!(check_agent_access(&narrow, &a, "q").unwrap_err(), "token scope does not include project: q");
    assert_eq!(
        check_agent_access(&narrow, &a, "p").unwrap_err(),
        "session-scoped token cannot access agent a-1 (session mismatch)"
    );
    a.session_id = Some("s1".into());
    assert!(check_agent_access(&narrow, &a, "p").is_ok());
    assert_eq!(
        check_project_access(&narrow, "p", &Permission::Project).unwrap_err(),
        "insufficient permission: Project required, have Session"
    );
    assert!(check_project_access(&narrow, "p", &Permission::Session).is_ok());
    assert_eq!(check_project_access(&narrow, "z", &Permission::Session).unwrap_err(), "token scope does not include project: z");
    assert_eq!(check_catalog_permission(&narrow).unwrap_err(), "admin or project permission required");
    assert!(check_catalog_permission(&token(TokenScope::Global, Permission::Project, None)).is_ok());
}

#[test]
fn scope_and_permission_arguments() {
    assert_eq!(parse_scope(&s("*")).unwrap(), TokenScope::Global);
    assert_eq!(
        parse_scope(&JsonValue::Array(vec![s("a"), s("b")])).unwrap(),
        TokenScope::Projects(vec!["a".into(), "b".into()])
    );
    assert_eq!(
        parse_scope(&JsonValue::Array(vec![s("a"), JsonValue::Bool(true)])).unwrap_err(),
        "scope array must contain strings"
    );
    assert_eq!(parse_scope(&s("all")).unwrap_err(), "scope must be \"*\" or an array of project names");
    assert_eq!(parse_scope(&JsonValue::Null).unwrap_err(), "scope must be \"*\" or an array of project names");
    assert_eq!(parse_permission("admin").unwrap(), Permission::Admin);
    assert_eq!(parse_permission("project").unwrap(), Permission::Project);
    assert_eq!(parse_permission("session").unwrap(), Permission::Session);
    assert_eq!(parse_permission("root").unwrap_err(), "invalid permission: root (must be session|project|admin)");
}

#[test]
fn agent_json_fields() {
    let mut a = agent("a-1", "coder", AgentStatus::Busy);
    a.pid = Some(42);
    a.session_id = Some("s1".into());
    let j = agent_to_json("ws", &a, "proj");
    assert_eq!(j.get_str("id").as_deref(), Some("a-1"));
    assert_eq!(j.get_str("workspace").as_deref(), Some("ws"));
    assert_eq!(j.get_str("project").as_deref(), Some("proj"));
    assert_eq!(j.get_str("status").as_deref(), Some("busy"));
    assert!(json_eq(j.get("port").unwrap(), &JsonValue::Number("9102".into())));
    assert!(json_eq(j.get("pid").unwrap(), &JsonValue::Number("42".into())));
    assert_eq!(j.get_str("direct_url").as_deref(), Some("http://127.0.0.1:9102"));
    assert_eq!(j.get_str("proxy_url").as_deref(), Some("http://localhost:9099/a2a/agents/a-1"));
    assert_eq!(j.get_str("session_id").as_deref(), Some("s1"));
    assert!(j.get("token_id").is_none());
    assert!(j.get("spawned_by").is_none());
}

#[test]
fn agent_listing_is_filtered_and_sorted() {
    let mut st = Store::default();
    st.add_agent("w2", agent("c", "x", AgentStatus::Ready));
    st.add_agent("w1", agent("b", "y", AgentStatus::Stopped));
    st.add_agent("w1", agent("a", "z", AgentStatus::Ready));
    let all = agent_list(&st, None, None, None);
    let ids: Vec<&str> = all.iter().map(|e| e.id.as_str()).collect();
    assert_eq!(ids, vec!["a", "b", "c"]);
    let ready = agent_list(&st, None, Some("ready"), None);
    let ids: Vec<&str> = ready.iter().map(|e| e.id.as_str()).collect();
    assert_eq!(ids, vec!["a", "c"]);
    let w1 = agent_list(&st, Some("w1"), None, Some("crush"));
    assert_eq!(w1.len(), 2);
    assert_eq!(w1[0].json.get_str("workspace").as_deref(), Some("w1"));
    assert!(agent_list(&st, None, None, Some("other")).is_empty());
}

#[test]
fn agent_message_and_task_replies() {
    let body = message_body("hi", &Some("ctx".into()));
    let want = obj(vec![(
        "message",
        obj(vec![
            ("role", s("ROLE_USER")),
            ("parts", JsonValue::Array(vec![obj(vec![("text_part", obj(vec![("text", s("hi"))]))])])),
            ("context_id", s("ctx")),
        ]),
    )]);
    assert!(json_eq(&body, &want));
    let body = message_body("hi", &None);
    assert!(json_eq(body.get("message").unwrap().get("context_id").unwrap(), &JsonValue::Null));
    let task = obj(vec![("id", s("t1"))]);
    assert!(json_eq(&task_reply(task.clone(), "u"), &task));
    let reply = task_reply(obj(vec![("text", s("done"))]), "u-1");
    assert_eq!(reply.get_str("id").as_deref(), Some("synthetic-u-1"));
    assert_eq!(reply.get("status").unwrap().get_str("state").as_deref(), Some("TASK_STATE_COMPLETED"));
    assert!(json_eq(reply.get("artifacts").unwrap(), &JsonValue::Array(vec![])));
    assert_eq!(reply.get("message").unwrap().get_str("text").as_deref(), Some("done"));
    assert_eq!(task_status_url("http://h:1", "t1", None), "http://h:1/tasks/t1");
    assert_eq!(task_status_url("http://h:1", "t1", Some(3)), "http://h:1/tasks/t1?history_length=3");
    assert_eq!(message_send_url("http://h:1"), "http://h:1/message:send");
    assert_eq!(stop_reply("a-1"), "Stop signal sent to agent: a-1");
    assert_eq!(restart_reply("a-1", "a-2"), "Restarted agent: a-1 -> a-2");
}

#[test]
fn token_reply_fields() {
    let mut t = token(TokenScope::Projects(vec!["p".into()]), Permission::Project, None);
    t.expires_at = Some("2026-02-01T00:00:00Z".into());
    let j = token_reply("bearer", &t);
    assert_eq!(j.get_str("token").as_deref(), Some("bearer"));
    assert_eq!(j.get_str("token_id").as_deref(), Some("tok-1"));
    assert_eq!(j.get_str("permission").as_deref(), Some("project"));
    assert!(json_eq(j.get("scope").unwrap(), &JsonValue::Array(vec![s("p")])));
    assert_eq!(j.get_str("expires_at").as_deref(), Some("2026-02-01T00:00:00Z"));
    let g = token_reply("b", &token(TokenScope::Global, Permission::Admin, None));
    assert!(json_eq(g.get("scope").unwrap(), &JsonValue::Null));
    assert!(json_eq(g.get("expires_at").unwrap(), &JsonValue::Null));
}

#[test]
fn discovery_reach_and_card_url() {
    assert_eq!(discovery_targets(None), (true, false));
    assert_eq!(discovery_targets(Some("local")), (true, false));
    assert_eq!(discovery_targets(Some("network")), (false, true));
    assert_eq!(discovery_targets(Some("all")), (true, true));
    assert_eq!(discovery_targets(Some("other")), (false, false));
    assert_eq!(agent_card_url("http://h:1//"), "http://h:1/.well-known/agent-card.json");
    assert_eq!(agent_card_url("http://h:1"), "http://h:1/.well-known/agent-card.json");
}

fn session(id: &str, project: Option<&str>) -> WorkSessionView {
    WorkSessionView {
        work_session: WorkSession {
            version: "1".into(),
            work_session_id: id.into(),
            display_name: None,
            project_id: project.map(|p| p.to_string()),
            project_snapshot_id: None,
            project_revision: None,
            work_profile_id: None,
            agent_profile_ids: Vec::new(),
            state: WorkSessionState::Open,
            policy: None,
            created_at: None,
            updated_at: None,
            closed_at: None,
        },
        runtime: None,
    }
}

#[test]
fn session_tools() {
    let r = create_request("w".into(), "p".into(), None, Some("W".into()), Some(true));
    assert!(r.realization.headless && r.realization.no_wm && !r.realization.create_tag && !r.realization.launch_apps);
    let r = create_request("w".into(), "p".into(), Some("fast".into()), None, None);
    assert!(!r.realization.headless && r.realization.create_tag && r.realization.launch_apps);
    assert_eq!(r.work_profile_id.as_deref(), Some("fast"));
    let narrow = token(TokenScope::Projects(vec!["p".into(), "".into()]), Permission::Session, None);
    let shown = visible_sessions(&narrow, vec![session("a", Some("p")), session("b", Some("q")), session("c", None)]);
    let ids: Vec<&str> = shown.iter().map(|v| v.work_session.work_session_id.as_str()).collect();
    assert_eq!(ids, vec!["a", "c"]);
    let projects = vec![
        ProjectSummary { project_id: "p".into(), title: "P".into(), description: None, revision: None, source_revision: None },
        ProjectSummary { project_id: "q".into(), title: "Q".into(), description: None, revision: None, source_revision: None },
    ];
    let shown = visible_projects(&narrow, projects);
    assert_eq!(shown.len(), 1);
    assert_eq!(shown[0].project_id, "p");
    assert_eq!(transition_target("paused").unwrap(), WorkSessionState::Paused);
    assert_eq!(transition_target("gone").unwrap_err(), "invalid state gone");
    assert!(check_session_access(&narrow, &session("a", Some("p"))).is_ok());
    assert!(check_session_access(&narrow, &session("a", None)).is_ok());
    assert_eq!(
        check_session_access(&narrow, &session("b", Some("q"))).unwrap_err(),
        "token scope does not include project: q"
    );
    assert_eq!(destroyed_reply("w"), "destroyed w");
    assert_eq!(deleted_reply("p"), "deleted p");
}

#[test]
fn resource_uris() {
    assert_eq!(resource_of("work-session://ws-1"), ResourceRef::WorkSession("ws-1".into()));
    assert_eq!(resource_of("workspace://ws-1"), ResourceRef::WorkSession("ws-1".into()));
    assert_eq!(resource_of("agent://a-1/status"), ResourceRef::AgentStatus("a-1".into()));
    assert_eq!(resource_of("agent://a-1/card"), ResourceRef::AgentCard("a-1".into()));
    assert_eq!(resource_of("agent://a-1/other"), ResourceRef::Unknown);
    assert_eq!(resource_of("file:///x"), ResourceRef::Unknown);
    assert_eq!(unknown_resource("file:///x"), "unknown resource: file:///x");
}

#[test]
fn resource_listing() {
    let mut st = Store::default();
    st.add_agent("w1", agent("a-1", "coder", AgentStatus::Ready));
    let list = list_resources(&st);
    let want: Vec<(String, String)> = vec![
        ("work-session://w1".into(), "WorkSession: w1".into()),
        ("agent://a-1/status".into(), "Agent Status: coder".into()),
        ("agent://a-1/card".into(), "Agent Card: coder".into()),
    ];
    assert_eq!(list, want);
    let j = status_resource("w1", &agent("a-1", "coder", AgentStatus::Ready));
    assert_eq!(j.get_str("agent_id").as_deref(), Some("a-1"));
    assert_eq!(j.get_str("status").as_deref(), Some("ready"));
    assert_eq!(j.get_str("work_session_id").as_deref(), Some("w1"));
    assert_eq!(j.get_str("proxy_url").as_deref(), Some("http://localhost:9099/a2a/agents/a-1"));
}

#[test]
fn prompt_texts() {
    let p = parallel_implementation("ws", None);
    assert!(p.text.starts_with("1. Use agent/spawn 2 times in workspace \"ws\""));
    assert!(p.text.contains("2. Break the task into 2 subtasks\n"));
    assert_eq!(p.description, "Parallel implementation with 2 agents in workspace ws");
    let p = parallel_implementation("ws", Some(4));
    assert_eq!(p.description, "Parallel implementation with 4 agents in workspace ws");
}
