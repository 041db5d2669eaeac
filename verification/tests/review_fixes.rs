use awesometree::cli::{create_body, list_path, percent_encode};
use awesometree::agent_supervisor::new_agent_id;
use awesometree::auth::{
    create_scoped_token, encode_scoped_token_frame, expiry_at, now_rfc3339, scoped_token_payload, Permission,
    ScopedToken, TokenScope, TokenStore,
};
use awesometree::bezalel::{plan_starts, start_active_workspaces, sync_workspaces};
use awesometree::grpc::agent::Code;
use awesometree::grpc::discovery::DiscoveryServiceImpl;
use awesometree::grpc::proto::{CreateTokenRequest, Scope};
use awesometree::grpc::token::{token_response, TokenServiceImpl};
use awesometree::keeper::Keepers;
use awesometree::model::resource::WorkspaceResourceRef;
use awesometree::model::runtime::{RuntimeSecrets, WorkSessionRuntime};
use awesometree::runtime_store::RuntimeDocument;
use awesometree::state::{check_store_version, reject_legacy, stamped, AgentInstanceState, AgentStatus, Store, DOCUMENT_VERSION};

const SECRET: &[u8] = b"0123456789abcdef0123456789abcdef";

fn instant(text: &str) -> chrono::DateTime<chrono::FixedOffset> {
    chrono::DateTime::parse_from_rfc3339(text).expect("RFC 3339 text")
}

fn is_uuid_v4(s: &str) -> bool {
    let b: Vec<char> = s.chars().collect();
    b.len() == 36
        && b.iter().enumerate().all(|(i, c)| {
            if [8, 13, 18, 23].contains(&i) { *c == '-' } else { c.is_ascii_digit() || ('a'..='f').contains(c) }
        })
        && b[14] == '4'
}

#[test]
fn scoped_token_expiry_is_issuance_plus_seconds() {
    let mut store = TokenStore::new();
    let t = create_scoped_token(&mut store, "user", TokenScope::Global, Permission::Admin, Some(3600));
    let issued = instant(&t.issued_at);
    let expires = instant(t.expires_at.as_ref().unwrap());
    assert_eq!((expires - issued).num_seconds(), 3600);
    assert!(is_uuid_v4(&t.id));
    let forever = create_scoped_token(&mut store, "user", TokenScope::Global, Permission::Admin, None);
    assert!(forever.expires_at.is_none());
}

#[test]
fn huge_expiry_is_held_at_the_last_formattable_second() {
    assert_eq!(expiry_at(100, 50), 150);
    assert_eq!(expiry_at(100, u64::MAX), 8_000_000_000_000);
    let mut store = TokenStore::new();
    let t = create_scoped_token(&mut store, "user", TokenScope::Global, Permission::Admin, Some(u64::MAX));
    assert!(t.expires_at.is_some());
    assert!(instant(&now_rfc3339()).timestamp() > 1_600_000_000);
}

#[test]
fn agent_id_suffix_is_uuid_hex() {
    let id = new_agent_id("echo");
    let suffix = &id["echo-".len()..];
    assert_eq!(suffix.len(), 8);
    assert!(suffix.chars().all(|c| c.is_ascii_digit() || ('a'..='f').contains(&c)));
}

#[test]
fn scoped_frame_round_trip_and_tamper() {
    let json = r#"{"id":"t1","subject":"user"}"#;
    let frame = encode_scoped_token_frame(json, SECRET);
    assert_eq!(scoped_token_payload(&frame, SECRET), Some(json.as_bytes().to_vec()));
    assert_eq!(scoped_token_payload(&format!("{frame}x"), SECRET), None);
    assert_eq!(scoped_token_payload(&frame, b"another secret"), None);
    assert_eq!(scoped_token_payload("no-dot-here", SECRET), None);
}

fn admin(scope: TokenScope) -> ScopedToken {
    ScopedToken {
        id: "caller".into(),
        subject: "boss".into(),
        scope,
        permission: Permission::Admin,
        session_id: None,
        issued_at: "2026-01-01T00:00:00Z".into(),
        expires_at: None,
        parent_token_id: None,
    }
}

#[test]
fn token_service_mints_and_records() {
    let mut store = TokenStore::new();
    let svc = TokenServiceImpl;
    let req = CreateTokenRequest {
        subject: String::new(),
        scope: Some(Scope { global: false, projects: vec!["p".into()] }),
        permission: 2,
        expires_in_seconds: 60,
    };
    let (t, m) = svc.create_token(&mut store, &admin(TokenScope::Global), &req).ok().unwrap();
    assert_eq!(t.subject, "boss");
    assert_eq!(t.scope, TokenScope::Projects(vec!["p".into()]));
    assert_eq!(m.id, t.id);
    assert!(m.expires_at.is_some());
    assert_eq!(m.expires_at.unwrap().seconds - m.issued_at.unwrap().seconds, 60);
    assert!(awesometree::auth::get_token_by_id(&store, &t.id).is_some());
    let r = token_response(m.clone(), "bearer".into());
    assert_eq!(r.bearer_token, "bearer");

    let narrow = admin(TokenScope::Projects(vec!["p".into()]));
    let wide = CreateTokenRequest { subject: String::new(), scope: Some(Scope { global: true, projects: vec![] }), permission: 0, expires_in_seconds: 0 };
    let e = svc.create_token(&mut store, &narrow, &wide).err().unwrap();
    assert_eq!(e.code, Code::PermissionDenied);
    assert_eq!(e.message, "cannot create global-scope token from project-scoped caller");
}

fn headless(id: &str, port: u16) -> WorkSessionRuntime {
    let mut rt = WorkSessionRuntime::pending(id, "h");
    rt.headless = true;
    rt.bezalel_port = Some(port);
    rt.workspace = Some(WorkspaceResourceRef {
        workspace_id: id.into(),
        resource_id: "r".into(),
        environment_kind: "git-worktree".into(),
        path: format!("/w/{id}"),
    });
    rt
}

#[test]
fn start_and_sync_passes_follow_the_keeper_table() {
    let mut doc = RuntimeDocument::fresh("h");
    doc.upsert(headless("a", 9200), "h");
    doc.upsert(headless("b", 9201), "h");
    doc.upsert(headless("c", 9202), "h");
    let mut secrets = RuntimeSecrets::new();
    secrets.set_bezalel_token("a", "ta");
    secrets.set_bezalel_token("b", "");
    secrets.set_bezalel_token("c", "tc");
    let mut keepers = Keepers::new();
    keepers.start("c");
    keepers.start("stale");
    let ids = |v: &Vec<awesometree::bezalel::StartPlan>| v.iter().map(|p| p.work_session_id.clone()).collect::<Vec<_>>();
    assert_eq!(ids(&start_active_workspaces(&doc, &secrets, &keepers)), vec!["a".to_string()]);
    let (starts, stops) = sync_workspaces(&doc, &secrets, &keepers);
    assert_eq!(ids(&starts), vec!["a".to_string(), "b".to_string()]);
    assert_eq!(stops, vec!["stale".to_string()]);
    let all = plan_starts(&doc, &secrets, &vec![], false);
    assert_eq!(ids(&all), vec!["a".to_string(), "b".to_string(), "c".to_string()]);
}

fn agent(id: &str, ws: &str, template: &str, status: AgentStatus) -> AgentInstanceState {
    AgentInstanceState {
        id: id.into(),
        template: template.into(),
        name: id.into(),
        work_session_id: ws.into(),
        status,
        port: 9100,
        host: None,
        pid: None,
        started_at: "t".into(),
        token_id: None,
        session_id: None,
        spawned_by: None,
    }
}

#[test]
fn local_discovery_lists_visible_agents_in_store_order() {
    let mut store = Store::new();
    store.add_agent("p1", agent("a1", "p1", "crush", AgentStatus::Ready));
    store.add_agent("p1", agent("a2", "p1", "crush", AgentStatus::Stopped));
    store.add_agent("p2", agent("a3", "p2", "coder", AgentStatus::Busy));
    let svc = DiscoveryServiceImpl;
    let all = svc.discover_local(&store, &admin(TokenScope::Global), "", &vec![]);
    let ids: Vec<&str> = all.iter().map(|(_, a)| a.id.as_str()).collect();
    assert_eq!(ids, vec!["a1", "a3"]);
    let scoped = svc.discover_local(&store, &admin(TokenScope::Projects(vec!["p2".into()])), "", &vec![]);
    assert_eq!(scoped.len(), 1);
    assert_eq!(scoped[0].0, "p2");
    let by_template = svc.discover_local(&store, &admin(TokenScope::Global), "coder", &vec![]);
    assert_eq!(by_template.len(), 1);
    let cards = vec![("a1".to_string(), vec!["review".to_string()])];
    let by_card = svc.discover_local(&store, &admin(TokenScope::Global), "review", &cards);
    assert_eq!(by_card.len(), 1);
    assert_eq!(by_card[0].1.id, "a1");
}

#[test]
fn find_agent_mut_changes_in_place() {
    let mut store = Store::new();
    store.add_agent("p1", agent("a1", "p1", "crush", AgentStatus::Starting));
    {
        let a = store.find_agent_mut("a1").unwrap();
        a.port = 9300;
    }
    assert_eq!(store.find_agent("a1").unwrap().1.port, 9300);
    assert!(store.find_agent_mut("missing").is_none());
}

#[test]
fn agents_document_checks() {
    let err = reject_legacy("/h/state.json", Some(r#"{"workspaces":{}}"#), false).unwrap_err();
    assert!(err.starts_with("unsupported old state at /h/state.json"));
    assert!(reject_legacy("/h/state.json", Some(r#"{"workspaces":{}}"#), true).is_ok());
    assert!(reject_legacy("/h/state.json", None, false).is_ok());
    let mut old = Store::new();
    old.version = 0;
    assert_eq!(check_store_version(old).ok().unwrap().version, DOCUMENT_VERSION);
    let mut future = Store::new();
    future.version = 9;
    assert_eq!(check_store_version(future).err().unwrap(), format!("unsupported agents store version 9 (want {DOCUMENT_VERSION})"));
    let mut s = Store::new();
    s.version = 7;
    assert_eq!(stamped(s).version, DOCUMENT_VERSION);
}

#[test]
fn command_line_listing_and_create_body() {
    assert_eq!(list_path(None, None), "/api/work-sessions");
    assert_eq!(list_path(Some("open"), None), "/api/work-sessions?state=open");
    assert_eq!(list_path(None, Some("my app")), "/api/work-sessions?project_id=my%20app");
    assert_eq!(list_path(Some("open"), Some("p&q")), "/api/work-sessions?state=open&project_id=p%26q");
    assert_eq!(percent_encode("a-b_c.d~é"), "a-b_c.d~%C3%A9");
    let body = create_body("ws-1", "proj", None, Some("One"), true, false, false);
    assert_eq!(body.get_str("work_session_id").as_deref(), Some("ws-1"));
    assert_eq!(body.get_str("display_name").as_deref(), Some("One"));
    assert_eq!(body.get("no_tag").unwrap().as_bool(), Some(true));
    assert_eq!(body.get("no_launch").unwrap().as_bool(), Some(false));
    assert!(matches!(body.get("work_profile_id"), Some(awesometree::json::JsonValue::Null)));
}
