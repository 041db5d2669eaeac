use awesometree::a2a::{
    is_discovered, is_listed, pick_route, resolve_agent, route_tags, DiscoverQuery, RouteCandidate, RoutingCriteria,
};
use awesometree::auth::{Permission, ScopedToken, TokenScope};
use awesometree::state::{AgentInstanceState, AgentStatus, Store};

fn agent(id: &str, name: &str, status: AgentStatus, session: Option<&str>) -> AgentInstanceState {
    AgentInstanceState {
        id: id.into(),
        template: "crush".into(),
        name: name.into(),
        work_session_id: String::new(),
        status,
        port: 9300,
        host: None,
        pid: None,
        started_at: String::new(),
        token_id: None,
        session_id: session.map(|s| s.to_string()),
        spawned_by: None,
    }
}

fn token(scope: TokenScope, permission: Permission, session: Option<&str>) -> ScopedToken {
    ScopedToken {
        id: "t".into(),
        subject: "s".into(),
        scope,
        permission,
        session_id: session.map(|s| s.to_string()),
        issued_at: String::new(),
        expires_at: None,
        parent_token_id: None,
    }
}

fn store() -> Store {
    let mut s = Store::default();
    s.add_agent("alpha", agent("a-1", "coder", AgentStatus::Ready, Some("s1")));
    s.add_agent("beta", agent("b-1", "checker", AgentStatus::Busy, None));
    s
}

#[test]
fn resolve_agent_by_id_and_name() {
    let s = store();
    let admin = token(TokenScope::Global, Permission::Admin, None);
    let r = resolve_agent(&s, "a-1", &admin).ok().expect("found");
    assert_eq!(r.project, "alpha");
    assert_eq!(r.url, "http://127.0.0.1:9300");
    assert_eq!(r.agent.id, "a-1");
    let r = resolve_agent(&s, "checker", &admin).ok().expect("found by name");
    assert_eq!(r.agent.id, "b-1");
}

#[test]
fn resolve_agent_refusals() {
    let s = store();
    let admin = token(TokenScope::Global, Permission::Admin, None);
    let e = resolve_agent(&s, "nobody", &admin).err().expect("refused");
    assert_eq!(e.status, 404);
    assert_eq!(e.message, "agent not found: nobody");
    let narrow = token(TokenScope::Projects(vec!["beta".into()]), Permission::Project, None);
    let e = resolve_agent(&s, "a-1", &narrow).err().expect("refused");
    assert_eq!(e.status, 403);
    assert_eq!(e.message, "token scope does not include project: alpha");
    let other_session = token(TokenScope::Global, Permission::Session, Some("s2"));
    let e = resolve_agent(&s, "a-1", &other_session).err().expect("refused");
    assert_eq!(e.status, 403);
    assert_eq!(e.message, "session-scoped token cannot access agent: a-1");
    let own_session = token(TokenScope::Global, Permission::Session, Some("s1"));
    assert!(resolve_agent(&s, "a-1", &own_session).is_ok());
}

#[test]
fn listing_needs_live_agent_in_scope() {
    let admin = token(TokenScope::Global, Permission::Admin, None);
    assert!(is_listed(&admin, "alpha", &agent("x", "n", AgentStatus::Ready, None)));
    assert!(is_listed(&admin, "alpha", &agent("x", "n", AgentStatus::Busy, None)));
    assert!(!is_listed(&admin, "alpha", &agent("x", "n", AgentStatus::Stopped, None)));
    let narrow = token(TokenScope::Projects(vec!["beta".into()]), Permission::Admin, None);
    assert!(!is_listed(&narrow, "alpha", &agent("x", "n", AgentStatus::Ready, None)));
}

#[test]
fn discovery_filters() {
    let admin = token(TokenScope::Global, Permission::Admin, None);
    let a = agent("x", "n", AgentStatus::Starting, None);
    let tags = vec!["review".to_string()];
    assert!(!is_discovered(&admin, "alpha", &a, &DiscoverQuery::default(), &tags));
    let q = DiscoverQuery { capability: None, work_session_id: None, status: Some("starting".into()) };
    assert!(is_discovered(&admin, "alpha", &a, &q, &tags));
    let ready = agent("y", "n", AgentStatus::Ready, None);
    let q = DiscoverQuery { capability: Some("review".into()), work_session_id: Some("alpha".into()), status: None };
    assert!(is_discovered(&admin, "alpha", &ready, &q, &tags));
    assert!(!is_discovered(&admin, "beta", &ready, &q, &tags));
    let q = DiscoverQuery { capability: Some("deploy".into()), work_session_id: None, status: None };
    assert!(!is_discovered(&admin, "alpha", &ready, &q, &tags));
}

#[test]
fn route_tags_from_criteria() {
    assert!(route_tags(None).ok().expect("no routing").is_empty());
    let r = RoutingCriteria { tags: Some(vec!["a".into()]), capability: Some("b".into()) };
    assert_eq!(route_tags(Some(r)).ok().expect("tags"), vec!["a".to_string(), "b".to_string()]);
    let e = route_tags(Some(RoutingCriteria { tags: None, capability: None })).err().expect("refused");
    assert_eq!(e.status, 400);
    assert_eq!(e.message, "routing provided but no tags or capability specified");
}

fn cand(status: AgentStatus, tags: &[&str]) -> RouteCandidate {
    RouteCandidate { status, skill_tags: tags.iter().map(|t| t.to_string()).collect() }
}

#[test]
fn route_prefers_ready_then_busy() {
    let cs = vec![
        cand(AgentStatus::Busy, &["review"]),
        cand(AgentStatus::Ready, &["deploy"]),
        cand(AgentStatus::Ready, &["review"]),
    ];
    assert_eq!(pick_route(&cs, &vec!["review".to_string()]), Some(2));
    assert_eq!(pick_route(&cs, &vec![]), Some(1));
    let busy_only = vec![cand(AgentStatus::Stopped, &["review"]), cand(AgentStatus::Busy, &["review"])];
    assert_eq!(pick_route(&busy_only, &vec!["review".to_string()]), Some(1));
    assert_eq!(pick_route(&busy_only, &vec!["other".to_string()]), None);
}

use awesometree::a2a::{agent_path, arp_metadata, card_tags, forwards_header, proxy_interface_url, proxy_target, synthetic_card, CardInfo, SkillInfo};

#[test]
fn synthetic_card_is_tagged_with_template() {
    let mut a = agent("a-1", "coder", AgentStatus::Ready, None);
    a.template = "crush".into();
    let card = synthetic_card(&a);
    assert_eq!(card.name, "coder");
    assert_eq!(card.description, "crush agent (coder)");
    assert_eq!(card.version, "1.0.0");
    assert_eq!(card.skills.len(), 1);
    assert_eq!(card.skills[0].id, "general");
    assert_eq!(card_tags(&card), vec!["crush".to_string()]);
    assert_eq!(card.streaming, Some(true));
    assert_eq!(card.push_notifications, Some(false));
}

#[test]
fn card_tags_span_all_skills() {
    let skill = |tags: &[&str]| SkillInfo {
        id: "s".into(),
        name: "S".into(),
        description: String::new(),
        tags: tags.iter().map(|t| t.to_string()).collect(),
    };
    let card = CardInfo {
        name: "n".into(),
        description: String::new(),
        version: "1".into(),
        skills: vec![skill(&["a", "b"]), skill(&[]), skill(&["c"])],
        default_input_modes: vec![],
        default_output_modes: vec![],
        streaming: None,
        push_notifications: None,
    };
    assert_eq!(card_tags(&card), vec!["a".to_string(), "b".to_string(), "c".to_string()]);
}

#[test]
fn proxy_urls_and_metadata() {
    assert_eq!(proxy_interface_url("a-1"), "http://localhost:9099/a2a/agents/a-1");
    assert_eq!(proxy_target("http://127.0.0.1:9300", "/x", Some("a=1")), "http://127.0.0.1:9300/x?a=1");
    assert_eq!(proxy_target("http://127.0.0.1:9300", "/", None), "http://127.0.0.1:9300/");
    assert!(!forwards_header("host"));
    assert!(forwards_header("content-type"));
    assert_eq!(agent_path("message:send"), "/message:send");
    let mut a = agent("a-1", "coder", AgentStatus::Busy, None);
    a.work_session_id = "ws".into();
    let m = arp_metadata(&a, "proj");
    let arp = m.get("arp").unwrap();
    assert_eq!(arp.get_str("agent_id").as_deref(), Some("a-1"));
    assert_eq!(arp.get_str("workspace").as_deref(), Some("ws"));
    assert_eq!(arp.get_str("project").as_deref(), Some("proj"));
    assert_eq!(arp.get_str("status").as_deref(), Some("busy"));
    assert_eq!(arp.get_str("direct_url").as_deref(), Some("http://localhost:9300"));
}
