use awesometree::state::{AgentInstanceState, AgentStatus, Store};

fn make_agent(id: &str, name: &str, ws: &str, port: u16) -> AgentInstanceState {
    AgentInstanceState {
        id: id.into(),
        template: "crush".into(),
        name: name.into(),
        work_session_id: ws.into(),
        status: AgentStatus::Ready,
        port,
        host: None,
        pid: None,
        started_at: "now".into(),
        token_id: None,
        session_id: None,
        spawned_by: None,
    }
}

#[test]
fn agent_base_url() {
    let a = make_agent("a", "n", "ws", 9100);
    assert_eq!(a.base_url(), "http://127.0.0.1:9100");
}

#[test]
fn store_find_agent() {
    let mut s = Store::default();
    s.add_agent("ws1", make_agent("a1", "bot", "ws1", 9100));
    assert!(s.find_agent("a1").is_some());
}

#[test]
fn agent_status_display() {
    assert_eq!(AgentStatus::Starting.to_string(), "starting");
    assert_eq!(AgentStatus::Ready.to_string(), "ready");
    assert_eq!(AgentStatus::Busy.to_string(), "busy");
    assert_eq!(AgentStatus::Error.to_string(), "error");
    assert_eq!(AgentStatus::Stopping.to_string(), "stopping");
    assert_eq!(AgentStatus::Stopped.to_string(), "stopped");
}

#[test]
fn agent_status_default_is_stopped() {
    let status = AgentStatus::default();
    assert_eq!(status, AgentStatus::Stopped);
}

#[test]
fn add_and_find_agent() {
    let mut s = Store::default();
    s.add_agent("ws1", make_agent("a1", "main", "ws1", 9100));
    let (ws, a) = s.find_agent("a1").unwrap();
    assert_eq!(ws, "ws1");
    assert_eq!(a.name, "main");
    assert_eq!(a.work_session_id, "ws1");
}

#[test]
fn find_agent_by_name_prefers_ready() {
    let mut s = Store::default();
    let mut busy = make_agent("a1", "bot", "ws1", 9100);
    busy.status = AgentStatus::Busy;
    let ready = make_agent("a2", "bot", "ws2", 9101);
    s.add_agent("ws1", busy);
    s.add_agent("ws2", ready);
    let (ws, a) = s.find_agent_by_name("bot").unwrap();
    assert_eq!(ws, "ws2");
    assert_eq!(a.id, "a2");
}

#[test]
fn base_url_defaults_to_localhost() {
    let a = make_agent("a", "n", "ws", 9123);
    assert_eq!(a.base_url(), "http://127.0.0.1:9123");
}

#[test]
fn base_url_uses_host() {
    let mut a = make_agent("a", "n", "ws", 9123);
    a.host = Some("example.org".into());
    assert_eq!(a.base_url(), "http://example.org:9123");
    a.host = Some("https://agent.example.org".into());
    assert_eq!(a.base_url(), "https://agent.example.org");
}

#[test]
fn resolve_skips_stopped_and_removes() {
    let mut s = Store::default();
    let mut stopped = make_agent("a1", "bot", "ws1", 9100);
    stopped.status = AgentStatus::Stopped;
    s.add_agent("ws1", stopped);
    s.add_agent("ws1", make_agent("a2", "bot", "ws1", 9101));
    let (_, a) = s.resolve_agent_flexible("bot").unwrap();
    assert_eq!(a.id, "a2");
    assert!(s.remove_agent("a2"));
    assert!(!s.remove_agent("a2"));
    assert!(s.find_agent("a2").is_none());
}

#[test]
fn store_port_allocation_skips_used() {
    let mut s = Store::default();
    s.add_agent("ws1", make_agent("a1", "bot", "ws1", 9100));
    let p = s.allocate_agent_port(None, |_| true).unwrap();
    assert_eq!(p, 9101);
    let p = s.allocate_agent_port(Some("a1"), |_| true).unwrap();
    assert_eq!(p, 9100);
    let p = s.allocate_agent_port(None, |port| port >= 9150).unwrap();
    assert_eq!(p, 9150);
    assert!(s.allocate_agent_port(None, |_| false).is_none());
}

#[test]
fn update_status_and_remove_session() {
    let mut s = Store::default();
    s.add_agent("ws1", make_agent("a1", "bot", "ws1", 9100));
    s.update_agent_status("a1", AgentStatus::Busy);
    assert_eq!(s.find_agent("a1").unwrap().1.status, AgentStatus::Busy);
    assert!(s.has_work_session("ws1"));
    s.remove_session_agents("ws1");
    assert!(!s.has_work_session("ws1"));
}
