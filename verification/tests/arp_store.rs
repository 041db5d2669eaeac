use awesometree::arp_store::{AgentRow, ArpStore, PORT_BASE};

fn make_agent(id: &str, ws: &str, name: &str, port: u16) -> AgentRow {
    AgentRow {
        id: id.into(),
        work_session_id: ws.into(),
        template: "crush".into(),
        name: name.into(),
        status: "ready".into(),
        port,
        host: None,
        pid: None,
        started_at: "now".into(),
        token_id: None,
        session_id: None,
        spawned_by: None,
    }
}

fn make_agent_with_status(id: &str, ws: &str, name: &str, port: u16, status: &str) -> AgentRow {
    let mut a = make_agent(id, ws, name, port);
    a.status = status.into();
    a
}

#[test]
fn add_and_get_agent() {
    let mut store = ArpStore::open_memory();
    store.add_agent(make_agent("a1", "ws1", "bot", 9100)).unwrap();
    let got = store.get_agent("a1").unwrap();
    assert_eq!(got.work_session_id, "ws1");
    assert_eq!(got.name, "bot");
    assert_eq!(store.add_agent(make_agent("a1", "ws2", "other", 9101)).unwrap_err(), "UNIQUE constraint failed: agents.id");
}

#[test]
fn list_agents_filters() {
    let mut store = ArpStore::open_memory();
    store.add_agent(make_agent("a1", "ws1", "bot", 9100)).unwrap();
    store.add_agent(make_agent("a2", "ws2", "bot", 9101)).unwrap();
    assert_eq!(store.list_agents(Some("ws1"), None, None).len(), 1);
    assert_eq!(store.list_agents(None, Some("ready"), None).len(), 2);
    assert_eq!(store.list_agents(None, None, Some("other")).len(), 0);
}

#[test]
fn resolve_prefers_ready_over_busy() {
    let mut store = ArpStore::open_memory();
    store.add_agent(make_agent_with_status("a1", "ws1", "bot", 9100, "busy")).unwrap();
    store.add_agent(make_agent_with_status("a2", "ws2", "bot", 9101, "ready")).unwrap();
    let found = store.resolve_agent("bot").unwrap();
    assert_eq!(found.id, "a2");
}

#[test]
fn resolve_skips_stopped() {
    let mut store = ArpStore::open_memory();
    store.add_agent(make_agent_with_status("a1", "ws1", "bot", 9100, "stopped")).unwrap();
    assert!(store.resolve_agent("bot").is_none());
}

#[test]
fn resolve_skips_stopping() {
    let mut store = ArpStore::open_memory();
    store.add_agent(make_agent_with_status("a1", "ws1", "bot", 9100, "stopping")).unwrap();
    assert!(store.resolve_agent("bot").is_none());
}

#[test]
fn resolve_by_id_then_least_id() {
    let mut store = ArpStore::open_memory();
    store.add_agent(make_agent_with_status("b2", "ws1", "bot", 9100, "busy")).unwrap();
    store.add_agent(make_agent_with_status("b1", "ws1", "bot", 9101, "busy")).unwrap();
    assert_eq!(store.resolve_agent("bot").unwrap().id, "b1");
    assert_eq!(store.resolve_agent("b2").unwrap().id, "b2");
    store.update_agent_status("b2", "stopped");
    assert_eq!(store.get_agent("b2").unwrap().status, "stopped");
    assert!(store.resolve_agent("b2").is_none());
}

#[test]
fn track_and_list_tasks() {
    let mut store = ArpStore::open_memory();
    store.add_agent(make_agent("a1", "ws1", "bot", 9100)).unwrap();
    store.track_task("a1", "t1", Some("ctx"), "2026-01-01 00:00:00").unwrap();
    let tasks = store.list_tasks("a1");
    assert_eq!(tasks.len(), 1);
    assert_eq!(tasks[0].task_id, "t1");
    assert_eq!(tasks[0].status, "working");
}

#[test]
fn tasks_follow_their_agent() {
    let mut store = ArpStore::open_memory();
    store.add_agent(make_agent("a1", "ws1", "bot", 9100)).unwrap();
    assert_eq!(store.track_task("zz", "t0", None, "now").unwrap_err(), "FOREIGN KEY constraint failed");
    store.track_task("a1", "t1", None, "now").unwrap();
    store.track_task("a1", "t1", Some("c2"), "now").unwrap();
    assert_eq!(store.list_tasks("a1").len(), 1);
    store.complete_task("a1", "t1", "completed");
    assert_eq!(store.list_tasks("a1")[0].status, "completed");
    store.remove_agent("a1");
    assert!(store.get_agent("a1").is_none());
    assert!(store.list_tasks("a1").is_empty());
}

#[test]
fn allocate_port_skips_used() {
    let mut store = ArpStore::open_memory();
    store.add_agent(make_agent("a1", "ws1", "bot", PORT_BASE)).unwrap();
    let port = store.allocate_agent_port_with(|_| true).unwrap();
    assert_eq!(port, PORT_BASE + 1);
}
