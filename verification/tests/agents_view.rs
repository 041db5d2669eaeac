use awesometree::agents_view::{status_label, summary_line, truncate_id, AgentRow};
use awesometree::state::{AgentInstanceState, AgentStatus};

fn make_row(status: AgentStatus, supervisor_running: bool) -> AgentRow {
    AgentRow {
        agent: AgentInstanceState {
            id: "a-1".into(),
            template: "echo".into(),
            name: "echo".into(),
            work_session_id: "ws".into(),
            status,
            port: 9200,
            host: None,
            pid: None,
            started_at: String::new(),
            token_id: None,
            session_id: None,
            spawned_by: None,
        },
        workspace: "ws".into(),
        project: "proj".into(),
        supervisor_running,
    }
}

#[test]
fn truncate_id_short() {
    assert_eq!(truncate_id("abc", 10), "abc");
}

#[test]
fn truncate_id_exact() {
    assert_eq!(truncate_id("abcdefghij", 10), "abcdefghij");
}

#[test]
fn truncate_id_long() {
    assert_eq!(truncate_id("abcdefghijk", 10), "abcdefg...");
}

#[test]
fn status_label_ready_running() {
    let row = make_row(AgentStatus::Ready, true);
    assert_eq!(status_label(&row), "ready");
}

#[test]
fn status_label_ready_no_process() {
    let row = make_row(AgentStatus::Ready, false);
    assert_eq!(status_label(&row), "ready (no process)");
}

#[test]
fn status_label_stopped() {
    let row = make_row(AgentStatus::Stopped, false);
    assert_eq!(status_label(&row), "stopped");
}

#[test]
fn status_label_busy_without_process() {
    assert_eq!(status_label(&make_row(AgentStatus::Busy, false)), "busy (no process)");
    assert_eq!(status_label(&make_row(AgentStatus::Busy, true)), "busy");
}

#[test]
fn summary_counts_ready_and_busy() {
    let rows = vec![
        make_row(AgentStatus::Ready, true),
        make_row(AgentStatus::Busy, true),
        make_row(AgentStatus::Ready, false),
        make_row(AgentStatus::Stopped, false),
    ];
    assert_eq!(summary_line(&rows), "4 total  ·  2 ready  ·  1 busy");
    assert_eq!(summary_line(&vec![]), "0 total  ·  0 ready  ·  0 busy");
}

use awesometree::agents_view::agent_rows;
use awesometree::state::Store;

#[test]
fn rows_ordered_by_session_then_name() {
    let mut st = Store::default();
    let mut a = make_row(AgentStatus::Ready, false).agent;
    a.id = "x-1".into();
    a.name = "zed".into();
    let mut b = a.clone();
    b.id = "x-2".into();
    b.name = "amy".into();
    let mut c = a.clone();
    c.id = "x-3".into();
    c.name = "bob".into();
    st.add_agent("w2", a);
    st.add_agent("w1", b);
    st.add_agent("w2", c);
    let rows = agent_rows(&st, &vec!["x-3".to_string()]);
    let keys: Vec<(&str, &str, bool)> =
        rows.iter().map(|r| (r.workspace.as_str(), r.agent.name.as_str(), r.supervisor_running)).collect();
    assert_eq!(keys, vec![("w1", "amy", false), ("w2", "bob", true), ("w2", "zed", false)]);
    assert_eq!(rows[0].project, "w1");
}
