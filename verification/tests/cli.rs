use awesometree::cleanup::cleanup_items;
use awesometree::cli::{created_project_line, list_row, project_row, realization_from_flags, transition_line, work_profile_row};
use awesometree::model::lifecycle::WorkSessionState;
use awesometree::model::project::ProjectSummary;
use awesometree::model::resource::WorkspaceResourceRef;
use awesometree::model::runtime::{RealizationStatus, WorkSessionRuntime};
use awesometree::model::work_profile::WorkProfile;
use awesometree::model::work_session::{WorkSession, WorkSessionView};
use awesometree::sorting::{sort_by_key, text_le};

fn session(id: &str, project: Option<&str>, profile: Option<&str>, state: WorkSessionState) -> WorkSession {
    WorkSession {
        version: "1".into(),
        work_session_id: id.into(),
        display_name: None,
        project_id: project.map(|p| p.to_string()),
        project_snapshot_id: None,
        project_revision: None,
        work_profile_id: profile.map(|p| p.to_string()),
        agent_profile_ids: Vec::new(),
        state,
        policy: None,
        created_at: None,
        updated_at: None,
        closed_at: None,
    }
}

fn runtime_at(id: &str, path: &str, status: RealizationStatus) -> WorkSessionRuntime {
    let mut rt = WorkSessionRuntime::pending(id, "h");
    rt.workspace = Some(WorkspaceResourceRef {
        workspace_id: id.into(),
        resource_id: "r".into(),
        environment_kind: "git-worktree".into(),
        path: path.into(),
    });
    rt.realization_status = status;
    rt
}

#[test]
fn headless_turns_off_tag_and_apps() {
    let r = realization_from_flags(false, false, true);
    assert!(!r.create_tag && !r.launch_apps && r.headless && r.no_wm);
    let r = realization_from_flags(true, false, false);
    assert!(!r.create_tag && r.launch_apps && !r.headless && !r.no_wm);
}

#[test]
fn list_rows() {
    let v = WorkSessionView {
        work_session: session("ws-1", Some("proj"), None, WorkSessionState::Open),
        runtime: Some(runtime_at("ws-1", "/w/1", RealizationStatus::Ready)),
    };
    assert_eq!(list_row(&v), "ws-1\topen\tproj\tdefault\t/w/1");
    let v = WorkSessionView { work_session: session("ws-2", None, Some("fast"), WorkSessionState::Paused), runtime: None };
    assert_eq!(list_row(&v), "ws-2\tpaused\t-\tfast\t-");
    assert_eq!(transition_line(&v), "ws-2 -> paused");
}

#[test]
fn profile_and_project_rows() {
    let p = WorkProfile {
        version: "1".into(),
        work_profile_id: "default".into(),
        display_name: Some("Default".into()),
        description: None,
        project_ids: Vec::new(),
        intended_resources: Vec::new(),
        default_policy: None,
    };
    assert_eq!(work_profile_row(&p), "default *\tDefault");
    let q = WorkProfile { work_profile_id: "fast".into(), display_name: None, ..p.clone() };
    assert_eq!(work_profile_row(&q), "fast\tfast");
    let s = ProjectSummary {
        project_id: "p1".into(),
        title: "Title".into(),
        description: Some("desc".into()),
        revision: Some("r3".into()),
        source_revision: None,
    };
    assert_eq!(project_row(&s), "p1\tTitle\tdesc");
    assert_eq!(created_project_line(&s), "created project p1 revision=r3");
    let t = ProjectSummary { description: None, revision: None, ..s };
    assert_eq!(project_row(&t), "p1\tTitle\t");
    assert_eq!(created_project_line(&t), "created project p1 revision=-");
}

#[test]
fn cleanup_lists_sessions_and_orphans_sorted() {
    let sessions = vec![
        WorkSessionView {
            work_session: session("ws-b", Some("proj"), None, WorkSessionState::Open),
            runtime: Some(runtime_at("ws-b", "/w/b", RealizationStatus::Ready)),
        },
        WorkSessionView { work_session: session("ws-a", None, None, WorkSessionState::Paused), runtime: None },
    ];
    let runtimes = vec![
        ("ws-b".to_string(), runtime_at("ws-b", "/w/b", RealizationStatus::Ready)),
        ("ws-0".to_string(), runtime_at("ws-0", "/w/0", RealizationStatus::Failed)),
        ("ws-c".to_string(), runtime_at("ws-c", "/w/c", RealizationStatus::Cleaned)),
        ("ws-d".to_string(), runtime_at("ws-d", "/w/d", RealizationStatus::Pending)),
    ];
    let items = cleanup_items(&sessions, &runtimes);
    let ids: Vec<&str> = items.iter().map(|i| i.work_session_id.as_str()).collect();
    assert_eq!(ids, vec!["ws-0", "ws-a", "ws-b"]);
    assert!(items[0].orphan);
    assert_eq!(items[0].lifecycle, "orphan-local");
    assert_eq!(items[0].path, "/w/0");
    assert_eq!(items[0].project_id, "");
    assert!(!items[1].orphan);
    assert_eq!(items[1].lifecycle, "paused");
    assert_eq!(items[1].path, "");
    assert_eq!(items[2].project_id, "proj");
    assert_eq!(items[2].lifecycle, "open");
    assert_eq!(items[2].path, "/w/b");
}

#[test]
fn sorting_is_lexicographic() {
    assert!(text_le("abc", "abd"));
    assert!(text_le("ab", "abc"));
    assert!(text_le("", "a"));
    assert!(text_le("same", "same"));
    assert!(!text_le("b", "abc"));
    let v = vec!["pear".to_string(), "apple".to_string(), "fig".to_string(), "apple".to_string()];
    assert_eq!(sort_by_key(v), vec!["apple", "apple", "fig", "pear"]);
}

use awesometree::cli::{
    create_request, created_lines, daemon_line, daemon_reply_ok, dir_outcome, invalid_state_line, verb_target,
    DaemonRequestLine, SessionVerb,
};
use awesometree::model::work_session::CreateWorkSessionResponse;

#[test]
fn create_command_request() {
    let r = create_request("w".into(), "p".into(), None, Some("W".into()), false, true, false);
    assert_eq!(r.work_session_id, "w");
    assert_eq!(r.project_id, "p");
    assert!(r.work_profile_id.is_none());
    assert!(r.realization.create_tag && !r.realization.launch_apps && !r.realization.headless);
}

#[test]
fn created_output() {
    let resp = CreateWorkSessionResponse {
        work_session: session("w", Some("p"), None, WorkSessionState::Open),
        work_profile_id: "default".into(),
        project_revision: None,
        project_snapshot_id: None,
        realization_status: RealizationStatus::Ready,
        runtime: Some(runtime_at("w", "/w/x", RealizationStatus::Ready)),
        error: None,
    };
    assert_eq!(
        created_lines(&resp),
        vec!["work_session=w state=open work_profile=default revision=-".to_string(), "workspace_path=/w/x".to_string()]
    );
    let resp = CreateWorkSessionResponse { runtime: None, project_revision: Some("r2".into()), ..resp };
    assert_eq!(created_lines(&resp), vec!["work_session=w state=open work_profile=default revision=r2".to_string()]);
}

#[test]
fn daemon_lines_and_replies() {
    assert_eq!(daemon_line(&DaemonRequestLine::Cycle), "cycle");
    assert_eq!(daemon_line(&DaemonRequestLine::Switch("w".into())), "switch w");
    assert_eq!(daemon_line(&DaemonRequestLine::CreateInteractive), "create");
    assert_eq!(
        daemon_line(&DaemonRequestLine::LaunchAgent { work_session_id: "w".into(), agent: "bot".into() }),
        "launch-agent w bot"
    );
    assert_eq!(daemon_line(&DaemonRequestLine::MobileQr), "mobile-qr");
    assert!(daemon_reply_ok("ok"));
    assert!(daemon_reply_ok("ok queued"));
    assert!(!daemon_reply_ok("okay"));
    assert!(!daemon_reply_ok("error: nope"));
}

#[test]
fn dir_and_verbs() {
    let rt = runtime_at("w", "/w/1", RealizationStatus::Ready);
    assert_eq!(dir_outcome("w", Some(&rt)), Ok("/w/1".to_string()));
    let bare = WorkSessionRuntime::pending("w", "h");
    assert_eq!(dir_outcome("w", Some(&bare)), Err("no workspace path for w".to_string()));
    assert_eq!(dir_outcome("w", None), Err("no local runtime for w".to_string()));
    assert_eq!(verb_target(SessionVerb::Close), WorkSessionState::Closed);
    assert_eq!(verb_target(SessionVerb::Pause), WorkSessionState::Paused);
    assert_eq!(verb_target(SessionVerb::Resume), WorkSessionState::Open);
    assert_eq!(invalid_state_line("x"), "invalid state: x");
}
