use awesometree::daemon::{
    sock_path, classify_line, command_reply, create_reply, parse_command, parse_work_session_create, DaemonCmd, DaemonRequest,
};
use awesometree::model::error::{ErrorCode, SwitchboardError};

#[test]
fn parse_command_pick() {
    assert!(matches!(parse_command("pick"), Some(DaemonCmd::Pick)));
}

#[test]
fn parse_command_create() {
    assert!(matches!(parse_command("create"), Some(DaemonCmd::Create)));
}

#[test]
fn parse_command_projects() {
    assert!(matches!(parse_command("projects"), Some(DaemonCmd::Projects)));
    assert!(matches!(parse_command("projects-ui"), Some(DaemonCmd::Projects)));
}

#[test]
fn parse_command_launch_agent() {
    assert!(matches!(parse_command("launch-agent"), Some(DaemonCmd::LaunchAgent)));
}

#[test]
fn parse_command_agents() {
    assert!(matches!(parse_command("agents"), Some(DaemonCmd::Agents)));
    assert!(matches!(parse_command("agents-ui"), Some(DaemonCmd::Agents)));
}

#[test]
fn parse_command_restart() {
    assert!(matches!(parse_command("restart"), Some(DaemonCmd::Restart)));
}

#[test]
fn parse_command_reload() {
    assert!(matches!(parse_command("reload"), Some(DaemonCmd::Reload)));
}

#[test]
fn parse_command_logs() {
    assert!(matches!(parse_command("logs"), Some(DaemonCmd::Logs)));
}

#[test]
fn parse_command_mobile_qr() {
    assert!(matches!(parse_command("mobile-qr"), Some(DaemonCmd::MobileQr)));
}

#[test]
fn parse_command_cleanup() {
    assert!(matches!(parse_command("cleanup"), Some(DaemonCmd::Cleanup)));
}

#[test]
fn parse_command_unknown() {
    assert!(parse_command("unknown").is_none());
}

#[test]
fn work_session_create_is_not_async_daemon_cmd() {
    assert!(parse_command("work-session-create ws p").is_none());
}

#[test]
fn parse_command_empty() {
    assert!(parse_command("").is_none());
}

#[test]
fn parse_command_case_sensitive() {
    assert!(parse_command("Pick").is_none());
    assert!(parse_command("PICK").is_none());
}

#[test]
fn socket_lines_are_trimmed_and_classified() {
    match classify_line("  pick\n") {
        DaemonRequest::Command(Some(DaemonCmd::Pick)) => {}
        other => panic!("unexpected {:?}", other),
    }
    match classify_line("work-session-create ws1 proj --headless\n") {
        DaemonRequest::WorkSessionCreate(args) => assert_eq!(args, "ws1 proj --headless"),
        other => panic!("unexpected {:?}", other),
    }
    match classify_line("bogus") {
        DaemonRequest::Command(None) => {}
        other => panic!("unexpected {:?}", other),
    }
    assert_eq!(command_reply(&Some(DaemonCmd::Logs)), "ok");
    assert_eq!(command_reply(&None), "unknown command");
}

#[test]
fn work_session_create_args_parse() {
    let req = parse_work_session_create("ws1  proj --profile review --headless").unwrap();
    assert_eq!(req.work_session_id, "ws1");
    assert_eq!(req.project_id, "proj");
    assert_eq!(req.work_profile_id.as_deref(), Some("review"));
    assert_eq!(req.display_name.as_deref(), Some("ws1"));
    assert!(req.realization.headless && req.realization.no_wm);
    assert!(!req.realization.create_tag && !req.realization.launch_apps);

    let req = parse_work_session_create("ws2 proj").unwrap();
    assert!(req.work_profile_id.is_none());
    assert!(req.realization.create_tag && req.realization.launch_apps);
}

#[test]
fn work_session_create_args_errors() {
    assert_eq!(
        parse_work_session_create("only-one").unwrap_err(),
        "error: usage: work-session-create <work_session_id> <project_id> [--profile ID] [--headless]"
    );
    assert_eq!(parse_work_session_create("a b --bogus").unwrap_err(), "error: unknown arg --bogus");
    assert_eq!(parse_work_session_create("a b --profile").unwrap_err(), "error: unknown arg --profile");
}

#[test]
fn create_reply_for_error() {
    let e = SwitchboardError::new(ErrorCode::NotFound, "no such project");
    let line = create_reply(&Err(e));
    assert_eq!(line, "error: not_found: no such project");
}

#[test]
fn sock_path_ends_with_daemon_sock() {
    let p = sock_path("/home/u");
    assert!(p.ends_with("daemon.sock"));
    assert!(p.contains("awesometree"));
    assert_eq!(p, "/home/u/.config/awesometree/daemon.sock");
}
