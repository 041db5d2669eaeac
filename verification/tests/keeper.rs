use awesometree::agent_supervisor::cancel_requests;
use awesometree::keeper::{
    acp_command_line, acp_env, acp_url, keeper_step, KeeperEvent, KeeperPhase, KeeperState, KeeperStep, Keepers,
    RESTART_DELAY_MS, STOP_GRACE_MS,
};

fn at(phase: KeeperPhase) -> KeeperState {
    KeeperState { phase, stop_pending: false }
}

#[test]
fn exit_restarts_after_delay() {
    let (s, steps) = keeper_step(at(KeeperPhase::Running), KeeperEvent::Exited, false);
    assert_eq!(s, at(KeeperPhase::Waiting));
    assert_eq!(steps, vec![KeeperStep::Sleep(RESTART_DELAY_MS)]);
    let (s, steps) = keeper_step(s, KeeperEvent::DelayElapsed, false);
    assert_eq!(s, at(KeeperPhase::Spawning));
    assert_eq!(steps, vec![KeeperStep::Spawn]);
    assert_eq!(RESTART_DELAY_MS, 2000);
}

#[test]
fn spawn_records_port_only_when_asked() {
    let (s, steps) = keeper_step(at(KeeperPhase::Spawning), KeeperEvent::Spawned, true);
    assert_eq!(s, at(KeeperPhase::Running));
    assert_eq!(steps, vec![KeeperStep::RecordPort]);
    let (_, steps) = keeper_step(at(KeeperPhase::Spawning), KeeperEvent::Spawned, false);
    assert!(steps.is_empty());
}

#[test]
fn stop_while_running_terminates_with_grace() {
    let (s, steps) = keeper_step(at(KeeperPhase::Running), KeeperEvent::StopRequested, false);
    assert_eq!(s, at(KeeperPhase::Stopping));
    assert_eq!(steps, vec![KeeperStep::GracefulStop(STOP_GRACE_MS)]);
    assert_eq!(STOP_GRACE_MS, 5000);
    let (s, steps) = keeper_step(s, KeeperEvent::StopCompleted, false);
    assert_eq!(s.phase, KeeperPhase::Finished);
    assert_eq!(steps, vec![KeeperStep::Forget]);
}

#[test]
fn stop_during_spawn_is_honoured_afterwards() {
    let (s, steps) = keeper_step(at(KeeperPhase::Spawning), KeeperEvent::StopRequested, true);
    assert!(s.stop_pending);
    assert!(steps.is_empty());
    let (s2, steps) = keeper_step(s, KeeperEvent::Spawned, true);
    assert_eq!(s2, at(KeeperPhase::Stopping));
    assert_eq!(steps, vec![KeeperStep::RecordPort, KeeperStep::GracefulStop(STOP_GRACE_MS)]);
    let (s3, steps) = keeper_step(s, KeeperEvent::SpawnFailed, true);
    assert_eq!(s3.phase, KeeperPhase::Finished);
    assert_eq!(steps, vec![KeeperStep::Forget]);
}

#[test]
fn stop_while_waiting_ends_at_once() {
    let (s, steps) = keeper_step(at(KeeperPhase::Waiting), KeeperEvent::StopRequested, false);
    assert_eq!(s.phase, KeeperPhase::Finished);
    assert_eq!(steps, vec![KeeperStep::Forget]);
}

#[test]
fn unrelated_event_changes_nothing() {
    let (s, steps) = keeper_step(at(KeeperPhase::Waiting), KeeperEvent::Exited, false);
    assert_eq!(s, at(KeeperPhase::Waiting));
    assert!(steps.is_empty());
}

#[test]
fn table_keeps_each_workspace_once() {
    let mut k = Keepers::new();
    assert!(!k.is_running("ws"));
    assert_eq!(k.start("ws"), vec![KeeperStep::Spawn]);
    assert!(k.is_running("ws"));
    assert!(k.start("ws").is_empty());
    assert_eq!(k.start("other"), vec![KeeperStep::Spawn]);
    let mut names = k.running_workspaces();
    names.sort();
    assert_eq!(names, vec!["other".to_string(), "ws".to_string()]);

    assert!(k.report("ws", KeeperEvent::Spawned, false).is_empty());
    assert_eq!(k.stop("ws"), vec![KeeperStep::GracefulStop(STOP_GRACE_MS)]);
    assert!(k.is_running("ws"));
    assert_eq!(k.report("ws", KeeperEvent::StopCompleted, false), vec![KeeperStep::Forget]);
    assert!(!k.is_running("ws"));
    assert!(k.is_running("other"));
    assert!(k.stop("missing").is_empty());
}

#[test]
fn acp_command_defaults_to_crush() {
    assert_eq!(acp_command_line(None, "/w"), "crush serve --cwd /w");
    assert_eq!(acp_command_line(Some("agent run"), "/w"), "agent run --cwd /w");
    let env = acp_env(7001);
    assert_eq!(env, vec![("PORT".to_string(), "7001".to_string()), ("CRUSH_ACP_PORT".to_string(), "7001".to_string())]);
    assert_eq!(acp_url(7001), "http://127.0.0.1:7001");
}

#[test]
fn cancel_requests_name_each_task() {
    let ids = vec!["t1".to_string(), "t2".to_string()];
    let reqs = cancel_requests(&ids);
    assert_eq!(reqs.len(), 2);
    assert_eq!(reqs[0].get_str("method").as_deref(), Some("tasks/cancel"));
    assert_eq!(reqs[0].get_str("jsonrpc").as_deref(), Some("2.0"));
    assert_eq!(reqs[1].get("params").unwrap().get_str("id").as_deref(), Some("t2"));
    assert_ne!(reqs[0].get_str("id"), reqs[1].get_str("id"));
}
