use awesometree::agent_supervisor::{
    advance, begin, health_attempt, new_agent_id, process_env, shell_command, Happening, HealthVerdict, Phase, Step,
    HEALTH_CHECK_ATTEMPTS, STOP_GRACE_MS,
};
use awesometree::bezalel::{bezalel_args, generate_token, hex_encode, plan_starts, plan_stops};
use awesometree::model::resource::WorkspaceResourceRef;
use awesometree::model::runtime::{RuntimeSecrets, WorkSessionRuntime};
use awesometree::runtime_store::RuntimeDocument;
use awesometree::state::AgentStatus;

#[test]
fn agent_id_is_name_dash_eight() {
    let id = new_agent_id("echo");
    assert!(id.starts_with("echo-"));
    assert_eq!(id.len(), "echo-".len() + 8);
    assert_ne!(new_agent_id("echo"), new_agent_id("echo"));
}

#[test]
fn shell_command_adds_cwd() {
    assert_eq!(shell_command("crush serve", "/tmp/w"), "crush serve --cwd /tmp/w");
}

#[test]
fn process_env_sets_ports_then_extra() {
    let env = process_env(9201, &vec![("ARP_TOKEN".to_string(), "t".to_string())]);
    let names: Vec<&str> = env.iter().map(|(k, _)| k.as_str()).collect();
    assert_eq!(names, vec!["PORT", "A2A_PORT", "CRUSH_ACP_PORT", "CRUSH_A2A_PORT", "ARP_TOKEN"]);
    assert!(env[..4].iter().all(|(_, v)| v == "9201"));
    assert_eq!(env[4].1, "t");
}

#[test]
fn health_budget() {
    assert_eq!(health_attempt(0, true), HealthVerdict::Healthy);
    assert_eq!(health_attempt(0, false), HealthVerdict::Retry(1));
    assert_eq!(health_attempt(HEALTH_CHECK_ATTEMPTS - 2, false), HealthVerdict::Retry(HEALTH_CHECK_ATTEMPTS - 1));
    assert_eq!(health_attempt(HEALTH_CHECK_ATTEMPTS - 1, false), HealthVerdict::GiveUp);
}

#[test]
fn lifecycle_happy_path_then_stop() {
    let (p, steps) = begin();
    assert_eq!(p, Phase::Spawning);
    assert_eq!(steps, vec![Step::SetStatus(AgentStatus::Starting), Step::Announce(AgentStatus::Starting)]);
    let (p, steps) = advance(p, Happening::Spawned(77), None);
    assert_eq!(p, Phase::CheckingHealth);
    assert_eq!(steps, vec![Step::SetPid(77)]);
    let (p, steps) = advance(p, Happening::Healthy, None);
    assert_eq!(p, Phase::FetchingCard);
    assert!(steps.is_empty());
    let (p, steps) = advance(p, Happening::CardFetched, None);
    assert_eq!(p, Phase::Running);
    assert_eq!(steps, vec![Step::SetStatus(AgentStatus::Ready), Step::Announce(AgentStatus::Ready)]);
    let (p, steps) = advance(p, Happening::StopRequested, Some(250));
    assert_eq!(p, Phase::Stopping);
    assert_eq!(steps.last(), Some(&Step::GracefulStop(250)));
    assert!(steps.contains(&Step::CancelTasks));
    let (p, steps) = advance(p, Happening::StopCompleted, None);
    assert_eq!(p, Phase::Finished);
    assert_eq!(steps, vec![Step::SetStatus(AgentStatus::Stopped), Step::AnnounceStopped, Step::Forget]);
    let (p, steps) = advance(p, Happening::Exited, None);
    assert_eq!(p, Phase::Finished);
    assert!(steps.is_empty());
}

#[test]
fn lifecycle_failures_forget_agent() {
    let (p, steps) = advance(Phase::Spawning, Happening::SpawnFailed, None);
    assert_eq!(p, Phase::Finished);
    assert_eq!(steps.last(), Some(&Step::Forget));
    let (p, steps) = advance(Phase::CheckingHealth, Happening::HealthFailed, None);
    assert_eq!(p, Phase::Finished);
    assert!(steps.contains(&Step::GracefulStop(STOP_GRACE_MS)));
    assert!(steps.contains(&Step::SetStatus(AgentStatus::Error)));
    let (p, steps) = advance(Phase::Running, Happening::Exited, None);
    assert_eq!(p, Phase::Finished);
    assert!(steps.contains(&Step::Forget));
    let (p, steps) = advance(Phase::Running, Happening::StopRequested, None);
    assert_eq!(p, Phase::Stopping);
    assert_eq!(steps.last(), Some(&Step::GracefulStop(STOP_GRACE_MS)));
}

#[test]
fn hex_is_two_lowercase_digits_per_byte() {
    assert_eq!(hex_encode(&[0x00, 0x0f, 0xa5, 0xff]), "000fa5ff");
    assert_eq!(hex_encode(&[]), "");
}

#[test]
fn tokens_are_unique_and_hex() {
    let a = generate_token();
    let b = generate_token();
    assert_ne!(a, b);
    assert_eq!(a.len(), 64);
    assert!(a.chars().all(|c| c.is_ascii_hexdigit()));
}

#[test]
fn bezalel_command_line() {
    let args = bezalel_args(9203, "/w/x", "tok");
    assert_eq!(
        args,
        vec!["--host", "127.0.0.1", "--port", "9203", "--workdir", "/w/x", "--auth-token", "tok"]
    );
}

fn headless(id: &str, port: Option<u16>, path: &str) -> WorkSessionRuntime {
    let mut rt = WorkSessionRuntime::pending(id, "h");
    rt.headless = true;
    rt.bezalel_port = port;
    rt.workspace = Some(WorkspaceResourceRef {
        workspace_id: id.into(),
        resource_id: "r".into(),
        environment_kind: "git-worktree".into(),
        path: path.into(),
    });
    rt
}

#[test]
fn sync_starts_headless_sessions_with_port_and_token() {
    let mut doc = RuntimeDocument::fresh("h");
    doc.upsert(headless("a", Some(9200), "/w/a"), "h");
    doc.upsert(headless("b", None, "/w/b"), "h");
    doc.upsert(headless("c", Some(9202), "/w/c"), "h");
    doc.upsert(headless("d", Some(9203), "/w/d"), "h");
    doc.upsert(WorkSessionRuntime::pending("e", "h"), "h");
    let mut secrets = RuntimeSecrets::new();
    secrets.set_bezalel_token("a", "ta");
    secrets.set_bezalel_token("b", "tb");
    secrets.set_bezalel_token("c", "tc");
    secrets.set_bezalel_token("d", "");
    let running = vec!["c".to_string()];
    let plans = plan_starts(&doc, &secrets, &running, true);
    assert_eq!(plans.len(), 1);
    assert_eq!(plans[0].work_session_id, "a");
    assert_eq!(plans[0].dir, "/w/a");
    assert_eq!(plans[0].port, 9200);
    assert_eq!(plans[0].token, "ta");
    let plans = plan_starts(&doc, &secrets, &running, false);
    let ids: Vec<&str> = plans.iter().map(|p| p.work_session_id.as_str()).collect();
    assert_eq!(ids, vec!["a", "d"]);
}

#[test]
fn sync_stops_gone_or_non_headless() {
    let mut doc = RuntimeDocument::fresh("h");
    doc.upsert(headless("a", Some(9200), "/w/a"), "h");
    doc.upsert(WorkSessionRuntime::pending("b", "h"), "h");
    let running = vec!["a".to_string(), "b".to_string(), "gone".to_string()];
    assert_eq!(plan_stops(&doc, &running), vec!["b".to_string(), "gone".to_string()]);
}
