use awesometree::model::resource::WorkspaceResourceRef;
use awesometree::model::error::ErrorCode;
use awesometree::model::runtime::{RealizationStatus, RuntimeSecrets, WorkSessionRuntime};
use awesometree::runtime_store::{
    allocate_bezalel_port, allocate_tag_index, check_version, host_id_or_unknown, legacy_state_check, RuntimeDocument,
};

fn runtime(id: &str, tag: Option<i32>, port: Option<u16>) -> WorkSessionRuntime {
    let mut rt = WorkSessionRuntime::pending(id, "");
    rt.tag_index = tag;
    rt.bezalel_port = port;
    rt
}

#[test]
fn runtime_roundtrip_keyed_by_work_session_id() {
    let mut doc = RuntimeDocument::fresh("testhost");
    let mut rt = runtime("ws-a", Some(11), None);
    rt.host_id = "testhost".into();
    rt.workspace = Some(WorkspaceResourceRef {
        workspace_id: "w1".into(),
        resource_id: "r1".into(),
        environment_kind: "git-worktree".into(),
        path: "/tmp/wt".into(),
    });
    rt.realization_status = RealizationStatus::Ready;
    doc.upsert(rt, "testhost");
    let got = doc.get("ws-a").expect("runtime present");
    assert_eq!(got.work_session_id, "ws-a");
    assert_eq!(got.tag_index, Some(11));
    assert!(got.workspace.is_some());
    let ws = got.workspace.as_ref().unwrap();
    assert_eq!(ws.environment_kind, "git-worktree");
    assert_eq!(ws.path, "/tmp/wt");
    assert_eq!(got.host_id, "testhost");
    doc.remove("ws-a");
    assert!(doc.get("ws-a").is_none());
}

#[test]
fn take_for_update_gives_pending_when_absent() {
    let mut doc = RuntimeDocument::fresh("h1");
    let rt = doc.take_for_update("ws-new");
    assert_eq!(rt.work_session_id, "ws-new");
    assert_eq!(rt.host_id, "h1");
    assert_eq!(rt.realization_status, RealizationStatus::Pending);
    doc.upsert(runtime("ws-b", Some(12), None), "h1");
    let rt = doc.take_for_update("ws-b");
    assert_eq!(rt.tag_index, Some(12));
    assert!(doc.get("ws-b").is_none());
}

#[test]
fn secrets_kept_apart() {
    let mut secrets = RuntimeSecrets::new();
    secrets.set_bezalel_token("ws-s", "secret-token-value");
    assert_eq!(secrets.get_bezalel_token("ws-s").as_deref(), Some("secret-token-value"));
    secrets.clear_bezalel_token("ws-s");
    assert!(secrets.get_bezalel_token("ws-s").is_none());
}

#[test]
fn rejects_legacy_workspaces_state() {
    let err = legacy_state_check("/h/state.json", Some(r#"{"workspaces":{"old":{}}}"#), false).unwrap_err();
    assert_eq!(err.code, ErrorCode::UnsupportedOldState);
    assert!(legacy_state_check("/h/state.json", Some(r#"{"workspaces":{}}"#), true).is_ok());
    assert!(legacy_state_check("/h/state.json", Some("{}"), false).is_ok());
    assert!(legacy_state_check("/h/state.json", None, false).is_ok());
}

#[test]
fn version_is_checked() {
    let doc = RuntimeDocument { version: 1, host_id: "h".into(), runtimes: vec![] };
    let err = check_version(doc).unwrap_err();
    assert_eq!(err.message, "runtime store version 1 unsupported (want 2)");
    assert!(check_version(RuntimeDocument::fresh("h")).is_ok());
}

#[test]
fn tag_and_port_allocation() {
    let mut doc = RuntimeDocument::fresh("h");
    doc.upsert(runtime("a", Some(10), Some(9200)), "h");
    doc.upsert(runtime("b", Some(11), None), "h");
    assert_eq!(allocate_tag_index(&doc, "x"), 12);
    assert_eq!(allocate_tag_index(&doc, "a"), 10);
    assert_eq!(allocate_bezalel_port(&doc, "x", |_| true), Some(9201));
    assert_eq!(allocate_bezalel_port(&doc, "a", |_| true), Some(9200));
    assert_eq!(allocate_bezalel_port(&doc, "x", |_| false), None);
}

#[test]
fn host_id_fallback() {
    assert_eq!(host_id_or_unknown(None), "unknown-host");
    assert_eq!(host_id_or_unknown(Some("box".into())), "box");
}
