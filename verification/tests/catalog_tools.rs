use awesometree::json::{json_eq, JsonValue};
use awesometree::model::error::ErrorCode;
use awesometree::model::lifecycle::WorkSessionState;
use awesometree::model::work_session::WorkSession;
use awesometree::switchboard::tools::{
    envelope_of_reply, id_arguments, list_field, list_projects_arguments, list_sessions_arguments, patch_arguments,
    project_create_arguments, project_delete_arguments, project_of_reply, project_update_arguments,
    retry_after_failure, session_create_arguments, tool_arguments, tool_failure, tool_output, transition_arguments,
};

fn s(v: &str) -> JsonValue {
    JsonValue::Str(v.into())
}

fn obj(entries: Vec<(&str, JsonValue)>) -> JsonValue {
    JsonValue::Object(entries.into_iter().map(|(k, v)| (k.to_string(), v)).collect())
}

#[test]
fn failed_call_is_retried_once() {
    assert!(retry_after_failure(0));
    assert!(!retry_after_failure(1));
    assert!(!retry_after_failure(u32::MAX));
}

#[test]
fn argument_maps() {
    let m = tool_arguments(obj(vec![("a", s("1"))])).unwrap();
    assert_eq!(m.len(), 1);
    assert_eq!(m[0].0, "a");
    assert!(tool_arguments(JsonValue::Null).is_none());
    let m = tool_arguments(s("x")).unwrap();
    assert_eq!(m[0].0, "value");
    assert!(json_eq(&m[0].1, &s("x")));
}

#[test]
fn failures_become_errors() {
    let body = obj(vec![("error", obj(vec![("code", s("not_found")), ("message", s("no such project"))]))]);
    let e = tool_failure("project_get", Some(&body), &vec![]);
    assert_eq!(e.code, ErrorCode::NotFound);
    assert_eq!(e.message, "no such project");
    let e = tool_failure("project_get", None, &vec!["first".to_string(), "second".to_string()]);
    assert_eq!(e.code, ErrorCode::InternalError);
    assert_eq!(e.message, "first\nsecond");
    assert_eq!(e.operation.as_deref(), Some("project_get"));
    let e = tool_failure("project_get", None, &vec![]);
    assert_eq!(e.message, "project_get failed");
}

#[test]
fn outputs_prefer_structured_then_parsed_text() {
    assert!(json_eq(&tool_output(Some(s("sc")), vec![Some(s("t"))]), &s("sc")));
    assert!(json_eq(&tool_output(None, vec![None, Some(s("second")), Some(s("third"))]), &s("second")));
    assert!(json_eq(&tool_output(None, vec![None]), &JsonValue::Null));
}

#[test]
fn call_arguments() {
    assert!(json_eq(&id_arguments("w"), &obj(vec![("id", s("w"))])));
    assert!(json_eq(&list_projects_arguments(None), &obj(vec![])));
    assert!(json_eq(&list_projects_arguments(Some("q")), &obj(vec![("query", s("q"))])));
    assert!(json_eq(
        &list_sessions_arguments(Some("open"), Some("p")),
        &obj(vec![("state", s("open")), ("project_id", s("p"))])
    ));
    assert!(json_eq(&list_sessions_arguments(None, Some("p")), &obj(vec![("project_id", s("p"))])));
    assert!(json_eq(
        &transition_arguments("w", WorkSessionState::Closed),
        &obj(vec![("id", s("w")), ("state", s("closed"))])
    ));
    assert!(json_eq(
        &project_delete_arguments("p", "rev"),
        &obj(vec![("projectId", s("p")), ("expectedSourceRevision", s("rev"))])
    ));
    assert!(json_eq(
        &project_update_arguments("p", "rev", obj(vec![("description", s("d"))])),
        &obj(vec![
            ("projectId", s("p")),
            ("expectedSourceRevision", s("rev")),
            ("patch", obj(vec![("description", s("d"))])),
        ])
    ));
    assert!(json_eq(&project_create_arguments(obj(vec![])), &obj(vec![("definition", obj(vec![]))])));
    assert!(json_eq(
        &patch_arguments("w", Some("Name".into()), None),
        &obj(vec![("id", s("w")), ("display_name", s("Name"))])
    ));
    assert!(json_eq(&patch_arguments("w", None, Some(JsonValue::Null)), &obj(vec![("id", s("w")), ("policy", JsonValue::Null)])));
}

#[test]
fn session_create_arguments_skip_unset_fields() {
    let ws = WorkSession {
        version: "1".into(),
        work_session_id: "w".into(),
        display_name: None,
        project_id: Some("p".into()),
        project_snapshot_id: None,
        project_revision: None,
        work_profile_id: Some("default".into()),
        agent_profile_ids: vec!["a1".into()],
        state: WorkSessionState::Proposed,
        policy: None,
        created_at: None,
        updated_at: None,
        closed_at: None,
    };
    let want = obj(vec![
        ("version", s("1")),
        ("work_session_id", s("w")),
        ("state", s("proposed")),
        ("project_id", s("p")),
        ("work_profile_id", s("default")),
        ("agent_profile_ids", JsonValue::Array(vec![s("a1")])),
    ]);
    assert!(json_eq(&session_create_arguments(&ws), &want));
}

#[test]
fn reply_readers() {
    let reply = obj(vec![("projects", JsonValue::Array(vec![s("x")]))]);
    assert!(json_eq(&list_field(&reply, "projects"), &JsonValue::Array(vec![s("x")])));
    assert!(json_eq(&list_field(&reply, "work_sessions"), &JsonValue::Array(vec![])));
    let p = obj(vec![("project_id", s("p"))]);
    assert!(json_eq(&project_of_reply(&obj(vec![("project", p.clone())])), &p));
    assert!(json_eq(&project_of_reply(&p), &p));
    let env = envelope_of_reply(
        &obj(vec![("revision", s("r1")), ("definition", obj(vec![("name", s("n"))])), ("uri", s("sb://p"))]),
        "p",
        None,
    );
    assert_eq!(env.project_id, "p");
    assert_eq!(env.revision, "r1");
    assert_eq!(env.source_revision, "");
    assert_eq!(env.uri.as_deref(), Some("sb://p"));
    assert_eq!(env.definition.get_str("name").as_deref(), Some("n"));
    let env = envelope_of_reply(&obj(vec![("projectId", s("q"))]), "p", None);
    assert_eq!(env.project_id, "q");
    assert!(env.definition.is_object());
}
