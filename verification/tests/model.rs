use awesometree::json::JsonValue;
use awesometree::model::error::{ErrorCode, SwitchboardError};
use awesometree::model::lifecycle::WorkSessionState;
use awesometree::model::policy::policy_narrows;
use awesometree::model::work_profile::{eligible_for_project, WorkProfile};
use awesometree::model::work_session::{CreateWorkSessionRequest, RealizationOptions, DEFAULT_WORK_PROFILE_ID};

fn obj(entries: Vec<(&str, JsonValue)>) -> JsonValue {
    JsonValue::Object(entries.into_iter().map(|(k, v)| (k.to_string(), v)).collect())
}

fn s(v: &str) -> JsonValue {
    JsonValue::Str(v.to_string())
}

fn profile(id: &str, projects: &[&str]) -> WorkProfile {
    WorkProfile {
        version: "1".into(),
        work_profile_id: id.into(),
        display_name: None,
        description: None,
        project_ids: projects.iter().map(|p| p.to_string()).collect(),
        intended_resources: vec![],
        default_policy: None,
    }
}

#[test]
fn create_request_explicit_profile() {
    let req = CreateWorkSessionRequest {
        work_session_id: "ws-1".into(),
        project_id: "demo".into(),
        work_profile_id: Some("review".into()),
        display_name: None,
        realization: RealizationOptions::default(),
    };
    assert_eq!(req.resolved_work_profile_id(), "review");
}

#[test]
fn create_request_defaults_profile_omission() {
    let req = CreateWorkSessionRequest {
        work_session_id: "ws-1".into(),
        project_id: "demo".into(),
        work_profile_id: None,
        display_name: None,
        realization: RealizationOptions::default(),
    };
    assert_eq!(req.resolved_work_profile_id(), DEFAULT_WORK_PROFILE_ID);
}

#[test]
fn lifecycle_transitions() {
    assert!(WorkSessionState::Proposed.can_transition_to(WorkSessionState::Open));
    assert!(WorkSessionState::Proposed.can_transition_to(WorkSessionState::Aborted));
    assert!(!WorkSessionState::Closed.can_transition_to(WorkSessionState::Open));
    assert!(!WorkSessionState::Aborted.can_transition_to(WorkSessionState::Open));
    assert!(WorkSessionState::Open.can_transition_to(WorkSessionState::Paused));
    assert!(WorkSessionState::Paused.can_transition_to(WorkSessionState::Open));
}

#[test]
fn work_session_state_roundtrip() {
    for st in [
        WorkSessionState::Proposed,
        WorkSessionState::Open,
        WorkSessionState::Paused,
        WorkSessionState::Closed,
        WorkSessionState::Aborted,
    ] {
        assert_eq!(WorkSessionState::parse(st.as_str()), Some(st));
    }
    assert_eq!(WorkSessionState::parse("bogus"), None);
}

#[test]
fn policy_narrowing() {
    let parent = obj(vec![("network", JsonValue::Bool(false)), ("write", JsonValue::Bool(true))]);
    let ok_child = obj(vec![("write", JsonValue::Bool(false))]);
    assert!(policy_narrows(&parent, &ok_child).is_ok());
    let bad = obj(vec![("network", JsonValue::Bool(true))]);
    let err = policy_narrows(&parent, &bad).unwrap_err();
    assert_eq!(err.code, ErrorCode::PolicyBroadening);
}

#[test]
fn maps_typed_error_body() {
    let body = obj(vec![(
        "error",
        obj(vec![
            ("code", s("missing_default_profile")),
            ("message", s("default missing")),
            ("entity_kind", s("work_profile")),
            ("entity_id", s("default")),
        ]),
    )]);
    let e = SwitchboardError::from_switchboard_body(&body, "create");
    assert_eq!(e.code, ErrorCode::MissingDefaultProfile);
    assert_eq!(e.entity_id.as_deref(), Some("default"));
}

#[test]
fn maps_revision_conflict() {
    let body = obj(vec![(
        "error",
        obj(vec![
            ("code", s("revision_conflict")),
            ("message", s("project revision changed")),
            ("projectId", s("demo")),
            ("expectedSourceRevision", s("sha256:aaa")),
            ("currentSourceRevision", s("sha256:bbb")),
        ]),
    )]);
    let e = SwitchboardError::from_switchboard_body(&body, "project_update");
    assert_eq!(e.code, ErrorCode::Conflict);
    assert_eq!(e.expected.as_deref(), Some("sha256:aaa"));
    assert_eq!(e.current.as_deref(), Some("sha256:bbb"));
}

#[test]
fn error_code_names_round_trip() {
    for c in [ErrorCode::NotFound, ErrorCode::Conflict, ErrorCode::UnsupportedOldState, ErrorCode::MissingDefaultProfile] {
        assert_eq!(ErrorCode::parse(c.as_str()), c);
    }
    assert_eq!(ErrorCode::parse("project_not_found"), ErrorCode::NotFound);
    assert_eq!(ErrorCode::parse("whatever"), ErrorCode::InternalError);
    let e = SwitchboardError::new(ErrorCode::Conflict, "changed");
    assert_eq!(e.to_string(), "conflict: changed");
}

#[test]
fn no_project_yields_no_profiles() {
    let all = vec![profile("default", &[]), profile("curri-only", &["curri"])];
    assert!(eligible_for_project(&all, "").is_empty());
}

#[test]
fn global_and_matching_project_profiles() {
    let all = vec![profile("default", &[]), profile("curri-only", &["curri"]), profile("other-only", &["other"])];
    let ids: Vec<&str> = eligible_for_project(&all, "curri").iter().map(|p| p.work_profile_id.as_str()).collect();
    assert_eq!(ids, vec!["default", "curri-only"]);
    assert!(!ids.contains(&"other-only"));
}

#[test]
fn foreign_project_profile_excluded() {
    let all = vec![profile("other-only", &["other"])];
    assert!(eligible_for_project(&all, "curri").is_empty());
}
