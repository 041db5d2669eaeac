use awesometree::api::client::{
    content_length_of, delete_project_path, is_header_end, parse_work_session_value, project_info, reply_outcome,
    session_object, status_code, transition_path, work_session_path, ApiClient,
};
use awesometree::api::models::ApiError;
use awesometree::json::{json_eq, JsonValue};

fn obj(entries: Vec<(&str, JsonValue)>) -> JsonValue {
    JsonValue::Object(entries.into_iter().map(|(k, v)| (k.to_string(), v)).collect())
}

fn s(v: &str) -> JsonValue {
    JsonValue::Str(v.to_string())
}

#[test]
fn request_text_is_http11() {
    let c = ApiClient::new("10.0.0.2".into(), 9099, "tok".into());
    assert_eq!(c.address(), "10.0.0.2:9099");
    let req = c.request_text("POST", "/api/x", Some("{}"));
    assert_eq!(
        req,
        "POST /api/x HTTP/1.1\r\nHost: 10.0.0.2:9099\r\nAuthorization: Bearer tok\r\nContent-Type: application/json\r\nContent-Length: 2\r\nConnection: close\r\n\r\n{}"
    );
    let req = c.request_text("GET", "/api/y", None);
    assert!(req.ends_with("Content-Length: 0\r\nConnection: close\r\n\r\n"));
}

#[test]
fn status_and_headers() {
    assert_eq!(status_code("HTTP/1.1 200 OK\r\n"), 200);
    assert_eq!(status_code("HTTP/1.1 401 Unauthorized"), 401);
    assert_eq!(status_code("garbage"), 0);
    assert_eq!(status_code("HTTP/1.1 99999 X"), 0);
    assert!(is_header_end("\r\n"));
    assert!(is_header_end(""));
    assert!(!is_header_end("Host: x\r\n"));
    assert_eq!(content_length_of("Content-Length: 42\r\n"), Some(Some(42)));
    assert_eq!(content_length_of("content-LENGTH:7"), Some(Some(7)));
    assert_eq!(content_length_of("Content-Length: x\r\n"), Some(None));
    assert_eq!(content_length_of("Content-Type: json\r\n"), None);
}

#[test]
fn reply_outcomes() {
    assert!(matches!(reply_outcome(401, "x".into()), Err(ApiError::AuthFailed)));
    match reply_outcome(500, "boom".into()) {
        Err(ApiError::Server { status, message }) => {
            assert_eq!(status, 500);
            assert_eq!(message, "boom");
        }
        _ => panic!("expected server error"),
    }
    assert_eq!(reply_outcome(204, "ok".into()).unwrap(), "ok");
    assert_eq!(ApiError::Server { status: 404, message: "nope".into() }.to_string(), "Server error (404): nope");
    assert_eq!(ApiError::AuthFailed.to_string(), "Authentication failed");
}

#[test]
fn paths() {
    assert_eq!(work_session_path("w1"), "/api/work-sessions/w1");
    assert_eq!(transition_path("w1"), "/api/work-sessions/w1/transition");
    assert_eq!(delete_project_path("p", "sha:1"), "/api/projects/p?expected_source_revision=sha:1");
}

#[test]
fn work_session_view_parsing() {
    let view = obj(vec![
        ("work_session", obj(vec![("work_session_id", s("ws1")), ("state", s("open")), ("project_id", s("demo"))])),
        (
            "runtime",
            obj(vec![
                ("workspace", obj(vec![("path", s("/wt/ws1"))])),
                ("realization_status", s("ready")),
                ("headless", JsonValue::Bool(true)),
            ]),
        ),
    ]);
    let ws = session_object(&view);
    let info = parse_work_session_value(ws, view.get("runtime"), "\"open\"");
    assert_eq!(info.work_session_id, "ws1");
    assert_eq!(info.state, "open");
    assert_eq!(info.project_id.as_deref(), Some("demo"));
    assert_eq!(info.dir.as_deref(), Some("/wt/ws1"));
    assert_eq!(info.realization_status.as_deref(), Some("ready"));
    assert!(info.headless);
    assert!(info.work_profile_id.is_none());

    let bare = obj(vec![("work_session_id", s("ws2")), ("state", JsonValue::Number("3".into()))]);
    let info = parse_work_session_value(session_object(&bare), None, "3");
    assert_eq!(info.state, "3");
    assert!(!info.headless);
}

#[test]
fn project_info_reads_either_case() {
    let v = obj(vec![("projectId", s("p1")), ("title", s("P one")), ("source_revision", s("r9"))]);
    let p = project_info(&v);
    assert_eq!(p.project_id, "p1");
    assert_eq!(p.title, "P one");
    assert_eq!(p.source_revision.as_deref(), Some("r9"));
    assert!(p.description.is_none());
}

use awesometree::api::client::{
    create_project_payload, create_session_payload, created_project_info, project_detail_ids, transition_payload,
    view_parts,
};
use awesometree::api::models::{CreateProjectReq, CreateWorkSessionReq};

fn jstr(v: &str) -> JsonValue {
    JsonValue::Str(v.into())
}

fn jobj(entries: Vec<(&str, JsonValue)>) -> JsonValue {
    JsonValue::Object(entries.into_iter().map(|(k, v)| (k.to_string(), v)).collect())
}

#[test]
fn session_payload_omits_empty_fields() {
    let req = CreateWorkSessionReq {
        work_session_id: "w".into(),
        project_id: "p".into(),
        work_profile_id: String::new(),
        display_name: "W".into(),
        headless: true,
    };
    let want = jobj(vec![
        ("work_session_id", jstr("w")),
        ("project_id", jstr("p")),
        ("headless", JsonValue::Bool(true)),
        ("display_name", jstr("W")),
    ]);
    assert!(json_eq(&create_session_payload(&req), &want));
}

#[test]
fn project_payload_nulls_empty_fields() {
    let req = CreateProjectReq { project_id: "p".into(), description: String::new(), repo: "/r".into(), branch: String::new() };
    let want = jobj(vec![
        ("project_id", jstr("p")),
        ("description", JsonValue::Null),
        ("repo", jstr("/r")),
        ("branch", JsonValue::Null),
    ]);
    assert!(json_eq(&create_project_payload(&req), &want));
    assert!(json_eq(&transition_payload("paused"), &jobj(vec![("state", jstr("paused"))])));
}

#[test]
fn created_project_falls_back_to_request() {
    let info = created_project_info(&jobj(vec![("revision", jstr("r1"))]), "p");
    assert_eq!(info.project_id, "p");
    assert_eq!(info.title, "p");
    assert_eq!(info.revision.as_deref(), Some("r1"));
    let info = created_project_info(&jobj(vec![("project_id", jstr("q")), ("title", jstr("Q"))]), "p");
    assert_eq!(info.project_id, "q");
    assert_eq!(info.title, "Q");
    let (id, rev, src) = project_detail_ids(&jobj(vec![("source_revision", jstr("s1"))]), "p");
    assert_eq!((id.as_str(), rev.as_str(), src.as_str()), ("p", "", "s1"));
}

#[test]
fn view_parts_split_session_and_runtime() {
    let ws = jobj(vec![("work_session_id", jstr("w"))]);
    let rt = jobj(vec![("headless", JsonValue::Bool(true))]);
    let v = jobj(vec![("work_session", ws.clone()), ("runtime", rt.clone())]);
    let (a, b) = view_parts(&v);
    assert!(json_eq(a, &ws));
    assert!(json_eq(b.unwrap(), &rt));
    let (a, b) = view_parts(&ws);
    assert!(json_eq(a, &ws));
    assert!(b.is_none());
}
