//! The HTTP face of the ARP services: query strings, how a refused call maps
//! to an HTTP status, and the error body it carries.
use vstd::prelude::*;
use crate::grpc::agent::Code;
use crate::grpc::proto;
use crate::json::{JsonValue, JsonView, view_entries, push_entry, str_value};
use crate::decimal::decimal;

verus! {

/// Query of `GET /v1/workspaces`.
#[derive(Debug, Default)]
pub struct ListWorkspacesQuery {
    pub project: String,
}

/// Query of `GET /v1/agents`.
#[derive(Debug, Default)]
pub struct ListAgentsQuery {
    pub workspace: String,
    pub template: String,
    pub status: i32,
}

/// The listing request an agent query asks for.
pub fn list_agents_request(q: ListAgentsQuery) -> (r: proto::ListAgentsRequest)
    ensures
        r.workspace == q.workspace,
        r.template == q.template,
        r.status == q.status,
{
    proto::ListAgentsRequest { workspace: q.workspace, status: q.status, template: q.template }
}

/// Wire number of a status code.
pub open spec fn code_number(c: Code) -> u32 {
    match c {
        Code::InvalidArgument => 3,
        Code::NotFound => 5,
        Code::PermissionDenied => 7,
        Code::ResourceExhausted => 8,
        Code::FailedPrecondition => 9,
        Code::Internal => 13,
        Code::Unavailable => 14,
    }
}

/// HTTP status of a refused call.
pub open spec fn http_status_of(c: Code) -> u16 {
    match c {
        Code::InvalidArgument => 400,
        Code::NotFound => 404,
        Code::PermissionDenied => 403,
        Code::FailedPrecondition => 412,
        Code::ResourceExhausted => 429,
        Code::Unavailable => 503,
        Code::Internal => 500,
    }
}

/// HTTP status of a refused call.
pub fn http_status(c: Code) -> (r: u16)
    ensures
        r == http_status_of(c),
{
    match c {
        Code::InvalidArgument => 400,
        Code::NotFound => 404,
        Code::PermissionDenied => 403,
        Code::FailedPrecondition => 412,
        Code::ResourceExhausted => 429,
        Code::Unavailable => 503,
        Code::Internal => 500,
    }
}

/// Wire number of a status code.
pub fn code_value(c: Code) -> (r: u32)
    ensures
        r == code_number(c),
{
    match c {
        Code::InvalidArgument => 3,
        Code::NotFound => 5,
        Code::PermissionDenied => 7,
        Code::ResourceExhausted => 8,
        Code::FailedPrecondition => 9,
        Code::Internal => 13,
        Code::Unavailable => 14,
    }
}

/// Body of a refused call: its message and code number.
pub open spec fn error_body_view(c: Code, message: Seq<char>) -> JsonView {
    JsonView::Object(seq![
        ("error"@, JsonView::Str(message)),
        ("code"@, JsonView::Number(decimal(code_number(c) as nat))),
    ])
}

/// Body of a refused call.
pub fn error_body(c: Code, message: &str) -> (r: JsonValue)
    ensures
        r@ == error_body_view(c, message@),
{
    let mut v: Vec<(String, JsonValue)> = Vec::new();
    push_entry(&mut v, "error", str_value(message));
    push_entry(&mut v, "code", crate::json::number_value(code_value(c) as u64));
    assert(view_entries(v@) =~= seq![
        ("error"@, JsonView::Str(message@)),
        ("code"@, JsonView::Number(decimal(code_number(c) as nat))),
    ]);
    JsonValue::Object(v)
}

} // verus!
