//! The decisions of the agent service: which requests are well formed, who
//! may act on which agent, what a started agent is recorded as, and the
//! JSON-RPC exchanged with an agent.
use vstd::prelude::*;
use crate::auth::{ScopedToken, TokenView, Permission, scope_includes, session_match, allows};
use crate::state::{AgentInstanceState, AgentStatus, agent_status_name};
use crate::grpc::proto;
use crate::grpc::convert::{agent_status_to_proto, proto_status_of};
use crate::json::{JsonValue, JsonView, view_get};
use crate::model::error::opt_view;
use crate::table::{keys_of, distinct, lookup, table_set};
use crate::text::{concat, owned, str_eq};

verus! {

/// The agent service. It holds no state of its own.
#[derive(Debug, Default)]
pub struct AgentServiceImpl;

/// Status codes the agent service answers with.
#[derive(Debug, Clone, Copy, PartialEq, Eq, Structural)]
pub enum Code {
    InvalidArgument,
    NotFound,
    PermissionDenied,
    FailedPrecondition,
    ResourceExhausted,
    Internal,
    Unavailable,
}

/// A refused call: its code and message.
#[derive(Debug)]
pub struct Status {
    pub code: Code,
    pub message: String,
}

/// Environment variable that carries an agent's bearer token.
pub const TOKEN_ENV: &'static str = "ARP_TOKEN";

/// A required field: refused with `<field> is required` when empty.
pub fn require(value: &str, field: &str) -> (r: Result<(), Status>)
    ensures
        value@.len() == 0 <==> r is Err,
        r matches Err(e) ==> e.code == Code::InvalidArgument && e.message@ == field@ + " is required"@,
{
    if value.unicode_len() == 0 {
        Err(Status { code: Code::InvalidArgument, message: concat(field, " is required") })
    } else {
        Ok(())
    }
}

/// Why a spawn request is refused before any agent is looked at.
pub open spec fn spawn_refusal(token: TokenView, req: proto::SpawnAgentRequest) -> Option<(Code, Seq<char>)> {
    if !allows(token.permission, Permission::Session) {
        Some((Code::PermissionDenied, "insufficient permission"@))
    } else if req.workspace@.len() == 0 {
        Some((Code::InvalidArgument, "workspace is required"@))
    } else if req.template@.len() == 0 {
        Some((Code::InvalidArgument, "template is required"@))
    } else {
        None
    }
}

/// Check a spawn request: the caller's permission, then the work session
/// and template it names.
pub fn check_spawn_request(token: &ScopedToken, req: &proto::SpawnAgentRequest) -> (r: Result<(), Status>)
    ensures
        match spawn_refusal(token@, *req) {
            None => r is Ok,
            Some((c, m)) => r matches Err(e) && e.code == c && e.message@ == m,
        },
{
    if !crate::auth::permission_allows(&token.permission, &Permission::Session) {
        return Err(Status { code: Code::PermissionDenied, message: owned("insufficient permission") });
    }
    if req.workspace.unicode_len() == 0 {
        return Err(Status { code: Code::InvalidArgument, message: owned("workspace is required") });
    }
    if req.template.unicode_len() == 0 {
        return Err(Status { code: Code::InvalidArgument, message: owned("template is required") });
    }
    Ok(())
}

/// The caller's scope must include the project an agent is started in.
pub fn check_spawn_scope(token: &ScopedToken, project: &str) -> (r: Result<(), Status>)
    ensures
        scope_includes(token.scope@, project@) <==> r is Ok,
        r matches Err(e) ==> e.code == Code::PermissionDenied
            && e.message@ == "token scope does not include project '"@ + project@ + "'"@,
{
    if crate::auth::scope_includes_project(&token.scope, project) {
        Ok(())
    } else {
        let a = concat("token scope does not include project '", project);
        Err(Status { code: Code::PermissionDenied, message: concat(a.as_str(), "'") })
    }
}

/// Name of a spawned agent: the requested one, else the template.
pub fn spawn_name(req: &proto::SpawnAgentRequest) -> (r: String)
    ensures
        r@ == if req.name@.len() == 0 { req.template@ } else { req.name@ },
{
    if req.name.unicode_len() == 0 {
        req.template.clone()
    } else {
        req.name.clone()
    }
}

/// Command that serves an agent of a template.
pub fn serve_command(template: &str) -> (r: String)
    ensures
        r@ == template@ + " serve"@,
{
    concat(template, " serve")
}

/// Environment of a spawned agent: the requested variables with the agent's
/// bearer token set.
pub fn spawn_env(env: Vec<(String, String)>, token_text: String) -> (r: Vec<(String, String)>)
    requires
        distinct(keys_of(env@)),
    ensures
        distinct(keys_of(r@)),
        lookup(r@, TOKEN_ENV@) == Some(token_text),
        forall|k: Seq<char>| k != TOKEN_ENV@ ==> lookup(r@, k) == lookup(env@, k),
{
    let mut e = env;
    table_set(&mut e, owned(TOKEN_ENV), token_text);
    e
}

/// The record of an agent that was just started.
pub fn starting_agent(
    agent_id: String,
    template: String,
    name: String,
    work_session_id: String,
    port: u16,
    started_at: String,
    token_id: Option<String>,
    session_id: Option<String>,
    spawned_by: Option<String>,
) -> (r: AgentInstanceState)
    ensures
        r == (AgentInstanceState {
            id: agent_id,
            template,
            name,
            work_session_id,
            status: AgentStatus::Starting,
            port,
            host: None,
            pid: None,
            started_at,
            token_id,
            session_id,
            spawned_by,
        }),
{
    AgentInstanceState {
        id: agent_id,
        template,
        name,
        work_session_id,
        status: AgentStatus::Starting,
        port,
        host: None,
        pid: None,
        started_at,
        token_id,
        session_id,
        spawned_by,
    }
}

/// Why a caller may not act on an agent of `project`: the scope, then the session.
pub open spec fn access_refusal(token: TokenView, project: Seq<char>, agent_session: Option<Seq<char>>,
    session_message: Seq<char>) -> Option<Seq<char>>
{
    if !scope_includes(token.scope, project) {
        Some("token scope mismatch"@)
    } else if !session_match(token, agent_session) {
        Some(session_message)
    } else {
        None
    }
}

/// Check that a caller may act on an agent of `project`; a session caller
/// must own the agent's session, else it is refused with `session_message`.
pub fn check_agent_access(token: &ScopedToken, project: &str, agent: &AgentInstanceState, session_message: &str)
    -> (r: Result<(), Status>)
    ensures
        match access_refusal(token@, project@, opt_view(agent.session_id), session_message@) {
            None => r is Ok,
            Some(m) => r matches Err(e) && e.code == Code::PermissionDenied && e.message@ == m,
        },
{
    if !crate::auth::scope_includes_project(&token.scope, project) {
        return Err(Status { code: Code::PermissionDenied, message: owned("token scope mismatch") });
    }
    if token.permission == Permission::Session && !crate::auth::session_matches(token, agent) {
        return Err(Status { code: Code::PermissionDenied, message: owned(session_message) });
    }
    Ok(())
}

/// Only a ready or busy agent takes messages and tasks.
pub fn check_ready(agent_id: &str, agent: &AgentInstanceState) -> (r: Result<(), Status>)
    ensures
        (agent.status == AgentStatus::Ready || agent.status == AgentStatus::Busy) <==> r is Ok,
        r matches Err(e) ==> e.code == Code::FailedPrecondition
            && e.message@ == "agent '"@ + agent_id@ + "' is not ready (status: "@ + agent_status_name(agent.status) + ")"@,
{
    if agent.status == AgentStatus::Ready || agent.status == AgentStatus::Busy {
        Ok(())
    } else {
        let a = concat("agent '", agent_id);
        let b = concat(a.as_str(), "' is not ready (status: ");
        let c = concat(b.as_str(), agent.status.as_str());
        Err(Status { code: Code::FailedPrecondition, message: concat(c.as_str(), ")") })
    }
}

/// An agent of work session `ws` and `project` is listed when the project is
/// in scope, a session caller owns it, and it passes the request's filters.
pub open spec fn listed_for(token: TokenView, req: proto::ListAgentsRequest, ws: Seq<char>, project: Seq<char>,
    a: AgentInstanceState) -> bool
{
    &&& scope_includes(token.scope, project)
    &&& (req.workspace@.len() == 0 || ws == req.workspace@)
    &&& session_match(token, opt_view(a.session_id))
    &&& (req.status == 0 || proto::agent_status_number(proto_status_of(a.status)) == req.status)
    &&& (req.template@.len() == 0 || a.template@ == req.template@)
}

/// Whether an agent listing shows `a`.
pub fn is_listed_for(token: &ScopedToken, req: &proto::ListAgentsRequest, ws: &str, project: &str,
    a: &AgentInstanceState) -> (r: bool)
    ensures
        r == listed_for(token@, *req, ws@, project@, *a),
{
    if !crate::auth::scope_includes_project(&token.scope, project) {
        return false;
    }
    if req.workspace.unicode_len() != 0 && !str_eq(ws, req.workspace.as_str()) {
        return false;
    }
    if token.permission == Permission::Session && !crate::auth::session_matches(token, a) {
        return false;
    }
    if req.status != 0 && agent_status_to_proto(&a.status) != req.status {
        return false;
    }
    req.template.unicode_len() == 0 || str_eq(a.template.as_str(), req.template.as_str())
}

/// The record answered after a stop was asked for.
pub fn stopping(agent: &AgentInstanceState) -> (r: AgentInstanceState)
    ensures
        r == (AgentInstanceState { status: AgentStatus::Stopping, ..*agent }),
{
    let mut a = agent.clone();
    a.status = AgentStatus::Stopping;
    a
}

/// The conversation a message belongs to: the requested one, else a fresh id.
pub fn context_or(context_id: &str, fresh: String) -> (r: String)
    ensures
        r@ == if context_id@.len() == 0 { fresh@ } else { context_id@ },
{
    if context_id.unicode_len() == 0 { fresh } else { owned(context_id) }
}

pub open spec fn jstr(s: Seq<char>) -> JsonView {
    JsonView::Str(s)
}

/// JSON-RPC `message/send` carrying one user text part.
pub open spec fn message_send_view(request_id: Seq<char>, text: Seq<char>, context_id: Seq<char>) -> JsonView {
    JsonView::Object(seq![
        ("jsonrpc"@, jstr("2.0"@)),
        ("id"@, jstr(request_id)),
        ("method"@, jstr("message/send"@)),
        ("params"@, JsonView::Object(seq![
            ("message"@, JsonView::Object(seq![
                ("role"@, jstr("user"@)),
                ("parts"@, JsonView::Array(seq![JsonView::Object(seq![("kind"@, jstr("text"@)), ("text"@, jstr(text))])])),
                ("contextId"@, jstr(context_id)),
            ])),
        ])),
    ])
}

fn entry(key: &str, val: JsonValue) -> (r: (String, JsonValue))
    ensures
        r.0@ == key@,
        r.1 == val,
{
    (owned(key), val)
}

fn text_value(s: &str) -> (r: JsonValue)
    ensures
        r@ == jstr(s@),
{
    JsonValue::Str(owned(s))
}

fn object2(a: (String, JsonValue), b: (String, JsonValue)) -> (r: JsonValue)
    ensures
        r@ == JsonView::Object(seq![(a.0@, a.1@), (b.0@, b.1@)]),
{
    let mut v: Vec<(String, JsonValue)> = Vec::new();
    v.push(a);
    v.push(b);
    let r = JsonValue::Object(v);
    assert(crate::json::view_entries(v@) =~= seq![(a.0@, a.1@), (b.0@, b.1@)]);
    r
}

fn object1(a: (String, JsonValue)) -> (r: JsonValue)
    ensures
        r@ == JsonView::Object(seq![(a.0@, a.1@)]),
{
    let mut v: Vec<(String, JsonValue)> = Vec::new();
    v.push(a);
    let r = JsonValue::Object(v);
    assert(crate::json::view_entries(v@) =~= seq![(a.0@, a.1@)]);
    r
}

fn object3(a: (String, JsonValue), b: (String, JsonValue), c: (String, JsonValue)) -> (r: JsonValue)
    ensures
        r@ == JsonView::Object(seq![(a.0@, a.1@), (b.0@, b.1@), (c.0@, c.1@)]),
{
    let mut v: Vec<(String, JsonValue)> = Vec::new();
    v.push(a);
    v.push(b);
    v.push(c);
    let r = JsonValue::Object(v);
    assert(crate::json::view_entries(v@) =~= seq![(a.0@, a.1@), (b.0@, b.1@), (c.0@, c.1@)]);
    r
}

fn object4(a: (String, JsonValue), b: (String, JsonValue), c: (String, JsonValue), d: (String, JsonValue))
    -> (r: JsonValue)
    ensures
        r@ == JsonView::Object(seq![(a.0@, a.1@), (b.0@, b.1@), (c.0@, c.1@), (d.0@, d.1@)]),
{
    let mut v: Vec<(String, JsonValue)> = Vec::new();
    v.push(a);
    v.push(b);
    v.push(c);
    v.push(d);
    let r = JsonValue::Object(v);
    assert(crate::json::view_entries(v@) =~= seq![(a.0@, a.1@), (b.0@, b.1@), (c.0@, c.1@), (d.0@, d.1@)]);
    r
}

/// The JSON-RPC request that sends `text` to an agent.
pub fn message_send_body(request_id: &str, text: &str, context_id: &str) -> (r: JsonValue)
    ensures
        r@ == message_send_view(request_id@, text@, context_id@),
{
    let part = object2(entry("kind", text_value("text")), entry("text", text_value(text)));
    let mut parts: Vec<JsonValue> = Vec::new();
    parts.push(part);
    let parts_value = JsonValue::Array(parts);
    assert(crate::json::view_items(parts@) =~= seq![part@]);
    let message = object3(entry("role", text_value("user")), entry("parts", parts_value),
        entry("contextId", text_value(context_id)));
    let params = object1(entry("message", message));
    object4(entry("jsonrpc", text_value("2.0")), entry("id", text_value(request_id)),
        entry("method", text_value("message/send")), entry("params", params))
}

/// JSON-RPC `tasks/get` for one task.
pub open spec fn tasks_get_view(request_id: Seq<char>, task_id: Seq<char>, history_length: Seq<char>) -> JsonView {
    JsonView::Object(seq![
        ("jsonrpc"@, jstr("2.0"@)),
        ("id"@, jstr(request_id)),
        ("method"@, jstr("tasks/get"@)),
        ("params"@, JsonView::Object(seq![("id"@, jstr(task_id)), ("historyLength"@, JsonView::Number(history_length))])),
    ])
}

/// The JSON-RPC request for a task's status; `history_length` is the decimal
/// text of the requested history length.
pub fn tasks_get_body(request_id: &str, task_id: &str, history_length: &str) -> (r: JsonValue)
    ensures
        r@ == tasks_get_view(request_id@, task_id@, history_length@),
{
    let params = object2(entry("id", text_value(task_id)), entry("historyLength", JsonValue::Number(owned(history_length))));
    object4(entry("jsonrpc", text_value("2.0")), entry("id", text_value(request_id)),
        entry("method", text_value("tasks/get")), entry("params", params))
}

/// The JSON-RPC request that cancels a task.
pub open spec fn tasks_cancel_view(request_id: Seq<char>, task_id: Seq<char>) -> JsonView {
    JsonView::Object(seq![
        ("jsonrpc"@, jstr("2.0"@)),
        ("id"@, jstr(request_id)),
        ("method"@, jstr("tasks/cancel"@)),
        ("params"@, JsonView::Object(seq![("id"@, jstr(task_id))])),
    ])
}

/// The JSON-RPC request that cancels a task.
pub fn tasks_cancel_body(request_id: &str, task_id: &str) -> (r: JsonValue)
    ensures
        r@ == tasks_cancel_view(request_id@, task_id@),
{
    let mut p: Vec<(String, JsonValue)> = Vec::new();
    p.push(entry("id", text_value(task_id)));
    assert(crate::json::view_entries(p@) =~= seq![("id"@, jstr(task_id@))]);
    let params = JsonValue::Object(p);
    object4(entry("jsonrpc", text_value("2.0")), entry("id", text_value(request_id)),
        entry("method", text_value("tasks/cancel")), entry("params", params))
}

/// The `result` of a JSON-RPC reply, or the whole reply when it has none.
pub open spec fn rpc_result_view(reply: JsonView) -> JsonView {
    match view_get(reply, "result"@) {
        Some(r) => r,
        None => reply,
    }
}

/// The `result` of a JSON-RPC reply, or the whole reply when it has none.
pub fn rpc_result(reply: &JsonValue) -> (r: &JsonValue)
    ensures
        r@ == rpc_result_view(reply@),
{
    match reply.get("result") {
        Some(r) => r,
        None => reply,
    }
}

/// A result with an `id` is a task; any other is a message.
pub fn is_task(result: &JsonValue) -> (r: bool)
    ensures
        r == (view_get(result@, "id"@) is Some),
{
    result.get("id").is_some()
}

/// A result as a task: a task as it is, anything else wrapped in a completed
/// task with a fresh id in the request's conversation.
pub open spec fn as_task_view(result: JsonView, context_id: Seq<char>, fresh_id: Seq<char>) -> JsonView {
    if view_get(result, "id"@) is Some {
        result
    } else {
        JsonView::Object(seq![
            ("id"@, jstr(fresh_id)),
            ("contextId"@, jstr(context_id)),
            ("status"@, JsonView::Object(seq![("state"@, jstr("completed"@))])),
            ("result"@, result),
        ])
    }
}

/// A result as a task.
pub fn as_task(result: &JsonValue, context_id: &str, fresh_id: &str) -> (r: JsonValue)
    ensures
        r@ == as_task_view(result@, context_id@, fresh_id@),
{
    if is_task(result) {
        result.deep_clone()
    } else {
        let status = object1(entry("state", text_value("completed")));
        object4(entry("id", text_value(fresh_id)), entry("contextId", text_value(context_id)),
            entry("status", status), entry("result", result.deep_clone()))
    }
}

} // verus!
