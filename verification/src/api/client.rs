//! The client's side of the HTTP exchange and its reading of JSON replies.
use vstd::prelude::*;
use crate::text::{owned, concat, chars_of, string_from_chars, str_eq, starts_with, suffix_from, has_prefix, trim, trimmed, words, split_whitespace};
use crate::json::{JsonValue, JsonView, view_get, view_get_str, view_as_str, view_as_bool};
use crate::decimal::{decimal, u64_to_decimal, parse_u64, parse_u64_spec};
use crate::model::error::opt_view;
use crate::api::models::{ApiError, WorkSessionInfo, WorkProfileInfo, ProjectInfo, CreateWorkSessionReq,
    CreateProjectReq, ServerConnection};

verus! {

/// A client of one host.
#[derive(Debug)]
pub struct ApiClient {
    host: String,
    port: u16,
    token: String,
}

/// Text of one HTTP/1.1 request.
pub open spec fn request_text_of(method: Seq<char>, path: Seq<char>, host: Seq<char>, port: u16, token: Seq<char>,
    body: Option<Seq<char>>) -> Seq<char>
{
    let b = match body { Some(b) => b, None => Seq::empty() };
    method + " "@ + path + " HTTP/1.1\r\nHost: "@ + host + ":"@ + decimal(port as nat)
        + "\r\nAuthorization: Bearer "@ + token
        + "\r\nContent-Type: application/json\r\nContent-Length: "@ + decimal(crate::crypto::utf8(b).len())
        + "\r\nConnection: close\r\n\r\n"@ + b
}

impl ApiClient {
    pub closed spec fn host_view(&self) -> Seq<char> {
        self.host@
    }

    pub closed spec fn port_view(&self) -> u16 {
        self.port
    }

    pub closed spec fn token_view(&self) -> Seq<char> {
        self.token@
    }

    pub fn new(host: String, port: u16, token: String) -> (r: Self)
        ensures
            r.host_view() == host@,
            r.port_view() == port,
            r.token_view() == token@,
    {
        ApiClient { host, port, token }
    }

    pub fn from_connection(conn: ServerConnection) -> (r: Self)
        ensures
            r.host_view() == conn.host@,
            r.port_view() == conn.port,
            r.token_view() == conn.token@,
    {
        ApiClient { host: conn.host, port: conn.port, token: conn.token }
    }

    /// `host:port` to connect to.
    pub fn address(&self) -> (r: String)
        ensures
            r@ == self.host_view() + ":"@ + decimal(self.port_view() as nat),
    {
        let a = concat(self.host.as_str(), ":");
        let p = u64_to_decimal(self.port as u64);
        concat(a.as_str(), p.as_str())
    }

    /// The request to send for `method` on `path` with an optional JSON body.
    pub fn request_text(&self, method: &str, path: &str, body: Option<&str>) -> (r: String)
        requires
            match body {
                Some(b) => crate::crypto::utf8(b@).len() <= u64::MAX,
                None => true,
            },
        ensures
            r@ == request_text_of(method@, path@, self.host_view(), self.port_view(), self.token_view(),
                crate::auth::opt_str(body)),
    {
        let b: &str = match body {
            Some(b) => b,
            None => "",
        };
        proof {
            reveal_strlit("");
            assert(""@ =~= Seq::<char>::empty());
        }
        let len = b.as_bytes().len();
        let a1 = concat(method, " ");
        let a2 = concat(a1.as_str(), path);
        let a3 = concat(a2.as_str(), " HTTP/1.1\r\nHost: ");
        let a4 = concat(a3.as_str(), self.host.as_str());
        let a5 = concat(a4.as_str(), ":");
        let p = u64_to_decimal(self.port as u64);
        let a6 = concat(a5.as_str(), p.as_str());
        let a7 = concat(a6.as_str(), "\r\nAuthorization: Bearer ");
        let a8 = concat(a7.as_str(), self.token.as_str());
        let a9 = concat(a8.as_str(), "\r\nContent-Type: application/json\r\nContent-Length: ");
        let n = u64_to_decimal(len as u64);
        let a10 = concat(a9.as_str(), n.as_str());
        let a11 = concat(a10.as_str(), "\r\nConnection: close\r\n\r\n");
        concat(a11.as_str(), b)
    }
}

/// `s.parse::<u16>()`.
pub open spec fn parse_u16_spec(s: Seq<char>) -> Option<u16> {
    match parse_u64_spec(s) {
        Some(v) => if v <= u16::MAX { Some(v as u16) } else { None },
        None => None,
    }
}

/// Status code of an HTTP status line: its second word as a number, else 0.
pub open spec fn status_of(line: Seq<char>) -> u16 {
    let ws = words(line);
    if ws.len() >= 2 {
        match parse_u16_spec(ws[1]) {
            Some(v) => v,
            None => 0,
        }
    } else {
        0
    }
}

/// Status code of an HTTP status line.
pub fn status_code(line: &str) -> (r: u16)
    ensures
        r == status_of(line@),
{
    let ws = split_whitespace(line);
    if ws.len() < 2 {
        return 0;
    }
    assert(crate::text::str_views(ws@)[1] == ws@[1]@);
    match parse_u64(ws[1].as_str()) {
        Some(v) => if v <= 65535 { v as u16 } else { 0 },
        None => 0,
    }
}

/// The blank line that ends the headers (or the end of the stream).
pub open spec fn ends_headers(line: Seq<char>) -> bool {
    line == "\r\n"@ || line == "\n"@ || line.len() == 0
}

/// Whether a header line read ends the headers.
pub fn is_header_end(line: &str) -> (r: bool)
    ensures
        r == ends_headers(line@),
{
    str_eq(line, "\r\n") || str_eq(line, "\n") || line.unicode_len() == 0
}

/// `str::to_ascii_lowercase`.
pub open spec fn ascii_lower(s: Seq<char>) -> Seq<char> {
    s.map_values(|c: char| if 'A' <= c && c <= 'Z' { ((c as u8) + 32) as char } else { c })
}

fn lower_ascii(s: &str) -> (r: String)
    ensures
        r@ == ascii_lower(s@),
{
    let cs = chars_of(s);
    let mut out: Vec<char> = Vec::new();
    let mut i: usize = 0;
    while i < cs.len()
        invariant
            i <= cs@.len(),
            cs@ == s@,
            out@ == ascii_lower(cs@.subrange(0, i as int)),
        decreases cs@.len() - i,
    {
        let c = cs[i];
        let d = if 'A' <= c && c <= 'Z' { ((c as u8) + 32) as char } else { c };
        out.push(d);
        proof {
            assert(ascii_lower(cs@.subrange(0, i as int + 1)) =~= ascii_lower(cs@.subrange(0, i as int)).push(d));
        }
        i = i + 1;
    }
    proof {
        assert(cs@.subrange(0, cs@.len() as int) =~= cs@);
    }
    string_from_chars(&out)
}

/// `s.parse::<usize>()`.
pub open spec fn parse_usize_spec(s: Seq<char>) -> Option<usize> {
    match parse_u64_spec(s) {
        Some(v) => if v <= usize::MAX { Some(v as usize) } else { None },
        None => None,
    }
}

/// For a `Content-Length` header (any case), the length it gives, if it parses.
pub open spec fn content_length_header(line: Seq<char>) -> Option<Option<usize>> {
    let lower = ascii_lower(line);
    let p = "content-length:"@;
    if has_prefix(lower, p) {
        Some(parse_usize_spec(trimmed(lower.subrange(p.len() as int, lower.len() as int))))
    } else {
        None
    }
}

/// Read a header line: `Some` for a `Content-Length` header, holding the length if it parses.
pub fn content_length_of(line: &str) -> (r: Option<Option<usize>>)
    ensures
        r == content_length_header(line@),
{
    let lower = lower_ascii(line);
    proof { reveal_strlit("content-length:"); }
    if !starts_with(lower.as_str(), "content-length:") {
        return None;
    }
    let rest = suffix_from(lower.as_str(), 15);
    let t = trim(rest.as_str());
    match parse_u64(t.as_str()) {
        Some(v) => if v <= usize::MAX as u64 { Some(Some(v as usize)) } else { Some(None) },
        None => Some(None),
    }
}

/// The outcome of a reply with status `status` and body text `body`:
/// 401 is an authentication failure, other codes outside 200..300 a server error.
pub open spec fn reply_outcome_ok(status: u16, body: Seq<char>, r: Result<String, ApiError>) -> bool {
    if status == 401 {
        r matches Err(ApiError::AuthFailed)
    } else if !(200 <= status && status < 300) {
        r matches Err(ApiError::Server { status: s, message: m }) && s == status && m@ == body
    } else {
        r matches Ok(b) && b@ == body
    }
}

/// Decide a reply by its status.
pub fn reply_outcome(status: u16, body: String) -> (r: Result<String, ApiError>)
    ensures
        reply_outcome_ok(status, body@, r),
{
    if status == 401 {
        return Err(ApiError::AuthFailed);
    }
    if !(200 <= status && status < 300) {
        return Err(ApiError::Server { status, message: body });
    }
    Ok(body)
}

/// Path of one WorkSession.
pub fn work_session_path(id: &str) -> (r: String)
    ensures
        r@ == "/api/work-sessions/"@ + id@,
{
    concat("/api/work-sessions/", id)
}

/// Path of a WorkSession's transition.
pub fn transition_path(id: &str) -> (r: String)
    ensures
        r@ == "/api/work-sessions/"@ + id@ + "/transition"@,
{
    let a = concat("/api/work-sessions/", id);
    concat(a.as_str(), "/transition")
}

/// Path of one Project.
pub fn project_path(id: &str) -> (r: String)
    ensures
        r@ == "/api/projects/"@ + id@,
{
    concat("/api/projects/", id)
}

/// Path that deletes a Project at an expected source revision.
pub fn delete_project_path(id: &str, expected_source_revision: &str) -> (r: String)
    ensures
        r@ == "/api/projects/"@ + id@ + "?expected_source_revision="@ + expected_source_revision@,
{
    let a = concat("/api/projects/", id);
    let b = concat(a.as_str(), "?expected_source_revision=");
    concat(b.as_str(), expected_source_revision)
}

/// The session object of a reply: its `work_session` member, or the reply itself.
pub open spec fn session_object_of(v: JsonView) -> JsonView {
    match view_get(v, "work_session"@) {
        Some(w) => w,
        None => v,
    }
}

/// The session object of a reply.
pub fn session_object(v: &JsonValue) -> (r: &JsonValue)
    ensures
        r@ == session_object_of(v@),
{
    proof { reveal_strlit("work_session"); }
    match v.get("work_session") {
        Some(w) => w,
        None => v,
    }
}

/// `s.trim_matches('"')`.
pub open spec fn trim_quotes(s: Seq<char>) -> Seq<char>
    decreases s.len(),
{
    if s.len() > 0 && s[0] == '"' {
        trim_quotes(s.drop_first())
    } else if s.len() > 0 && s.last() == '"' {
        trim_quotes(s.drop_last())
    } else {
        s
    }
}

fn trim_quotes_exec(s: &str) -> (r: String)
    ensures
        r@ == trim_quotes(s@),
{
    let cs = chars_of(s);
    let mut a: usize = 0;
    let mut b: usize = cs.len();
    proof {
        assert(cs@.subrange(0, cs@.len() as int) =~= cs@);
    }
    while a < b && (cs[a] == '"' || cs[b - 1] == '"')
        invariant
            a <= b <= cs@.len(),
            cs@ == s@,
            trim_quotes(s@) == trim_quotes(cs@.subrange(a as int, b as int)),
        decreases b - a,
    {
        let ghost cur = cs@.subrange(a as int, b as int);
        if cs[a] == '"' {
            proof {
                assert(cur.drop_first() =~= cs@.subrange(a as int + 1, b as int));
            }
            a = a + 1;
        } else {
            proof {
                assert(cur.drop_last() =~= cs@.subrange(a as int, b as int - 1));
            }
            b = b - 1;
        }
    }
    let mut out: Vec<char> = Vec::new();
    let mut i: usize = a;
    while i < b
        invariant
            a <= i <= b,
            b <= cs@.len(),
            out@ == cs@.subrange(a as int, i as int),
        decreases b - i,
    {
        out.push(cs[i]);
        i = i + 1;
    }
    proof {
        let cur = cs@.subrange(a as int, b as int);
        if cur.len() > 0 {
            assert(cur[0] == cs@[a as int]);
            assert(cur.last() == cs@[b - 1]);
        }
    }
    string_from_chars(&out)
}

/// The `state` member read as text: a string as it is, another value by its
/// JSON text without surrounding quotes, nothing as empty. `rendered` is the
/// JSON text of the member.
pub open spec fn state_text(ws: JsonView, rendered: Seq<char>) -> Seq<char> {
    match view_get(ws, "state"@) {
        Some(JsonView::Str(s)) => s,
        Some(_) => trim_quotes(rendered),
        None => Seq::empty(),
    }
}

/// A member of a member, as a string.
pub open spec fn nested_str(j: Option<JsonView>, outer: Seq<char>, inner: Seq<char>) -> Option<Seq<char>> {
    match j {
        Some(r) => match view_get(r, outer) {
            Some(w) => view_get_str(w, inner),
            None => None,
        },
        None => None,
    }
}

pub open spec fn opt_json_view(j: Option<&JsonValue>) -> Option<JsonView> {
    match j {
        Some(v) => Some(v@),
        None => None,
    }
}

/// What the client shows of a WorkSession object and its runtime facts.
pub open spec fn session_info_ok(ws: JsonView, runtime: Option<JsonView>, rendered_state: Seq<char>, r: WorkSessionInfo) -> bool {
    &&& r.work_session_id@ == match view_get_str(ws, "work_session_id"@) { Some(s) => s, None => Seq::empty() }
    &&& opt_view(r.project_id) == view_get_str(ws, "project_id"@)
    &&& opt_view(r.work_profile_id) == view_get_str(ws, "work_profile_id"@)
    &&& r.state@ == state_text(ws, rendered_state)
    &&& opt_view(r.project_revision) == view_get_str(ws, "project_revision"@)
    &&& opt_view(r.project_snapshot_id) == view_get_str(ws, "project_snapshot_id"@)
    &&& opt_view(r.display_name) == view_get_str(ws, "display_name"@)
    &&& opt_view(r.dir) == nested_str(runtime, "workspace"@, "path"@)
    &&& opt_view(r.realization_status) == match runtime { Some(rt) => view_get_str(rt, "realization_status"@), None => None }
    &&& r.headless == match runtime {
        Some(rt) => match view_get(rt, "headless"@) {
            Some(h) => match view_as_bool(h) { Some(b) => b, None => false },
            None => false,
        },
        None => false,
    }
}

/// Read a WorkSession object and its runtime facts. `rendered_state` is the
/// JSON text of the `state` member, used when that member is not a string.
pub fn parse_work_session_value(ws: &JsonValue, runtime: Option<&JsonValue>, rendered_state: &str) -> (r: WorkSessionInfo)
    ensures
        session_info_ok(ws@, opt_json_view(runtime), rendered_state@, r),
{
    proof {
        reveal_strlit("state");
        reveal_strlit("work_session_id");
        reveal_strlit("workspace");
        reveal_strlit("path");
        reveal_strlit("headless");
        reveal_strlit("realization_status");
    }
    let state = match ws.get("state") {
        Some(JsonValue::Str(s)) => s.clone(),
        Some(_) => trim_quotes_exec(rendered_state),
        None => String::new(),
    };
    let work_session_id = match ws.get_str("work_session_id") {
        Some(s) => s,
        None => String::new(),
    };
    let dir = match runtime {
        Some(rt) => match rt.get("workspace") {
            Some(w) => w.get_str("path"),
            None => None,
        },
        None => None,
    };
    let realization_status = match runtime {
        Some(rt) => rt.get_str("realization_status"),
        None => None,
    };
    let headless = match runtime {
        Some(rt) => match rt.get("headless") {
            Some(h) => match h.as_bool() {
                Some(b) => b,
                None => false,
            },
            None => false,
        },
        None => false,
    };
    WorkSessionInfo {
        work_session_id,
        project_id: ws.get_str("project_id"),
        work_profile_id: ws.get_str("work_profile_id"),
        state,
        project_revision: ws.get_str("project_revision"),
        project_snapshot_id: ws.get_str("project_snapshot_id"),
        display_name: ws.get_str("display_name"),
        dir,
        realization_status,
        headless,
    }
}

/// A WorkProfile entry of the profiles list.
pub fn work_profile_info(v: &JsonValue) -> (r: WorkProfileInfo)
    ensures
        r.work_profile_id@ == match view_get_str(v@, "work_profile_id"@) { Some(s) => s, None => Seq::empty() },
        opt_view(r.display_name) == view_get_str(v@, "display_name"@),
        opt_view(r.description) == view_get_str(v@, "description"@),
{
    WorkProfileInfo {
        work_profile_id: match v.get_str("work_profile_id") {
            Some(s) => s,
            None => String::new(),
        },
        display_name: v.get_str("display_name"),
        description: v.get_str("description"),
    }
}

/// A string member under its camelCase name, else under its snake_case name.
pub open spec fn either_str(v: JsonView, camel: Seq<char>, snake: Seq<char>) -> Option<Seq<char>> {
    match view_get(v, camel) {
        Some(x) => view_as_str(x),
        None => view_get_str(v, snake),
    }
}

fn get_either_str(v: &JsonValue, camel: &str, snake: &str) -> (r: Option<String>)
    ensures
        opt_view(r) == either_str(v@, camel@, snake@),
{
    match v.get(camel) {
        Some(x) => match x.as_str() {
            Some(s) => Some(owned(s)),
            None => None,
        },
        None => v.get_str(snake),
    }
}

/// A Project entry of the projects list.
pub fn project_info(v: &JsonValue) -> (r: ProjectInfo)
    ensures
        r.project_id@ == match either_str(v@, "projectId"@, "project_id"@) { Some(s) => s, None => Seq::empty() },
        r.title@ == match view_get_str(v@, "title"@) { Some(s) => s, None => Seq::empty() },
        opt_view(r.description) == view_get_str(v@, "description"@),
        opt_view(r.revision) == view_get_str(v@, "revision"@),
        opt_view(r.source_revision) == either_str(v@, "sourceRevision"@, "source_revision"@),
{
    ProjectInfo {
        project_id: match get_either_str(v, "projectId", "project_id") {
            Some(s) => s,
            None => String::new(),
        },
        title: match v.get_str("title") {
            Some(s) => s,
            None => String::new(),
        },
        description: v.get_str("description"),
        revision: v.get_str("revision"),
        source_revision: get_either_str(v, "sourceRevision", "source_revision"),
    }
}

/// The body of a WorkSession creation: id, project and headless flag, then
/// the profile and display name when given.
pub open spec fn create_session_body(req: CreateWorkSessionReq) -> JsonView {
    JsonView::Object(seq![
        ("work_session_id"@, JsonView::Str(req.work_session_id@)),
        ("project_id"@, JsonView::Str(req.project_id@)),
        ("headless"@, JsonView::Bool(req.headless)),
    ]
        + (if req.work_profile_id@.len() > 0 { seq![("work_profile_id"@, JsonView::Str(req.work_profile_id@))] } else { Seq::empty() })
        + (if req.display_name@.len() > 0 { seq![("display_name"@, JsonView::Str(req.display_name@))] } else { Seq::empty() }))
}

/// The body of a WorkSession creation.
pub fn create_session_payload(req: &CreateWorkSessionReq) -> (r: JsonValue)
    ensures
        r@ == create_session_body(*req),
{
    let mut v: Vec<(String, JsonValue)> = Vec::new();
    crate::json::push_entry(&mut v, "work_session_id", JsonValue::Str(req.work_session_id.clone()));
    crate::json::push_entry(&mut v, "project_id", JsonValue::Str(req.project_id.clone()));
    crate::json::push_entry(&mut v, "headless", JsonValue::Bool(req.headless));
    let ghost a = crate::json::view_entries(v@);
    if req.work_profile_id.unicode_len() > 0 {
        crate::json::push_entry(&mut v, "work_profile_id", JsonValue::Str(req.work_profile_id.clone()));
    }
    let ghost b = crate::json::view_entries(v@);
    assert(b =~= a + (if req.work_profile_id@.len() > 0 { seq![("work_profile_id"@, JsonView::Str(req.work_profile_id@))] } else { Seq::empty() }));
    if req.display_name.unicode_len() > 0 {
        crate::json::push_entry(&mut v, "display_name", JsonValue::Str(req.display_name.clone()));
    }
    assert(crate::json::view_entries(v@) =~= b + (if req.display_name@.len() > 0 { seq![("display_name"@, JsonView::Str(req.display_name@))] } else { Seq::empty() }));
    assert(a =~= seq![
        ("work_session_id"@, JsonView::Str(req.work_session_id@)),
        ("project_id"@, JsonView::Str(req.project_id@)),
        ("headless"@, JsonView::Bool(req.headless)),
    ]);
    JsonValue::Object(v)
}

/// Text, or null when empty.
pub open spec fn text_or_null(s: Seq<char>) -> JsonView {
    if s.len() == 0 { JsonView::Null } else { JsonView::Str(s) }
}

fn text_or_null_value(s: &String) -> (r: JsonValue)
    ensures
        r@ == text_or_null(s@),
{
    if s.unicode_len() == 0 { JsonValue::Null } else { JsonValue::Str(s.clone()) }
}

/// The body of a Project creation: empty fields are sent as null.
pub open spec fn create_project_body(req: CreateProjectReq) -> JsonView {
    JsonView::Object(seq![
        ("project_id"@, JsonView::Str(req.project_id@)),
        ("description"@, text_or_null(req.description@)),
        ("repo"@, text_or_null(req.repo@)),
        ("branch"@, text_or_null(req.branch@)),
    ])
}

/// The body of a Project creation.
pub fn create_project_payload(req: &CreateProjectReq) -> (r: JsonValue)
    ensures
        r@ == create_project_body(*req),
{
    let mut v: Vec<(String, JsonValue)> = Vec::new();
    crate::json::push_entry(&mut v, "project_id", JsonValue::Str(req.project_id.clone()));
    crate::json::push_entry(&mut v, "description", text_or_null_value(&req.description));
    crate::json::push_entry(&mut v, "repo", text_or_null_value(&req.repo));
    crate::json::push_entry(&mut v, "branch", text_or_null_value(&req.branch));
    assert(crate::json::view_entries(v@) =~= seq![
        ("project_id"@, JsonView::Str(req.project_id@)),
        ("description"@, text_or_null(req.description@)),
        ("repo"@, text_or_null(req.repo@)),
        ("branch"@, text_or_null(req.branch@)),
    ]);
    JsonValue::Object(v)
}

/// The body of a transition.
pub fn transition_payload(state: &str) -> (r: JsonValue)
    ensures
        r@ == JsonView::Object(seq![("state"@, JsonView::Str(state@))]),
{
    let mut v: Vec<(String, JsonValue)> = Vec::new();
    crate::json::push_entry(&mut v, "state", JsonValue::Str(owned(state)));
    assert(crate::json::view_entries(v@) =~= seq![("state"@, JsonView::Str(state@))]);
    JsonValue::Object(v)
}

/// The Project a creation reply describes, the request's id standing in for
/// a missing id or title.
pub fn created_project_info(v: &JsonValue, project_id: &str) -> (r: ProjectInfo)
    ensures
        r.project_id@ == match either_str(v@, "projectId"@, "project_id"@) { Some(s) => s, None => project_id@ },
        r.title@ == match view_get_str(v@, "title"@) { Some(s) => s, None => project_id@ },
        opt_view(r.description) == view_get_str(v@, "description"@),
        opt_view(r.revision) == view_get_str(v@, "revision"@),
        opt_view(r.source_revision) == view_get_str(v@, "sourceRevision"@),
{
    ProjectInfo {
        project_id: match get_either_str(v, "projectId", "project_id") {
            Some(s) => s,
            None => owned(project_id),
        },
        title: match v.get_str("title") {
            Some(s) => s,
            None => owned(project_id),
        },
        description: v.get_str("description"),
        revision: v.get_str("revision"),
        source_revision: v.get_str("sourceRevision"),
    }
}

/// The WorkSession and runtime parts of a listed or fetched view: the
/// session under `work_session` (else the whole value) and the `runtime`.
pub fn view_parts(v: &JsonValue) -> (r: (&JsonValue, Option<&JsonValue>))
    ensures
        r.0@ == match view_get(v@, "work_session"@) { Some(w) => w, None => v@ },
        match r.1 { Some(rt) => view_get(v@, "runtime"@) == Some(rt@), None => view_get(v@, "runtime"@) is None },
{
    let ws = match v.get("work_session") {
        Some(w) => w,
        None => v,
    };
    (ws, v.get("runtime"))
}

/// Identity fields of a Project detail: its id (the requested one when the
/// reply has none), revision and source revision.
pub fn project_detail_ids(v: &JsonValue, id: &str) -> (r: (String, String, String))
    ensures
        r.0@ == match either_str(v@, "projectId"@, "project_id"@) { Some(s) => s, None => id@ },
        r.1@ == match view_get_str(v@, "revision"@) { Some(s) => s, None => Seq::empty() },
        r.2@ == match either_str(v@, "sourceRevision"@, "source_revision"@) { Some(s) => s, None => Seq::empty() },
{
    let pid = match get_either_str(v, "projectId", "project_id") {
        Some(s) => s,
        None => owned(id),
    };
    let rev = match v.get_str("revision") {
        Some(s) => s,
        None => String::new(),
    };
    let src = match get_either_str(v, "sourceRevision", "source_revision") {
        Some(s) => s,
        None => String::new(),
    };
    (pid, rev, src)
}

} // verus!
