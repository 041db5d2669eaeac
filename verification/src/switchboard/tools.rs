//! Calls to the Switchboard catalog's tools: the arguments each call sends,
//! how a tool's reply becomes a value or an error, and when a failed call is
//! tried again.
use vstd::prelude::*;
use crate::json::{JsonValue, JsonView, view_get, view_entries, push_entry, str_value, string_array};
use crate::model::error::{ErrorCode, SwitchboardError, ErrorView, error_from_body, plain_error, opt_view};
use crate::model::lifecycle::{WorkSessionState, state_name};
use crate::model::project::{ProjectEnvelope, ProjectSummary};
use crate::model::work_session::WorkSession;
use crate::text::{concat, owned, joined, join_with, str_views};

verus! {

/// Attempts made for one tool call: a failed call is retried once on a fresh
/// connection.
pub const CALL_ATTEMPTS: u32 = 2;

/// Whether a call that failed on attempt `attempt` (from 0) is tried again.
pub fn retry_after_failure(attempt: u32) -> (r: bool)
    ensures
        r == (attempt + 1 < CALL_ATTEMPTS),
{
    attempt < CALL_ATTEMPTS - 1
}

/// The argument map a call sends: an object's entries, nothing for null,
/// and any other value under `value`.
pub open spec fn argument_entries(a: JsonView) -> Option<Seq<(Seq<char>, JsonView)>> {
    match a {
        JsonView::Object(es) => Some(es),
        JsonView::Null => None,
        _ => Some(seq![("value"@, a)]),
    }
}

/// The argument map a call sends.
pub fn tool_arguments(arguments: JsonValue) -> (r: Option<Vec<(String, JsonValue)>>)
    ensures
        match r {
            Some(v) => argument_entries(arguments@) == Some(view_entries(v@)),
            None => argument_entries(arguments@) is None,
        },
{
    let ghost av = arguments@;
    match arguments {
        JsonValue::Object(m) => Some(m),
        JsonValue::Null => None,
        other => {
            let mut m: Vec<(String, JsonValue)> = Vec::new();
            push_entry(&mut m, "value", other);
            assert(view_entries(m@) =~= seq![("value"@, av)]);
            Some(m)
        },
    }
}

/// The error a failed tool call reports: its structured body when it has
/// one, else its text (or `<name> failed` when it has none) as an internal
/// error of that operation.
pub open spec fn failure_view(name: Seq<char>, structured: Option<JsonView>, texts: Seq<Seq<char>>) -> ErrorView {
    match structured {
        Some(sc) => error_from_body(sc, name),
        None => {
            let msg = joined(texts, "\n"@);
            ErrorView {
                operation: Some(name),
                ..plain_error(ErrorCode::InternalError, if msg.len() == 0 { name + " failed"@ } else { msg })
            }
        },
    }
}

/// The error a failed tool call reports; `texts` are its text contents.
pub fn tool_failure(name: &str, structured: Option<&JsonValue>, texts: &Vec<String>) -> (r: SwitchboardError)
    ensures
        r@ == failure_view(name@, match structured { Some(s) => Some(s@), None => None }, str_views(texts@)),
{
    match structured {
        Some(sc) => SwitchboardError::from_switchboard_body(sc, name),
        None => {
            let msg = join_with(texts, "\n");
            let text = if msg.unicode_len() == 0 { concat(name, " failed") } else { msg };
            SwitchboardError::new(ErrorCode::InternalError, text.as_str()).with_operation(name)
        },
    }
}

/// The first text content that parses as JSON, in order.
pub open spec fn first_parsed(parsed: Seq<Option<JsonView>>) -> Option<JsonView>
    decreases parsed.len(),
{
    if parsed.len() == 0 {
        None
    } else if parsed[0] is Some {
        parsed[0]
    } else {
        first_parsed(parsed.drop_first())
    }
}

pub open spec fn opt_views(v: Seq<Option<JsonValue>>) -> Seq<Option<JsonView>> {
    Seq::new(v.len(), |i: int| match v[i] { Some(j) => Some(j@), None => None })
}

/// The value a successful tool call gives: its structured content, else the
/// first text content that parses as JSON, else null. `parsed` holds each
/// text content parsed as JSON, or nothing where it is not JSON.
pub fn tool_output(structured: Option<JsonValue>, parsed: Vec<Option<JsonValue>>) -> (r: JsonValue)
    ensures
        r@ == match structured {
            Some(s) => s@,
            None => match first_parsed(opt_views(parsed@)) {
                Some(j) => j,
                None => JsonView::Null,
            },
        },
{
    match structured {
        Some(s) => s,
        None => {
            let ghost all = opt_views(parsed@);
            let mut rest = parsed;
            let n = rest.len();
            let mut i: usize = 0;
            assert(all.subrange(0, n as int) =~= all);
            while rest.len() > 0
                invariant
                    i + rest@.len() == n,
                    all.len() == n,
                    all == opt_views(parsed@),
                    structured is None,
                    opt_views(rest@) == all.subrange(i as int, n as int),
                    first_parsed(all) == first_parsed(all.subrange(i as int, n as int)),
                decreases rest@.len(),
            {
                let ghost rv = rest@;
                let x = rest.remove(0);
                proof {
                    let sub = all.subrange(i as int, n as int);
                    assert(sub[0] == match x { Some(j) => Some(j@), None => None::<JsonView> });
                    assert(sub.drop_first() =~= all.subrange(i as int + 1, n as int));
                    assert(opt_views(rest@) =~= all.subrange(i as int + 1, n as int));
                }
                match x {
                    Some(j) => {
                        assert(first_parsed(all.subrange(i as int, n as int)) == Some(j@));
                        return j;
                    },
                    None => {},
                }
                i = i + 1;
            }
            JsonValue::Null
        },
    }
}

/// `{"id": id}`.
pub fn id_arguments(id: &str) -> (r: JsonValue)
    ensures
        r@ == JsonView::Object(seq![("id"@, JsonView::Str(id@))]),
{
    let mut v: Vec<(String, JsonValue)> = Vec::new();
    push_entry(&mut v, "id", str_value(id));
    assert(view_entries(v@) =~= seq![("id"@, JsonView::Str(id@))]);
    JsonValue::Object(v)
}

/// `{"projectId": id}`.
pub fn project_arguments(project_id: &str) -> (r: JsonValue)
    ensures
        r@ == JsonView::Object(seq![("projectId"@, JsonView::Str(project_id@))]),
{
    let mut v: Vec<(String, JsonValue)> = Vec::new();
    push_entry(&mut v, "projectId", str_value(project_id));
    assert(view_entries(v@) =~= seq![("projectId"@, JsonView::Str(project_id@))]);
    JsonValue::Object(v)
}

/// Arguments of `project_delete`.
pub fn project_delete_arguments(project_id: &str, expected_source_revision: &str) -> (r: JsonValue)
    ensures
        r@ == JsonView::Object(seq![
            ("projectId"@, JsonView::Str(project_id@)),
            ("expectedSourceRevision"@, JsonView::Str(expected_source_revision@)),
        ]),
{
    let mut v: Vec<(String, JsonValue)> = Vec::new();
    push_entry(&mut v, "projectId", str_value(project_id));
    push_entry(&mut v, "expectedSourceRevision", str_value(expected_source_revision));
    assert(view_entries(v@) =~= seq![
        ("projectId"@, JsonView::Str(project_id@)),
        ("expectedSourceRevision"@, JsonView::Str(expected_source_revision@)),
    ]);
    JsonValue::Object(v)
}

/// Arguments of `project_update`.
pub fn project_update_arguments(project_id: &str, expected_source_revision: &str, patch: JsonValue) -> (r: JsonValue)
    ensures
        r@ == JsonView::Object(seq![
            ("projectId"@, JsonView::Str(project_id@)),
            ("expectedSourceRevision"@, JsonView::Str(expected_source_revision@)),
            ("patch"@, patch@),
        ]),
{
    let ghost pv = patch@;
    let mut v: Vec<(String, JsonValue)> = Vec::new();
    push_entry(&mut v, "projectId", str_value(project_id));
    push_entry(&mut v, "expectedSourceRevision", str_value(expected_source_revision));
    push_entry(&mut v, "patch", patch);
    assert(view_entries(v@) =~= seq![
        ("projectId"@, JsonView::Str(project_id@)),
        ("expectedSourceRevision"@, JsonView::Str(expected_source_revision@)),
        ("patch"@, pv),
    ]);
    JsonValue::Object(v)
}

/// Arguments of `project_create`.
pub fn project_create_arguments(definition: JsonValue) -> (r: JsonValue)
    ensures
        r@ == JsonView::Object(seq![("definition"@, definition@)]),
{
    let ghost dv = definition@;
    let mut v: Vec<(String, JsonValue)> = Vec::new();
    push_entry(&mut v, "definition", definition);
    assert(view_entries(v@) =~= seq![("definition"@, dv)]);
    JsonValue::Object(v)
}

/// An optional text argument: present only when given.
pub open spec fn opt_arg(key: Seq<char>, v: Option<Seq<char>>) -> Seq<(Seq<char>, JsonView)> {
    match v {
        Some(s) => seq![(key, JsonView::Str(s))],
        None => Seq::empty(),
    }
}

fn push_opt_arg(v: &mut Vec<(String, JsonValue)>, key: &str, val: Option<&str>)
    ensures
        view_entries(final(v)@) == view_entries(old(v)@) + opt_arg(key@, crate::auth::opt_str(val)),
{
    match val {
        Some(s) => {
            push_entry(v, key, str_value(s));
        },
        None => {},
    }
    assert(view_entries(v@) =~= view_entries(old(v)@) + opt_arg(key@, crate::auth::opt_str(val)));
}

/// Arguments of `project_list`: the query, when one is given.
pub fn list_projects_arguments(query: Option<&str>) -> (r: JsonValue)
    ensures
        r@ == JsonView::Object(opt_arg("query"@, crate::auth::opt_str(query))),
{
    let mut v: Vec<(String, JsonValue)> = Vec::new();
    push_opt_arg(&mut v, "query", query);
    assert(view_entries(v@) =~= opt_arg("query"@, crate::auth::opt_str(query)));
    JsonValue::Object(v)
}

/// Arguments of `project_work_session_list`: the state and the project, when given.
pub fn list_sessions_arguments(state: Option<&str>, project_id: Option<&str>) -> (r: JsonValue)
    ensures
        r@ == JsonView::Object(opt_arg("state"@, crate::auth::opt_str(state))
            + opt_arg("project_id"@, crate::auth::opt_str(project_id))),
{
    let mut v: Vec<(String, JsonValue)> = Vec::new();
    push_opt_arg(&mut v, "state", state);
    push_opt_arg(&mut v, "project_id", project_id);
    assert(view_entries(v@) =~= opt_arg("state"@, crate::auth::opt_str(state))
        + opt_arg("project_id"@, crate::auth::opt_str(project_id)));
    JsonValue::Object(v)
}

/// Arguments of `project_work_session_transition`.
pub fn transition_arguments(id: &str, state: WorkSessionState) -> (r: JsonValue)
    ensures
        r@ == JsonView::Object(seq![("id"@, JsonView::Str(id@)), ("state"@, JsonView::Str(state_name(state)))]),
{
    let mut v: Vec<(String, JsonValue)> = Vec::new();
    push_entry(&mut v, "id", str_value(id));
    push_entry(&mut v, "state", str_value(state.as_str()));
    assert(view_entries(v@) =~= seq![("id"@, JsonView::Str(id@)), ("state"@, JsonView::Str(state_name(state)))]);
    JsonValue::Object(v)
}

/// A policy argument: present only when given.
pub open spec fn policy_arg(p: Option<JsonValue>) -> Seq<(Seq<char>, JsonView)> {
    match p {
        Some(j) => seq![("policy"@, j@)],
        None => Seq::empty(),
    }
}

/// Arguments of `project_work_session_patch`: the id, then the new display
/// name and policy when given.
pub fn patch_arguments(id: &str, display_name: Option<String>, policy: Option<JsonValue>) -> (r: JsonValue)
    ensures
        r@ == JsonView::Object(seq![("id"@, JsonView::Str(id@))]
            + opt_arg("display_name"@, opt_view(display_name))
            + policy_arg(policy)),
{
    let ghost pol = policy_arg(policy);
    let mut v: Vec<(String, JsonValue)> = Vec::new();
    push_entry(&mut v, "id", str_value(id));
    let ghost a = view_entries(v@);
    let ghost dn = opt_view(display_name);
    match display_name {
        Some(d) => { push_entry(&mut v, "display_name", JsonValue::Str(d)); },
        None => {},
    }
    let ghost b = view_entries(v@);
    assert(b =~= a + opt_arg("display_name"@, dn));
    match policy {
        Some(p) => { push_entry(&mut v, "policy", p); },
        None => {},
    }
    assert(view_entries(v@) =~= b + pol);
    assert(a =~= seq![("id"@, JsonView::Str(id@))]);
    JsonValue::Object(v)
}

/// Arguments of `project_work_session_create` for a session: its version, id
/// and state, then each optional field that is set, the agent profiles when
/// there are any, and the policy.
pub open spec fn session_create_view(s: WorkSession) -> JsonView {
    JsonView::Object(seq![
        ("version"@, JsonView::Str(s.version@)),
        ("work_session_id"@, JsonView::Str(s.work_session_id@)),
        ("state"@, JsonView::Str(state_name(s.state))),
    ]
        + opt_arg("display_name"@, opt_view(s.display_name))
        + opt_arg("project_id"@, opt_view(s.project_id))
        + opt_arg("project_revision"@, opt_view(s.project_revision))
        + opt_arg("project_snapshot_id"@, opt_view(s.project_snapshot_id))
        + opt_arg("work_profile_id"@, opt_view(s.work_profile_id))
        + (if s.agent_profile_ids@.len() > 0 {
            seq![("agent_profile_ids"@, crate::json::str_array(str_views(s.agent_profile_ids@)))]
        } else {
            Seq::empty()
        })
        + match s.policy { Some(p) => seq![("policy"@, p@)], None => Seq::empty() })
}

fn push_opt_string(v: &mut Vec<(String, JsonValue)>, key: &str, val: &Option<String>)
    ensures
        view_entries(final(v)@) == view_entries(old(v)@) + opt_arg(key@, opt_view(*val)),
{
    match val {
        Some(s) => {
            push_entry(v, key, JsonValue::Str(s.clone()));
        },
        None => {},
    }
    assert(view_entries(v@) =~= view_entries(old(v)@) + opt_arg(key@, opt_view(*val)));
}

/// Arguments of `project_work_session_create`.
pub fn session_create_arguments(s: &WorkSession) -> (r: JsonValue)
    ensures
        r@ == session_create_view(*s),
{
    let mut v: Vec<(String, JsonValue)> = Vec::new();
    push_entry(&mut v, "version", JsonValue::Str(s.version.clone()));
    push_entry(&mut v, "work_session_id", JsonValue::Str(s.work_session_id.clone()));
    push_entry(&mut v, "state", str_value(s.state.as_str()));
    let ghost e0 = view_entries(v@);
    push_opt_string(&mut v, "display_name", &s.display_name);
    push_opt_string(&mut v, "project_id", &s.project_id);
    push_opt_string(&mut v, "project_revision", &s.project_revision);
    push_opt_string(&mut v, "project_snapshot_id", &s.project_snapshot_id);
    push_opt_string(&mut v, "work_profile_id", &s.work_profile_id);
    let ghost e1 = view_entries(v@);
    if s.agent_profile_ids.len() > 0 {
        let arr = string_array(&s.agent_profile_ids);
        assert(Seq::new(s.agent_profile_ids@.len(), |i: int| s.agent_profile_ids@[i]@) =~= str_views(s.agent_profile_ids@));
        push_entry(&mut v, "agent_profile_ids", arr);
    }
    let ghost e2 = view_entries(v@);
    assert(e2 =~= e1 + (if s.agent_profile_ids@.len() > 0 {
        seq![("agent_profile_ids"@, crate::json::str_array(str_views(s.agent_profile_ids@)))]
    } else {
        Seq::<(Seq<char>, JsonView)>::empty()
    }));
    match &s.policy {
        Some(p) => {
            push_entry(&mut v, "policy", p.deep_clone());
        },
        None => {},
    }
    assert(view_entries(v@) =~= e2 + match s.policy { Some(p) => seq![("policy"@, p@)], None => Seq::<(Seq<char>, JsonView)>::empty() });
    assert(e0 =~= seq![
        ("version"@, JsonView::Str(s.version@)),
        ("work_session_id"@, JsonView::Str(s.work_session_id@)),
        ("state"@, JsonView::Str(state_name(s.state))),
    ]);
    JsonValue::Object(v)
}

/// A list a reply carries under `key`, or the empty list.
pub open spec fn list_field_view(reply: JsonView, key: Seq<char>) -> JsonView {
    match view_get(reply, key) {
        Some(v) => v,
        None => JsonView::Array(Seq::empty()),
    }
}

/// A list a reply carries under `key`, or the empty list.
pub fn list_field(reply: &JsonValue, key: &str) -> (r: JsonValue)
    ensures
        r@ == list_field_view(reply@, key@),
{
    match reply.get(key) {
        Some(v) => v.deep_clone(),
        None => {
            let e: Vec<JsonValue> = Vec::new();
            let r = JsonValue::Array(e);
            assert(crate::json::view_items(e@) =~= Seq::<JsonView>::empty());
            r
        },
    }
}

/// The project a create or update reply carries: under `project`, else the reply itself.
pub fn project_of_reply(reply: &JsonValue) -> (r: JsonValue)
    ensures
        r@ == match view_get(reply@, "project"@) { Some(p) => p, None => reply@ },
{
    match reply.get("project") {
        Some(p) => p.deep_clone(),
        None => reply.deep_clone(),
    }
}

/// A text field of a reply, or `fallback`.
pub open spec fn text_or(reply: JsonView, key: Seq<char>, fallback: Seq<char>) -> Seq<char> {
    match view_get(reply, key) {
        Some(JsonView::Str(s)) => s,
        _ => fallback,
    }
}

fn text_field_or(reply: &JsonValue, key: &str, fallback: &str) -> (r: String)
    ensures
        r@ == text_or(reply@, key@, fallback@),
{
    match reply.get(key) {
        Some(v) => match v.as_str() {
            Some(s) => owned(s),
            None => owned(fallback),
        },
        None => owned(fallback),
    }
}

/// The envelope of a `project_get` reply for `project_id`; `summary` is the
/// reply's `summary` read as a project summary, where it reads as one.
pub fn envelope_of_reply(reply: &JsonValue, project_id: &str, summary: Option<ProjectSummary>) -> (r: ProjectEnvelope)
    ensures
        r.project_id@ == text_or(reply@, "projectId"@, project_id@),
        r.revision@ == text_or(reply@, "revision"@, Seq::empty()),
        r.source_revision@ == text_or(reply@, "sourceRevision"@, Seq::empty()),
        r.definition@ == match view_get(reply@, "definition"@) { Some(d) => d, None => JsonView::Object(Seq::empty()) },
        r.summary == summary,
        opt_view(r.uri) == match view_get(reply@, "uri"@) { Some(JsonView::Str(u)) => Some(u), _ => None },
{
    proof {
        reveal_strlit("");
    }
    let definition = match reply.get("definition") {
        Some(d) => d.deep_clone(),
        None => JsonValue::empty_object(),
    };
    let uri = match reply.get("uri") {
        Some(u) => match u.as_str() {
            Some(s) => Some(owned(s)),
            None => None,
        },
        None => None,
    };
    ProjectEnvelope {
        project_id: text_field_or(reply, "projectId", project_id),
        revision: text_field_or(reply, "revision", ""),
        source_revision: text_field_or(reply, "sourceRevision", ""),
        definition,
        summary,
        uri,
    }
}

} // verus!
