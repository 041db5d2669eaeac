//! Agent tools: the scope and permission arguments they accept, the JSON that
//! describes an agent, the agent listing, and the messages sent to agents.
use vstd::prelude::*;
use crate::auth::{ScopedToken, TokenScope, ScopeView, Permission};
use crate::json::{JsonValue, JsonView, view_get, view_str_items, view_entries, push_entry, str_value, number_value,
    str_items};
use crate::state::{Store, AgentInstanceState, agent_status_name, base_url_of, store_flat};
use crate::model::error::opt_view;
use crate::sorting::{Keyed, sort_by_key, sorted_by_key, lemma_map_multiset};
use crate::decimal::{decimal, u64_to_decimal};
use crate::text::{concat, owned, str_eq, trim_end_char, trimmed_end};

verus! {

/// Base of the proxy URLs handed out for agents.
pub const PROXY_BASE: &'static str = "http://localhost:9099/a2a/agents/";

pub open spec fn scope_shape_error() -> Seq<char> {
    "scope must be \"*\" or an array of project names"@
}

/// A scope argument: `"*"` for all projects, or an array of project names.
pub open spec fn scope_arg(v: JsonView) -> Result<ScopeView, Seq<char>> {
    match v {
        JsonView::Str(s) => if s == "*"@ { Ok(ScopeView::Global) } else { Err(scope_shape_error()) },
        JsonView::Array(_) => match view_str_items(v) {
            Some(ps) => Ok(ScopeView::Projects(ps)),
            None => Err("scope array must contain strings"@),
        },
        _ => Err(scope_shape_error()),
    }
}

/// Parse a scope argument.
pub fn parse_scope(value: &JsonValue) -> (r: Result<TokenScope, String>)
    ensures
        match scope_arg(value@) {
            Ok(s) => r matches Ok(t) && t@ == s,
            Err(m) => r matches Err(e) && e@ == m,
        },
{
    match value {
        JsonValue::Str(s) => {
            if str_eq(s.as_str(), "*") {
                Ok(TokenScope::Global)
            } else {
                Err(owned("scope must be \"*\" or an array of project names"))
            }
        },
        JsonValue::Array(_) => match str_items(value) {
            Some(v) => {
                proof {
                    assert(crate::text::str_views(v@) =~= Seq::new(v@.len(), |i: int| v@[i]@));
                }
                Ok(TokenScope::Projects(v))
            },
            None => Err(owned("scope array must contain strings")),
        },
        _ => Err(owned("scope must be \"*\" or an array of project names")),
    }
}

/// A permission argument: `session`, `project` or `admin`.
pub open spec fn permission_arg(s: Seq<char>) -> Option<Permission> {
    if s == "session"@ {
        Some(Permission::Session)
    } else if s == "project"@ {
        Some(Permission::Project)
    } else if s == "admin"@ {
        Some(Permission::Admin)
    } else {
        None
    }
}

/// Parse a permission argument.
pub fn parse_permission(s: &str) -> (r: Result<Permission, String>)
    ensures
        match permission_arg(s@) {
            Some(p) => r == Ok::<Permission, String>(p),
            None => r matches Err(e) && e@ == "invalid permission: "@ + s@ + " (must be session|project|admin)"@,
        },
{
    if str_eq(s, "session") {
        Ok(Permission::Session)
    } else if str_eq(s, "project") {
        Ok(Permission::Project)
    } else if str_eq(s, "admin") {
        Ok(Permission::Admin)
    } else {
        let a = concat("invalid permission: ", s);
        Err(concat(a.as_str(), " (must be session|project|admin)"))
    }
}

/// An optional text entry: present only when the value is.
pub open spec fn opt_entry(key: Seq<char>, v: Option<Seq<char>>) -> Seq<(Seq<char>, JsonView)> {
    match v {
        Some(s) => seq![(key, JsonView::Str(s))],
        None => Seq::empty(),
    }
}

/// The proxy URL of an agent.
pub open spec fn proxy_url(id: Seq<char>) -> Seq<char> {
    "http://localhost:9099/a2a/agents/"@ + id
}

/// The JSON that describes an agent of work session `ws` and `project`.
pub open spec fn agent_json_view(ws: Seq<char>, a: AgentInstanceState, project: Seq<char>) -> JsonView {
    JsonView::Object(seq![
        ("id"@, JsonView::Str(a.id@)),
        ("template"@, JsonView::Str(a.template@)),
        ("name"@, JsonView::Str(a.name@)),
        ("workspace"@, JsonView::Str(ws)),
        ("project"@, JsonView::Str(project)),
        ("status"@, JsonView::Str(agent_status_name(a.status))),
        ("port"@, JsonView::Number(decimal(a.port as nat))),
        ("direct_url"@, JsonView::Str(base_url_of(opt_view(a.host), a.port))),
        ("proxy_url"@, JsonView::Str(proxy_url(a.id@))),
        ("pid"@, match a.pid { Some(p) => JsonView::Number(decimal(p as nat)), None => JsonView::Null }),
        ("started_at"@, JsonView::Str(a.started_at@)),
    ] + opt_entry("token_id"@, opt_view(a.token_id)) + opt_entry("session_id"@, opt_view(a.session_id))
        + opt_entry("spawned_by"@, opt_view(a.spawned_by)))
}

fn push_opt(v: &mut Vec<(String, JsonValue)>, key: &str, val: &Option<String>)
    ensures
        view_entries(final(v)@) == view_entries(old(v)@) + opt_entry(key@, opt_view(*val)),
{
    match val {
        Some(s) => {
            push_entry(v, key, JsonValue::Str(s.clone()));
            assert(view_entries(v@) =~= view_entries(old(v)@) + opt_entry(key@, opt_view(*val)));
        },
        None => {
            assert(view_entries(v@) =~= view_entries(old(v)@) + opt_entry(key@, opt_view(*val)));
        },
    }
}

/// The JSON that describes an agent of work session `ws_name` and `project`.
pub fn agent_to_json(ws_name: &str, agent: &AgentInstanceState, project: &str) -> (r: JsonValue)
    ensures
        r@ == agent_json_view(ws_name@, *agent, project@),
{
    let mut v: Vec<(String, JsonValue)> = Vec::new();
    push_entry(&mut v, "id", JsonValue::Str(agent.id.clone()));
    push_entry(&mut v, "template", JsonValue::Str(agent.template.clone()));
    push_entry(&mut v, "name", JsonValue::Str(agent.name.clone()));
    push_entry(&mut v, "workspace", str_value(ws_name));
    push_entry(&mut v, "project", str_value(project));
    push_entry(&mut v, "status", str_value(agent.status.as_str()));
    push_entry(&mut v, "port", number_value(agent.port as u64));
    push_entry(&mut v, "direct_url", JsonValue::Str(agent.base_url()));
    push_entry(&mut v, "proxy_url", JsonValue::Str(concat(PROXY_BASE, agent.id.as_str())));
    let pid = match agent.pid {
        Some(p) => number_value(p as u64),
        None => JsonValue::Null,
    };
    push_entry(&mut v, "pid", pid);
    push_entry(&mut v, "started_at", JsonValue::Str(agent.started_at.clone()));
    let ghost head = view_entries(v@);
    push_opt(&mut v, "token_id", &agent.token_id);
    push_opt(&mut v, "session_id", &agent.session_id);
    push_opt(&mut v, "spawned_by", &agent.spawned_by);
    let r = JsonValue::Object(v);
    proof {
        let want = agent_json_view(ws_name@, *agent, project@);
        assert(head =~= seq![
            ("id"@, JsonView::Str(agent.id@)),
            ("template"@, JsonView::Str(agent.template@)),
            ("name"@, JsonView::Str(agent.name@)),
            ("workspace"@, JsonView::Str(ws_name@)),
            ("project"@, JsonView::Str(project@)),
            ("status"@, JsonView::Str(agent_status_name(agent.status))),
            ("port"@, JsonView::Number(decimal(agent.port as nat))),
            ("direct_url"@, JsonView::Str(base_url_of(opt_view(agent.host), agent.port))),
            ("proxy_url"@, JsonView::Str(proxy_url(agent.id@))),
            ("pid"@, match agent.pid { Some(p) => JsonView::Number(decimal(p as nat)), None => JsonView::Null }),
            ("started_at"@, JsonView::Str(agent.started_at@)),
        ]);
    }
    r
}

/// One entry of an agent listing, ordered by agent id.
#[derive(Debug)]
pub struct AgentEntry {
    pub id: String,
    pub json: JsonValue,
}

impl Keyed for AgentEntry {
    open spec fn key(&self) -> Seq<char> {
        self.id@
    }

    fn key_text(&self) -> (r: &str) {
        self.id.as_str()
    }
}

pub open spec fn entry_view(e: AgentEntry) -> (Seq<char>, JsonView) {
    (e.id@, e.json@)
}

/// Filters of an agent listing; an absent filter passes every agent.
pub open spec fn listed_by(workspace: Option<Seq<char>>, status: Option<Seq<char>>, template: Option<Seq<char>>,
    ws: Seq<char>, a: AgentInstanceState) -> bool
{
    &&& match workspace { Some(w) => w == ws, None => true }
    &&& match status { Some(s) => agent_status_name(a.status) == s, None => true }
    &&& match template { Some(t) => a.template@ == t, None => true }
}

/// What a listing holds, before ordering: each listed agent by id and JSON.
pub open spec fn listing(st: Store, workspace: Option<Seq<char>>, status: Option<Seq<char>>, template: Option<Seq<char>>)
    -> Seq<(Seq<char>, JsonView)>
{
    store_flat(st).filter(|p: (Seq<char>, AgentInstanceState)| listed_by(workspace, status, template, p.0, p.1))
        .map_values(|p: (Seq<char>, AgentInstanceState)| (p.1.id@, agent_json_view(p.0, p.1, p.0)))
}

/// The agent listing: every agent that passes the filters, described under
/// its work session, ordered by agent id.
pub fn agent_list(st: &Store, workspace: Option<&str>, status: Option<&str>, template: Option<&str>)
    -> (r: Vec<AgentEntry>)
    ensures
        sorted_by_key(r@),
        r@.map_values(|e: AgentEntry| entry_view(e)).to_multiset()
            == listing(*st, crate::auth::opt_str(workspace), crate::auth::opt_str(status), crate::auth::opt_str(template)).to_multiset(),
{
    let ghost wf = crate::auth::opt_str(workspace);
    let ghost sf = crate::auth::opt_str(status);
    let ghost tf = crate::auth::opt_str(template);
    let ghost xs = store_flat(*st);
    let ghost pred = |p: (Seq<char>, AgentInstanceState)| listed_by(wf, sf, tf, p.0, p.1);
    let ghost f = |p: (Seq<char>, AgentInstanceState)| (p.1.id@, agent_json_view(p.0, p.1, p.0));
    let ghost g = |e: AgentEntry| entry_view(e);
    let all = st.all_agents();
    let mut out: Vec<AgentEntry> = Vec::new();
    let mut i: usize = 0;
    while i < all.len()
        invariant
            i <= all@.len(),
            all@.len() == xs.len(),
            xs == store_flat(*st),
            forall|k: int| 0 <= k < all@.len() ==> (#[trigger] all@[k]).0@ == xs[k].0 && *all@[k].1 == xs[k].1,
            wf == crate::auth::opt_str(workspace),
            sf == crate::auth::opt_str(status),
            tf == crate::auth::opt_str(template),
            pred == (|p: (Seq<char>, AgentInstanceState)| listed_by(wf, sf, tf, p.0, p.1)),
            f == (|p: (Seq<char>, AgentInstanceState)| (p.1.id@, agent_json_view(p.0, p.1, p.0))),
            g == (|e: AgentEntry| entry_view(e)),
            out@.map_values(g) == xs.subrange(0, i as int).filter(pred).map_values(f),
        decreases all@.len() - i,
    {
        let (ws, a) = all[i];
        proof {
            reveal(Seq::filter);
            assert(xs.subrange(0, i as int + 1).drop_last() =~= xs.subrange(0, i as int));
            assert(xs.subrange(0, i as int + 1).last() == xs[i as int]);
            assert(ws@ == xs[i as int].0 && *a == xs[i as int].1);
        }
        let keep = match workspace {
            Some(w) => str_eq(w, ws),
            None => true,
        } && match status {
            Some(s) => str_eq(a.status.as_str(), s),
            None => true,
        } && match template {
            Some(t) => str_eq(a.template.as_str(), t),
            None => true,
        };
        assert(keep == pred(xs[i as int]));
        let ghost before = out@;
        if keep {
            let e = AgentEntry { id: a.id.clone(), json: agent_to_json(ws, a, ws) };
            out.push(e);
            proof {
                let fl = xs.subrange(0, i as int).filter(pred);
                assert(xs.subrange(0, i as int + 1).filter(pred) == fl.push(xs[i as int]));
                assert(fl.push(xs[i as int]).map_values(f) =~= fl.map_values(f).push(f(xs[i as int])));
                assert(out@.map_values(g) =~= before.map_values(g).push(g(e)));
            }
        } else {
            proof {
                assert(xs.subrange(0, i as int + 1).filter(pred) == xs.subrange(0, i as int).filter(pred));
            }
        }
        i = i + 1;
    }
    proof {
        assert(xs.subrange(0, xs.len() as int) =~= xs);
    }
    let ghost unsorted = out@;
    let r = sort_by_key(out);
    proof {
        lemma_map_multiset(r@, unsorted, g);
    }
    r
}

/// A user text part.
pub open spec fn text_part_view(text: Seq<char>) -> JsonView {
    JsonView::Object(seq![("text_part"@, JsonView::Object(seq![("text"@, JsonView::Str(text))]))])
}

/// Text or null.
pub open spec fn text_or_null(o: Option<Seq<char>>) -> JsonView {
    match o {
        Some(c) => JsonView::Str(c),
        None => JsonView::Null,
    }
}

/// A user message of one text part in a conversation (null when none).
pub open spec fn user_message_view(text: Seq<char>, context_id: Option<Seq<char>>) -> JsonView {
    JsonView::Object(seq![
        ("role"@, JsonView::Str("ROLE_USER"@)),
        ("parts"@, JsonView::Array(seq![text_part_view(text)])),
        ("context_id"@, text_or_null(context_id)),
    ])
}

/// The body of an agent message.
pub open spec fn message_body_view(text: Seq<char>, context_id: Option<Seq<char>>) -> JsonView {
    JsonView::Object(seq![("message"@, user_message_view(text, context_id))])
}

/// The body of an agent message.
pub fn message_body(text: &str, context_id: &Option<String>) -> (r: JsonValue)
    ensures
        r@ == message_body_view(text@, opt_view(*context_id)),
{
    let mut t: Vec<(String, JsonValue)> = Vec::new();
    push_entry(&mut t, "text", str_value(text));
    let mut tp: Vec<(String, JsonValue)> = Vec::new();
    push_entry(&mut tp, "text_part", JsonValue::Object(t));
    let part = JsonValue::Object(tp);
    assert(view_entries(t@) =~= seq![("text"@, JsonView::Str(text@))]);
    assert(view_entries(tp@) =~= seq![("text_part"@, JsonView::Object(seq![("text"@, JsonView::Str(text@))]))]);
    assert(part@ == text_part_view(text@));
    let mut parts: Vec<JsonValue> = Vec::new();
    parts.push(part);
    let parts_v = JsonValue::Array(parts);
    assert(crate::json::view_items(parts@) =~= seq![text_part_view(text@)]);
    let ctx = match context_id {
        Some(c) => JsonValue::Str(c.clone()),
        None => JsonValue::Null,
    };
    assert(ctx@ == text_or_null(opt_view(*context_id)));
    let mut m: Vec<(String, JsonValue)> = Vec::new();
    push_entry(&mut m, "role", str_value("ROLE_USER"));
    push_entry(&mut m, "parts", parts_v);
    push_entry(&mut m, "context_id", ctx);
    assert(view_entries(m@) =~= seq![
        ("role"@, JsonView::Str("ROLE_USER"@)),
        ("parts"@, JsonView::Array(seq![text_part_view(text@)])),
        ("context_id"@, text_or_null(opt_view(*context_id))),
    ]);
    let msg = JsonValue::Object(m);
    assert(msg@ == user_message_view(text@, opt_view(*context_id)));
    let mut outer: Vec<(String, JsonValue)> = Vec::new();
    push_entry(&mut outer, "message", msg);
    assert(view_entries(outer@) =~= seq![("message"@, user_message_view(text@, opt_view(*context_id)))]);
    JsonValue::Object(outer)
}

/// An agent's reply as a task: a reply with an `id` is one already; any other
/// becomes a completed synthetic task carrying it as its message.
pub open spec fn task_reply_view(body: JsonView, fresh_id: Seq<char>) -> JsonView {
    if view_get(body, "id"@) is Some {
        body
    } else {
        JsonView::Object(seq![
            ("id"@, JsonView::Str("synthetic-"@ + fresh_id)),
            ("status"@, JsonView::Object(seq![("state"@, JsonView::Str("TASK_STATE_COMPLETED"@))])),
            ("artifacts"@, JsonView::Array(Seq::empty())),
            ("message"@, body),
        ])
    }
}

/// An agent's reply as a task; `fresh_id` names a synthetic one.
pub fn task_reply(body: JsonValue, fresh_id: &str) -> (r: JsonValue)
    ensures
        r@ == task_reply_view(body@, fresh_id@),
{
    if body.get("id").is_some() {
        body
    } else {
        let mut st: Vec<(String, JsonValue)> = Vec::new();
        push_entry(&mut st, "state", str_value("TASK_STATE_COMPLETED"));
        let arts: Vec<JsonValue> = Vec::new();
        let arts_v = JsonValue::Array(arts);
        assert(crate::json::view_items(arts@) =~= Seq::<JsonView>::empty());
        let mut v: Vec<(String, JsonValue)> = Vec::new();
        push_entry(&mut v, "id", JsonValue::Str(concat("synthetic-", fresh_id)));
        push_entry(&mut v, "status", JsonValue::Object(st));
        push_entry(&mut v, "artifacts", arts_v);
        let ghost bv = body@;
        push_entry(&mut v, "message", body);
        let r = JsonValue::Object(v);
        proof {
            assert(view_entries(st@) =~= seq![("state"@, JsonView::Str("TASK_STATE_COMPLETED"@))]);
            assert(view_entries(v@) =~= seq![
                ("id"@, JsonView::Str("synthetic-"@ + fresh_id@)),
                ("status"@, JsonView::Object(seq![("state"@, JsonView::Str("TASK_STATE_COMPLETED"@))])),
                ("artifacts"@, JsonView::Array(Seq::empty())),
                ("message"@, bv),
            ]);
        }
        r
    }
}

/// Where a task's status is fetched: the agent's task URL, with the history
/// length asked for when given.
pub fn task_status_url(base_url: &str, task_id: &str, history_length: Option<u32>) -> (r: String)
    ensures
        r@ == base_url@ + "/tasks/"@ + task_id@ + match history_length {
            Some(n) => "?history_length="@ + decimal(n as nat),
            None => Seq::empty(),
        },
{
    let a = concat(base_url, "/tasks/");
    let b = concat(a.as_str(), task_id);
    match history_length {
        Some(n) => {
            let c = concat(b.as_str(), "?history_length=");
            let d = u64_to_decimal(n as u64);
            concat(c.as_str(), d.as_str())
        },
        None => {
            assert(b@ =~= b@ + Seq::<char>::empty());
            b
        },
    }
}

/// Where an agent message is sent.
pub fn message_send_url(base_url: &str) -> (r: String)
    ensures
        r@ == base_url@ + "/message:send"@,
{
    concat(base_url, "/message:send")
}

/// Reply to a stop.
pub fn stop_reply(agent_id: &str) -> (r: String)
    ensures
        r@ == "Stop signal sent to agent: "@ + agent_id@,
{
    concat("Stop signal sent to agent: ", agent_id)
}

/// Reply to a restart.
pub fn restart_reply(old_id: &str, new_id: &str) -> (r: String)
    ensures
        r@ == "Restarted agent: "@ + old_id@ + " -> "@ + new_id@,
{
    let a = concat("Restarted agent: ", old_id);
    let b = concat(a.as_str(), " -> ");
    concat(b.as_str(), new_id)
}

/// The JSON of a scope as tokens carry it: all projects as null, else the list.
pub open spec fn scope_json_view(s: ScopeView) -> JsonView {
    match s {
        ScopeView::Global => JsonView::Null,
        ScopeView::Projects(ps) => crate::json::str_array(ps),
    }
}

/// Lowercase name of a permission level.
pub open spec fn permission_name(p: Permission) -> Seq<char> {
    match p {
        Permission::Session => "session"@,
        Permission::Project => "project"@,
        Permission::Admin => "admin"@,
    }
}

fn permission_text(p: Permission) -> (r: &'static str)
    ensures
        r@ == permission_name(p),
{
    match p {
        Permission::Session => "session",
        Permission::Project => "project",
        Permission::Admin => "admin",
    }
}

/// What `token/create` answers: the bearer text and the token's fields.
pub open spec fn token_reply_view(bearer: Seq<char>, t: crate::auth::TokenView) -> JsonView {
    JsonView::Object(seq![
        ("token"@, JsonView::Str(bearer)),
        ("token_id"@, JsonView::Str(t.id)),
        ("subject"@, JsonView::Str(t.subject)),
        ("scope"@, scope_json_view(t.scope)),
        ("permission"@, JsonView::Str(permission_name(t.permission))),
        ("issued_at"@, JsonView::Str(t.issued_at)),
        ("expires_at"@, text_or_null(t.expires_at)),
    ])
}

/// What `token/create` answers.
pub fn token_reply(bearer: &str, token: &ScopedToken) -> (r: JsonValue)
    ensures
        r@ == token_reply_view(bearer@, token@),
{
    let scope = match &token.scope {
        TokenScope::Global => JsonValue::Null,
        TokenScope::Projects(ps) => crate::json::string_array(ps),
    };
    let expires = match &token.expires_at {
        Some(e) => JsonValue::Str(e.clone()),
        None => JsonValue::Null,
    };
    let mut v: Vec<(String, JsonValue)> = Vec::new();
    push_entry(&mut v, "token", str_value(bearer));
    push_entry(&mut v, "token_id", JsonValue::Str(token.id.clone()));
    push_entry(&mut v, "subject", JsonValue::Str(token.subject.clone()));
    push_entry(&mut v, "scope", scope);
    push_entry(&mut v, "permission", str_value(permission_text(token.permission)));
    push_entry(&mut v, "issued_at", JsonValue::Str(token.issued_at.clone()));
    push_entry(&mut v, "expires_at", expires);
    let r = JsonValue::Object(v);
    proof {
        match &token.scope {
            TokenScope::Global => {},
            TokenScope::Projects(ps) => {
                assert(Seq::new(ps@.len(), |i: int| ps@[i]@) =~= crate::text::str_views(ps@));
            },
        }
        assert(scope@ == scope_json_view(token.scope@));
        assert(expires@ == text_or_null(token@.expires_at));
        assert(token@.scope == token.scope@);
        assert(view_entries(v@) =~= seq![
            ("token"@, JsonView::Str(bearer@)),
            ("token_id"@, JsonView::Str(token@.id)),
            ("subject"@, JsonView::Str(token@.subject)),
            ("scope"@, scope_json_view(token@.scope)),
            ("permission"@, JsonView::Str(permission_name(token@.permission))),
            ("issued_at"@, JsonView::Str(token@.issued_at)),
            ("expires_at"@, text_or_null(token@.expires_at)),
        ]);
    }
    r
}

/// Which agents `agent/discover` looks at: managed local ones and/or agents
/// probed over the network. An absent scope means local.
pub open spec fn discovery_reach(scope: Option<Seq<char>>) -> (bool, bool) {
    let s = match scope { Some(s) => s, None => "local"@ };
    (s == "local"@ || s == "all"@, s == "network"@ || s == "all"@)
}

/// Which agents `agent/discover` looks at: (local, network).
pub fn discovery_targets(scope: Option<&str>) -> (r: (bool, bool))
    ensures
        r == discovery_reach(crate::auth::opt_str(scope)),
{
    let s = match scope {
        Some(s) => s,
        None => "local",
    };
    (str_eq(s, "local") || str_eq(s, "all"), str_eq(s, "network") || str_eq(s, "all"))
}

/// Where an agent's card is probed: the URL without trailing slashes, then
/// the well-known card path.
pub fn agent_card_url(url: &str) -> (r: String)
    ensures
        r@ == trimmed_end(url@, '/') + "/.well-known/agent-card.json"@,
{
    let base = trim_end_char(url, '/');
    concat(base.as_str(), "/.well-known/agent-card.json")
}

} // verus!
