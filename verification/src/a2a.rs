//! A2A proxy decisions: which agent a request reaches, who may reach it, and
//! where a routed message goes.
use vstd::prelude::*;
use crate::auth::{ScopedToken, TokenView, ScopeView, Permission, scope_includes, session_match};
use crate::state::{Store, AgentInstanceState, AgentStatus, store_flat, resolve_flexible, base_url_of, agent_status_name};
use crate::model::error::opt_view;
use crate::table::lookup;
use crate::text::{concat, owned, str_eq, contains_str, in_names, str_views};
use crate::json::{JsonValue, JsonView, view_entries, push_entry, str_value};
use crate::decimal::{decimal, u64_to_decimal};

verus! {

/// An agent a request may reach.
#[derive(Debug)]
pub struct ResolvedAgent {
    pub url: String,
    pub agent: AgentInstanceState,
    pub project: String,
}

/// A refused request: HTTP status and message.
#[derive(Debug)]
pub struct Refusal {
    pub status: u16,
    pub message: String,
}

/// Resolve an agent for a caller: by live id, else by preferred name; the
/// caller's scope must include the agent's WorkSession and a session caller
/// must own the agent's session.
pub fn resolve_agent(store: &Store, agent_id: &str, token: &ScopedToken) -> (r: Result<ResolvedAgent, Refusal>)
    ensures
        match resolve_flexible(store_flat(*store), agent_id@) {
            None => r matches Err(e) && e.status == 404 && e.message@ == "agent not found: "@ + agent_id@,
            Some(k) => {
                let ws = store_flat(*store)[k].0;
                let a = store_flat(*store)[k].1;
                if lookup(store.agents@, ws) is None {
                    r matches Err(e) && e.status == 500 && e.message@ == "workspace not found for agent"@
                } else if !scope_includes(token.scope@, ws) {
                    r matches Err(e) && e.status == 403 && e.message@ == "token scope does not include project: "@ + ws
                } else if !session_match(token@, opt_view(a.session_id)) {
                    r matches Err(e) && e.status == 403 && e.message@ == "session-scoped token cannot access agent: "@ + agent_id@
                } else {
                    r matches Ok(ra) && ra.agent == a && ra.project@ == ws && ra.url@ == base_url_of(opt_view(a.host), a.port)
                }
            },
        },
{
    let (ws_name, agent) = match store.resolve_agent_flexible(agent_id) {
        Some(found) => found,
        None => {
            return Err(Refusal { status: 404, message: concat("agent not found: ", agent_id) });
        },
    };
    if store.work_session_id(ws_name).is_none() {
        return Err(Refusal { status: 500, message: owned("workspace not found for agent") });
    }
    if !crate::auth::scope_includes_project(&token.scope, ws_name) {
        return Err(Refusal { status: 403, message: concat("token scope does not include project: ", ws_name) });
    }
    if !crate::auth::session_matches(token, agent) {
        return Err(Refusal { status: 403, message: concat("session-scoped token cannot access agent: ", agent_id) });
    }
    Ok(ResolvedAgent { url: agent.base_url(), agent: agent.clone(), project: owned(ws_name) })
}

/// A local agent is listed to a caller when it is ready or busy, its
/// WorkSession is in the caller's scope, and a session caller owns it.
pub open spec fn listed(token: TokenView, ws: Seq<char>, a: AgentInstanceState) -> bool {
    &&& scope_includes(token.scope, ws)
    &&& (a.status == AgentStatus::Ready || a.status == AgentStatus::Busy)
    &&& session_match(token, opt_view(a.session_id))
}

/// Whether the agent list shows `a` of WorkSession `ws` to the caller.
pub fn is_listed(token: &ScopedToken, ws: &str, a: &AgentInstanceState) -> (r: bool)
    ensures
        r == listed(token@, ws@, *a),
{
    crate::auth::scope_includes_project(&token.scope, ws)
        && (a.status == AgentStatus::Ready || a.status == AgentStatus::Busy)
        && crate::auth::session_matches(token, a)
}

/// Filters of the discovery endpoint.
#[derive(Debug, Default)]
pub struct DiscoverQuery {
    pub capability: Option<String>,
    pub work_session_id: Option<String>,
    pub status: Option<String>,
}

/// Discovery shows `a` of `ws` when the caller's scope includes `ws`, the
/// WorkSession filter (if any) names it, its status is the filtered one (or,
/// unfiltered, ready or busy), a session caller owns it, and one of its card's
/// skill tags is the wanted capability (if any).
pub open spec fn discovered(token: TokenView, ws: Seq<char>, a: AgentInstanceState, q: DiscoverQuery,
    card_tags: Seq<Seq<char>>) -> bool
{
    &&& scope_includes(token.scope, ws)
    &&& match q.work_session_id { Some(f) => f@ == ws, None => true }
    &&& match q.status {
        Some(s) => agent_status_name(a.status) == s@,
        None => a.status == AgentStatus::Ready || a.status == AgentStatus::Busy,
    }
    &&& session_match(token, opt_view(a.session_id))
    &&& match q.capability { Some(c) => in_names(card_tags, c@), None => true }
}

/// Whether discovery shows `a` of WorkSession `ws`; `card_tags` are the
/// skill tags of its agent card.
pub fn is_discovered(token: &ScopedToken, ws: &str, a: &AgentInstanceState, q: &DiscoverQuery,
    card_tags: &Vec<String>) -> (r: bool)
    ensures
        r == discovered(token@, ws@, *a, *q, str_views(card_tags@)),
{
    if !crate::auth::scope_includes_project(&token.scope, ws) {
        return false;
    }
    match &q.work_session_id {
        Some(f) => if !str_eq(f.as_str(), ws) { return false; },
        None => {},
    }
    match &q.status {
        Some(s) => if !str_eq(a.status.as_str(), s.as_str()) { return false; },
        None => if !(a.status == AgentStatus::Ready || a.status == AgentStatus::Busy) { return false; },
    }
    if !crate::auth::session_matches(token, a) {
        return false;
    }
    match &q.capability {
        Some(c) => contains_str(card_tags, c.as_str()),
        None => true,
    }
}

/// Routing criteria of a routed message.
#[derive(Debug)]
pub struct RoutingCriteria {
    pub tags: Option<Vec<String>>,
    pub capability: Option<String>,
}

/// Tags a routed message asks for: its tags, then its capability.
pub open spec fn route_tags_of(routing: Option<RoutingCriteria>) -> Seq<Seq<char>> {
    match routing {
        Some(r) => (match r.tags { Some(t) => str_views(t@), None => Seq::empty() })
            + (match r.capability { Some(c) => seq![c@], None => Seq::empty() }),
        None => Seq::empty(),
    }
}

/// The tags to match, or the refusal when routing names none.
pub fn route_tags(routing: Option<RoutingCriteria>) -> (r: Result<Vec<String>, Refusal>)
    ensures
        match r {
            Ok(v) => str_views(v@) == route_tags_of(routing) && !(routing is Some && route_tags_of(routing).len() == 0),
            Err(e) => routing is Some && route_tags_of(routing).len() == 0 && e.status == 400
                && e.message@ == "routing provided but no tags or capability specified"@,
        },
{
    let ghost want = route_tags_of(routing);
    let has_routing = routing.is_some();
    let tags: Vec<String> = match routing {
        Some(r) => {
            let mut v: Vec<String> = match r.tags {
                Some(t) => t,
                None => Vec::new(),
            };
            let ghost before = str_views(v@);
            match r.capability {
                Some(c) => {
                    v.push(c);
                    proof {
                        assert(str_views(v@) =~= before + seq![v@.last()@]);
                    }
                },
                None => {
                    proof {
                        assert(str_views(v@) =~= before + Seq::<Seq<char>>::empty());
                    }
                },
            }
            proof {
                assert(str_views(v@) =~= want);
            }
            v
        },
        None => {
            let v: Vec<String> = Vec::new();
            proof {
                assert(str_views(v@) =~= want);
            }
            v
        },
    };
    if tags.len() == 0 && has_routing {
        return Err(Refusal { status: 400, message: owned("routing provided but no tags or capability specified") });
    }
    Ok(tags)
}

/// A live agent offered for routing, with the skill tags of its card.
#[derive(Debug)]
pub struct RouteCandidate {
    pub status: AgentStatus,
    pub skill_tags: Vec<String>,
}

/// A candidate serves the tags when it is ready or busy and, if tags are
/// asked for, one of its skill tags is among them.
pub open spec fn serves(c: RouteCandidate, tags: Seq<Seq<char>>) -> bool {
    &&& (c.status == AgentStatus::Ready || c.status == AgentStatus::Busy)
    &&& (tags.len() == 0 || exists|i: int| 0 <= i < c.skill_tags@.len() && in_names(tags, #[trigger] c.skill_tags@[i]@))
}

/// First candidate from `i` on that serves the tags, optionally only a ready one.
pub open spec fn first_serving(cs: Seq<RouteCandidate>, tags: Seq<Seq<char>>, ready_only: bool, i: int) -> Option<int>
    decreases cs.len() - i,
{
    if i < 0 || i >= cs.len() {
        None
    } else if serves(cs[i], tags) && (!ready_only || cs[i].status == AgentStatus::Ready) {
        Some(i)
    } else {
        first_serving(cs, tags, ready_only, i + 1)
    }
}

/// The agent a routed message goes to: the first ready one that serves the
/// tags, else the first (busy) one that does.
pub open spec fn route_choice(cs: Seq<RouteCandidate>, tags: Seq<Seq<char>>) -> Option<int> {
    match first_serving(cs, tags, true, 0) {
        Some(i) => Some(i),
        None => first_serving(cs, tags, false, 0),
    }
}

fn candidate_serves(c: &RouteCandidate, tags: &Vec<String>) -> (r: bool)
    ensures
        r == serves(*c, str_views(tags@)),
{
    if !(c.status == AgentStatus::Ready || c.status == AgentStatus::Busy) {
        return false;
    }
    if tags.len() == 0 {
        return true;
    }
    let mut i: usize = 0;
    while i < c.skill_tags.len()
        invariant
            i <= c.skill_tags@.len(),
            c.status == AgentStatus::Ready || c.status == AgentStatus::Busy,
            tags@.len() > 0,
            forall|k: int| 0 <= k < i ==> !in_names(str_views(tags@), #[trigger] c.skill_tags@[k]@),
        decreases c.skill_tags@.len() - i,
    {
        if contains_str(tags, c.skill_tags[i].as_str()) {
            assert(in_names(str_views(tags@), c.skill_tags@[i as int]@));
            return true;
        }
        i = i + 1;
    }
    false
}

/// Pick the agent a routed message goes to, by index into `candidates`.
pub fn pick_route(candidates: &Vec<RouteCandidate>, tags: &Vec<String>) -> (r: Option<usize>)
    ensures
        match r {
            Some(i) => route_choice(candidates@, str_views(tags@)) == Some(i as int),
            None => route_choice(candidates@, str_views(tags@)) is None,
        },
{
    let ghost tv = str_views(tags@);
    let mut best: Option<usize> = None;
    let mut i: usize = 0;
    while i < candidates.len()
        invariant
            i <= candidates@.len(),
            tv == str_views(tags@),
            first_serving(candidates@, tv, true, 0) == first_serving(candidates@, tv, true, i as int),
            match best {
                None => first_serving(candidates@, tv, false, 0) == first_serving(candidates@, tv, false, i as int),
                Some(b) => first_serving(candidates@, tv, false, 0) == Some(b as int) && b < i
                    && candidates@[b as int].status == AgentStatus::Busy,
            },
        decreases candidates@.len() - i,
    {
        if candidate_serves(&candidates[i], tags) {
            if candidates[i].status == AgentStatus::Ready {
                return Some(i);
            }
            if best.is_none() {
                best = Some(i);
            }
        }
        i = i + 1;
    }
    best
}

/// A skill an agent card advertises.
#[derive(Debug, Clone)]
pub struct SkillInfo {
    pub id: String,
    pub name: String,
    pub description: String,
    pub tags: Vec<String>,
}

/// What an agent card says, as far as the proxy reads and writes it.
#[derive(Debug, Clone)]
pub struct CardInfo {
    pub name: String,
    pub description: String,
    pub version: String,
    pub skills: Vec<SkillInfo>,
    pub default_input_modes: Vec<String>,
    pub default_output_modes: Vec<String>,
    pub streaming: Option<bool>,
    pub push_notifications: Option<bool>,
}

/// The card of an agent whose process serves none: one general skill tagged
/// with its template, plain text in and out, streaming.
pub fn synthetic_card(agent: &AgentInstanceState) -> (r: CardInfo)
    ensures
        r.name@ == agent.name@,
        r.description@ == agent.template@ + " agent ("@ + agent.name@ + ")"@,
        r.version@ == "1.0.0"@,
        r.skills@.len() == 1,
        r.skills@[0].id@ == "general"@,
        r.skills@[0].name@ == "General"@,
        r.skills@[0].description@ == "General agent capabilities"@,
        str_views(r.skills@[0].tags@) == seq![agent.template@],
        str_views(r.default_input_modes@) == seq!["text/plain"@],
        str_views(r.default_output_modes@) == seq!["text/plain"@],
        r.streaming == Some(true),
        r.push_notifications == Some(false),
{
    let mut tags: Vec<String> = Vec::new();
    tags.push(agent.template.clone());
    let mut skills: Vec<SkillInfo> = Vec::new();
    skills.push(SkillInfo {
        id: owned("general"),
        name: owned("General"),
        description: owned("General agent capabilities"),
        tags,
    });
    let mut input: Vec<String> = Vec::new();
    input.push(owned("text/plain"));
    let mut output: Vec<String> = Vec::new();
    output.push(owned("text/plain"));
    let a = concat(agent.template.as_str(), " agent (");
    let b = concat(a.as_str(), agent.name.as_str());
    let r = CardInfo {
        name: agent.name.clone(),
        description: concat(b.as_str(), ")"),
        version: owned("1.0.0"),
        skills,
        default_input_modes: input,
        default_output_modes: output,
        streaming: Some(true),
        push_notifications: Some(false),
    };
    assert(str_views(r.skills@[0].tags@) =~= seq![agent.template@]);
    assert(str_views(r.default_input_modes@) =~= seq!["text/plain"@]);
    assert(str_views(r.default_output_modes@) =~= seq!["text/plain"@]);
    r
}

/// The tags of every skill of a card, skill by skill.
pub open spec fn skill_tags(skills: Seq<SkillInfo>) -> Seq<Seq<char>>
    decreases skills.len(),
{
    if skills.len() == 0 {
        Seq::empty()
    } else {
        skill_tags(skills.drop_last()) + str_views(skills.last().tags@)
    }
}

/// The tags of every skill of a card.
pub fn card_tags(card: &CardInfo) -> (r: Vec<String>)
    ensures
        str_views(r@) == skill_tags(card.skills@),
{
    let mut out: Vec<String> = Vec::new();
    let mut i: usize = 0;
    while i < card.skills.len()
        invariant
            i <= card.skills@.len(),
            str_views(out@) == skill_tags(card.skills@.subrange(0, i as int)),
        decreases card.skills@.len() - i,
    {
        let tags = &card.skills[i].tags;
        let ghost base = str_views(out@);
        proof {
            assert(card.skills@.subrange(0, i as int + 1).drop_last() =~= card.skills@.subrange(0, i as int));
        }
        let mut j: usize = 0;
        while j < tags.len()
            invariant
                j <= tags@.len(),
                *tags == card.skills@[i as int].tags,
                str_views(out@) == base + str_views(tags@).subrange(0, j as int),
            decreases tags@.len() - j,
        {
            let ghost before = out@;
            out.push(tags[j].clone());
            assert(str_views(out@) =~= str_views(before).push(tags@[j as int]@));
            assert(str_views(tags@).subrange(0, j as int + 1) =~= str_views(tags@).subrange(0, j as int).push(tags@[j as int]@));
            j = j + 1;
        }
        assert(str_views(tags@).subrange(0, tags@.len() as int) =~= str_views(tags@));
        i = i + 1;
    }
    assert(card.skills@.subrange(0, card.skills@.len() as int) =~= card.skills@);
    out
}

/// Where the proxy serves an agent.
pub fn proxy_interface_url(agent_id: &str) -> (r: String)
    ensures
        r@ == "http://localhost:9099/a2a/agents/"@ + agent_id@,
{
    concat("http://localhost:9099/a2a/agents/", agent_id)
}

/// The host-side facts a served card carries under `arp`.
pub open spec fn arp_metadata_view(a: AgentInstanceState, project: Seq<char>) -> JsonView {
    JsonView::Object(seq![("arp"@, JsonView::Object(seq![
        ("agent_id"@, JsonView::Str(a.id@)),
        ("workspace"@, JsonView::Str(a.work_session_id@)),
        ("project"@, JsonView::Str(project)),
        ("template"@, JsonView::Str(a.template@)),
        ("status"@, JsonView::Str(agent_status_name(a.status))),
        ("direct_url"@, JsonView::Str("http://localhost:"@ + decimal(a.port as nat))),
        ("started_at"@, JsonView::Str(a.started_at@)),
    ]))])
}

/// The host-side facts a served card carries.
pub fn arp_metadata(agent: &AgentInstanceState, project: &str) -> (r: JsonValue)
    ensures
        r@ == arp_metadata_view(*agent, project@),
{
    let port = u64_to_decimal(agent.port as u64);
    let mut v: Vec<(String, JsonValue)> = Vec::new();
    push_entry(&mut v, "agent_id", JsonValue::Str(agent.id.clone()));
    push_entry(&mut v, "workspace", JsonValue::Str(agent.work_session_id.clone()));
    push_entry(&mut v, "project", str_value(project));
    push_entry(&mut v, "template", JsonValue::Str(agent.template.clone()));
    push_entry(&mut v, "status", str_value(agent.status.as_str()));
    push_entry(&mut v, "direct_url", JsonValue::Str(concat("http://localhost:", port.as_str())));
    push_entry(&mut v, "started_at", JsonValue::Str(agent.started_at.clone()));
    let ghost inner_entries = seq![
        ("agent_id"@, JsonView::Str(agent.id@)),
        ("workspace"@, JsonView::Str(agent.work_session_id@)),
        ("project"@, JsonView::Str(project@)),
        ("template"@, JsonView::Str(agent.template@)),
        ("status"@, JsonView::Str(agent_status_name(agent.status))),
        ("direct_url"@, JsonView::Str("http://localhost:"@ + decimal(agent.port as nat))),
        ("started_at"@, JsonView::Str(agent.started_at@)),
    ];
    assert(view_entries(v@) =~= inner_entries);
    let inner = JsonValue::Object(v);
    let mut o: Vec<(String, JsonValue)> = Vec::new();
    push_entry(&mut o, "arp", inner);
    assert(view_entries(o@) =~= seq![("arp"@, JsonView::Object(inner_entries))]);
    JsonValue::Object(o)
}

/// Where a proxied request goes: the agent's URL, the path, then the query.
pub fn proxy_target(base_url: &str, path: &str, query: Option<&str>) -> (r: String)
    ensures
        r@ == base_url@ + path@ + match query { Some(q) => "?"@ + q@, None => Seq::empty() },
{
    let a = concat(base_url, path);
    match query {
        Some(q) => {
            let b = concat("?", q);
            concat(a.as_str(), b.as_str())
        },
        None => {
            assert(a@ =~= a@ + Seq::<char>::empty());
            a
        },
    }
}

/// A proxied request carries every header but `host`.
pub fn forwards_header(name: &str) -> (r: bool)
    ensures
        r == (name@ != "host"@),
{
    !str_eq(name, "host")
}

/// Path on the agent of a proxied sub-path.
pub fn agent_path(rest: &str) -> (r: String)
    ensures
        r@ == "/"@ + rest@,
{
    concat("/", rest)
}

} // verus!
