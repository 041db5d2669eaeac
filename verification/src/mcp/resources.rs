//! Resources offered by the tool server: one per work session and two per
//! agent, addressed by URI.
use vstd::prelude::*;
use crate::state::{Store, AgentInstanceState, agent_status_name, base_url_of};
use crate::json::{JsonValue, JsonView, view_entries, push_entry, str_value, number_value};
use crate::mcp::tools_agent::proxy_url;
use crate::model::error::opt_view;
use crate::decimal::decimal;
use crate::text::{concat, without_prefix, without_suffix, strip_prefix, strip_suffix};

verus! {

/// What a resource URI addresses.
#[derive(Debug, PartialEq, Eq)]
pub enum ResourceRef {
    /// `work-session://<id>` (or the older `workspace://<id>`).
    WorkSession(String),
    /// `agent://<id>/status`.
    AgentStatus(String),
    /// `agent://<id>/card`.
    AgentCard(String),
    Unknown,
}

/// Model of a resource reference.
pub enum ResourceView {
    WorkSession(Seq<char>),
    AgentStatus(Seq<char>),
    AgentCard(Seq<char>),
    Unknown,
}

impl View for ResourceRef {
    type V = ResourceView;

    open spec fn view(&self) -> ResourceView {
        match self {
            ResourceRef::WorkSession(s) => ResourceView::WorkSession(s@),
            ResourceRef::AgentStatus(s) => ResourceView::AgentStatus(s@),
            ResourceRef::AgentCard(s) => ResourceView::AgentCard(s@),
            ResourceRef::Unknown => ResourceView::Unknown,
        }
    }
}

/// What a URI addresses.
pub open spec fn resource_view(uri: Seq<char>) -> ResourceView {
    match without_prefix(uri, "work-session://"@) {
        Some(ws) => ResourceView::WorkSession(ws),
        None => match without_prefix(uri, "workspace://"@) {
            Some(ws) => ResourceView::WorkSession(ws),
            None => match without_prefix(uri, "agent://"@) {
                Some(rest) => match without_suffix(rest, "/status"@) {
                    Some(id) => ResourceView::AgentStatus(id),
                    None => match without_suffix(rest, "/card"@) {
                        Some(id) => ResourceView::AgentCard(id),
                        None => ResourceView::Unknown,
                    },
                },
                None => ResourceView::Unknown,
            },
        },
    }
}

/// What a URI addresses.
pub fn resource_of(uri: &str) -> (r: ResourceRef)
    ensures
        r@ == resource_view(uri@),
{
    if let Some(ws) = strip_prefix(uri, "work-session://") {
        return ResourceRef::WorkSession(ws);
    }
    if let Some(ws) = strip_prefix(uri, "workspace://") {
        return ResourceRef::WorkSession(ws);
    }
    match strip_prefix(uri, "agent://") {
        Some(rest) => {
            if let Some(id) = strip_suffix(rest.as_str(), "/status") {
                return ResourceRef::AgentStatus(id);
            }
            match strip_suffix(rest.as_str(), "/card") {
                Some(id) => ResourceRef::AgentCard(id),
                None => ResourceRef::Unknown,
            }
        },
        None => ResourceRef::Unknown,
    }
}

/// The two resources of an agent: its status, then its card.
pub open spec fn agent_resources(a: AgentInstanceState) -> Seq<(Seq<char>, Seq<char>)> {
    seq![
        ("agent://"@ + a.id@ + "/status"@, "Agent Status: "@ + a.name@),
        ("agent://"@ + a.id@ + "/card"@, "Agent Card: "@ + a.name@),
    ]
}

/// The resources of a run of agents, in order.
pub open spec fn agents_resources(agents: Seq<AgentInstanceState>) -> Seq<(Seq<char>, Seq<char>)>
    decreases agents.len(),
{
    if agents.len() == 0 {
        Seq::empty()
    } else {
        agents_resources(agents.drop_last()) + agent_resources(agents.last())
    }
}

/// The resources of one work session: the session, then its agents.
pub open spec fn bucket_resources(b: (String, Vec<AgentInstanceState>)) -> Seq<(Seq<char>, Seq<char>)> {
    seq![("work-session://"@ + b.0@, "WorkSession: "@ + b.0@)] + agents_resources(b.1@)
}

/// All resources, by URI and name, in store order.
pub open spec fn resources_of(buckets: Seq<(String, Vec<AgentInstanceState>)>) -> Seq<(Seq<char>, Seq<char>)>
    decreases buckets.len(),
{
    if buckets.len() == 0 {
        Seq::empty()
    } else {
        resources_of(buckets.drop_last()) + bucket_resources(buckets.last())
    }
}

fn push_pair(v: &mut Vec<(String, String)>, a: String, b: String)
    ensures
        Seq::new(final(v)@.len(), |i: int| (final(v)@[i].0@, final(v)@[i].1@))
            == Seq::new(old(v)@.len(), |i: int| (old(v)@[i].0@, old(v)@[i].1@)).push((a@, b@)),
{
    let ghost before = v@;
    v.push((a, b));
    assert(Seq::new(v@.len(), |i: int| (v@[i].0@, v@[i].1@))
        =~= Seq::new(before.len(), |i: int| (before[i].0@, before[i].1@)).push((a@, b@)));
}

pub open spec fn pair_views(v: Seq<(String, String)>) -> Seq<(Seq<char>, Seq<char>)> {
    Seq::new(v.len(), |i: int| (v[i].0@, v[i].1@))
}

/// All resources of the store, by URI and name.
pub fn list_resources(st: &Store) -> (r: Vec<(String, String)>)
    ensures
        pair_views(r@) == resources_of(st.agents@),
{
    let mut out: Vec<(String, String)> = Vec::new();
    let mut b: usize = 0;
    while b < st.agents.len()
        invariant
            b <= st.agents@.len(),
            pair_views(out@) == resources_of(st.agents@.subrange(0, b as int)),
        decreases st.agents@.len() - b,
    {
        let ghost base = pair_views(out@);
        let ws = st.agents[b].0.as_str();
        let agents = &st.agents[b].1;
        proof {
            assert(st.agents@.subrange(0, b as int + 1).drop_last() =~= st.agents@.subrange(0, b as int));
        }
        push_pair(&mut out, concat("work-session://", ws), concat("WorkSession: ", ws));
        let ghost head = pair_views(out@);
        let mut i: usize = 0;
        while i < agents.len()
            invariant
                i <= agents@.len(),
                *agents == st.agents@[b as int].1,
                pair_views(out@) == head + agents_resources(agents@.subrange(0, i as int)),
            decreases agents@.len() - i,
        {
            let a = &agents[i];
            let ghost before = pair_views(out@);
            let s1 = concat("agent://", a.id.as_str());
            push_pair(&mut out, concat(s1.as_str(), "/status"), concat("Agent Status: ", a.name.as_str()));
            let s2 = concat("agent://", a.id.as_str());
            push_pair(&mut out, concat(s2.as_str(), "/card"), concat("Agent Card: ", a.name.as_str()));
            proof {
                assert(agents@.subrange(0, i as int + 1).drop_last() =~= agents@.subrange(0, i as int));
                assert(agents@.subrange(0, i as int + 1).last() == agents@[i as int]);
                assert(pair_views(out@) =~= before + agent_resources(*a));
                assert(head + agents_resources(agents@.subrange(0, i as int + 1))
                    =~= head + agents_resources(agents@.subrange(0, i as int)) + agent_resources(*a));
            }
            i = i + 1;
        }
        proof {
            assert(agents@.subrange(0, agents@.len() as int) =~= agents@);
            assert(pair_views(out@) =~= base + bucket_resources(st.agents@[b as int]));
        }
        b = b + 1;
    }
    proof {
        assert(st.agents@.subrange(0, st.agents@.len() as int) =~= st.agents@);
    }
    out
}

/// The status resource of an agent of work session `ws`.
pub open spec fn status_resource_view(ws: Seq<char>, a: AgentInstanceState) -> JsonView {
    JsonView::Object(seq![
        ("agent_id"@, JsonView::Str(a.id@)),
        ("status"@, JsonView::Str(agent_status_name(a.status))),
        ("port"@, JsonView::Number(decimal(a.port as nat))),
        ("direct_url"@, JsonView::Str(base_url_of(opt_view(a.host), a.port))),
        ("proxy_url"@, JsonView::Str(proxy_url(a.id@))),
        ("work_session_id"@, JsonView::Str(ws)),
        ("template"@, JsonView::Str(a.template@)),
        ("started_at"@, JsonView::Str(a.started_at@)),
    ])
}

/// The status resource of an agent of work session `ws`.
pub fn status_resource(ws: &str, agent: &AgentInstanceState) -> (r: JsonValue)
    ensures
        r@ == status_resource_view(ws@, *agent),
{
    let mut v: Vec<(String, JsonValue)> = Vec::new();
    push_entry(&mut v, "agent_id", JsonValue::Str(agent.id.clone()));
    push_entry(&mut v, "status", str_value(agent.status.as_str()));
    push_entry(&mut v, "port", number_value(agent.port as u64));
    push_entry(&mut v, "direct_url", JsonValue::Str(agent.base_url()));
    push_entry(&mut v, "proxy_url", JsonValue::Str(concat(crate::mcp::tools_agent::PROXY_BASE, agent.id.as_str())));
    push_entry(&mut v, "work_session_id", str_value(ws));
    push_entry(&mut v, "template", JsonValue::Str(agent.template.clone()));
    push_entry(&mut v, "started_at", JsonValue::Str(agent.started_at.clone()));
    let r = JsonValue::Object(v);
    assert(view_entries(v@) =~= seq![
        ("agent_id"@, JsonView::Str(agent.id@)),
        ("status"@, JsonView::Str(agent_status_name(agent.status))),
        ("port"@, JsonView::Number(decimal(agent.port as nat))),
        ("direct_url"@, JsonView::Str(base_url_of(opt_view(agent.host), agent.port))),
        ("proxy_url"@, JsonView::Str(proxy_url(agent.id@))),
        ("work_session_id"@, JsonView::Str(ws@)),
        ("template"@, JsonView::Str(agent.template@)),
        ("started_at"@, JsonView::Str(agent.started_at@)),
    ]);
    r
}

/// Refusal for a URI that addresses nothing.
pub fn unknown_resource(uri: &str) -> (r: String)
    ensures
        r@ == "unknown resource: "@ + uri@,
{
    concat("unknown resource: ", uri)
}

} // verus!
