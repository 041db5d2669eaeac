//! Which agents a discovery request may see.
use vstd::prelude::*;
use crate::auth::{ScopedToken, TokenView, scope_includes, session_match};
use crate::json::{JsonValue, JsonView, view_get, view_as_str};
use crate::model::error::opt_view;
use crate::state::AgentStatus;
use crate::text::{str_eq, str_views, in_names, contains_str};
use crate::state::{Store, AgentInstanceState, store_flat};
use crate::table::{lookup, find_key};

verus! {

/// The discovery service. It holds no state of its own.
#[derive(Debug, Default)]
pub struct DiscoveryServiceImpl;

/// A local agent is listed when it is ready or busy, its session's project is
/// within the caller's scope, and a session-permission caller owns its session.
pub open spec fn locally_visible(token: TokenView, project: Seq<char>, status: AgentStatus, agent_session: Option<Seq<char>>) -> bool {
    &&& (status == AgentStatus::Ready || status == AgentStatus::Busy)
    &&& scope_includes(token.scope, project)
    &&& session_match(token, agent_session)
}

/// Whether the caller may see a local agent of `project`.
pub fn agent_visible(token: &ScopedToken, project: &str, agent: &crate::state::AgentInstanceState) -> (r: bool)
    ensures
        r == locally_visible(token@, project@, agent.status, opt_view(agent.session_id)),
{
    let live = match agent.status {
        AgentStatus::Ready => true,
        AgentStatus::Busy => true,
        _ => false,
    };
    live && crate::auth::scope_includes_project(&token.scope, project) && crate::auth::session_matches(token, agent)
}

/// Some element of `items` is the string `s`.
pub open spec fn has_str_item(items: Seq<JsonView>, s: Seq<char>) -> bool {
    exists|i: int| 0 <= i < items.len() && view_as_str(items[i]) == Some(s)
}

/// Some skill of an agent card lists `capability` among its tags.
pub open spec fn card_has_capability(card: JsonView, capability: Seq<char>) -> bool {
    match view_get(card, "skills"@) {
        Some(JsonView::Array(skills)) => exists|i: int| 0 <= i < skills.len() && match view_get(#[trigger] skills[i], "tags"@) {
            Some(JsonView::Array(tags)) => has_str_item(tags, capability),
            _ => false,
        },
        _ => false,
    }
}

fn tags_contain(tags: &Vec<JsonValue>, capability: &str) -> (r: bool)
    ensures
        r == has_str_item(crate::json::view_items(tags@), capability@),
{
    let ghost items = crate::json::view_items(tags@);
    let mut i: usize = 0;
    while i < tags.len()
        invariant
            i <= tags@.len(),
            items == crate::json::view_items(tags@),
            forall|k: int| 0 <= k < i ==> view_as_str(#[trigger] items[k]) != Some(capability@),
        decreases tags@.len() - i,
    {
        assert(items[i as int] == tags@[i as int]@);
        match tags[i].as_str() {
            Some(t) => {
                if str_eq(t, capability) {
                    return true;
                }
            },
            None => {},
        }
        i = i + 1;
    }
    false
}

/// Whether an agent card offers `capability` in the tags of one of its skills.
pub fn card_matches_capability(card: &JsonValue, capability: &str) -> (r: bool)
    ensures
        r == card_has_capability(card@, capability@),
{
    proof { reveal_strlit("skills"); reveal_strlit("tags"); }
    let skills = match card.get("skills") {
        Some(JsonValue::Array(s)) => s,
        _ => return false,
    };
    let ghost sv = crate::json::view_items(skills@);
    let mut i: usize = 0;
    while i < skills.len()
        invariant
            i <= skills@.len(),
            sv == crate::json::view_items(skills@),
            view_get(card@, "skills"@) == Some(JsonView::Array(sv)),
            forall|k: int| 0 <= k < i ==> !match view_get(#[trigger] sv[k], "tags"@) {
                Some(JsonView::Array(tags)) => has_str_item(tags, capability@),
                _ => false,
            },
        decreases skills@.len() - i,
    {
        assert(sv[i as int] == skills@[i as int]@);
        match skills[i].get("tags") {
            Some(JsonValue::Array(tags)) => {
                if tags_contain(tags, capability) {
                    return true;
                }
            },
            _ => {},
        }
        i = i + 1;
    }
    false
}

/// The skill tags of an agent's card: those of the card its process served
/// (kept in `cards` under the agent's id), else those of its synthetic card,
/// which has one skill tagged with the agent's template.
pub open spec fn tags_for(cards: Seq<(String, Vec<String>)>, a: AgentInstanceState) -> Seq<Seq<char>> {
    match lookup(cards, a.id@) {
        Some(t) => str_views(t@),
        None => seq![a.template@],
    }
}

/// A local agent (with the WorkSession it runs in) is discovered when it is
/// visible to the caller and, where a capability is asked for, its card's
/// tags name it.
pub open spec fn listed_locally(token: TokenView, capability: Seq<char>, cards: Seq<(String, Vec<String>)>,
    e: (Seq<char>, AgentInstanceState)) -> bool
{
    &&& locally_visible(token, e.0, e.1.status, opt_view(e.1.session_id))
    &&& (capability.len() == 0 || in_names(tags_for(cards, e.1), capability))
}

pub open spec fn entry_views(r: Seq<(&str, &AgentInstanceState)>) -> Seq<(Seq<char>, AgentInstanceState)> {
    Seq::new(r.len(), |k: int| (r[k].0@, *r[k].1))
}

fn card_tags_of(cards: &Vec<(String, Vec<String>)>, a: &AgentInstanceState) -> (r: Vec<String>)
    ensures
        str_views(r@) == tags_for(cards@, *a),
{
    match find_key(cards, a.id.as_str()) {
        Some(i) => {
            let t = crate::grpc::token::clone_strings(&cards[i].1);
            t
        },
        None => {
            let mut v: Vec<String> = Vec::new();
            v.push(a.template.clone());
            proof {
                assert(str_views(v@) =~= seq![a.template@]);
            }
            v
        },
    }
}

impl DiscoveryServiceImpl {
    /// The local agents a discovery request finds, with the WorkSession each
    /// runs in, in store order: those the caller may see that are ready or
    /// busy and, when `capability` is not empty, whose card offers it.
    pub fn discover_local<'a>(&self, store: &'a Store, token: &ScopedToken, capability: &str,
        cards: &Vec<(String, Vec<String>)>) -> (r: Vec<(&'a str, &'a AgentInstanceState)>)
        ensures
            entry_views(r@) == store_flat(*store).filter(|e: (Seq<char>, AgentInstanceState)|
                listed_locally(token@, capability@, cards@, e)),
    {
        let all = store.all_agents();
        let ghost xs = store_flat(*store);
        let ghost pred = |e: (Seq<char>, AgentInstanceState)| listed_locally(token@, capability@, cards@, e);
        let mut out: Vec<(&'a str, &'a AgentInstanceState)> = Vec::new();
        let mut i: usize = 0;
        while i < all.len()
            invariant
                i <= all@.len(),
                all@.len() == xs.len(),
                xs == store_flat(*store),
                pred == (|e: (Seq<char>, AgentInstanceState)| listed_locally(token@, capability@, cards@, e)),
                forall|k: int| 0 <= k < all@.len() ==> (#[trigger] all@[k]).0@ == xs[k].0 && *all@[k].1 == xs[k].1,
                entry_views(out@) == xs.subrange(0, i as int).filter(pred),
            decreases all@.len() - i,
        {
            let (ws, a) = all[i];
            let ghost before = out@;
            proof {
                reveal(Seq::filter);
                assert(xs.subrange(0, i as int + 1).drop_last() =~= xs.subrange(0, i as int));
                assert(xs.subrange(0, i as int + 1).last() == xs[i as int]);
                assert(xs[i as int] == (ws@, *a));
            }
            let keep = agent_visible(token, ws, a) && (capability.unicode_len() == 0 || {
                let tags = card_tags_of(cards, a);
                contains_str(&tags, capability)
            });
            assert(keep == pred(xs[i as int]));
            if keep {
                out.push((ws, a));
                assert(entry_views(out@) =~= entry_views(before).push((ws@, *a)));
            }
            i = i + 1;
        }
        assert(xs.subrange(0, xs.len() as int) =~= xs);
        out
    }
}

} // verus!
