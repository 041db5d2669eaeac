//! Host-local agent instance records, grouped by WorkSession id.
//!
//! Holds no Project, WorkProfile or WorkSession definitions or lifecycle.
use vstd::prelude::*;
use crate::text::{str_eq, starts_with, concat, owned};
use crate::decimal::{u64_to_decimal, decimal};
use crate::table::{keys_of, distinct, lookup, find_key, lemma_lookup_distinct, table_remove};

verus! {

/// On-disk agents document version.
pub const DOCUMENT_VERSION: u32 = 2;
pub const TAG_OFFSET: i32 = 10;
pub const AGENT_PORT_BASE: u16 = 9100;
pub const AGENT_PORT_MAX: u16 = 9199;
pub const BEZALEL_PORT_BASE: u16 = 9200;
pub const BEZALEL_PORT_MAX: u16 = 9299;

#[derive(Debug, Clone, Copy, PartialEq, Eq, Structural)]
pub enum AgentStatus {
    Starting,
    Ready,
    Busy,
    Error,
    Stopping,
    Stopped,
}

pub open spec fn agent_status_name(s: AgentStatus) -> Seq<char> {
    match s {
        AgentStatus::Starting => "starting"@,
        AgentStatus::Ready => "ready"@,
        AgentStatus::Busy => "busy"@,
        AgentStatus::Error => "error"@,
        AgentStatus::Stopping => "stopping"@,
        AgentStatus::Stopped => "stopped"@,
    }
}

impl AgentStatus {
    /// The default status of a record: stopped.
    pub fn default() -> (r: Self)
        ensures
            r == AgentStatus::Stopped,
    {
        AgentStatus::Stopped
    }

    pub fn as_str(&self) -> (r: &'static str)
        ensures
            r@ == agent_status_name(*self),
    {
        match self {
            AgentStatus::Starting => "starting",
            AgentStatus::Ready => "ready",
            AgentStatus::Busy => "busy",
            AgentStatus::Error => "error",
            AgentStatus::Stopping => "stopping",
            AgentStatus::Stopped => "stopped",
        }
    }

    /// Display text of the status.
    pub fn to_string(&self) -> (r: String)
        ensures
            r@ == agent_status_name(*self),
    {
        owned(self.as_str())
    }
}

/// Stopped or stopping agents are not candidates for new work.
pub open spec fn is_live(s: AgentStatus) -> bool {
    s != AgentStatus::Stopped && s != AgentStatus::Stopping
}

#[derive(Debug)]
pub struct AgentInstanceState {
    pub id: String,
    pub template: String,
    pub name: String,
    /// Authoritative WorkSession id from Switchboard (not a Workspace Resource).
    pub work_session_id: String,
    pub status: AgentStatus,
    pub port: u16,
    pub host: Option<String>,
    pub pid: Option<u32>,
    pub started_at: String,
    pub token_id: Option<String>,
    pub session_id: Option<String>,
    pub spawned_by: Option<String>,
}

/// Base URL of an agent's A2A endpoints.
pub open spec fn base_url_of(host: Option<Seq<char>>, port: u16) -> Seq<char> {
    match host {
        Some(h) => if crate::text::has_prefix(h, "http"@) {
            h
        } else {
            "http://"@ + h + ":"@ + decimal(port as nat)
        },
        None => "http://127.0.0.1:"@ + decimal(port as nat),
    }
}

impl Clone for AgentInstanceState {
    fn clone(&self) -> (r: Self)
        ensures
            r == *self,
    {
        AgentInstanceState {
            id: self.id.clone(),
            template: self.template.clone(),
            name: self.name.clone(),
            work_session_id: self.work_session_id.clone(),
            status: self.status,
            port: self.port,
            host: self.host.clone(),
            pid: self.pid,
            started_at: self.started_at.clone(),
            token_id: self.token_id.clone(),
            session_id: self.session_id.clone(),
            spawned_by: self.spawned_by.clone(),
        }
    }
}

impl Default for AgentInstanceState {
    fn default() -> (r: Self)
        ensures
            r.id@ == Seq::<char>::empty(),
            r.name@ == Seq::<char>::empty(),
            r.work_session_id@ == Seq::<char>::empty(),
            r.status == AgentStatus::Stopped,
            r.port == 0,
            r.host is None,
            r.session_id is None,
    {
        AgentInstanceState::empty()
    }
}

impl AgentInstanceState {
    /// A record with empty fields and status `Stopped`.
    pub fn empty() -> (r: Self)
        ensures
            r.id@ == Seq::<char>::empty(),
            r.name@ == Seq::<char>::empty(),
            r.work_session_id@ == Seq::<char>::empty(),
            r.status == AgentStatus::Stopped,
            r.port == 0,
            r.host is None,
            r.session_id is None,
    {
        AgentInstanceState {
            id: String::new(),
            template: String::new(),
            name: String::new(),
            work_session_id: String::new(),
            status: AgentStatus::Stopped,
            port: 0,
            host: None,
            pid: None,
            started_at: String::new(),
            token_id: None,
            session_id: None,
            spawned_by: None,
        }
    }

    /// Returns the base URL for this agent's A2A endpoints.
    pub fn base_url(&self) -> (r: String)
        ensures
            r@ == base_url_of(crate::model::error::opt_view(self.host), self.port),
    {
        let port = u64_to_decimal(self.port as u64);
        match &self.host {
            Some(h) => {
                if starts_with(h.as_str(), "http") {
                    h.clone()
                } else {
                    let a = concat("http://", h.as_str());
                    let b = concat(a.as_str(), ":");
                    concat(b.as_str(), port.as_str())
                }
            },
            None => concat("http://127.0.0.1:", port.as_str()),
        }
    }
}

/// All agents in store order, each with the WorkSession key of its bucket.
pub open spec fn bucket_pairs(b: (String, Vec<AgentInstanceState>)) -> Seq<(Seq<char>, AgentInstanceState)> {
    Seq::new(b.1@.len(), |i: int| (b.0@, b.1@[i]))
}

pub open spec fn flat(s: Seq<(String, Vec<AgentInstanceState>)>) -> Seq<(Seq<char>, AgentInstanceState)>
    decreases s.len(),
{
    if s.len() == 0 {
        Seq::empty()
    } else {
        flat(s.drop_last()) + bucket_pairs(s.last())
    }
}

/// First position from `i` on holding an agent with this id.
pub open spec fn first_with_id(xs: Seq<(Seq<char>, AgentInstanceState)>, id: Seq<char>, i: int) -> Option<int>
    decreases xs.len() - i,
{
    if i < 0 || i >= xs.len() {
        None
    } else if xs[i].1.id@ == id {
        Some(i)
    } else {
        first_with_id(xs, id, i + 1)
    }
}

/// A live agent with this name.
pub open spec fn is_candidate(a: AgentInstanceState, name: Seq<char>) -> bool {
    a.name@ == name && is_live(a.status)
}

/// First position from `i` on holding a live agent with this name.
pub open spec fn first_candidate(xs: Seq<(Seq<char>, AgentInstanceState)>, name: Seq<char>, i: int) -> Option<int>
    decreases xs.len() - i,
{
    if i < 0 || i >= xs.len() {
        None
    } else if is_candidate(xs[i].1, name) {
        Some(i)
    } else {
        first_candidate(xs, name, i + 1)
    }
}

/// First position from `i` on holding a ready agent with this name.
pub open spec fn first_ready(xs: Seq<(Seq<char>, AgentInstanceState)>, name: Seq<char>, i: int) -> Option<int>
    decreases xs.len() - i,
{
    if i < 0 || i >= xs.len() {
        None
    } else if xs[i].1.name@ == name && xs[i].1.status == AgentStatus::Ready {
        Some(i)
    } else {
        first_ready(xs, name, i + 1)
    }
}

/// Choice among agents of one name: the first ready one, else the first live one.
pub open spec fn best_by_name(xs: Seq<(Seq<char>, AgentInstanceState)>, name: Seq<char>) -> Option<int> {
    match first_ready(xs, name, 0) {
        Some(i) => Some(i),
        None => first_candidate(xs, name, 0),
    }
}

pub proof fn lemma_first_with_id(xs: Seq<(Seq<char>, AgentInstanceState)>, id: Seq<char>, i: int)
    requires
        0 <= i,
    ensures
        match first_with_id(xs, id, i) {
            Some(k) => i <= k < xs.len() && xs[k].1.id@ == id,
            None => forall|k: int| i <= k < xs.len() ==> xs[k].1.id@ != id,
        },
    decreases xs.len() - i,
{
    if i < xs.len() && xs[i].1.id@ != id {
        lemma_first_with_id(xs, id, i + 1);
    }
}

pub proof fn lemma_first_candidate(xs: Seq<(Seq<char>, AgentInstanceState)>, name: Seq<char>, i: int)
    requires
        0 <= i,
    ensures
        match first_candidate(xs, name, i) {
            Some(k) => i <= k < xs.len() && is_candidate(xs[k].1, name),
            None => forall|k: int| i <= k < xs.len() ==> !is_candidate(#[trigger] xs[k].1, name),
        },
    decreases xs.len() - i,
{
    if i < xs.len() && !is_candidate(xs[i].1, name) {
        lemma_first_candidate(xs, name, i + 1);
    }
}

pub proof fn lemma_first_ready(xs: Seq<(Seq<char>, AgentInstanceState)>, name: Seq<char>, i: int)
    requires
        0 <= i,
    ensures
        match first_ready(xs, name, i) {
            Some(k) => i <= k < xs.len() && xs[k].1.name@ == name && xs[k].1.status == AgentStatus::Ready,
            None => forall|k: int| i <= k < xs.len() ==> !(xs[k].1.name@ == name && xs[k].1.status == AgentStatus::Ready),
        },
    decreases xs.len() - i,
{
    if i < xs.len() && !(xs[i].1.name@ == name && xs[i].1.status == AgentStatus::Ready) {
        lemma_first_ready(xs, name, i + 1);
    }
}

/// Agent store: WorkSession id → agent instances, with distinct keys.
#[derive(Debug)]
pub struct Store {
    pub version: u32,
    pub agents: Vec<(String, Vec<AgentInstanceState>)>,
}


pub proof fn lemma_flat_prefix(s: Seq<(String, Vec<AgentInstanceState>)>, b: int)
    requires
        0 <= b < s.len(),
    ensures
        flat(s.subrange(0, b + 1)) == flat(s.subrange(0, b)) + bucket_pairs(s[b]),
{
    assert(s.subrange(0, b + 1).drop_last() =~= s.subrange(0, b));
    assert(s.subrange(0, b + 1).last() == s[b]);
}

/// Every agent of the store paired with its bucket key.
pub open spec fn store_flat(st: Store) -> Seq<(Seq<char>, AgentInstanceState)> {
    flat(st.agents@)
}

/// The agents kept for one WorkSession.
pub open spec fn bucket_of(st: Store, ws: Seq<char>) -> Option<Seq<AgentInstanceState>> {
    match lookup(st.agents@, ws) {
        Some(v) => Some(v@),
        None => None,
    }
}

impl Store {
    /// Well-formed: distinct WorkSession keys.
    pub open spec fn wf(&self) -> bool {
        distinct(keys_of(self.agents@))
    }

    /// An empty store of the current document version.
    pub fn new() -> (r: Self)
        ensures
            r.wf(),
            r.version == DOCUMENT_VERSION,
            r.agents@.len() == 0,
    {
        Store { version: DOCUMENT_VERSION, agents: Vec::new() }
    }

    /// True when an agent bucket exists for this WorkSession id.
    pub fn has_work_session(&self, work_session_id: &str) -> (r: bool)
        ensures
            r == (lookup(self.agents@, work_session_id@) is Some),
    {
        find_key(&self.agents, work_session_id).is_some()
    }

    /// The agent bucket keyed by `id`.
    pub fn work_session_id(&self, id: &str) -> (r: Option<&Vec<AgentInstanceState>>)
        ensures
            match r {
                Some(v) => lookup(self.agents@, id@) == Some(*v),
                None => lookup(self.agents@, id@) is None,
            },
    {
        match find_key(&self.agents, id) {
            Some(i) => Some(&self.agents[i].1),
            None => None,
        }
    }

    /// Agents of one WorkSession (empty when it has none).
    pub fn agents_for(&self, work_session_id: &str) -> (r: &[AgentInstanceState])
        ensures
            r@ == match bucket_of(*self, work_session_id@) {
                Some(v) => v,
                None => Seq::empty(),
            },
    {
        match find_key(&self.agents, work_session_id) {
            Some(i) => self.agents[i].1.as_slice(),
            None => &[],
        }
    }

    /// All agents with their WorkSession key, in store order.
    pub fn all_agents(&self) -> (r: Vec<(&str, &AgentInstanceState)>)
        ensures
            r@.len() == store_flat(*self).len(),
            forall|k: int| 0 <= k < r@.len() ==> (#[trigger] r@[k]).0@ == store_flat(*self)[k].0
                && *r@[k].1 == store_flat(*self)[k].1,
    {
        let mut out: Vec<(&str, &AgentInstanceState)> = Vec::new();
        let mut b: usize = 0;
        while b < self.agents.len()
            invariant
                b <= self.agents@.len(),
                out@.len() == flat(self.agents@.subrange(0, b as int)).len(),
                forall|k: int| 0 <= k < out@.len() ==> (#[trigger] out@[k]).0@ == flat(self.agents@.subrange(0, b as int))[k].0
                    && *out@[k].1 == flat(self.agents@.subrange(0, b as int))[k].1,
            decreases self.agents@.len() - b,
        {
            let ghost base = flat(self.agents@.subrange(0, b as int));
            let ghost bp = bucket_pairs(self.agents@[b as int]);
            proof {
                lemma_flat_prefix(self.agents@, b as int);
            }
            let ws = self.agents[b].0.as_str();
            let bucket = &self.agents[b].1;
            let mut i: usize = 0;
            while i < bucket.len()
                invariant
                    i <= bucket@.len(),
                    bp == bucket_pairs(self.agents@[b as int]),
                    *bucket == self.agents@[b as int].1,
                    ws@ == self.agents@[b as int].0@,
                    out@.len() == base.len() + i,
                    forall|k: int| 0 <= k < out@.len() ==> (#[trigger] out@[k]).0@ == (base + bp)[k].0
                        && *out@[k].1 == (base + bp)[k].1,
                decreases bucket@.len() - i,
            {
                out.push((ws, &bucket[i]));
                i = i + 1;
            }
            b = b + 1;
        }
        assert(self.agents@.subrange(0, self.agents@.len() as int) =~= self.agents@);
        out
    }

    /// The first agent with this id and its WorkSession key.
    pub fn find_agent(&self, agent_id: &str) -> (r: Option<(&str, &AgentInstanceState)>)
        ensures
            match r {
                Some((ws, a)) => match first_with_id(store_flat(*self), agent_id@, 0) {
                    Some(k) => ws@ == store_flat(*self)[k].0 && *a == store_flat(*self)[k].1,
                    None => false,
                },
                None => first_with_id(store_flat(*self), agent_id@, 0) is None,
            },
    {
        let all = self.all_agents();
        let ghost xs = store_flat(*self);
        let mut i: usize = 0;
        while i < all.len()
            invariant
                i <= all@.len(),
                all@.len() == xs.len(),
                xs == store_flat(*self),
                forall|k: int| 0 <= k < all@.len() ==> (#[trigger] all@[k]).0@ == xs[k].0 && *all@[k].1 == xs[k].1,
                first_with_id(xs, agent_id@, 0) == first_with_id(xs, agent_id@, i as int),
            decreases all@.len() - i,
        {
            assert(all@[i as int].0@ == xs[i as int].0);
            if str_eq(all[i].1.id.as_str(), agent_id) {
                assert(first_with_id(xs, agent_id@, i as int) == Some(i as int));
                return Some(all[i]);
            }
            i = i + 1;
        }
        None
    }

    /// The preferred live agent with this name: the first ready one, else the
    /// first one that is not stopped or stopping.
    pub fn find_agent_by_name(&self, name: &str) -> (r: Option<(&str, &AgentInstanceState)>)
        ensures
            match r {
                Some((ws, a)) => match best_by_name(store_flat(*self), name@) {
                    Some(k) => ws@ == store_flat(*self)[k].0 && *a == store_flat(*self)[k].1,
                    None => false,
                },
                None => best_by_name(store_flat(*self), name@) is None,
            },
    {
        let all = self.all_agents();
        let ghost xs = store_flat(*self);
        let mut i: usize = 0;
        while i < all.len()
            invariant
                i <= all@.len(),
                all@.len() == xs.len(),
                xs == store_flat(*self),
                forall|k: int| 0 <= k < all@.len() ==> (#[trigger] all@[k]).0@ == xs[k].0 && *all@[k].1 == xs[k].1,
                first_ready(xs, name@, 0) == first_ready(xs, name@, i as int),
            decreases all@.len() - i,
        {
            assert(all@[i as int].0@ == xs[i as int].0);
            if all[i].1.status == AgentStatus::Ready && str_eq(all[i].1.name.as_str(), name) {
                assert(first_ready(xs, name@, i as int) == Some(i as int));
                return Some(all[i]);
            }
            i = i + 1;
        }
        let mut j: usize = 0;
        while j < all.len()
            invariant
                j <= all@.len(),
                all@.len() == xs.len(),
                xs == store_flat(*self),
                forall|k: int| 0 <= k < all@.len() ==> (#[trigger] all@[k]).0@ == xs[k].0 && *all@[k].1 == xs[k].1,
                first_ready(xs, name@, 0) is None,
                first_candidate(xs, name@, 0) == first_candidate(xs, name@, j as int),
            decreases all@.len() - j,
        {
            assert(all@[j as int].0@ == xs[j as int].0);
            let st = all[j].1.status;
            if st != AgentStatus::Stopped && st != AgentStatus::Stopping && str_eq(all[j].1.name.as_str(), name) {
                assert(first_candidate(xs, name@, j as int) == Some(j as int));
                return Some(all[j]);
            }
            j = j + 1;
        }
        None
    }
}


/// Agents of one WorkSession paired with its key (empty when unknown).
pub open spec fn session_pairs(st: Store, ws: Seq<char>) -> Seq<(Seq<char>, AgentInstanceState)> {
    match crate::table::key_pos(keys_of(st.agents@), ws) {
        Some(i) => bucket_pairs(st.agents@[i]),
        None => Seq::empty(),
    }
}

/// Choice made by `resolve_agent_flexible`: a live agent with this id, else
/// the preferred live agent with this name.
pub open spec fn resolve_flexible(xs: Seq<(Seq<char>, AgentInstanceState)>, ident: Seq<char>) -> Option<int> {
    match first_with_id(xs, ident, 0) {
        Some(k) => if is_live(xs[k].1.status) { Some(k) } else { best_by_name(xs, ident) },
        None => best_by_name(xs, ident),
    }
}

/// First index from `i` on of an agent with this id in one bucket.
pub open spec fn first_id_in(v: Seq<AgentInstanceState>, id: Seq<char>, i: int) -> Option<int>
    decreases v.len() - i,
{
    if i < 0 || i >= v.len() {
        None
    } else if v[i].id@ == id {
        Some(i)
    } else {
        first_id_in(v, id, i + 1)
    }
}

/// First bucket from `b` on holding an agent with this id.
pub open spec fn first_bucket_with_id(s: Seq<(String, Vec<AgentInstanceState>)>, id: Seq<char>, b: int) -> Option<int>
    decreases s.len() - b,
{
    if b < 0 || b >= s.len() {
        None
    } else if first_id_in(s[b].1@, id, 0) is Some {
        Some(b)
    } else {
        first_bucket_with_id(s, id, b + 1)
    }
}

pub proof fn lemma_first_id_in(v: Seq<AgentInstanceState>, id: Seq<char>, i: int)
    requires
        0 <= i,
    ensures
        match first_id_in(v, id, i) {
            Some(k) => i <= k < v.len() && v[k].id@ == id,
            None => forall|k: int| i <= k < v.len() ==> v[k].id@ != id,
        },
    decreases v.len() - i,
{
    if i < v.len() && v[i].id@ != id {
        lemma_first_id_in(v, id, i + 1);
    }
}

pub proof fn lemma_first_bucket_with_id(s: Seq<(String, Vec<AgentInstanceState>)>, id: Seq<char>, b: int)
    requires
        0 <= b,
    ensures
        match first_bucket_with_id(s, id, b) {
            Some(k) => b <= k < s.len() && first_id_in(s[k].1@, id, 0) is Some,
            None => forall|k: int| b <= k < s.len() ==> first_id_in(#[trigger] s[k].1@, id, 0) is None,
        },
    decreases s.len() - b,
{
    if b < s.len() && !(first_id_in(s[b].1@, id, 0) is Some) {
        lemma_first_bucket_with_id(s, id, b + 1);
    }
}

/// A used port: held by an agent that is not stopped, other than the excluded one.
pub open spec fn port_used(xs: Seq<(Seq<char>, AgentInstanceState)>, exclude: Option<Seq<char>>, p: u16) -> bool {
    exists|k: int| 0 <= k < xs.len() && (#[trigger] xs[k]).1.port == p && xs[k].1.status != AgentStatus::Stopped
        && !(exclude == Some(xs[k].1.id@))
}

fn bucket_first_id(v: &Vec<AgentInstanceState>, id: &str) -> (r: Option<usize>)
    ensures
        match r {
            Some(i) => first_id_in(v@, id@, 0) == Some(i as int) && i < v@.len(),
            None => first_id_in(v@, id@, 0) is None,
        },
{
    let mut i: usize = 0;
    while i < v.len()
        invariant
            i <= v@.len(),
            first_id_in(v@, id@, 0) == first_id_in(v@, id@, i as int),
        decreases v@.len() - i,
    {
        if str_eq(v[i].id.as_str(), id) {
            return Some(i);
        }
        i = i + 1;
    }
    None
}

impl Store {
    fn locate(&self, id: &str) -> (r: Option<(usize, usize)>)
        ensures
            match r {
                Some((b, i)) => first_bucket_with_id(self.agents@, id@, 0) == Some(b as int)
                    && first_id_in(self.agents@[b as int].1@, id@, 0) == Some(i as int)
                    && b < self.agents@.len() && i < self.agents@[b as int].1@.len(),
                None => first_bucket_with_id(self.agents@, id@, 0) is None,
            },
    {
        let mut b: usize = 0;
        while b < self.agents.len()
            invariant
                b <= self.agents@.len(),
                first_bucket_with_id(self.agents@, id@, 0) == first_bucket_with_id(self.agents@, id@, b as int),
            decreases self.agents@.len() - b,
        {
            if let Some(i) = bucket_first_id(&self.agents[b].1, id) {
                return Some((b, i));
            }
            b = b + 1;
        }
        None
    }

    /// The preferred live agent with this name within one WorkSession, paired
    /// with the agent's own WorkSession id.
    pub fn find_agent_in_session(&self, work_session_id: &str, name: &str) -> (r: Option<(&str, &AgentInstanceState)>)
        ensures
            match r {
                Some((ws, a)) => match best_by_name(session_pairs(*self, work_session_id@), name@) {
                    Some(k) => *a == session_pairs(*self, work_session_id@)[k].1 && ws@ == a.work_session_id@,
                    None => false,
                },
                None => best_by_name(session_pairs(*self, work_session_id@), name@) is None,
            },
    {
        let b = match find_key(&self.agents, work_session_id) {
            Some(b) => b,
            None => return None,
        };
        let ghost xs = session_pairs(*self, work_session_id@);
        let bucket = &self.agents[b].1;
        assert(xs == bucket_pairs(self.agents@[b as int]));
        let mut i: usize = 0;
        while i < bucket.len()
            invariant
                i <= bucket@.len(),
                b < self.agents@.len(),
                xs == session_pairs(*self, work_session_id@),
                xs == bucket_pairs(self.agents@[b as int]),
                *bucket == self.agents@[b as int].1,
                first_ready(xs, name@, 0) == first_ready(xs, name@, i as int),
            decreases bucket@.len() - i,
        {
            let a = &bucket[i];
            if a.status == AgentStatus::Ready && str_eq(a.name.as_str(), name) {
                assert(first_ready(xs, name@, i as int) == Some(i as int));
                return Some((a.work_session_id.as_str(), a));
            }
            i = i + 1;
        }
        let mut j: usize = 0;
        while j < bucket.len()
            invariant
                j <= bucket@.len(),
                b < self.agents@.len(),
                xs == session_pairs(*self, work_session_id@),
                xs == bucket_pairs(self.agents@[b as int]),
                *bucket == self.agents@[b as int].1,
                first_ready(xs, name@, 0) is None,
                first_candidate(xs, name@, 0) == first_candidate(xs, name@, j as int),
            decreases bucket@.len() - j,
        {
            let a = &bucket[j];
            if a.status != AgentStatus::Stopped && a.status != AgentStatus::Stopping && str_eq(a.name.as_str(), name) {
                assert(first_candidate(xs, name@, j as int) == Some(j as int));
                return Some((a.work_session_id.as_str(), a));
            }
            j = j + 1;
        }
        None
    }

    /// A live agent with this id, else the preferred live agent with this name.
    pub fn resolve_agent_flexible(&self, identifier: &str) -> (r: Option<(&str, &AgentInstanceState)>)
        ensures
            match r {
                Some((ws, a)) => match resolve_flexible(store_flat(*self), identifier@) {
                    Some(k) => ws@ == store_flat(*self)[k].0 && *a == store_flat(*self)[k].1,
                    None => false,
                },
                None => resolve_flexible(store_flat(*self), identifier@) is None,
            },
    {
        if let Some(found) = self.find_agent(identifier) {
            if found.1.status != AgentStatus::Stopped && found.1.status != AgentStatus::Stopping {
                return Some(found);
            }
        }
        self.find_agent_by_name(identifier)
    }

    /// Record an agent under a WorkSession (creating its bucket at the end when
    /// new); the agent's `work_session_id` is set to that key.
    pub fn add_agent(&mut self, work_session_id: &str, agent: AgentInstanceState)
        requires
            old(self).wf(),
        ensures
            final(self).wf(),
            final(self).version == old(self).version,
            exists|wsid: String| wsid@ == work_session_id@ && bucket_of(*final(self), work_session_id@) == Some(
                match bucket_of(*old(self), work_session_id@) {
                    Some(v) => v,
                    None => Seq::empty(),
                }.push(AgentInstanceState { work_session_id: wsid, ..agent })),
            forall|k: Seq<char>| k != work_session_id@ ==> bucket_of(*final(self), k) == bucket_of(*old(self), k),
    {
        let mut a = agent;
        let wsid = owned(work_session_id);
        let ghost wsid_g = wsid;
        a.work_session_id = wsid;
        let ghost olds = self.agents@;
        let ghost a_final = a;
        match find_key(&self.agents, work_session_id) {
            Some(i) => {
                let (k, mut v) = self.agents.remove(i);
                let ghost oldv = v@;
                v.push(a);
                self.agents.insert(i, (k, v));
                proof {
                    assert(self.agents@ =~= olds.update(i as int, (k, v)));
                    assert(keys_of(self.agents@) =~= keys_of(olds));
                    crate::table::lemma_key_pos(keys_of(olds), work_session_id@);
                    lemma_lookup_distinct(olds, work_session_id@);
                    lemma_lookup_distinct(self.agents@, work_session_id@);
                    assert(self.agents@[i as int].0@ == work_session_id@);
                    assert(bucket_of(*self, work_session_id@) == Some(oldv.push(AgentInstanceState { work_session_id: wsid_g, ..agent })));
                    assert forall|k2: Seq<char>| k2 != work_session_id@ implies bucket_of(*self, k2) == bucket_of(*old(self), k2) by {
                        lemma_lookup_distinct(olds, k2);
                        lemma_lookup_distinct(self.agents@, k2);
                        if exists|j: int| 0 <= j < olds.len() && olds[j].0@ == k2 {
                            let j = choose|j: int| 0 <= j < olds.len() && olds[j].0@ == k2;
                            assert(self.agents@[j] == olds[j]);
                        } else {
                            assert forall|j: int| 0 <= j < self.agents@.len() implies #[trigger] self.agents@[j].0@ != k2 by {
                                if j != i {
                                    assert(self.agents@[j] == olds[j]);
                                }
                            }
                        }
                    }
                }
            },
            None => {
                let mut v: Vec<AgentInstanceState> = Vec::new();
                v.push(a);
                self.agents.push((owned(work_session_id), v));
                proof {
                    crate::table::lemma_key_pos(keys_of(olds), work_session_id@);
                    assert(keys_of(self.agents@) =~= keys_of(olds).push(work_session_id@));
                    assert forall|x: int, y: int| 0 <= x < y < keys_of(self.agents@).len() implies keys_of(self.agents@)[x] != keys_of(self.agents@)[y] by {
                        if y == olds.len() {
                            assert(keys_of(olds)[x] != work_session_id@);
                        } else {
                            assert(keys_of(self.agents@)[x] == keys_of(olds)[x]);
                            assert(keys_of(self.agents@)[y] == keys_of(olds)[y]);
                        }
                    }
                    lemma_lookup_distinct(olds, work_session_id@);
                    lemma_lookup_distinct(self.agents@, work_session_id@);
                    assert(self.agents@[olds.len() as int].0@ == work_session_id@);
                    assert(v@ =~= Seq::<AgentInstanceState>::empty().push(a_final));
                    assert(bucket_of(*self, work_session_id@) == Some(Seq::<AgentInstanceState>::empty().push(AgentInstanceState { work_session_id: wsid_g, ..agent })));
                    assert forall|k2: Seq<char>| k2 != work_session_id@ implies bucket_of(*self, k2) == bucket_of(*old(self), k2) by {
                        lemma_lookup_distinct(olds, k2);
                        lemma_lookup_distinct(self.agents@, k2);
                        if exists|j: int| 0 <= j < olds.len() && olds[j].0@ == k2 {
                            let j = choose|j: int| 0 <= j < olds.len() && olds[j].0@ == k2;
                            assert(self.agents@[j] == olds[j]);
                        } else {
                            assert forall|j: int| 0 <= j < self.agents@.len() implies #[trigger] self.agents@[j].0@ != k2 by {
                                if j < olds.len() {
                                    assert(self.agents@[j] == olds[j]);
                                }
                            }
                        }
                    }
                }
            },
        }
    }
}


impl Store {
    /// Set the status of the first agent with this id (buckets in store
    /// order, agents in bucket order); nothing changes when there is none.
    pub fn update_agent_status(&mut self, agent_id: &str, status: AgentStatus)
        requires
            old(self).wf(),
        ensures
            final(self).wf(),
            final(self).version == old(self).version,
            final(self).agents@.len() == old(self).agents@.len(),
            match first_bucket_with_id(old(self).agents@, agent_id@, 0) {
                Some(b) => {
                    let i = first_id_in(old(self).agents@[b].1@, agent_id@, 0).unwrap();
                    &&& forall|j: int| 0 <= j < final(self).agents@.len() && j != b ==> final(self).agents@[j] == old(self).agents@[j]
                    &&& final(self).agents@[b].0 == old(self).agents@[b].0
                    &&& final(self).agents@[b].1@ == old(self).agents@[b].1@.update(i, AgentInstanceState { status, ..old(self).agents@[b].1@[i] })
                },
                None => final(self).agents@ == old(self).agents@,
            },
    {
        let ghost olds = self.agents@;
        match self.locate(agent_id) {
            Some((b, i)) => {
                let (k, mut v) = self.agents.remove(b);
                let mut a = v.remove(i);
                a.status = status;
                v.insert(i, a);
                self.agents.insert(b, (k, v));
                proof {
                    assert(self.agents@ =~= olds.update(b as int, (k, v)));
                    assert(keys_of(self.agents@) =~= keys_of(olds));
                    assert(v@ =~= olds[b as int].1@.update(i as int, AgentInstanceState { status, ..olds[b as int].1@[i as int] }));
                }
            },
            None => {},
        }
    }

    /// The first agent with this id (buckets in store order, agents in bucket
    /// order), to change in place.
    pub fn find_agent_mut(&mut self, agent_id: &str) -> (r: Option<&mut AgentInstanceState>)
        requires
            old(self).wf(),
        ensures
            final(self).version == old(self).version,
            final(self).agents@.len() == old(self).agents@.len(),
            match first_bucket_with_id(old(self).agents@, agent_id@, 0) {
                Some(b) => {
                    let i = first_id_in(old(self).agents@[b].1@, agent_id@, 0).unwrap();
                    &&& r.is_some()
                    &&& *r.unwrap() == old(self).agents@[b].1@[i]
                    &&& forall|j: int| 0 <= j < final(self).agents@.len() && j != b ==> final(self).agents@[j] == old(self).agents@[j]
                    &&& final(self).agents@[b].0 == old(self).agents@[b].0
                    &&& final(self).agents@[b].1@ == old(self).agents@[b].1@.update(i, *final(r.unwrap()))
                },
                None => r.is_none() && final(self).agents@ == old(self).agents@,
            },
    {
        match self.locate(agent_id) {
            Some((b, i)) => {
                let bucket = &mut self.agents[b];
                let a = &mut bucket.1[i];
                Some(a)
            },
            None => None,
        }
    }

    /// Record the process id of the first agent with this id; nothing changes
    /// when there is none.
    pub fn set_agent_pid(&mut self, agent_id: &str, pid: u32)
        requires
            old(self).wf(),
        ensures
            final(self).wf(),
            final(self).version == old(self).version,
            final(self).agents@.len() == old(self).agents@.len(),
            match first_bucket_with_id(old(self).agents@, agent_id@, 0) {
                Some(b) => {
                    let i = first_id_in(old(self).agents@[b].1@, agent_id@, 0).unwrap();
                    &&& forall|j: int| 0 <= j < final(self).agents@.len() && j != b ==> final(self).agents@[j] == old(self).agents@[j]
                    &&& final(self).agents@[b].0 == old(self).agents@[b].0
                    &&& final(self).agents@[b].1@ == old(self).agents@[b].1@.update(i, AgentInstanceState { pid: Some(pid), ..old(self).agents@[b].1@[i] })
                },
                None => final(self).agents@ == old(self).agents@,
            },
    {
        let ghost olds = self.agents@;
        match self.locate(agent_id) {
            Some((b, i)) => {
                let (k, mut v) = self.agents.remove(b);
                let mut a = v.remove(i);
                a.pid = Some(pid);
                v.insert(i, a);
                self.agents.insert(b, (k, v));
                proof {
                    assert(self.agents@ =~= olds.update(b as int, (k, v)));
                    assert(keys_of(self.agents@) =~= keys_of(olds));
                    assert(v@ =~= olds[b as int].1@.update(i as int, AgentInstanceState { pid: Some(pid), ..olds[b as int].1@[i as int] }));
                }
            },
            None => {},
        }
    }

    /// Remove the first agent with this id; false when there is none.
    pub fn remove_agent(&mut self, agent_id: &str) -> (r: bool)
        requires
            old(self).wf(),
        ensures
            final(self).wf(),
            final(self).version == old(self).version,
            final(self).agents@.len() == old(self).agents@.len(),
            r == (first_bucket_with_id(old(self).agents@, agent_id@, 0) is Some),
            match first_bucket_with_id(old(self).agents@, agent_id@, 0) {
                Some(b) => {
                    let i = first_id_in(old(self).agents@[b].1@, agent_id@, 0).unwrap();
                    &&& forall|j: int| 0 <= j < final(self).agents@.len() && j != b ==> final(self).agents@[j] == old(self).agents@[j]
                    &&& final(self).agents@[b].0 == old(self).agents@[b].0
                    &&& final(self).agents@[b].1@ == old(self).agents@[b].1@.remove(i)
                },
                None => final(self).agents@ == old(self).agents@,
            },
    {
        let ghost olds = self.agents@;
        match self.locate(agent_id) {
            Some((b, i)) => {
                let (k, mut v) = self.agents.remove(b);
                v.remove(i);
                self.agents.insert(b, (k, v));
                proof {
                    assert(self.agents@ =~= olds.update(b as int, (k, v)));
                    assert(keys_of(self.agents@) =~= keys_of(olds));
                }
                true
            },
            None => false,
        }
    }

    /// Drop every agent record of a WorkSession.
    pub fn remove_session_agents(&mut self, work_session_id: &str)
        requires
            old(self).wf(),
        ensures
            final(self).wf(),
            final(self).version == old(self).version,
            bucket_of(*final(self), work_session_id@) is None,
            forall|k: Seq<char>| k != work_session_id@ ==> bucket_of(*final(self), k) == bucket_of(*old(self), k),
    {
        table_remove(&mut self.agents, work_session_id);
    }

    fn port_in_use(all: &Vec<(&str, &AgentInstanceState)>, exclude: Option<&str>, port: u16) -> (r: bool)
        ensures
            r == port_used(
                Seq::new(all@.len(), |k: int| (all@[k].0@, *all@[k].1)),
                match exclude { Some(e) => Some(e@), None => None },
                port,
            ),
    {
        let ghost xs = Seq::new(all@.len(), |k: int| (all@[k].0@, *all@[k].1));
        let ghost ex = match exclude { Some(e) => Some(e@), None => None::<Seq<char>> };
        let mut i: usize = 0;
        while i < all.len()
            invariant
                i <= all@.len(),
                xs == Seq::new(all@.len(), |k: int| (all@[k].0@, *all@[k].1)),
                ex == match exclude { Some(e) => Some(e@), None => None::<Seq<char>> },
                forall|k: int| 0 <= k < i ==> !((#[trigger] xs[k]).1.port == port && xs[k].1.status != AgentStatus::Stopped
                    && !(ex == Some(xs[k].1.id@))),
            decreases all@.len() - i,
        {
            let a = all[i].1;
            let excluded = match exclude {
                Some(e) => str_eq(e, a.id.as_str()),
                None => false,
            };
            assert(xs[i as int].1 == *a);
            if a.port == port && a.status != AgentStatus::Stopped && !excluded {
                return true;
            }
            i = i + 1;
        }
        false
    }

    /// First port in 9100..=9199 that no live agent (other than the excluded
    /// one) holds and that the probe reports free.
    pub fn allocate_agent_port<F: Fn(u16) -> bool>(&self, exclude_agent_id: Option<&str>, is_port_available: F) -> (r: Option<u16>)
        requires
            forall|p: u16| call_requires(is_port_available, (p,)),
        ensures
            match r {
                Some(p) => {
                    &&& AGENT_PORT_BASE <= p <= AGENT_PORT_MAX
                    &&& !port_used(store_flat(*self), match exclude_agent_id { Some(e) => Some(e@), None => None }, p)
                    &&& call_ensures(is_port_available, (p,), true)
                    &&& forall|q: u16| AGENT_PORT_BASE <= q < p ==> port_used(store_flat(*self), match exclude_agent_id { Some(e) => Some(e@), None => None }, q)
                        || call_ensures(is_port_available, (q,), false)
                },
                None => forall|q: u16| AGENT_PORT_BASE <= q <= AGENT_PORT_MAX ==> port_used(store_flat(*self), match exclude_agent_id { Some(e) => Some(e@), None => None }, q)
                    || call_ensures(is_port_available, (q,), false),
            },
    {
        let all = self.all_agents();
        let ghost ex = match exclude_agent_id { Some(e) => Some(e@), None => None::<Seq<char>> };
        assert(Seq::new(all@.len(), |k: int| (all@[k].0@, *all@[k].1)) =~= store_flat(*self));
        let mut port: u16 = AGENT_PORT_BASE;
        while port <= AGENT_PORT_MAX
            invariant
                AGENT_PORT_BASE <= port <= AGENT_PORT_MAX + 1,
                Seq::new(all@.len(), |k: int| (all@[k].0@, *all@[k].1)) == store_flat(*self),
                ex == match exclude_agent_id { Some(e) => Some(e@), None => None::<Seq<char>> },
                forall|p: u16| call_requires(is_port_available, (p,)),
                forall|q: u16| AGENT_PORT_BASE <= q < port ==> port_used(store_flat(*self), ex, q)
                    || call_ensures(is_port_available, (q,), false),
            decreases AGENT_PORT_MAX + 1 - port,
        {
            if !Self::port_in_use(&all, exclude_agent_id, port) {
                if is_port_available(port) {
                    return Some(port);
                }
            }
            port = port + 1;
        }
        None
    }
}

impl Default for Store {
    fn default() -> (r: Self)
        ensures
            r.wf(),
            r.version == DOCUMENT_VERSION,
            r.agents@.len() == 0,
    {
        Store::new()
    }
}

/// Refuse an old workspace-episode state file (one holding `"workspaces"`)
/// when there is no agents document yet. `legacy_text` is the old file's text
/// where it exists and reads.
pub fn reject_legacy(legacy_path: &str, legacy_text: Option<&str>, agents_exists: bool) -> (r: Result<(), String>)
    ensures
        match r {
            Err(e) => crate::runtime_store::legacy_refused(crate::auth::opt_str(legacy_text), agents_exists)
                && e@ == "unsupported old state at "@ + legacy_path@
                    + ": recreate WorkSessions in Switchboard; old workspace-episode state is not migrated"@,
            Ok(()) => !crate::runtime_store::legacy_refused(crate::auth::opt_str(legacy_text), agents_exists),
        },
{
    if agents_exists {
        return Ok(());
    }
    match legacy_text {
        Some(t) => {
            if crate::text::contains_text(t, "\"workspaces\"") {
                let a = crate::text::concat("unsupported old state at ", legacy_path);
                Err(crate::text::concat(a.as_str(),
                    ": recreate WorkSessions in Switchboard; old workspace-episode state is not migrated"))
            } else {
                Ok(())
            }
        },
        None => Ok(()),
    }
}

/// A decoded agents document: version 0 (written before versions) is taken
/// as the current one; any other version but the current one is refused.
pub fn check_store_version(store: Store) -> (r: Result<Store, String>)
    ensures
        match r {
            Ok(st) => (store.version == 0 || store.version == DOCUMENT_VERSION)
                && st.version == DOCUMENT_VERSION && st.agents == store.agents,
            Err(e) => store.version != 0 && store.version != DOCUMENT_VERSION
                && e@ == "unsupported agents store version "@ + crate::decimal::decimal(store.version as nat)
                    + " (want "@ + crate::decimal::decimal(DOCUMENT_VERSION as nat) + ")"@,
        },
{
    let mut st = store;
    if st.version == 0 {
        st.version = DOCUMENT_VERSION;
    }
    if st.version != DOCUMENT_VERSION {
        let n = crate::decimal::u64_to_decimal(st.version as u64);
        let w = crate::decimal::u64_to_decimal(DOCUMENT_VERSION as u64);
        let a = crate::text::concat("unsupported agents store version ", n.as_str());
        let b = crate::text::concat(a.as_str(), " (want ");
        let c = crate::text::concat(b.as_str(), w.as_str());
        return Err(crate::text::concat(c.as_str(), ")"));
    }
    Ok(st)
}

/// What is written back: the store, stamped with the current version.
pub fn stamped(store: Store) -> (r: Store)
    ensures
        r.version == DOCUMENT_VERSION,
        r.agents == store.agents,
{
    let mut s = store;
    s.version = DOCUMENT_VERSION;
    s
}

/// A flexible lookup only ever finds a live agent (neither stopped nor
/// stopping) whose id or name is the identifier; a live agent with that id is
/// always found first.
pub proof fn law_resolved_agent_is_live(xs: Seq<(Seq<char>, AgentInstanceState)>, ident: Seq<char>)
    ensures
        resolve_flexible(xs, ident) matches Some(k) ==> {
            &&& 0 <= k < xs.len()
            &&& xs[k].1.status != AgentStatus::Stopped
            &&& xs[k].1.status != AgentStatus::Stopping
            &&& (xs[k].1.id@ == ident || xs[k].1.name@ == ident)
        },
        forall|j: int| 0 <= j < xs.len() && xs[j].1.id@ == ident
            && (forall|i: int| 0 <= i < j ==> xs[i].1.id@ != ident)
            && xs[j].1.status != AgentStatus::Stopped && xs[j].1.status != AgentStatus::Stopping
            ==> resolve_flexible(xs, ident) == Some(j),
{
    lemma_first_with_id(xs, ident, 0);
    lemma_first_ready(xs, ident, 0);
    lemma_first_candidate(xs, ident, 0);
    assert forall|j: int| 0 <= j < xs.len() && xs[j].1.id@ == ident
        && (forall|i: int| 0 <= i < j ==> xs[i].1.id@ != ident)
        && xs[j].1.status != AgentStatus::Stopped && xs[j].1.status != AgentStatus::Stopping
        implies resolve_flexible(xs, ident) == Some(j) by {
        lemma_first_with_id_at(xs, ident, 0, j);
    }
}

/// The first agent with an id, found from `start`.
proof fn lemma_first_with_id_at(xs: Seq<(Seq<char>, AgentInstanceState)>, id: Seq<char>, start: int, j: int)
    requires
        0 <= start <= j < xs.len(),
        xs[j].1.id@ == id,
        forall|i: int| 0 <= i < j ==> xs[i].1.id@ != id,
    ensures
        first_with_id(xs, id, start) == Some(j),
    decreases j - start,
{
    if start < j {
        lemma_first_with_id_at(xs, id, start + 1, j);
    }
}

} // verus!
