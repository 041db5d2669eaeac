//! What the agents window shows: a label per agent, shortened ids and the
//! header counts.
use vstd::prelude::*;
use vstd::utf8::{decode_utf8, is_char_boundary};
use vstd::string::StringSliceAdditionalSpecFns;
use crate::state::{AgentInstanceState, AgentStatus, agent_status_name, Store, store_flat};
use crate::text::{concat, owned, contains_str, in_names, str_views};
use crate::sorting::{PairKeyed, sort_by_pair, sorted_by_pair, lemma_map_multiset};
use crate::decimal::{decimal, u64_to_decimal};

verus! {

/// One row of the agents window.
#[derive(Debug, Clone)]
pub struct AgentRow {
    pub agent: AgentInstanceState,
    pub workspace: String,
    pub project: String,
    /// Whether the supervisor still runs a process for the agent.
    pub supervisor_running: bool,
}

/// The status shown for a row: a ready or busy agent without a supervised
/// process is marked as such.
pub open spec fn status_label_text(row: AgentRow) -> Seq<char> {
    let s = agent_status_name(row.agent.status);
    if !row.supervisor_running && (row.agent.status == AgentStatus::Ready || row.agent.status == AgentStatus::Busy) {
        s + " (no process)"@
    } else {
        s
    }
}

/// The status shown for a row.
pub fn status_label(row: &AgentRow) -> (r: String)
    ensures
        r@ == status_label_text(*row),
{
    let state_str = row.agent.status.to_string();
    if row.supervisor_running && row.agent.status == AgentStatus::Ready {
        state_str
    } else if !row.supervisor_running && (row.agent.status == AgentStatus::Ready || row.agent.status == AgentStatus::Busy) {
        concat(state_str.as_str(), " (no process)")
    } else {
        state_str
    }
}

/// An id shortened to `max` bytes: the first `max - 3` bytes and `...`.
pub fn truncate_id(id: &str, max: usize) -> (r: String)
    requires
        id.spec_bytes().len() <= usize::MAX,
        id.spec_bytes().len() > max ==> max >= 3 && is_char_boundary(id.spec_bytes(), max - 3),
    ensures
        id.spec_bytes().len() <= max ==> r@ == id@,
        id.spec_bytes().len() > max ==> r@ == decode_utf8(id.spec_bytes().subrange(0, max - 3)) + "..."@,
{
    if id.len() <= max {
        owned(id)
    } else {
        let (head, _rest) = id.split_at(max - 3);
        proof {
            vstd::utf8::encode_utf8_decode_utf8(head@);
            assert(head.spec_bytes() == vstd::utf8::encode_utf8(head@));
            assert(head.spec_bytes() == id.spec_bytes().subrange(0, max - 3));
            assert(decode_utf8(id.spec_bytes().subrange(0, max - 3)) == head@);
        }
        concat(head, "...")
    }
}

/// Rows with the given status.
pub open spec fn count_status(rows: Seq<AgentRow>, s: AgentStatus) -> nat {
    rows.filter(|r: AgentRow| r.agent.status == s).len()
}

fn count_with(rows: &Vec<AgentRow>, s: AgentStatus) -> (r: usize)
    ensures
        r == count_status(rows@, s),
{
    let ghost pred = |r: AgentRow| r.agent.status == s;
    let mut n: usize = 0;
    let mut i: usize = 0;
    while i < rows.len()
        invariant
            i <= rows@.len(),
            pred == (|r: AgentRow| r.agent.status == s),
            n == rows@.subrange(0, i as int).filter(pred).len(),
            n <= i,
        decreases rows@.len() - i,
    {
        proof {
            reveal(Seq::filter);
            assert(rows@.subrange(0, i as int + 1).drop_last() =~= rows@.subrange(0, i as int));
            assert(rows@.subrange(0, i as int + 1).last() == rows@[i as int]);
        }
        if rows[i].agent.status == s {
            n = n + 1;
        }
        i = i + 1;
    }
    proof {
        assert(rows@.subrange(0, rows@.len() as int) =~= rows@);
    }
    n
}

/// The header of the agents window: total, ready and busy counts.
pub fn summary_line(rows: &Vec<AgentRow>) -> (r: String)
    ensures
        r@ == decimal(rows@.len()) + " total  ·  "@ + decimal(count_status(rows@, AgentStatus::Ready))
            + " ready  ·  "@ + decimal(count_status(rows@, AgentStatus::Busy)) + " busy"@,
{
    let ready = count_with(rows, AgentStatus::Ready);
    let busy = count_with(rows, AgentStatus::Busy);
    let a = u64_to_decimal(rows.len() as u64);
    let b = concat(a.as_str(), " total  ·  ");
    let c = u64_to_decimal(ready as u64);
    let d = concat(b.as_str(), c.as_str());
    let e = concat(d.as_str(), " ready  ·  ");
    let f = u64_to_decimal(busy as u64);
    let g = concat(e.as_str(), f.as_str());
    concat(g.as_str(), " busy")
}

impl PairKeyed for AgentRow {
    open spec fn pair_key(&self) -> (Seq<char>, Seq<char>) {
        (self.workspace@, self.agent.name@)
    }

    fn pair_key_text(&self) -> (r: (&str, &str)) {
        (self.workspace.as_str(), self.agent.name.as_str())
    }
}

/// Model of a row.
pub open spec fn row_view(r: AgentRow) -> (AgentInstanceState, Seq<char>, Seq<char>, bool) {
    (r.agent, r.workspace@, r.project@, r.supervisor_running)
}

/// The row of an agent of work session `ws`, given the agents whose process
/// the supervisor runs.
pub open spec fn row_of(p: (Seq<char>, AgentInstanceState), running: Seq<Seq<char>>)
    -> (AgentInstanceState, Seq<char>, Seq<char>, bool)
{
    (p.1, p.0, p.0, in_names(running, p.1.id@))
}

/// The window's rows: every stored agent under its work session, marked
/// with whether its process runs, ordered by work session, then name.
pub fn agent_rows(st: &Store, running: &Vec<String>) -> (r: Vec<AgentRow>)
    ensures
        sorted_by_pair(r@),
        r@.map_values(|x: AgentRow| row_view(x)).to_multiset()
            == store_flat(*st).map_values(|p: (Seq<char>, AgentInstanceState)| row_of(p, str_views(running@))).to_multiset(),
{
    let ghost xs = store_flat(*st);
    let ghost rv = str_views(running@);
    let ghost f = |x: AgentRow| row_view(x);
    let ghost g = |p: (Seq<char>, AgentInstanceState)| row_of(p, rv);
    let all = st.all_agents();
    let mut rows: Vec<AgentRow> = Vec::new();
    let mut i: usize = 0;
    while i < all.len()
        invariant
            i <= all@.len(),
            all@.len() == xs.len(),
            xs == store_flat(*st),
            rv == str_views(running@),
            forall|k: int| 0 <= k < all@.len() ==> (#[trigger] all@[k]).0@ == xs[k].0 && *all@[k].1 == xs[k].1,
            f == (|x: AgentRow| row_view(x)),
            g == (|p: (Seq<char>, AgentInstanceState)| row_of(p, rv)),
            rows@.map_values(f) == xs.subrange(0, i as int).map_values(g),
        decreases all@.len() - i,
    {
        let (ws, a) = all[i];
        let row = AgentRow {
            agent: a.clone(),
            workspace: owned(ws),
            project: owned(ws),
            supervisor_running: contains_str(running, a.id.as_str()),
        };
        let ghost before = rows@;
        rows.push(row);
        proof {
            assert(ws@ == xs[i as int].0 && *a == xs[i as int].1);
            assert(rows@.map_values(f) =~= before.map_values(f).push(f(row)));
            assert(xs.subrange(0, i as int + 1).map_values(g) =~= xs.subrange(0, i as int).map_values(g).push(g(xs[i as int])));
        }
        i = i + 1;
    }
    proof {
        assert(xs.subrange(0, xs.len() as int) =~= xs);
    }
    let ghost unsorted = rows@;
    let r = sort_by_pair(rows);
    proof {
        lemma_map_multiset(r@, unsorted, f);
    }
    r
}

} // verus!
