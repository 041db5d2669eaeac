//! The agent and task tables of the host, keyed by work session: the rows
//! and what each query selects from them. An agent's id is unique; a task is
//! identified by its id together with its agent's.
use vstd::prelude::*;
use crate::text::{str_eq, owned};
use crate::sorting::{lex_le, text_le, lemma_lex_total, lemma_lex_trans};
use crate::model::error::opt_view;

verus! {

/// First port handed to an agent.
pub const PORT_BASE: u16 = 9100;

/// Last port handed to an agent.
pub const PORT_MAX: u16 = 9199;

/// One agent row.
#[derive(Debug)]
pub struct AgentRow {
    pub id: String,
    pub work_session_id: String,
    pub template: String,
    pub name: String,
    pub status: String,
    pub port: u16,
    pub host: Option<String>,
    pub pid: Option<u32>,
    pub started_at: String,
    pub token_id: Option<String>,
    pub session_id: Option<String>,
    pub spawned_by: Option<String>,
}

/// One task row.
#[derive(Debug)]
pub struct TaskRow {
    pub task_id: String,
    pub agent_id: String,
    pub context_id: Option<String>,
    pub status: String,
    pub created_at: String,
}

/// The tables.
#[derive(Debug)]
pub struct ArpStore {
    agents: Vec<AgentRow>,
    tasks: Vec<TaskRow>,
}

/// A row that a stop has not ended: neither `stopped` nor `stopping`.
pub open spec fn live_row(a: AgentRow) -> bool {
    a.status@ != "stopped"@ && a.status@ != "stopping"@
}

/// No two rows share an id.
pub open spec fn ids_distinct(rows: Seq<AgentRow>) -> bool {
    forall|i: int, j: int| 0 <= i < j < rows.len() ==> rows[i].id@ != rows[j].id@
}

/// Position of the row with this id.
pub open spec fn row_with_id(rows: Seq<AgentRow>, id: Seq<char>) -> Option<int> {
    if exists|i: int| 0 <= i < rows.len() && rows[i].id@ == id {
        Some(choose|i: int| 0 <= i < rows.len() && rows[i].id@ == id)
    } else {
        None
    }
}

/// A row matches a listing's filters: each given filter equals its field.
pub open spec fn row_listed(a: AgentRow, ws: Option<Seq<char>>, status: Option<Seq<char>>, template: Option<Seq<char>>) -> bool {
    &&& match ws { Some(w) => a.work_session_id@ == w, None => true }
    &&& match status { Some(s) => a.status@ == s, None => true }
    &&& match template { Some(t) => a.template@ == t, None => true }
}

/// `a` comes before `b` when resolving a name: ready rows first, then by id.
pub open spec fn resolves_before(a: AgentRow, b: AgentRow) -> bool {
    if a.status@ == "ready"@ && b.status@ != "ready"@ {
        true
    } else if a.status@ != "ready"@ && b.status@ == "ready"@ {
        false
    } else {
        lex_le(a.id@, b.id@)
    }
}

/// A live row with this name.
pub open spec fn name_candidate(a: AgentRow, name: Seq<char>) -> bool {
    a.name@ == name && live_row(a)
}

/// `i` is the row a name resolves to: a candidate that comes before every
/// other candidate.
pub open spec fn best_named(rows: Seq<AgentRow>, name: Seq<char>, i: int) -> bool {
    &&& 0 <= i < rows.len()
    &&& name_candidate(rows[i], name)
    &&& forall|j: int| 0 <= j < rows.len() && name_candidate(#[trigger] rows[j], name) ==> resolves_before(rows[i], rows[j])
}

/// A port that an agent not yet stopped holds.
pub open spec fn port_taken(rows: Seq<AgentRow>, p: u16) -> bool {
    exists|i: int| 0 <= i < rows.len() && rows[i].status@ != "stopped"@ && #[trigger] rows[i].port == p
}

impl ArpStore {
    pub closed spec fn agent_rows(&self) -> Seq<AgentRow> {
        self.agents@
    }

    pub closed spec fn task_rows(&self) -> Seq<TaskRow> {
        self.tasks@
    }

    /// No two agents share an id, and no two tasks an (agent, task) pair.
    pub open spec fn wf(&self) -> bool {
        &&& ids_distinct(self.agent_rows())
        &&& task_keys_distinct(self.task_rows())
    }

    /// Empty tables.
    pub fn open_memory() -> (r: Self)
        ensures
            r.wf(),
            r.agent_rows().len() == 0,
            r.task_rows().len() == 0,
    {
        ArpStore { agents: Vec::new(), tasks: Vec::new() }
    }

    fn find_agent(&self, agent_id: &str) -> (r: Option<usize>)
        ensures
            match r {
                Some(i) => i < self.agent_rows().len() && self.agent_rows()[i as int].id@ == agent_id@,
                None => forall|i: int| 0 <= i < self.agent_rows().len() ==> self.agent_rows()[i].id@ != agent_id@,
            },
    {
        let mut i: usize = 0;
        while i < self.agents.len()
            invariant
                i <= self.agents@.len(),
                forall|k: int| 0 <= k < i ==> self.agents@[k].id@ != agent_id@,
            decreases self.agents@.len() - i,
        {
            if str_eq(self.agents[i].id.as_str(), agent_id) {
                return Some(i);
            }
            i = i + 1;
        }
        None
    }

    /// Add an agent; an id already present is refused, as the table's primary
    /// key refuses it.
    pub fn add_agent(&mut self, agent: AgentRow) -> (r: Result<(), String>)
        requires
            old(self).wf(),
        ensures
            final(self).wf(),
            final(self).task_rows() == old(self).task_rows(),
            match r {
                Ok(()) => row_with_id(old(self).agent_rows(), agent.id@) is None
                    && final(self).agent_rows() == old(self).agent_rows().push(agent),
                Err(e) => row_with_id(old(self).agent_rows(), agent.id@) is Some
                    && final(self).agent_rows() == old(self).agent_rows()
                    && e@ == "UNIQUE constraint failed: agents.id"@,
            },
    {
        match self.find_agent(agent.id.as_str()) {
            Some(i) => {
                proof {
                    assert(self.agents@[i as int].id@ == agent.id@);
                }
                Err(owned("UNIQUE constraint failed: agents.id"))
            },
            None => {
                let ghost before = self.agents@;
                self.agents.push(agent);
                proof {
                    assert forall|i: int, j: int| 0 <= i < j < self.agents@.len() implies self.agents@[i].id@ != self.agents@[j].id@ by {
                        if j < before.len() {
                            assert(self.agents@[i] == before[i]);
                            assert(self.agents@[j] == before[j]);
                        } else {
                            assert(self.agents@[i] == before[i]);
                        }
                    }
                }
                Ok(())
            },
        }
    }

    /// The agent with this id.
    pub fn get_agent(&self, agent_id: &str) -> (r: Option<&AgentRow>)
        requires
            self.wf(),
        ensures
            match r {
                Some(a) => row_with_id(self.agent_rows(), agent_id@) matches Some(i) && *a == self.agent_rows()[i],
                None => row_with_id(self.agent_rows(), agent_id@) is None,
            },
    {
        match self.find_agent(agent_id) {
            Some(i) => {
                proof {
                    let c = choose|k: int| 0 <= k < self.agent_rows().len() && self.agent_rows()[k].id@ == agent_id@;
                    assert(self.agent_rows()[i as int].id@ == agent_id@);
                    if c != i as int {
                        assert(self.agent_rows()[c].id@ == agent_id@);
                    }
                }
                Some(&self.agents[i])
            },
            None => None,
        }
    }

    /// The agents that match every given filter, in table order.
    pub fn list_agents(&self, work_session_id: Option<&str>, status: Option<&str>, template: Option<&str>)
        -> (r: Vec<&AgentRow>)
        ensures
            r@.map_values(|a: &AgentRow| *a) == self.agent_rows().filter(|a: AgentRow|
                row_listed(a, crate::auth::opt_str(work_session_id), crate::auth::opt_str(status), crate::auth::opt_str(template))),
    {
        let ghost rows = self.agents@;
        let ghost pred = |a: AgentRow| row_listed(a, crate::auth::opt_str(work_session_id), crate::auth::opt_str(status), crate::auth::opt_str(template));
        let mut out: Vec<&AgentRow> = Vec::new();
        let mut i: usize = 0;
        while i < self.agents.len()
            invariant
                i <= rows.len(),
                rows == self.agents@,
                rows == self.agent_rows(),
                pred == (|a: AgentRow| row_listed(a, crate::auth::opt_str(work_session_id), crate::auth::opt_str(status), crate::auth::opt_str(template))),
                out@.map_values(|a: &AgentRow| *a) == rows.subrange(0, i as int).filter(pred),
            decreases rows.len() - i,
        {
            let a = &self.agents[i];
            let ghost before = out@;
            proof {
                reveal(Seq::filter);
                assert(rows.subrange(0, i as int + 1).drop_last() =~= rows.subrange(0, i as int));
                assert(rows.subrange(0, i as int + 1).last() == rows[i as int]);
            }
            let ok_ws = match work_session_id { Some(w) => str_eq(a.work_session_id.as_str(), w), None => true };
            let ok_st = match status { Some(s) => str_eq(a.status.as_str(), s), None => true };
            let ok_tp = match template { Some(t) => str_eq(a.template.as_str(), t), None => true };
            if ok_ws && ok_st && ok_tp {
                out.push(a);
                assert(out@.map_values(|a: &AgentRow| *a) =~= before.map_values(|a: &AgentRow| *a).push(*a));
            }
            i = i + 1;
        }
        assert(rows.subrange(0, rows.len() as int) =~= rows);
        out
    }

    /// Set the status of the agent with this id; nothing else changes.
    pub fn update_agent_status(&mut self, agent_id: &str, status: &str)
        requires
            old(self).wf(),
        ensures
            final(self).wf(),
            final(self).task_rows() == old(self).task_rows(),
            final(self).agent_rows().len() == old(self).agent_rows().len(),
            forall|i: int| 0 <= i < old(self).agent_rows().len() ==> #[trigger] status_set(old(self).agent_rows()[i],
                final(self).agent_rows()[i], agent_id@, status@),
    {
        match self.find_agent(agent_id) {
            Some(i) => {
                let ghost before = self.agents@;
                let mut a = self.agents.remove(i);
                a.status = owned(status);
                self.agents.insert(i, a);
                proof {
                    assert forall|k: int| 0 <= k < before.len() implies #[trigger] status_set(before[k], self.agents@[k], agent_id@, status@) by {
                        if k != i as int {
                            assert(before[k].id@ != before[i as int].id@);
                        }
                    }
                    assert forall|x: int, y: int| 0 <= x < y < self.agents@.len() implies self.agents@[x].id@ != self.agents@[y].id@ by {
                        assert(self.agents@[x].id@ == before[x].id@);
                        assert(self.agents@[y].id@ == before[y].id@);
                    }
                }
            },
            None => {
                proof {
                    assert forall|k: int| 0 <= k < self.agents@.len() implies #[trigger] status_set(self.agents@[k], self.agents@[k], agent_id@, status@) by {}
                }
            },
        }
    }

    /// The agent an identifier names: the agent with that id unless it is
    /// stopped or stopping; else the live agent of that name, a ready one
    /// first, then the least id.
    pub fn resolve_agent(&self, identifier: &str) -> (r: Option<&AgentRow>)
        requires
            self.wf(),
        ensures
            match row_with_id(self.agent_rows(), identifier@) {
                Some(i) if live_row(self.agent_rows()[i]) => r == Some(&self.agent_rows()[i]),
                _ => match r {
                    Some(a) => exists|k: int| best_named(self.agent_rows(), identifier@, k) && *a == self.agent_rows()[k],
                    None => forall|k: int| 0 <= k < self.agent_rows().len() ==> !name_candidate(#[trigger] self.agent_rows()[k], identifier@),
                },
            },
    {
        match self.get_agent(identifier) {
            Some(a) => {
                if !str_eq(a.status.as_str(), "stopped") && !str_eq(a.status.as_str(), "stopping") {
                    return Some(a);
                }
            },
            None => {},
        }
        self.resolve_by_name(identifier)
    }

    fn before_exec(a: &AgentRow, b: &AgentRow) -> (r: bool)
        ensures
            r == resolves_before(*a, *b),
    {
        let ar = str_eq(a.status.as_str(), "ready");
        let br = str_eq(b.status.as_str(), "ready");
        if ar && !br {
            true
        } else if !ar && br {
            false
        } else {
            text_le(a.id.as_str(), b.id.as_str())
        }
    }

    proof fn lemma_before_total_trans(a: AgentRow, b: AgentRow, c: AgentRow)
        ensures
            resolves_before(a, b) || resolves_before(b, a),
            resolves_before(a, b) && resolves_before(b, c) ==> resolves_before(a, c),
    {
        lemma_lex_total(a.id@, b.id@);
        if lex_le(a.id@, b.id@) && lex_le(b.id@, c.id@) {
            lemma_lex_trans(a.id@, b.id@, c.id@);
        }
    }

    fn resolve_by_name(&self, name: &str) -> (r: Option<&AgentRow>)
        ensures
            match r {
                Some(a) => exists|k: int| best_named(self.agent_rows(), name@, k) && *a == self.agent_rows()[k],
                None => forall|k: int| 0 <= k < self.agent_rows().len() ==> !name_candidate(#[trigger] self.agent_rows()[k], name@),
            },
    {
        let ghost rows = self.agents@;
        let mut best: Option<usize> = None;
        let mut i: usize = 0;
        while i < self.agents.len()
            invariant
                i <= rows.len(),
                rows == self.agents@,
                rows == self.agent_rows(),
                match best {
                    Some(b) => b < i && name_candidate(rows[b as int], name@)
                        && forall|j: int| 0 <= j < i && name_candidate(#[trigger] rows[j], name@) ==> resolves_before(rows[b as int], rows[j]),
                    None => forall|j: int| 0 <= j < i ==> !name_candidate(#[trigger] rows[j], name@),
                },
            decreases rows.len() - i,
        {
            let a = &self.agents[i];
            if str_eq(a.name.as_str(), name) && !str_eq(a.status.as_str(), "stopped") && !str_eq(a.status.as_str(), "stopping") {
                match best {
                    None => {
                        proof {
                            Self::lemma_before_total_trans(rows[i as int], rows[i as int], rows[i as int]);
                        }
                        best = Some(i);
                    },
                    Some(b) => {
                        if !Self::before_exec(&self.agents[b], a) {
                            proof {
                                assert forall|j: int| 0 <= j < i + 1 && name_candidate(#[trigger] rows[j], name@) implies resolves_before(rows[i as int], rows[j]) by {
                                    Self::lemma_before_total_trans(rows[b as int], rows[i as int], rows[j]);
                                    Self::lemma_before_total_trans(rows[i as int], rows[b as int], rows[j]);
                                    Self::lemma_before_total_trans(rows[i as int], rows[i as int], rows[j]);
                                    if j < i {
                                        assert(resolves_before(rows[b as int], rows[j]));
                                    }
                                }
                            }
                            best = Some(i);
                        } else {
                            proof {
                                Self::lemma_before_total_trans(rows[b as int], rows[b as int], rows[b as int]);
                            }
                        }
                    },
                }
            }
            i = i + 1;
        }
        match best {
            Some(b) => {
                proof {
                    assert(best_named(rows, name@, b as int));
                }
                Some(&self.agents[b])
            },
            None => None,
        }
    }

    /// The first port from `PORT_BASE` to `PORT_MAX` that no agent not yet
    /// stopped holds and that `is_free` reports free.
    pub fn allocate_agent_port_with<F: Fn(u16) -> bool>(&self, is_free: F) -> (r: Option<u16>)
        requires
            forall|p: u16| call_requires(is_free, (p,)),
        ensures
            match r {
                Some(p) => {
                    &&& PORT_BASE <= p <= PORT_MAX
                    &&& !port_taken(self.agent_rows(), p)
                    &&& call_ensures(is_free, (p,), true)
                    &&& forall|q: u16| PORT_BASE <= q < p ==> port_taken(self.agent_rows(), q) || call_ensures(is_free, (q,), false)
                },
                None => forall|q: u16| PORT_BASE <= q <= PORT_MAX ==> port_taken(self.agent_rows(), q) || call_ensures(is_free, (q,), false),
            },
    {
        let mut port: u16 = PORT_BASE;
        while port <= PORT_MAX
            invariant
                PORT_BASE <= port <= PORT_MAX + 1,
                forall|p: u16| call_requires(is_free, (p,)),
                forall|q: u16| PORT_BASE <= q < port ==> port_taken(self.agent_rows(), q) || call_ensures(is_free, (q,), false),
            decreases PORT_MAX + 1 - port,
        {
            let mut taken = false;
            let mut i: usize = 0;
            while i < self.agents.len()
                invariant
                    i <= self.agents@.len(),
                    taken == exists|k: int| 0 <= k < i && self.agents@[k].status@ != "stopped"@ && #[trigger] self.agents@[k].port == port,
                decreases self.agents@.len() - i,
            {
                if !str_eq(self.agents[i].status.as_str(), "stopped") && self.agents[i].port == port {
                    taken = true;
                }
                i = i + 1;
            }
            if !taken {
                if is_free(port) {
                    return Some(port);
                }
            }
            port = port + 1;
        }
        None
    }

    /// Record a task of an agent as `working`, replacing any row of the same
    /// task and agent; a task of an unknown agent is refused, as the table's
    /// reference to the agents refuses it.
    pub fn track_task(&mut self, agent_id: &str, task_id: &str, context_id: Option<&str>, created_at: &str)
        -> (r: Result<(), String>)
        requires
            old(self).wf(),
        ensures
            final(self).wf(),
            final(self).agent_rows() == old(self).agent_rows(),
            match r {
                Ok(()) => row_with_id(old(self).agent_rows(), agent_id@) is Some
                    && exists|k: int| 0 <= k < final(self).task_rows().len()
                        && #[trigger] final(self).task_rows()[k].task_id@ == task_id@
                        && final(self).task_rows()[k].agent_id@ == agent_id@
                        && final(self).task_rows()[k].status@ == "working"@
                        && opt_view(final(self).task_rows()[k].context_id) == crate::auth::opt_str(context_id),
                Err(e) => row_with_id(old(self).agent_rows(), agent_id@) is None
                    && final(self).task_rows() == old(self).task_rows()
                    && e@ == "FOREIGN KEY constraint failed"@,
            },
    {
        if self.find_agent(agent_id).is_none() {
            return Err(owned("FOREIGN KEY constraint failed"));
        }
        let ghost before = self.tasks@;
        let mut found: Option<usize> = None;
        let mut i: usize = 0;
        while i < self.tasks.len()
            invariant
                i <= self.tasks@.len(),
                self.tasks@ == before,
                match found {
                    Some(f) => f < i && before[f as int].task_id@ == task_id@ && before[f as int].agent_id@ == agent_id@,
                    None => forall|k: int| 0 <= k < i ==> !(before[k].task_id@ == task_id@ && before[k].agent_id@ == agent_id@),
                },
            decreases self.tasks@.len() - i,
        {
            if found.is_none() && str_eq(self.tasks[i].task_id.as_str(), task_id) && str_eq(self.tasks[i].agent_id.as_str(), agent_id) {
                found = Some(i);
            }
            i = i + 1;
        }
        let row = TaskRow {
            task_id: owned(task_id),
            agent_id: owned(agent_id),
            context_id: match context_id { Some(c) => Some(owned(c)), None => None },
            status: owned("working"),
            created_at: owned(created_at),
        };
        proof { reveal_strlit("working"); }
        if let Some(i) = found {
            self.tasks.set(i, row);
            proof {
                assert(self.tasks@[i as int].task_id@ == task_id@);
                assert forall|x: int, y: int| 0 <= x < y < self.tasks@.len() implies
                    !(self.tasks@[x].task_id@ == self.tasks@[y].task_id@ && self.tasks@[x].agent_id@ == self.tasks@[y].agent_id@) by {
                    if x != i as int && y != i as int {
                        assert(self.tasks@[x] == before[x]);
                        assert(self.tasks@[y] == before[y]);
                    } else if x == i as int {
                        assert(self.tasks@[y] == before[y]);
                        assert(before[x].task_id@ == task_id@ && before[x].agent_id@ == agent_id@);
                    } else {
                        assert(self.tasks@[x] == before[x]);
                        assert(before[y].task_id@ == task_id@ && before[y].agent_id@ == agent_id@);
                    }
                }
            }
        } else {
            self.tasks.push(row);
            proof {
                let n = before.len() as int;
                assert(self.tasks@[n].task_id@ == task_id@);
                assert forall|x: int, y: int| 0 <= x < y < self.tasks@.len() implies
                    !(self.tasks@[x].task_id@ == self.tasks@[y].task_id@ && self.tasks@[x].agent_id@ == self.tasks@[y].agent_id@) by {
                    assert(self.tasks@[x] == before[x]);
                    if y < n {
                        assert(self.tasks@[y] == before[y]);
                    }
                }
            }
        }
        Ok(())
    }

    /// The tasks not of `agent_id`, in order.
    fn without_agent_tasks(v: Vec<TaskRow>, agent_id: &str) -> (r: Vec<TaskRow>)
        ensures
            r@ == v@.filter(|t: TaskRow| t.agent_id@ != agent_id@),
    {
        let ghost orig = v@;
        let ghost pred = |t: TaskRow| t.agent_id@ != agent_id@;
        let mut rest = v;
        let mut out: Vec<TaskRow> = Vec::new();
        let mut k: usize = 0;
        let n = rest.len();
        while rest.len() > 0
            invariant
                n == orig.len(),
                k + rest@.len() == n,
                rest@ == orig.subrange(k as int, n as int),
                pred == (|t: TaskRow| t.agent_id@ != agent_id@),
                out@ == orig.subrange(0, k as int).filter(pred),
            decreases rest@.len(),
        {
            let t = rest.remove(0);
            proof {
                reveal(Seq::filter);
                assert(orig.subrange(0, k as int + 1).drop_last() =~= orig.subrange(0, k as int));
                assert(orig.subrange(0, k as int + 1).last() == orig[k as int]);
                assert(t == orig[k as int]);
                assert(rest@ =~= orig.subrange(k as int + 1, n as int));
            }
            if !str_eq(t.agent_id.as_str(), agent_id) {
                out.push(t);
            }
            k = k + 1;
        }
        assert(orig.subrange(0, n as int) =~= orig);
        out
    }

    /// Drop every task of an agent.
    pub fn clear_agent_tasks(&mut self, agent_id: &str)
        requires
            old(self).wf(),
        ensures
            final(self).wf(),
            final(self).agent_rows() == old(self).agent_rows(),
            final(self).task_rows() == old(self).task_rows().filter(|t: TaskRow| t.agent_id@ != agent_id@),
    {
        let ghost before = self.tasks@;
        let mut tasks: Vec<TaskRow> = Vec::new();
        std::mem::swap(&mut tasks, &mut self.tasks);
        self.tasks = Self::without_agent_tasks(tasks, agent_id);
        proof {
            lemma_filter_keeps_task_keys(before, |t: TaskRow| t.agent_id@ != agent_id@);
        }
    }

    /// Remove an agent, and with it every task of the agent.
    pub fn remove_agent(&mut self, agent_id: &str)
        requires
            old(self).wf(),
        ensures
            final(self).wf(),
            match row_with_id(old(self).agent_rows(), agent_id@) {
                Some(i) => final(self).agent_rows() == old(self).agent_rows().remove(i),
                None => final(self).agent_rows() == old(self).agent_rows(),
            },
            final(self).task_rows() == old(self).task_rows().filter(|t: TaskRow| t.agent_id@ != agent_id@),
    {
        let ghost before = self.agents@;
        match self.find_agent(agent_id) {
            Some(i) => {
                proof {
                    let c = choose|k: int| 0 <= k < before.len() && before[k].id@ == agent_id@;
                    if c != i as int {
                        assert(before[c].id@ == before[i as int].id@);
                    }
                }
                self.agents.remove(i);
                proof {
                    assert(self.agents@ =~= before.remove(i as int));
                    assert forall|x: int, y: int| 0 <= x < y < self.agents@.len() implies self.agents@[x].id@ != self.agents@[y].id@ by {
                        let x2 = if x < i { x } else { x + 1 };
                        let y2 = if y < i { y } else { y + 1 };
                        assert(self.agents@[x] == before[x2]);
                        assert(self.agents@[y] == before[y2]);
                    }
                }
            },
            None => {},
        }
        self.clear_agent_tasks(agent_id);
    }

    /// Give the task of this id and agent a terminal status; nothing else
    /// changes.
    pub fn complete_task(&mut self, agent_id: &str, task_id: &str, terminal_status: &str)
        requires
            old(self).wf(),
        ensures
            final(self).wf(),
            final(self).agent_rows() == old(self).agent_rows(),
            final(self).task_rows().len() == old(self).task_rows().len(),
            forall|i: int| 0 <= i < old(self).task_rows().len() ==> #[trigger] task_status_set(old(self).task_rows()[i],
                final(self).task_rows()[i], agent_id@, task_id@, terminal_status@),
    {
        let ghost before = self.tasks@;
        let ghost agents = self.agents@;
        let mut i: usize = 0;
        while i < self.tasks.len()
            invariant
                i <= self.tasks@.len(),
                self.agents@ == agents,
                agents == old(self).agent_rows(),
                ids_distinct(agents),
                self.tasks@.len() == before.len(),
                task_keys_distinct(before),
                forall|k: int| 0 <= k < i ==> #[trigger] task_status_set(before[k], self.tasks@[k], agent_id@, task_id@, terminal_status@),
                forall|k: int| i <= k < self.tasks@.len() ==> self.tasks@[k] == before[k],
                task_keys_distinct(self.tasks@),
                forall|k: int| 0 <= k < self.tasks@.len() ==> self.tasks@[k].task_id@ == before[k].task_id@
                    && self.tasks@[k].agent_id@ == before[k].agent_id@,
            decreases self.tasks@.len() - i,
        {
            if str_eq(self.tasks[i].task_id.as_str(), task_id) && str_eq(self.tasks[i].agent_id.as_str(), agent_id) {
                let mut t = self.tasks.remove(i);
                t.status = owned(terminal_status);
                self.tasks.insert(i, t);
                proof {
                    assert forall|x: int, y: int| 0 <= x < y < self.tasks@.len() implies
                        !(self.tasks@[x].task_id@ == self.tasks@[y].task_id@ && self.tasks@[x].agent_id@ == self.tasks@[y].agent_id@) by {
                        assert(self.tasks@[x].task_id@ == before[x].task_id@ && self.tasks@[x].agent_id@ == before[x].agent_id@);
                        assert(self.tasks@[y].task_id@ == before[y].task_id@ && self.tasks@[y].agent_id@ == before[y].agent_id@);
                    }
                }
            }
            i = i + 1;
        }
    }

    /// The tasks of an agent, in table order.
    pub fn list_tasks(&self, agent_id: &str) -> (r: Vec<&TaskRow>)
        ensures
            r@.map_values(|t: &TaskRow| *t) == self.task_rows().filter(|t: TaskRow| t.agent_id@ == agent_id@),
    {
        let ghost rows = self.tasks@;
        let ghost pred = |t: TaskRow| t.agent_id@ == agent_id@;
        let mut out: Vec<&TaskRow> = Vec::new();
        let mut i: usize = 0;
        while i < self.tasks.len()
            invariant
                i <= rows.len(),
                rows == self.tasks@,
                rows == self.task_rows(),
                pred == (|t: TaskRow| t.agent_id@ == agent_id@),
                out@.map_values(|t: &TaskRow| *t) == rows.subrange(0, i as int).filter(pred),
            decreases rows.len() - i,
        {
            let t = &self.tasks[i];
            let ghost before = out@;
            proof {
                reveal(Seq::filter);
                assert(rows.subrange(0, i as int + 1).drop_last() =~= rows.subrange(0, i as int));
                assert(rows.subrange(0, i as int + 1).last() == rows[i as int]);
            }
            if str_eq(t.agent_id.as_str(), agent_id) {
                out.push(t);
                assert(out@.map_values(|t: &TaskRow| *t) =~= before.map_values(|t: &TaskRow| *t).push(*t));
            }
            i = i + 1;
        }
        assert(rows.subrange(0, rows.len() as int) =~= rows);
        out
    }
}

/// `after` is `before` with its status set to `status` when its id is
/// `agent_id`, and `before` itself otherwise.
pub open spec fn status_set(before: AgentRow, after: AgentRow, agent_id: Seq<char>, status: Seq<char>) -> bool {
    if before.id@ == agent_id {
        after.status@ == status && after == (AgentRow { status: after.status, ..before })
    } else {
        after == before
    }
}

/// No two tasks share a task id and an agent id.
pub open spec fn task_keys_distinct(s: Seq<TaskRow>) -> bool {
    forall|i: int, j: int| 0 <= i < j < s.len() ==>
        !(s[i].task_id@ == s[j].task_id@ && s[i].agent_id@ == s[j].agent_id@)
}

proof fn lemma_filter_from(s: Seq<TaskRow>, pred: spec_fn(TaskRow) -> bool)
    ensures
        forall|x: int| #![trigger s.filter(pred)[x]] 0 <= x < s.filter(pred).len() ==>
            exists|a: int| #![trigger s[a]] 0 <= a < s.len() && s.filter(pred)[x] == s[a],
    decreases s.len(),
{
    reveal(Seq::filter);
    if s.len() > 0 {
        let d = s.drop_last();
        lemma_filter_from(d, pred);
        let f0 = d.filter(pred);
        assert forall|x: int| #![trigger s.filter(pred)[x]] 0 <= x < s.filter(pred).len() implies
            exists|a: int| #![trigger s[a]] 0 <= a < s.len() && s.filter(pred)[x] == s[a] by {
            if x < f0.len() {
                assert(s.filter(pred)[x] == f0[x]);
                let a = choose|a: int| #![trigger d[a]] 0 <= a < d.len() && f0[x] == d[a];
                assert(d[a] == s[a]);
            } else {
                assert(s.filter(pred)[x] == s[s.len() - 1]);
            }
        }
    }
}

/// Keeping some tasks keeps their keys distinct.
proof fn lemma_filter_keeps_task_keys(s: Seq<TaskRow>, pred: spec_fn(TaskRow) -> bool)
    requires
        task_keys_distinct(s),
    ensures
        task_keys_distinct(s.filter(pred)),
    decreases s.len(),
{
    reveal(Seq::filter);
    if s.len() > 0 {
        let d = s.drop_last();
        assert(task_keys_distinct(d)) by {
            assert forall|i: int, j: int| 0 <= i < j < d.len() implies
                !(d[i].task_id@ == d[j].task_id@ && d[i].agent_id@ == d[j].agent_id@) by {
                assert(d[i] == s[i] && d[j] == s[j]);
            }
        }
        lemma_filter_keeps_task_keys(d, pred);
        lemma_filter_from(d, pred);
        let f0 = d.filter(pred);
        let f = s.filter(pred);
        assert forall|x: int, y: int| 0 <= x < y < f.len() implies
            !(f[x].task_id@ == f[y].task_id@ && f[x].agent_id@ == f[y].agent_id@) by {
            if y < f0.len() {
                assert(f[x] == f0[x] && f[y] == f0[y]);
            } else {
                assert(f[x] == f0[x]);
                let a = choose|a: int| #![trigger d[a]] 0 <= a < d.len() && f0[x] == d[a];
                assert(d[a] == s[a]);
                assert(f[y] == s[s.len() - 1]);
            }
        }
    }
}

/// `after` is `before` with its status set to `status` when it is the task
/// `task_id` of `agent_id`, and `before` itself otherwise.
pub open spec fn task_status_set(before: TaskRow, after: TaskRow, agent_id: Seq<char>, task_id: Seq<char>, status: Seq<char>) -> bool {
    if before.agent_id@ == agent_id && before.task_id@ == task_id {
        after.status@ == status && after == (TaskRow { status: after.status, ..before })
    } else {
        after == before
    }
}

} // verus!
