//! Keeping one long-running process per workspace alive: the bezalel and ACP
//! supervisors start it, restart it two seconds after it exits or fails to
//! spawn, and on a stop terminate it with a five-second grace period. The
//! supervisor's task performs each step and reports what happened; the
//! decisions, and the table of kept workspaces, live here.
use vstd::prelude::*;
use crate::text::{concat, owned};
use crate::decimal::{decimal, u64_to_decimal};
use crate::table::{keys_of, distinct, lookup, find_key, table_set, table_remove, lemma_lookup_distinct,
    lemma_key_pos};

verus! {

/// Pause before a restart, in milliseconds.
pub const RESTART_DELAY_MS: u64 = 2000;

/// Grace period of a stop, in milliseconds.
pub const STOP_GRACE_MS: u64 = 5000;

/// Where a kept process is.
#[derive(Debug, Clone, Copy, PartialEq, Eq, Structural)]
pub enum KeeperPhase {
    /// A spawn is under way.
    Spawning,
    /// The process runs; its exit or a stop is awaited.
    Running,
    /// The restart delay runs; its end or a stop is awaited.
    Waiting,
    /// The process is being terminated.
    Stopping,
    /// The task has ended.
    Finished,
}

/// A kept process's phase, and whether a stop arrived while nobody was
/// listening for one (it is honoured at the next wait).
#[derive(Debug, Clone, Copy, PartialEq, Eq, Structural)]
pub struct KeeperState {
    pub phase: KeeperPhase,
    pub stop_pending: bool,
}

/// What the supervisor's task reports.
#[derive(Debug, Clone, Copy, PartialEq, Eq, Structural)]
pub enum KeeperEvent {
    SpawnFailed,
    Spawned,
    Exited,
    StopRequested,
    DelayElapsed,
    StopCompleted,
}

/// What the supervisor's task does next, in order.
#[derive(Debug, Clone, Copy, PartialEq, Eq, Structural)]
pub enum KeeperStep {
    /// Start the process.
    Spawn,
    /// Record the process's port for the workspace.
    RecordPort,
    /// Wait this many milliseconds (a stop cuts the wait short).
    Sleep(u64),
    /// Terminate the process, killing it after this many milliseconds.
    GracefulStop(u64),
    /// Drop the workspace from the supervisor.
    Forget,
}

/// A pending stop exists only while a spawn is under way.
pub open spec fn keeper_wf(s: KeeperState) -> bool {
    s.stop_pending ==> s.phase == KeeperPhase::Spawning
}

pub open spec fn at(phase: KeeperPhase) -> KeeperState {
    KeeperState { phase, stop_pending: false }
}

/// The steps after a successful spawn: the port is recorded where the
/// supervisor keeps one.
pub open spec fn after_spawn(records_port: bool) -> Seq<KeeperStep> {
    if records_port { seq![KeeperStep::RecordPort] } else { Seq::empty() }
}

/// The restart loop: the next state and its steps. An event that does not
/// apply to the state changes nothing.
pub open spec fn keeper(s: KeeperState, e: KeeperEvent, records_port: bool) -> (KeeperState, Seq<KeeperStep>) {
    match (s.phase, e) {
        (KeeperPhase::Spawning, KeeperEvent::SpawnFailed) => if s.stop_pending {
            (at(KeeperPhase::Finished), seq![KeeperStep::Forget])
        } else {
            (at(KeeperPhase::Waiting), seq![KeeperStep::Sleep(RESTART_DELAY_MS)])
        },
        (KeeperPhase::Spawning, KeeperEvent::Spawned) => if s.stop_pending {
            (at(KeeperPhase::Stopping), after_spawn(records_port).push(KeeperStep::GracefulStop(STOP_GRACE_MS)))
        } else {
            (at(KeeperPhase::Running), after_spawn(records_port))
        },
        (KeeperPhase::Spawning, KeeperEvent::StopRequested) =>
            (KeeperState { phase: KeeperPhase::Spawning, stop_pending: true }, Seq::empty()),
        (KeeperPhase::Running, KeeperEvent::Exited) =>
            (at(KeeperPhase::Waiting), seq![KeeperStep::Sleep(RESTART_DELAY_MS)]),
        (KeeperPhase::Running, KeeperEvent::StopRequested) =>
            (at(KeeperPhase::Stopping), seq![KeeperStep::GracefulStop(STOP_GRACE_MS)]),
        (KeeperPhase::Waiting, KeeperEvent::DelayElapsed) =>
            (at(KeeperPhase::Spawning), seq![KeeperStep::Spawn]),
        (KeeperPhase::Waiting, KeeperEvent::StopRequested) =>
            (at(KeeperPhase::Finished), seq![KeeperStep::Forget]),
        (KeeperPhase::Stopping, KeeperEvent::StopCompleted) =>
            (at(KeeperPhase::Finished), seq![KeeperStep::Forget]),
        _ => (s, Seq::empty()),
    }
}

/// Advance a kept process by what happened.
pub fn keeper_step(s: KeeperState, e: KeeperEvent, records_port: bool) -> (r: (KeeperState, Vec<KeeperStep>))
    ensures
        r.0 == keeper(s, e, records_port).0,
        r.1@ == keeper(s, e, records_port).1,
{
    let mut v: Vec<KeeperStep> = Vec::new();
    let next = match (s.phase, e) {
        (KeeperPhase::Spawning, KeeperEvent::SpawnFailed) => {
            if s.stop_pending {
                v.push(KeeperStep::Forget);
                KeeperState { phase: KeeperPhase::Finished, stop_pending: false }
            } else {
                v.push(KeeperStep::Sleep(RESTART_DELAY_MS));
                KeeperState { phase: KeeperPhase::Waiting, stop_pending: false }
            }
        },
        (KeeperPhase::Spawning, KeeperEvent::Spawned) => {
            if records_port {
                v.push(KeeperStep::RecordPort);
            }
            if s.stop_pending {
                v.push(KeeperStep::GracefulStop(STOP_GRACE_MS));
                KeeperState { phase: KeeperPhase::Stopping, stop_pending: false }
            } else {
                KeeperState { phase: KeeperPhase::Running, stop_pending: false }
            }
        },
        (KeeperPhase::Spawning, KeeperEvent::StopRequested) =>
            KeeperState { phase: KeeperPhase::Spawning, stop_pending: true },
        (KeeperPhase::Running, KeeperEvent::Exited) => {
            v.push(KeeperStep::Sleep(RESTART_DELAY_MS));
            KeeperState { phase: KeeperPhase::Waiting, stop_pending: false }
        },
        (KeeperPhase::Running, KeeperEvent::StopRequested) => {
            v.push(KeeperStep::GracefulStop(STOP_GRACE_MS));
            KeeperState { phase: KeeperPhase::Stopping, stop_pending: false }
        },
        (KeeperPhase::Waiting, KeeperEvent::DelayElapsed) => {
            v.push(KeeperStep::Spawn);
            KeeperState { phase: KeeperPhase::Spawning, stop_pending: false }
        },
        (KeeperPhase::Waiting, KeeperEvent::StopRequested) | (KeeperPhase::Stopping, KeeperEvent::StopCompleted) => {
            v.push(KeeperStep::Forget);
            KeeperState { phase: KeeperPhase::Finished, stop_pending: false }
        },
        _ => s,
    };
    proof {
        assert(v@ =~= keeper(s, e, records_port).1);
    }
    (next, v)
}

/// Every transition keeps a pending stop confined to a spawn.
pub proof fn law_keeper_wf(s: KeeperState, e: KeeperEvent, records_port: bool)
    requires
        keeper_wf(s),
    ensures
        keeper_wf(keeper(s, e, records_port).0),
{
}

/// A workspace is dropped from the supervisor exactly when its task ends, and
/// an ended task stays ended and does nothing.
pub proof fn law_keeper_forgets_exactly_when_finished(s: KeeperState, e: KeeperEvent, records_port: bool)
    ensures
        ({
            let (next, steps) = keeper(s, e, records_port);
            &&& (s.phase != KeeperPhase::Finished && next.phase == KeeperPhase::Finished) <==> steps.contains(KeeperStep::Forget)
            &&& s.phase == KeeperPhase::Finished ==> next == s && steps.len() == 0
        }),
{
    let (next, steps) = keeper(s, e, records_port);
    if steps.contains(KeeperStep::Forget) {
        let k = choose|k: int| 0 <= k < steps.len() && steps[k] == KeeperStep::Forget;
        assert(steps[k] == KeeperStep::Forget);
    }
    if s.phase != KeeperPhase::Finished && next.phase == KeeperPhase::Finished {
        assert(steps[steps.len() - 1] == KeeperStep::Forget);
    }
}

/// A stop is always honoured: after it, the task has ended, or it ends once
/// the termination completes, or (when the stop came during a spawn) the
/// spawn's outcome leads to one of these.
pub proof fn law_keeper_stop_is_honoured(s: KeeperState, records_port: bool)
    requires
        keeper_wf(s),
        s.phase != KeeperPhase::Finished,
    ensures
        ({
            let s1 = keeper(s, KeeperEvent::StopRequested, records_port).0;
            let ends = |t: KeeperState| t.phase == KeeperPhase::Finished
                || (t.phase == KeeperPhase::Stopping
                    && keeper(t, KeeperEvent::StopCompleted, records_port).0.phase == KeeperPhase::Finished);
            ||| ends(s1)
            ||| (s1.phase == KeeperPhase::Spawning
                && ends(keeper(s1, KeeperEvent::SpawnFailed, records_port).0)
                && ends(keeper(s1, KeeperEvent::Spawned, records_port).0))
        }),
{
}

/// A process that exits on its own is started again after the restart delay.
pub proof fn law_keeper_restarts_after_exit(records_port: bool)
    ensures
        keeper(at(KeeperPhase::Running), KeeperEvent::Exited, records_port)
            == (at(KeeperPhase::Waiting), seq![KeeperStep::Sleep(RESTART_DELAY_MS)]),
        keeper(at(KeeperPhase::Waiting), KeeperEvent::DelayElapsed, records_port)
            == (at(KeeperPhase::Spawning), seq![KeeperStep::Spawn]),
        keeper(at(KeeperPhase::Spawning), KeeperEvent::SpawnFailed, records_port)
            == (at(KeeperPhase::Waiting), seq![KeeperStep::Sleep(RESTART_DELAY_MS)]),
{
}

/// A kept process: well formed and not ended.
pub open spec fn live(s: KeeperState) -> bool {
    keeper_wf(s) && s.phase != KeeperPhase::Finished
}

/// The workspaces a supervisor keeps, each with its process's state.
pub struct Keepers {
    table: Vec<(String, KeeperState)>,
}

impl Keepers {
    /// The state kept for a workspace, if it is kept.
    pub closed spec fn kept(&self, ws: Seq<char>) -> Option<KeeperState> {
        lookup(self.table@, ws)
    }

    pub closed spec fn wf(&self) -> bool {
        &&& distinct(keys_of(self.table@))
        &&& forall|i: int| 0 <= i < self.table@.len() ==> #[trigger] live(self.table@[i].1)
    }

    /// No workspace is kept.
    pub fn new() -> (r: Self)
        ensures
            r.wf(),
            forall|ws: Seq<char>| r.kept(ws) is None,
    {
        let r = Keepers { table: Vec::new() };
        proof {
            assert forall|ws: Seq<char>| r.kept(ws) is None by {
                lemma_lookup_distinct(r.table@, ws);
            }
        }
        r
    }

    proof fn lemma_kept_wf(&self, ws: Seq<char>)
        requires
            self.wf(),
        ensures
            match self.kept(ws) {
                Some(s) => keeper_wf(s) && s.phase != KeeperPhase::Finished,
                None => true,
            },
    {
        lemma_lookup_distinct(self.table@, ws);
        if exists|i: int| 0 <= i < self.table@.len() && self.table@[i].0@ == ws {
            let i = choose|i: int| 0 <= i < self.table@.len() && self.table@[i].0@ == ws;
            assert(live(self.table@[i].1));
        }
    }

    /// Whether a workspace is kept.
    pub fn is_running(&self, ws: &str) -> (r: bool)
        requires
            self.wf(),
        ensures
            r == (self.kept(ws@) is Some),
    {
        proof {
            lemma_key_pos(keys_of(self.table@), ws@);
        }
        find_key(&self.table, ws).is_some()
    }

    /// The kept workspaces.
    pub fn running_workspaces(&self) -> (r: Vec<String>)
        requires
            self.wf(),
        ensures
            distinct(crate::text::str_views(r@)),
            forall|i: int| 0 <= i < r@.len() ==> #[trigger] self.kept(r@[i]@) is Some,
            forall|ws: Seq<char>| self.kept(ws) is Some ==> exists|i: int| 0 <= i < r@.len() && r@[i]@ == ws,
    {
        let mut out: Vec<String> = Vec::new();
        let mut i: usize = 0;
        while i < self.table.len()
            invariant
                self.wf(),
                i <= self.table@.len(),
                out@.len() == i,
                forall|k: int| 0 <= k < i ==> #[trigger] out@[k]@ == self.table@[k].0@,
            decreases self.table@.len() - i,
        {
            out.push(self.table[i].0.clone());
            i = i + 1;
        }
        proof {
            assert forall|a: int, b: int| 0 <= a < b < crate::text::str_views(out@).len()
                implies crate::text::str_views(out@)[a] != crate::text::str_views(out@)[b] by {
                assert(keys_of(self.table@)[a] == out@[a]@);
                assert(keys_of(self.table@)[b] == out@[b]@);
            }
            assert forall|k: int| 0 <= k < out@.len() implies #[trigger] self.kept(out@[k]@) is Some by {
                lemma_lookup_distinct(self.table@, out@[k]@);
                assert(self.table@[k].0@ == out@[k]@);
            }
            assert forall|ws: Seq<char>| self.kept(ws) is Some implies exists|i: int| 0 <= i < out@.len() && out@[i]@ == ws by {
                lemma_lookup_distinct(self.table@, ws);
                let j = choose|j: int| 0 <= j < self.table@.len() && self.table@[j].0@ == ws;
                assert(out@[j]@ == ws);
            }
        }
        out
    }

    /// Start keeping a workspace. One already kept is left alone and nothing
    /// is done; otherwise it is spawned.
    pub fn start(&mut self, ws: &str) -> (r: Vec<KeeperStep>)
        requires
            old(self).wf(),
        ensures
            final(self).wf(),
            match old(self).kept(ws@) {
                Some(s) => final(self).kept(ws@) == Some(s) && r@.len() == 0,
                None => final(self).kept(ws@) == Some(at(KeeperPhase::Spawning)) && r@ == seq![KeeperStep::Spawn],
            },
            forall|w: Seq<char>| w != ws@ ==> final(self).kept(w) == old(self).kept(w),
    {
        proof {
            lemma_key_pos(keys_of(self.table@), ws@);
        }
        let mut steps: Vec<KeeperStep> = Vec::new();
        if find_key(&self.table, ws).is_some() {
            return steps;
        }
        self.set(owned(ws), KeeperState { phase: KeeperPhase::Spawning, stop_pending: false });
        steps.push(KeeperStep::Spawn);
        proof {
            assert(steps@ =~= seq![KeeperStep::Spawn]);
        }
        steps
    }

    fn set(&mut self, ws: String, s: KeeperState)
        requires
            old(self).wf(),
            keeper_wf(s),
            s.phase != KeeperPhase::Finished,
        ensures
            final(self).wf(),
            final(self).kept(ws@) == Some(s),
            forall|w: Seq<char>| w != ws@ ==> final(self).kept(w) == old(self).kept(w),
    {
        let ghost old_t = self.table@;
        let ghost wv = ws@;
        table_set(&mut self.table, ws, s);
        proof {
            assert forall|i: int| 0 <= i < self.table@.len() implies #[trigger] live(self.table@[i].1) by {
                let k = self.table@[i].0@;
                lemma_lookup_distinct(self.table@, k);
                lemma_lookup_distinct(old_t, k);
                assert(lookup(self.table@, k) == Some(self.table@[i].1));
                if k != wv {
                    assert(lookup(old_t, k) is Some);
                    assert(exists|j: int| 0 <= j < old_t.len() && old_t[j].0@ == k);
                    let j = choose|j: int| 0 <= j < old_t.len() && old_t[j].0@ == k;
                    assert(lookup(old_t, k) == Some(old_t[j].1));
                    assert(live(old_t[j].1));
                }
            }
            assert(self.wf());
        }
    }

    fn forget(&mut self, ws: &str)
        requires
            old(self).wf(),
        ensures
            final(self).wf(),
            final(self).kept(ws@) is None,
            forall|w: Seq<char>| w != ws@ ==> final(self).kept(w) == old(self).kept(w),
    {
        let ghost old_t = self.table@;
        table_remove(&mut self.table, ws);
        proof {
            assert forall|i: int| 0 <= i < self.table@.len() implies #[trigger] live(self.table@[i].1) by {
                let k = self.table@[i].0@;
                lemma_lookup_distinct(self.table@, k);
                lemma_lookup_distinct(old_t, k);
                assert(lookup(self.table@, k) == Some(self.table@[i].1));
                assert(lookup(old_t, k) is Some);
                assert(exists|j: int| 0 <= j < old_t.len() && old_t[j].0@ == k);
                let j = choose|j: int| 0 <= j < old_t.len() && old_t[j].0@ == k;
                assert(lookup(old_t, k) == Some(old_t[j].1));
                assert(live(old_t[j].1));
            }
        }
    }

    /// Apply what happened to a kept workspace's process; a workspace whose
    /// task ends is dropped. Events for a workspace not kept do nothing.
    pub fn report(&mut self, ws: &str, e: KeeperEvent, records_port: bool) -> (r: Vec<KeeperStep>)
        requires
            old(self).wf(),
        ensures
            final(self).wf(),
            match old(self).kept(ws@) {
                Some(s) => {
                    let (next, steps) = keeper(s, e, records_port);
                    &&& r@ == steps
                    &&& final(self).kept(ws@) == if next.phase == KeeperPhase::Finished { None } else { Some(next) }
                },
                None => final(self).kept(ws@) is None && r@.len() == 0,
            },
            forall|w: Seq<char>| w != ws@ ==> final(self).kept(w) == old(self).kept(w),
    {
        proof {
            lemma_key_pos(keys_of(self.table@), ws@);
            self.lemma_kept_wf(ws@);
            lemma_lookup_distinct(self.table@, ws@);
        }
        let idx = find_key(&self.table, ws);
        match idx {
            Some(i) => {
                let s = self.table[i].1;
                proof {
                    assert(self.table@[i as int].0@ == ws@);
                    assert(self.kept(ws@) == Some(s));
                }
                let (next, steps) = keeper_step(s, e, records_port);
                if next.phase == KeeperPhase::Finished {
                    self.forget(ws);
                } else {
                    proof {
                        law_keeper_wf(s, e, records_port);
                    }
                    self.set(owned(ws), next);
                }
                steps
            },
            None => Vec::new(),
        }
    }

    /// Signal a stop to a kept workspace's process.
    pub fn stop(&mut self, ws: &str) -> (r: Vec<KeeperStep>)
        requires
            old(self).wf(),
        ensures
            final(self).wf(),
            match old(self).kept(ws@) {
                Some(s) => {
                    let (next, steps) = keeper(s, KeeperEvent::StopRequested, false);
                    &&& r@ == steps
                    &&& final(self).kept(ws@) == if next.phase == KeeperPhase::Finished { None } else { Some(next) }
                },
                None => final(self).kept(ws@) is None && r@.len() == 0,
            },
            forall|w: Seq<char>| w != ws@ ==> final(self).kept(w) == old(self).kept(w),
    {
        self.report(ws, KeeperEvent::StopRequested, false)
    }
}

/// The shell command that runs an ACP server in a workspace: the configured
/// command (`crush serve` by default) told to work in `dir`.
pub open spec fn acp_command_line_of(command: Option<Seq<char>>, dir: Seq<char>) -> Seq<char> {
    let c = match command { Some(c) => c, None => "crush serve"@ };
    c + " --cwd "@ + dir
}

/// The shell command that runs an ACP server in a workspace.
pub fn acp_command_line(command: Option<&str>, dir: &str) -> (r: String)
    ensures
        r@ == acp_command_line_of(crate::auth::opt_str(command), dir@),
{
    let c: &str = match command {
        Some(c) => c,
        None => "crush serve",
    };
    let a = concat(c, " --cwd ");
    concat(a.as_str(), dir)
}

/// The environment an ACP server is started with: its port under both names
/// it reads.
pub fn acp_env(port: u16) -> (r: Vec<(String, String)>)
    ensures
        r@.len() == 2,
        r@[0].0@ == "PORT"@,
        r@[0].1@ == decimal(port as nat),
        r@[1].0@ == "CRUSH_ACP_PORT"@,
        r@[1].1@ == decimal(port as nat),
{
    let p = u64_to_decimal(port as u64);
    let mut v: Vec<(String, String)> = Vec::new();
    v.push((owned("PORT"), p.clone()));
    v.push((owned("CRUSH_ACP_PORT"), p));
    v
}

/// Where a workspace's ACP server listens.
pub fn acp_url(port: u16) -> (r: String)
    ensures
        r@ == "http://127.0.0.1:"@ + decimal(port as nat),
{
    let p = u64_to_decimal(port as u64);
    concat("http://127.0.0.1:", p.as_str())
}

} // verus!
