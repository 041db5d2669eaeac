//! Decisions of the agent supervisor: ids, the process environment, the
//! health-check budget and the lifecycle of one supervised agent. The
//! supervisor's tasks perform each step and report what happened.
use vstd::prelude::*;
use crate::state::AgentStatus;
use crate::text::{concat, owned, chars_of};
use crate::decimal::{decimal, u64_to_decimal};

verus! {

/// Events broadcast by the supervisor for watch streams.
#[derive(Debug, Clone, PartialEq, Eq)]
pub enum SupervisorEvent {
    StatusChanged { agent_id: String, status: AgentStatus, workspace: String },
    Stopped { agent_id: String, workspace: String },
}

/// What to start.
#[derive(Debug)]
pub struct SpawnOptions {
    pub workspace: String,
    pub dir: String,
    pub template: String,
    pub name: String,
    pub port: u16,
    pub command: String,
    /// Extra environment, one entry per variable.
    pub env: Vec<(String, String)>,
}

/// What was started.
#[derive(Debug)]
pub struct SpawnResult {
    pub agent_id: String,
    pub port: u16,
}

/// Health probes before an agent counts as failed.
pub const HEALTH_CHECK_ATTEMPTS: u32 = 30;

/// Grace period before a stopped agent is killed, in milliseconds.
pub const STOP_GRACE_MS: u64 = 5000;

/// Agent id: the name, a dash and the first eight characters (hex digits)
/// of a fresh version-4 UUID.
pub fn new_agent_id(name: &str) -> (r: String)
    ensures
        exists|u: Seq<char>| #[trigger] crate::crypto::is_uuid_v4_text(u) && r@ == name@ + "-"@ + u.subrange(0, 8),
{
    let uuid = crate::crypto::new_uuid_v4();
    let cs = chars_of(uuid.as_str());
    let head = crate::auth::sub_string(&cs, 0, 8);
    let a = concat(name, "-");
    concat(a.as_str(), head.as_str())
}

/// Shell command line that starts an agent in `dir`.
pub fn shell_command(command: &str, dir: &str) -> (r: String)
    ensures
        r@ == command@ + " --cwd "@ + dir@,
{
    let a = concat(command, " --cwd ");
    concat(a.as_str(), dir)
}

/// Environment of an agent process: its port under the four names agents
/// read, then the template's own variables (later entries win).
pub open spec fn process_env_spec(port: u16, extra: Seq<(Seq<char>, Seq<char>)>) -> Seq<(Seq<char>, Seq<char>)> {
    let p = decimal(port as nat);
    seq![("PORT"@, p), ("A2A_PORT"@, p), ("CRUSH_ACP_PORT"@, p), ("CRUSH_A2A_PORT"@, p)] + extra
}

/// The environment of an agent process.
pub fn process_env(port: u16, extra: &Vec<(String, String)>) -> (r: Vec<(String, String)>)
    ensures
        Seq::new(r@.len(), |i: int| (r@[i].0@, r@[i].1@))
            == process_env_spec(port, Seq::new(extra@.len(), |i: int| (extra@[i].0@, extra@[i].1@))),
{
    let p = u64_to_decimal(port as u64);
    let mut out: Vec<(String, String)> = Vec::new();
    out.push((owned("PORT"), p.clone()));
    out.push((owned("A2A_PORT"), p.clone()));
    out.push((owned("CRUSH_ACP_PORT"), p.clone()));
    out.push((owned("CRUSH_A2A_PORT"), p.clone()));
    let ghost head = Seq::new(out@.len(), |i: int| (out@[i].0@, out@[i].1@));
    let ghost ex = Seq::new(extra@.len(), |i: int| (extra@[i].0@, extra@[i].1@));
    let mut i: usize = 0;
    while i < extra.len()
        invariant
            i <= extra@.len(),
            out@.len() == 4 + i,
            head.len() == 4,
            ex == Seq::new(extra@.len(), |k: int| (extra@[k].0@, extra@[k].1@)),
            Seq::new(out@.len(), |k: int| (out@[k].0@, out@[k].1@)) == head + ex.subrange(0, i as int),
        decreases extra@.len() - i,
    {
        let ghost ov = out@;
        out.push((extra[i].0.clone(), extra[i].1.clone()));
        proof {
            assert(out@ == ov.push(extra@[i as int]));
            let want = head + ex.subrange(0, i as int + 1);
            let had = head + ex.subrange(0, i as int);
            assert(Seq::new(ov.len(), |k: int| (ov[k].0@, ov[k].1@)) == had);
            assert forall|k: int| 0 <= k < out@.len() implies (out@[k].0@, out@[k].1@) == want[k] by {
                if k < ov.len() {
                    assert((ov[k].0@, ov[k].1@) == had[k]);
                    assert(had[k] == want[k]);
                } else {
                    assert(want[k] == ex[i as int]);
                }
            }
            assert(Seq::new(out@.len(), |k: int| (out@[k].0@, out@[k].1@)) =~= head + ex.subrange(0, i as int + 1));
        }
        i = i + 1;
    }
    proof {
        assert(ex.subrange(0, ex.len() as int) =~= ex);
        assert(head =~= seq![("PORT"@, decimal(port as nat)), ("A2A_PORT"@, decimal(port as nat)),
            ("CRUSH_ACP_PORT"@, decimal(port as nat)), ("CRUSH_A2A_PORT"@, decimal(port as nat))]);
    }
    out
}

/// A cancel request for `task_id`, whatever its request id.
pub open spec fn is_cancel_request(j: crate::json::JsonView, task_id: Seq<char>) -> bool {
    exists|rid: Seq<char>| j == crate::grpc::agent::tasks_cancel_view(rid, task_id)
}

/// The cancel requests sent to an agent for its active tasks, one per task
/// in order, each with a fresh request id.
pub fn cancel_requests(task_ids: &Vec<String>) -> (r: Vec<crate::json::JsonValue>)
    ensures
        r@.len() == task_ids@.len(),
        forall|i: int| 0 <= i < r@.len() ==> #[trigger] is_cancel_request(r@[i]@, task_ids@[i]@),
{
    let mut out: Vec<crate::json::JsonValue> = Vec::new();
    let mut i: usize = 0;
    while i < task_ids.len()
        invariant
            i <= task_ids@.len(),
            out@.len() == i,
            forall|k: int| 0 <= k < i ==> #[trigger] is_cancel_request(out@[k]@, task_ids@[k]@),
        decreases task_ids@.len() - i,
    {
        let rid = crate::crypto::new_uuid_v4();
        let body = crate::grpc::agent::tasks_cancel_body(rid.as_str(), task_ids[i].as_str());
        let ghost prev = out@;
        out.push(body);
        proof {
            assert(is_cancel_request(out@[i as int]@, task_ids@[i as int]@));
            assert forall|k: int| 0 <= k < i + 1 implies #[trigger] is_cancel_request(out@[k]@, task_ids@[k]@) by {
                if k < i {
                    assert(out@[k] == prev[k]);
                }
            }
        }
        i = i + 1;
    }
    out
}

/// Outcome of one health probe.
#[derive(Debug, Clone, Copy, PartialEq, Eq, Structural)]
pub enum HealthVerdict {
    Healthy,
    Retry(u32),
    GiveUp,
}

/// After probe number `attempts + 1`: healthy when it passed, else another try
/// until the budget is spent.
pub open spec fn health_verdict(attempts: u32, passed: bool) -> HealthVerdict {
    if passed {
        HealthVerdict::Healthy
    } else if attempts + 1 >= HEALTH_CHECK_ATTEMPTS {
        HealthVerdict::GiveUp
    } else {
        HealthVerdict::Retry((attempts + 1) as u32)
    }
}

/// Decide after a health probe; `attempts` probes have failed before it.
pub fn health_attempt(attempts: u32, passed: bool) -> (r: HealthVerdict)
    requires
        attempts < HEALTH_CHECK_ATTEMPTS,
    ensures
        r == health_verdict(attempts, passed),
{
    if passed {
        HealthVerdict::Healthy
    } else if attempts + 1 >= HEALTH_CHECK_ATTEMPTS {
        HealthVerdict::GiveUp
    } else {
        HealthVerdict::Retry(attempts + 1)
    }
}

/// Where a supervised agent is in its life.
#[derive(Debug, Clone, Copy, PartialEq, Eq, Structural)]
pub enum Phase {
    Spawning,
    CheckingHealth,
    FetchingCard,
    Running,
    Stopping,
    Finished,
}

/// What the supervisor's task reports.
#[derive(Debug, Clone, Copy, PartialEq, Eq, Structural)]
pub enum Happening {
    SpawnFailed,
    Spawned(u32),
    HealthFailed,
    Healthy,
    CardFetched,
    Exited,
    StopRequested,
    StopCompleted,
}

/// What the supervisor's task does next, in order.
#[derive(Debug, Clone, Copy, PartialEq, Eq, Structural)]
pub enum Step {
    /// Record the status in the agent store.
    SetStatus(AgentStatus),
    /// Record the process id in the agent store.
    SetPid(u32),
    /// Broadcast a status change.
    Announce(AgentStatus),
    /// Broadcast that the agent stopped.
    AnnounceStopped,
    /// Cancel the agent's open tasks.
    CancelTasks,
    /// Terminate the process, killing it after the grace period (ms).
    GracefulStop(u64),
    /// Drop the agent from the supervisor.
    Forget,
}

/// The steps that start a supervised agent.
pub open spec fn start_steps() -> Seq<Step> {
    seq![Step::SetStatus(AgentStatus::Starting), Step::Announce(AgentStatus::Starting)]
}

/// The lifecycle: the next phase and its steps; a happening that does not
/// apply to the phase changes nothing. A stop asked for while the health
/// check runs fails the check.
pub open spec fn lifecycle(phase: Phase, h: Happening, grace_override: Option<u64>) -> (Phase, Seq<Step>) {
    match (phase, h) {
        (Phase::Spawning, Happening::SpawnFailed) => (Phase::Finished,
            seq![Step::SetStatus(AgentStatus::Error), Step::Announce(AgentStatus::Error), Step::Forget]),
        (Phase::Spawning, Happening::Spawned(pid)) => (Phase::CheckingHealth, seq![Step::SetPid(pid)]),
        (Phase::CheckingHealth, Happening::HealthFailed) | (Phase::CheckingHealth, Happening::StopRequested) =>
            (Phase::Finished, seq![Step::SetStatus(AgentStatus::Error), Step::Announce(AgentStatus::Error),
                Step::GracefulStop(STOP_GRACE_MS), Step::Forget]),
        (Phase::CheckingHealth, Happening::Healthy) => (Phase::FetchingCard, Seq::empty()),
        (Phase::FetchingCard, Happening::CardFetched) => (Phase::Running,
            seq![Step::SetStatus(AgentStatus::Ready), Step::Announce(AgentStatus::Ready)]),
        (Phase::Running, Happening::Exited) => (Phase::Finished,
            seq![Step::SetStatus(AgentStatus::Error), Step::Announce(AgentStatus::Error), Step::Forget]),
        (Phase::Running, Happening::StopRequested) => (Phase::Stopping,
            seq![Step::SetStatus(AgentStatus::Stopping), Step::Announce(AgentStatus::Stopping), Step::CancelTasks,
                Step::GracefulStop(match grace_override { Some(g) => g, None => STOP_GRACE_MS })]),
        (Phase::Stopping, Happening::StopCompleted) => (Phase::Finished,
            seq![Step::SetStatus(AgentStatus::Stopped), Step::AnnounceStopped, Step::Forget]),
        _ => (phase, Seq::empty()),
    }
}

/// The steps that start a supervised agent.
pub fn begin() -> (r: (Phase, Vec<Step>))
    ensures
        r.0 == Phase::Spawning,
        r.1@ == start_steps(),
{
    let mut v: Vec<Step> = Vec::new();
    v.push(Step::SetStatus(AgentStatus::Starting));
    v.push(Step::Announce(AgentStatus::Starting));
    proof {
        assert(v@ =~= start_steps());
    }
    (Phase::Spawning, v)
}

/// Advance a supervised agent by what happened.
pub fn advance(phase: Phase, h: Happening, grace_override: Option<u64>) -> (r: (Phase, Vec<Step>))
    ensures
        r.0 == lifecycle(phase, h, grace_override).0,
        r.1@ == lifecycle(phase, h, grace_override).1,
{
    let mut v: Vec<Step> = Vec::new();
    let next = match (phase, h) {
        (Phase::Spawning, Happening::SpawnFailed) => {
            v.push(Step::SetStatus(AgentStatus::Error));
            v.push(Step::Announce(AgentStatus::Error));
            v.push(Step::Forget);
            Phase::Finished
        },
        (Phase::Spawning, Happening::Spawned(pid)) => {
            v.push(Step::SetPid(pid));
            Phase::CheckingHealth
        },
        (Phase::CheckingHealth, Happening::HealthFailed) | (Phase::CheckingHealth, Happening::StopRequested) => {
            v.push(Step::SetStatus(AgentStatus::Error));
            v.push(Step::Announce(AgentStatus::Error));
            v.push(Step::GracefulStop(STOP_GRACE_MS));
            v.push(Step::Forget);
            Phase::Finished
        },
        (Phase::CheckingHealth, Happening::Healthy) => Phase::FetchingCard,
        (Phase::FetchingCard, Happening::CardFetched) => {
            v.push(Step::SetStatus(AgentStatus::Ready));
            v.push(Step::Announce(AgentStatus::Ready));
            Phase::Running
        },
        (Phase::Running, Happening::Exited) => {
            v.push(Step::SetStatus(AgentStatus::Error));
            v.push(Step::Announce(AgentStatus::Error));
            v.push(Step::Forget);
            Phase::Finished
        },
        (Phase::Running, Happening::StopRequested) => {
            v.push(Step::SetStatus(AgentStatus::Stopping));
            v.push(Step::Announce(AgentStatus::Stopping));
            v.push(Step::CancelTasks);
            let grace = match grace_override {
                Some(g) => g,
                None => STOP_GRACE_MS,
            };
            v.push(Step::GracefulStop(grace));
            Phase::Stopping
        },
        (Phase::Stopping, Happening::StopCompleted) => {
            v.push(Step::SetStatus(AgentStatus::Stopped));
            v.push(Step::AnnounceStopped);
            v.push(Step::Forget);
            Phase::Finished
        },
        _ => phase,
    };
    proof {
        assert(v@ =~= lifecycle(phase, h, grace_override).1);
    }
    (next, v)
}

/// An agent is dropped from the supervisor exactly when its life ends, and a
/// finished agent stays finished.
pub proof fn law_forget_exactly_when_finished(phase: Phase, h: Happening, grace_override: Option<u64>)
    ensures
        ({
            let (next, steps) = lifecycle(phase, h, grace_override);
            &&& (phase != Phase::Finished && next == Phase::Finished) <==> steps.contains(Step::Forget)
            &&& phase == Phase::Finished ==> next == Phase::Finished && steps.len() == 0
        }),
{
    let (next, steps) = lifecycle(phase, h, grace_override);
    if steps.contains(Step::Forget) {
        let k = choose|k: int| 0 <= k < steps.len() && steps[k] == Step::Forget;
        assert(steps[k] == Step::Forget);
    }
    if phase != Phase::Finished && next == Phase::Finished {
        assert(steps[steps.len() - 1] == Step::Forget);
    }
}

/// Once running, an agent reaches the end only through an exit or a
/// completed stop, and a stopped agent is last recorded as `Stopped`.
pub proof fn law_stop_ends_stopped(grace_override: Option<u64>)
    ensures
        lifecycle(Phase::Running, Happening::StopRequested, grace_override).0 == Phase::Stopping,
        lifecycle(Phase::Stopping, Happening::StopCompleted, grace_override).0 == Phase::Finished,
        lifecycle(Phase::Stopping, Happening::StopCompleted, grace_override).1[0] == Step::SetStatus(AgentStatus::Stopped),
{
}

} // verus!
