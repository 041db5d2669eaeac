//! Conversions from the host's records to ARP wire messages.
use vstd::prelude::*;
use crate::grpc::proto;
use crate::grpc::proto::{agent_status_number, work_session_state_number, Timestamp};
use crate::model::lifecycle::WorkSessionState;
use crate::model::work_session::WorkSessionView;
use crate::model::runtime::status_name;
use crate::model::error::opt_view;
use crate::state::{AgentInstanceState, AgentStatus, base_url_of};
use crate::crypto::{parse_rfc3339, rfc3339_instant};
use crate::text::owned;

verus! {

/// The wire status for a host agent status.
pub open spec fn proto_status_of(s: AgentStatus) -> proto::AgentStatus {
    match s {
        AgentStatus::Starting => proto::AgentStatus::Starting,
        AgentStatus::Ready => proto::AgentStatus::Ready,
        AgentStatus::Busy => proto::AgentStatus::Busy,
        AgentStatus::Error => proto::AgentStatus::Error,
        AgentStatus::Stopping => proto::AgentStatus::Stopping,
        AgentStatus::Stopped => proto::AgentStatus::Stopped,
    }
}

/// Convert a host `AgentStatus` to its wire number.
pub fn agent_status_to_proto(status: &AgentStatus) -> (r: i32)
    ensures
        r == agent_status_number(proto_status_of(*status)),
{
    match status {
        AgentStatus::Starting => proto::AgentStatus::Starting.value(),
        AgentStatus::Ready => proto::AgentStatus::Ready.value(),
        AgentStatus::Busy => proto::AgentStatus::Busy.value(),
        AgentStatus::Error => proto::AgentStatus::Error.value(),
        AgentStatus::Stopping => proto::AgentStatus::Stopping.value(),
        AgentStatus::Stopped => proto::AgentStatus::Stopped.value(),
    }
}

/// Timestamp of an RFC 3339 text, if it parses.
pub open spec fn timestamp_of(text: Seq<char>) -> Option<Timestamp> {
    match rfc3339_instant(text) {
        Some((s, n)) => Some(Timestamp { seconds: s, nanos: n as i32 }),
        None => None,
    }
}

/// Parse an RFC 3339 text into a wire timestamp.
pub fn rfc3339_timestamp(text: &str) -> (r: Option<Timestamp>)
    ensures
        r == timestamp_of(text@),
{
    match parse_rfc3339(text) {
        Some((s, n)) => Some(Timestamp { seconds: s, nanos: n as i32 }),
        None => None,
    }
}

/// Empty text for a missing optional string.
pub open spec fn or_empty(o: Option<Seq<char>>) -> Seq<char> {
    match o {
        Some(s) => s,
        None => Seq::empty(),
    }
}

fn string_or_empty(o: &Option<String>) -> (r: String)
    ensures
        r@ == or_empty(opt_view(*o)),
{
    match o {
        Some(s) => s.clone(),
        None => String::new(),
    }
}

/// The wire message for a running agent.
pub open spec fn agent_message_ok(agent: AgentInstanceState, p: proto::AgentInstance) -> bool {
    &&& p.id@ == agent.id@
    &&& p.template@ == agent.template@
    &&& p.workspace@ == agent.work_session_id@
    &&& p.status == agent_status_number(proto_status_of(agent.status))
    &&& p.port == agent.port as i32
    &&& p.direct_url@ == base_url_of(opt_view(agent.host), agent.port)
    &&& p.proxy_url@ == Seq::<char>::empty()
    &&& p.pid == match agent.pid { Some(x) => x as i32, None => 0i32 }
    &&& p.context_id@ == Seq::<char>::empty()
    &&& p.token_id@ == or_empty(opt_view(agent.token_id))
    &&& p.session_id@ == or_empty(opt_view(agent.session_id))
    &&& p.spawned_by@ == or_empty(opt_view(agent.spawned_by))
    &&& p.started_at == timestamp_of(agent.started_at@)
}

/// Convert a host agent record to its wire message.
pub fn agent_instance_to_proto(agent: &AgentInstanceState) -> (r: proto::AgentInstance)
    ensures
        agent_message_ok(*agent, r),
{
    let pid: i32 = match agent.pid {
        Some(p) => p as i32,
        None => 0,
    };
    proto::AgentInstance {
        id: agent.id.clone(),
        template: agent.template.clone(),
        workspace: agent.work_session_id.clone(),
        status: agent_status_to_proto(&agent.status),
        port: agent.port as i32,
        direct_url: agent.base_url(),
        proxy_url: String::new(),
        pid,
        context_id: String::new(),
        token_id: string_or_empty(&agent.token_id),
        session_id: string_or_empty(&agent.session_id),
        spawned_by: string_or_empty(&agent.spawned_by),
        started_at: rfc3339_timestamp(agent.started_at.as_str()),
    }
}

/// Alias used by older call sites.
pub fn agent_to_proto(agent: &AgentInstanceState) -> (r: proto::AgentInstance)
    ensures
        agent_message_ok(*agent, r),
{
    agent_instance_to_proto(agent)
}

/// The discovery stream payload for a WorkSession (the legacy Workspace message).
pub fn work_session_to_discovery_payload(
    work_session_id: &str,
    project_id: &str,
    dir: &str,
    active: bool,
    agents: &[AgentInstanceState],
) -> (r: proto::Workspace)
    ensures
        r.name@ == work_session_id@,
        r.project@ == project_id@,
        r.dir@ == dir@,
        r.status == (if active { 1i32 } else { 2i32 }),
        r.agents@.len() == agents@.len(),
        forall|i: int| 0 <= i < agents@.len() ==> agent_message_ok(agents@[i], #[trigger] r.agents@[i]),
        r.created_at is None,
{
    let mut out: Vec<proto::AgentInstance> = Vec::new();
    let mut i: usize = 0;
    while i < agents.len()
        invariant
            i <= agents@.len(),
            out@.len() == i,
            forall|k: int| 0 <= k < i ==> agent_message_ok(agents@[k], #[trigger] out@[k]),
        decreases agents@.len() - i,
    {
        out.push(agent_to_proto(&agents[i]));
        i = i + 1;
    }
    proto::Workspace {
        name: owned(work_session_id),
        project: owned(project_id),
        dir: owned(dir),
        status: if active { proto::WorkspaceStatus::Active.value() } else { proto::WorkspaceStatus::Inactive.value() },
        agents: out,
        created_at: None,
    }
}

/// Legacy name of [`work_session_to_discovery_payload`].
pub fn work_session_to_proto_workspace(
    work_session_id: &str,
    project_id: &str,
    dir: &str,
    active: bool,
    agents: &[AgentInstanceState],
) -> (r: proto::Workspace)
    ensures
        r.name@ == work_session_id@,
        r.project@ == project_id@,
        r.dir@ == dir@,
        r.status == (if active { 1i32 } else { 2i32 }),
        r.agents@.len() == agents@.len(),
        forall|i: int| 0 <= i < agents@.len() ==> agent_message_ok(agents@[i], #[trigger] r.agents@[i]),
        r.created_at is None,
{
    work_session_to_discovery_payload(work_session_id, project_id, dir, active, agents)
}

/// The wire state for a lifecycle state.
pub open spec fn proto_state_of(s: WorkSessionState) -> proto::WorkSessionState {
    match s {
        WorkSessionState::Proposed => proto::WorkSessionState::Proposed,
        WorkSessionState::Open => proto::WorkSessionState::Open,
        WorkSessionState::Paused => proto::WorkSessionState::Paused,
        WorkSessionState::Closed => proto::WorkSessionState::Closed,
        WorkSessionState::Aborted => proto::WorkSessionState::Aborted,
    }
}

/// Convert a lifecycle state to its wire number.
pub fn work_session_state_to_proto(state: WorkSessionState) -> (r: i32)
    ensures
        r == work_session_state_number(proto_state_of(state)),
{
    match state {
        WorkSessionState::Proposed => proto::WorkSessionState::Proposed.value(),
        WorkSessionState::Open => proto::WorkSessionState::Open.value(),
        WorkSessionState::Paused => proto::WorkSessionState::Paused.value(),
        WorkSessionState::Closed => proto::WorkSessionState::Closed.value(),
        WorkSessionState::Aborted => proto::WorkSessionState::Aborted.value(),
    }
}

/// Convert a WorkSession view to its wire message.
pub fn work_session_view_to_proto(v: &WorkSessionView) -> (r: proto::WorkSession)
    ensures
        r.work_session_id@ == v.work_session.work_session_id@,
        r.project_id@ == or_empty(opt_view(v.work_session.project_id)),
        r.work_profile_id@ == or_empty(opt_view(v.work_session.work_profile_id)),
        r.project_revision@ == or_empty(opt_view(v.work_session.project_revision)),
        r.project_snapshot_id@ == or_empty(opt_view(v.work_session.project_snapshot_id)),
        r.state == work_session_state_number(proto_state_of(v.work_session.state)),
        r.display_name@ == or_empty(opt_view(v.work_session.display_name)),
        r.workspace_path@ == match v.runtime {
            Some(rt) => match rt.workspace {
                Some(w) => w.path@,
                None => Seq::<char>::empty(),
            },
            None => Seq::<char>::empty(),
        },
        r.realization_status@ == match v.runtime {
            Some(rt) => status_name(rt.realization_status),
            None => Seq::<char>::empty(),
        },
        r.created_at is None,
{
    let ws = &v.work_session;
    let workspace_path = match &v.runtime {
        Some(rt) => match &rt.workspace {
            Some(w) => w.path.clone(),
            None => String::new(),
        },
        None => String::new(),
    };
    let realization_status = match &v.runtime {
        Some(rt) => owned(rt.realization_status.as_str()),
        None => String::new(),
    };
    proto::WorkSession {
        work_session_id: ws.work_session_id.clone(),
        project_id: string_or_empty(&ws.project_id),
        work_profile_id: string_or_empty(&ws.work_profile_id),
        project_revision: string_or_empty(&ws.project_revision),
        project_snapshot_id: string_or_empty(&ws.project_snapshot_id),
        state: work_session_state_to_proto(ws.state),
        display_name: string_or_empty(&ws.display_name),
        workspace_path,
        realization_status,
        created_at: None,
    }
}

} // verus!
