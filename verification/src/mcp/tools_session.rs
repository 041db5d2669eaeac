//! Work session and project tools: the requests they make of Switchboard and
//! which results the caller may see.
use vstd::prelude::*;
use crate::auth::{ScopedToken, TokenView, Permission, scope_includes};
use crate::mcp::{check_project_access, project_access_refusal};
use crate::model::lifecycle::{WorkSessionState, parse_state};
use crate::model::project::ProjectSummary;
use crate::model::work_session::{CreateWorkSessionRequest, RealizationOptions, WorkSessionView};
use crate::model::error::opt_view;
use crate::text::{concat, owned};

verus! {

/// Realization of a session created by a tool: headless sessions get no tag,
/// no apps and no window-manager work.
pub open spec fn tool_realization(headless: bool) -> RealizationOptions {
    RealizationOptions { create_tag: !headless, launch_apps: !headless, headless, no_wm: headless }
}

/// The creation request of `work_session/create`.
pub fn create_request(
    work_session_id: String,
    project_id: String,
    work_profile_id: Option<String>,
    display_name: Option<String>,
    headless: Option<bool>,
) -> (r: CreateWorkSessionRequest)
    ensures
        r.work_session_id == work_session_id,
        r.project_id == project_id,
        r.work_profile_id == work_profile_id,
        r.display_name == display_name,
        r.realization == tool_realization(headless == Some(true)),
{
    let h = match headless {
        Some(b) => b,
        None => false,
    };
    CreateWorkSessionRequest {
        work_session_id,
        project_id,
        work_profile_id,
        display_name,
        realization: RealizationOptions { create_tag: !h, launch_apps: !h, headless: h, no_wm: h },
    }
}

/// The project a session is checked against: its own, or the empty name.
pub open spec fn session_project(v: WorkSessionView) -> Seq<char> {
    match opt_view(v.work_session.project_id) {
        Some(p) => p,
        None => Seq::empty(),
    }
}

/// Sessions whose project the caller's scope includes, in the order given.
pub fn visible_sessions(token: &ScopedToken, list: Vec<WorkSessionView>) -> (r: Vec<WorkSessionView>)
    ensures
        r@ == list@.filter(|v: WorkSessionView| scope_includes(token.scope@, session_project(v))),
{
    let ghost pred = |v: WorkSessionView| scope_includes(token.scope@, session_project(v));
    let mut out: Vec<WorkSessionView> = Vec::new();
    let mut rest = list;
    let ghost all = rest@;
    let mut i: usize = 0;
    let n = rest.len();
    while rest.len() > 0
        invariant
            all.len() == n,
            i + rest@.len() == n,
            rest@ == all.subrange(i as int, n as int),
            pred == (|v: WorkSessionView| scope_includes(token.scope@, session_project(v))),
            out@ == all.subrange(0, i as int).filter(pred),
        decreases rest@.len(),
    {
        let v = rest.remove(0);
        proof {
            reveal(Seq::filter);
            assert(all.subrange(0, i as int + 1).drop_last() =~= all.subrange(0, i as int));
            assert(all.subrange(0, i as int + 1).last() == all[i as int]);
            assert(v == all[i as int]);
            assert(rest@ =~= all.subrange(i as int + 1, n as int));
        }
        let pid: &str = match &v.work_session.project_id {
            Some(p) => p.as_str(),
            None => "",
        };
        proof {
            reveal_strlit("");
            assert(pid@ == session_project(v));
        }
        if crate::auth::scope_includes_project(&token.scope, pid) {
            out.push(v);
        }
        i = i + 1;
    }
    proof {
        assert(all.subrange(0, n as int) =~= all);
    }
    out
}

/// Projects the caller's scope includes, in the order given.
pub fn visible_projects(token: &ScopedToken, list: Vec<ProjectSummary>) -> (r: Vec<ProjectSummary>)
    ensures
        r@ == list@.filter(|p: ProjectSummary| scope_includes(token.scope@, p.project_id@)),
{
    let ghost pred = |p: ProjectSummary| scope_includes(token.scope@, p.project_id@);
    let mut out: Vec<ProjectSummary> = Vec::new();
    let mut rest = list;
    let ghost all = rest@;
    let mut i: usize = 0;
    let n = rest.len();
    while rest.len() > 0
        invariant
            all.len() == n,
            i + rest@.len() == n,
            rest@ == all.subrange(i as int, n as int),
            pred == (|p: ProjectSummary| scope_includes(token.scope@, p.project_id@)),
            out@ == all.subrange(0, i as int).filter(pred),
        decreases rest@.len(),
    {
        let p = rest.remove(0);
        proof {
            reveal(Seq::filter);
            assert(all.subrange(0, i as int + 1).drop_last() =~= all.subrange(0, i as int));
            assert(all.subrange(0, i as int + 1).last() == all[i as int]);
            assert(p == all[i as int]);
            assert(rest@ =~= all.subrange(i as int + 1, n as int));
        }
        if crate::auth::scope_includes_project(&token.scope, p.project_id.as_str()) {
            out.push(p);
        }
        i = i + 1;
    }
    proof {
        assert(all.subrange(0, n as int) =~= all);
    }
    out
}

/// The state a transition asks for, or why it is refused.
pub fn transition_target(s: &str) -> (r: Result<WorkSessionState, String>)
    ensures
        match parse_state(s@) {
            Some(st) => r == Ok::<WorkSessionState, String>(st),
            None => r matches Err(e) && e@ == "invalid state "@ + s@,
        },
{
    match WorkSessionState::parse(s) {
        Some(st) => Ok(st),
        None => Err(concat("invalid state ", s)),
    }
}

/// A caller may act on a session that has a project only with session
/// permission on that project.
pub fn check_session_access(token: &ScopedToken, v: &WorkSessionView) -> (r: Result<(), String>)
    ensures
        match opt_view(v.work_session.project_id) {
            None => r is Ok,
            Some(p) => match project_access_refusal(token@, p, Permission::Session) {
                None => r is Ok,
                Some(m) => r matches Err(e) && e@ == m,
            },
        },
{
    match &v.work_session.project_id {
        Some(p) => check_project_access(token, p.as_str(), &Permission::Session),
        None => Ok(()),
    }
}

/// Reply to `work_session/destroy`.
pub fn destroyed_reply(id: &str) -> (r: String)
    ensures
        r@ == "destroyed "@ + id@,
{
    concat("destroyed ", id)
}

/// Reply to `project/unregister`.
pub fn deleted_reply(id: &str) -> (r: String)
    ensures
        r@ == "deleted "@ + id@,
{
    concat("deleted ", id)
}

} // verus!
