//! The decisions of the ARP tool server: who may call a tool on what, the
//! arguments its tools accept, the JSON they answer with, and the resources
//! and prompts it offers.
pub mod tools_agent;
pub mod tools_session;
pub mod resources;
pub mod prompts;

use vstd::prelude::*;
use crate::auth::{ScopedToken, ScopeView, Permission, scope_includes, session_match, allows};
use crate::state::AgentInstanceState;
use crate::model::error::opt_view;
use crate::text::{concat, owned};

verus! {

/// The caller of a tool: tools are served over stdio to the local user, who
/// acts as the localhost administrator.
pub fn caller_token() -> (r: ScopedToken)
    ensures
        r.subject@ == "localhost"@,
        r.scope@ == ScopeView::Global,
        r.permission == Permission::Admin,
        r.session_id is None,
{
    crate::auth::localhost_admin_token()
}

/// Why a caller may not act on an agent of `project`, if it may not.
pub open spec fn agent_access_refusal(token: crate::auth::TokenView, a: AgentInstanceState, project: Seq<char>)
    -> Option<Seq<char>>
{
    if !scope_includes(token.scope, project) {
        Some("token scope does not include project: "@ + project)
    } else if !session_match(token, opt_view(a.session_id)) {
        Some("session-scoped token cannot access agent "@ + a.id@ + " (session mismatch)"@)
    } else {
        None
    }
}

/// A caller may act on an agent when its scope includes the agent's project
/// and, with session permission, it owns the agent's session.
pub fn check_agent_access(token: &ScopedToken, agent: &AgentInstanceState, project: &str) -> (r: Result<(), String>)
    ensures
        match agent_access_refusal(token@, *agent, project@) {
            None => r is Ok,
            Some(m) => r matches Err(e) && e@ == m,
        },
{
    if !crate::auth::scope_includes_project(&token.scope, project) {
        return Err(concat("token scope does not include project: ", project));
    }
    if !crate::auth::session_matches(token, agent) {
        let a = concat("session-scoped token cannot access agent ", agent.id.as_str());
        return Err(concat(a.as_str(), " (session mismatch)"));
    }
    Ok(())
}

/// Debug name of a permission level.
pub open spec fn permission_debug(p: Permission) -> Seq<char> {
    match p {
        Permission::Session => "Session"@,
        Permission::Project => "Project"@,
        Permission::Admin => "Admin"@,
    }
}

/// Why a caller may not act on `project` with `required` permission, if it may not.
pub open spec fn project_access_refusal(token: crate::auth::TokenView, project: Seq<char>, required: Permission)
    -> Option<Seq<char>>
{
    if !allows(token.permission, required) {
        Some("insufficient permission: "@ + permission_debug(required) + " required, have "@
            + permission_debug(token.permission))
    } else if !scope_includes(token.scope, project) {
        Some("token scope does not include project: "@ + project)
    } else {
        None
    }
}

/// A caller may act on a project when its permission reaches `required` and
/// its scope includes the project.
pub fn check_project_access(token: &ScopedToken, project: &str, required: &Permission) -> (r: Result<(), String>)
    ensures
        match project_access_refusal(token@, project@, *required) {
            None => r is Ok,
            Some(m) => r matches Err(e) && e@ == m,
        },
{
    if !crate::auth::permission_allows(&token.permission, required) {
        let a = concat("insufficient permission: ", required.debug_name());
        let b = concat(a.as_str(), " required, have ");
        return Err(concat(b.as_str(), token.permission.debug_name()));
    }
    if !crate::auth::scope_includes_project(&token.scope, project) {
        return Err(concat("token scope does not include project: ", project));
    }
    Ok(())
}

/// Catalog changes need project or admin permission.
pub fn check_catalog_permission(token: &ScopedToken) -> (r: Result<(), String>)
    ensures
        (token.permission == Permission::Admin || token.permission == Permission::Project) <==> r is Ok,
        r matches Err(e) ==> e@ == "admin or project permission required"@,
{
    match token.permission {
        Permission::Admin | Permission::Project => Ok(()),
        Permission::Session => Err(owned("admin or project permission required")),
    }
}

} // verus!
