//! The decisions of the token service: who may mint which token.
use vstd::prelude::*;
use crate::auth::{self, ScopedToken, TokenScope, ScopeView, TokenView, allows, scope_subset, rank};
use crate::grpc::proto;
use crate::grpc::proto::{permission_of_number, Timestamp};
use crate::grpc::convert::{timestamp_of, rfc3339_timestamp, or_empty};
use crate::model::error::opt_view;
use crate::text::{str_views, in_names, contains_str, concat, owned};

verus! {

/// The token service. It holds no state of its own.
#[derive(Debug, Default)]
pub struct TokenServiceImpl;

/// What a granted token request mints.
#[derive(Debug)]
pub struct TokenPlan {
    pub subject: String,
    pub scope: TokenScope,
    pub permission: auth::Permission,
    pub expires_in: Option<u64>,
}

/// Scope a request asks for: global, its listed projects, or (when it names
/// none) the caller's own.
pub open spec fn requested_scope(caller_scope: ScopeView, req_scope: Option<proto::Scope>) -> ScopeView {
    match req_scope {
        Some(s) => if s.global {
            ScopeView::Global
        } else if s.projects@.len() == 0 {
            caller_scope
        } else {
            ScopeView::Projects(str_views(s.projects@))
        },
        None => caller_scope,
    }
}

/// Permission a request asks for: a named level, else the caller's own.
pub open spec fn requested_permission(caller: auth::Permission, v: i32) -> auth::Permission {
    match permission_of_number(v) {
        Some(proto::Permission::Admin) => auth::Permission::Admin,
        Some(proto::Permission::Project) => auth::Permission::Project,
        Some(proto::Permission::Session) => auth::Permission::Session,
        _ => caller,
    }
}

/// Index of the first name from `i` on that `allowed` does not hold.
pub open spec fn first_outside_from(names: Seq<Seq<char>>, allowed: Seq<Seq<char>>, i: int) -> Option<int>
    decreases names.len() - i,
{
    if i < 0 || i >= names.len() {
        None
    } else if !in_names(allowed, names[i]) {
        Some(i)
    } else {
        first_outside_from(names, allowed, i + 1)
    }
}

/// Why a requested scope exceeds the caller's, if it does.
pub open spec fn scope_refusal(caller_scope: ScopeView, scope: ScopeView) -> Option<Seq<char>> {
    match caller_scope {
        ScopeView::Global => None,
        ScopeView::Projects(cp) => match scope {
            ScopeView::Global => Some("cannot create global-scope token from project-scoped caller"@),
            ScopeView::Projects(rp) => match first_outside_from(rp, cp, 0) {
                Some(i) => Some("cannot include project '"@ + rp[i] + "' not in caller's scope"@),
                None => None,
            },
        },
    }
}

/// Outcome of a token request from `caller`: subject, scope, permission and
/// lifetime of the new token, or the reason it is refused.
pub open spec fn token_plan(caller: TokenView, req: proto::CreateTokenRequest)
    -> Result<(Seq<char>, ScopeView, auth::Permission, Option<u64>), Seq<char>>
{
    if !allows(caller.permission, auth::Permission::Admin) {
        Err("admin permission required to create tokens"@)
    } else {
        let scope = requested_scope(caller.scope, req.scope);
        let perm = requested_permission(caller.permission, req.permission);
        if !allows(caller.permission, perm) {
            Err("cannot create token with higher permission than caller"@)
        } else {
            match scope_refusal(caller.scope, scope) {
                Some(e) => Err(e),
                None => Ok((
                    if req.subject@.len() == 0 { caller.subject } else { req.subject@ },
                    scope,
                    perm,
                    if req.expires_in_seconds > 0 { Some(req.expires_in_seconds as u64) } else { None },
                )),
            }
        }
    }
}

pub(crate) fn clone_strings(v: &Vec<String>) -> (r: Vec<String>)
    ensures
        r@ == v@,
{
    let mut out: Vec<String> = Vec::new();
    let mut i: usize = 0;
    while i < v.len()
        invariant
            i <= v@.len(),
            out@ == v@.subrange(0, i as int),
        decreases v@.len() - i,
    {
        out.push(v[i].clone());
        i = i + 1;
    }
    out
}

fn scope_refusal_of(caller_scope: &TokenScope, scope: &TokenScope) -> (r: Option<String>)
    ensures
        opt_view(r) == scope_refusal(caller_scope@, scope@),
{
    match caller_scope {
        TokenScope::Global => None,
        TokenScope::Projects(cp) => match scope {
            TokenScope::Global => Some(owned("cannot create global-scope token from project-scoped caller")),
            TokenScope::Projects(rp) => {
                let ghost cpv = str_views(cp@);
                let ghost rpv = str_views(rp@);
                let mut i: usize = 0;
                while i < rp.len()
                    invariant
                        i <= rp@.len(),
                        cpv == str_views(cp@),
                        rpv == str_views(rp@),
                        caller_scope@ == ScopeView::Projects(cpv),
                        scope@ == ScopeView::Projects(rpv),
                        first_outside_from(rpv, cpv, 0) == first_outside_from(rpv, cpv, i as int),
                    decreases rp@.len() - i,
                {
                    assert(rpv[i as int] == rp@[i as int]@);
                    if !contains_str(cp, rp[i].as_str()) {
                        let a = concat("cannot include project '", rp[i].as_str());
                        return Some(concat(a.as_str(), "' not in caller's scope"));
                    }
                    i = i + 1;
                }
                None
            },
        },
    }
}

fn requested_permission_of(caller: auth::Permission, v: i32) -> (r: auth::Permission)
    ensures
        r == requested_permission(caller, v),
{
    match proto::Permission::try_from(v) {
        Ok(proto::Permission::Admin) => auth::Permission::Admin,
        Ok(proto::Permission::Project) => auth::Permission::Project,
        Ok(proto::Permission::Session) => auth::Permission::Session,
        _ => caller,
    }
}

/// Decide a token request from `caller`.
pub fn plan_token(caller: &ScopedToken, req: &proto::CreateTokenRequest) -> (r: Result<TokenPlan, String>)
    ensures
        match (r, token_plan(caller@, *req)) {
            (Ok(p), Ok((subject, scope, perm, expires))) => {
                &&& p.subject@ == subject
                &&& p.scope@ == scope
                &&& p.permission == perm
                &&& p.expires_in == expires
            },
            (Err(e), Err(ve)) => e@ == ve,
            _ => false,
        },
{
    if !auth::permission_allows(&caller.permission, &auth::Permission::Admin) {
        return Err(owned("admin permission required to create tokens"));
    }
    let scope = match &req.scope {
        Some(ps) => if ps.global {
            TokenScope::Global
        } else if ps.projects.len() == 0 {
            caller.scope.clone()
        } else {
            TokenScope::Projects(clone_strings(&ps.projects))
        },
        None => caller.scope.clone(),
    };
    let permission = requested_permission_of(caller.permission, req.permission);
    if !auth::permission_allows(&caller.permission, &permission) {
        return Err(owned("cannot create token with higher permission than caller"));
    }
    match scope_refusal_of(&caller.scope, &scope) {
        Some(e) => return Err(e),
        None => {},
    }
    let subject = if req.subject.as_str().unicode_len() == 0 {
        caller.subject.clone()
    } else {
        req.subject.clone()
    };
    let expires_in: Option<u64> = if req.expires_in_seconds > 0 {
        Some(req.expires_in_seconds as u64)
    } else {
        None
    };
    Ok(TokenPlan { subject, scope, permission, expires_in })
}

proof fn lemma_first_outside_none(names: Seq<Seq<char>>, allowed: Seq<Seq<char>>, i: int)
    requires
        0 <= i,
        first_outside_from(names, allowed, i) is None,
    ensures
        forall|j: int| i <= j < names.len() ==> in_names(allowed, #[trigger] names[j]),
    decreases names.len() - i,
{
    if i < names.len() {
        lemma_first_outside_none(names, allowed, i + 1);
    }
}

/// A granted token request never exceeds its caller: the new token's scope
/// lies within the caller's and its permission is at most the caller's.
pub proof fn law_token_plan_never_widens(caller: TokenView, req: proto::CreateTokenRequest)
    ensures
        match token_plan(caller, req) {
            Ok((_, scope, perm, _)) => scope_subset(scope, caller.scope) && allows(caller.permission, perm),
            Err(_) => true,
        },
{
    if let Ok((_, scope, perm, _)) = token_plan(caller, req) {
        if let (ScopeView::Projects(cp), ScopeView::Projects(rp)) = (caller.scope, scope) {
            lemma_first_outside_none(rp, cp, 0);
        }
    }
}

/// Wire scope of a token scope.
pub open spec fn proto_scope_ok(s: ScopeView, p: proto::Scope) -> bool {
    match s {
        ScopeView::Global => p.global && p.projects@.len() == 0,
        ScopeView::Projects(ps) => !p.global && str_views(p.projects@) == ps,
    }
}

/// Convert a token scope to its wire form.
pub fn proto_scope(scope: &TokenScope) -> (r: proto::Scope)
    ensures
        proto_scope_ok(scope@, r),
{
    match scope {
        TokenScope::Global => proto::Scope { global: true, projects: Vec::new() },
        TokenScope::Projects(ps) => proto::Scope { global: false, projects: clone_strings(ps) },
    }
}

/// Wire number of a token permission.
pub open spec fn proto_permission_number(p: auth::Permission) -> i32 {
    match p {
        auth::Permission::Session => 1,
        auth::Permission::Project => 2,
        auth::Permission::Admin => 3,
    }
}

/// `m` is the wire message of the issued token `t`.
pub open spec fn token_proto_ok(t: ScopedToken, r: proto::Token) -> bool {
    &&& r.id@ == t.id@
    &&& r.subject@ == t.subject@
    &&& r.scope matches Some(s) && proto_scope_ok(t.scope@, s)
    &&& r.permission == proto_permission_number(t.permission)
    &&& r.session_id@ == or_empty(opt_view(t.session_id))
    &&& r.issued_at == timestamp_of(t.issued_at@)
    &&& r.expires_at == match t.expires_at {
            Some(e) => timestamp_of(e@),
            None => None::<Timestamp>,
        }
    &&& r.parent_token_id@ == or_empty(opt_view(t.parent_token_id))
}

impl TokenServiceImpl {
    /// A token request from `caller`: refused with permission denied when the
    /// caller may not mint it; otherwise the token is minted (read the clock
    /// once, expiry the requested seconds later), recorded in `store`, and
    /// returned with its wire message. Signing it into bearer text is the
    /// caller's part.
    pub fn create_token(&self, store: &mut auth::TokenStore, caller: &ScopedToken, req: &proto::CreateTokenRequest)
        -> (r: Result<(ScopedToken, proto::Token), crate::grpc::agent::Status>)
        requires
            old(store).wf(),
        ensures
            final(store).wf(),
            match token_plan(caller@, *req) {
                Err(ve) => r matches Err(e) && e.code == crate::grpc::agent::Code::PermissionDenied && e.message@ == ve
                    && forall|id: Seq<char>| final(store).stored(id) == old(store).stored(id),
                Ok((subject, scope, perm, expires)) => r matches Ok((t, m)) && {
                    &&& t.subject@ == subject
                    &&& t.scope@ == scope
                    &&& t.permission == perm
                    &&& t.session_id is None
                    &&& t.parent_token_id is None
                    &&& crate::crypto::is_uuid_v4_text(t.id@)
                    &&& exists|now: (u64, u32)| #[trigger] auth::clock_reading(now)
                        && t.issued_at@ == crate::crypto::rfc3339_text(now.0, now.1)
                        && opt_view(t.expires_at) == match expires {
                            Some(secs) => Some(crate::crypto::rfc3339_text(auth::expiry_secs(now.0, secs), now.1)),
                            None => None,
                        }
                    &&& final(store).stored(t.id@) == Some(t@)
                    &&& forall|id: Seq<char>| id != t.id@ ==> final(store).stored(id) == old(store).stored(id)
                    &&& token_proto_ok(t, m)
                },
            },
    {
        match plan_token(caller, req) {
            Err(e) => Err(crate::grpc::agent::Status { code: crate::grpc::agent::Code::PermissionDenied, message: e }),
            Ok(plan) => {
                let t = auth::create_scoped_token(store, plan.subject.as_str(), plan.scope, plan.permission, plan.expires_in);
                let m = token_to_proto(&t);
                Ok((t, m))
            },
        }
    }
}

/// The reply to a granted token request: its wire message and bearer text.
pub fn token_response(token: proto::Token, bearer_token: String) -> (r: proto::CreateTokenResponse)
    ensures
        r.token == Some(token),
        r.bearer_token == bearer_token,
{
    proto::CreateTokenResponse { token: Some(token), bearer_token }
}

/// Convert an issued token to its wire message.
pub fn token_to_proto(t: &ScopedToken) -> (r: proto::Token)
    ensures
        token_proto_ok(*t, r),
        r.id@ == t.id@,
        r.subject@ == t.subject@,
        r.scope matches Some(s) && proto_scope_ok(t.scope@, s),
        r.permission == proto_permission_number(t.permission),
        r.session_id@ == or_empty(opt_view(t.session_id)),
        r.issued_at == timestamp_of(t.issued_at@),
        r.expires_at == match t.expires_at {
            Some(e) => timestamp_of(e@),
            None => None::<Timestamp>,
        },
        r.parent_token_id@ == or_empty(opt_view(t.parent_token_id)),
{
    let expires_at = match &t.expires_at {
        Some(e) => rfc3339_timestamp(e.as_str()),
        None => None,
    };
    let permission = match t.permission {
        auth::Permission::Admin => proto::Permission::Admin.value(),
        auth::Permission::Project => proto::Permission::Project.value(),
        auth::Permission::Session => proto::Permission::Session.value(),
    };
    proto::Token {
        id: t.id.clone(),
        subject: t.subject.clone(),
        scope: Some(proto_scope(&t.scope)),
        permission,
        session_id: match &t.session_id {
            Some(s) => s.clone(),
            None => String::new(),
        },
        issued_at: rfc3339_timestamp(t.issued_at.as_str()),
        expires_at,
        parent_token_id: match &t.parent_token_id {
            Some(s) => s.clone(),
            None => String::new(),
        },
    }
}

} // verus!
