//! Bearer tokens: legacy HMAC tokens, the framing of scoped tokens, and the
//! scope and permission rules that scoped tokens carry.
use vstd::prelude::*;
use crate::text::{chars_of, string_from_chars, concat, owned, str_eq, str_views, in_names, contains_str, has_prefix};
use crate::model::error::opt_view;
use crate::table::{keys_of, distinct, lookup, find_key, table_set};
use crate::state::AgentInstanceState;
use crate::decimal::{decimal, parse_u64_spec, parse_u64, u64_to_decimal, lemma_decimal_parse_roundtrip, lemma_decimal_digits, all_digits, is_digit};
use crate::crypto::{hmac_sha256_tag, b64url_text, b64url_bytes, utf8, is_b64url_char, hmac_sha256, hmac_sha256_verify,
    b64url_encode, b64url_decode, random_u64, system_now, format_rfc3339, rfc3339_text, is_uuid_v4_text,
    MAX_TIMESTAMP_SECS, new_uuid_v4};

verus! {

/// Lifetime of a legacy token: thirty days.
pub const TOKEN_LIFETIME_SECS: u64 = 2592000;

/// First index from `from` on holding `c`.
pub open spec fn index_of_from(s: Seq<char>, c: char, from: int) -> Option<int>
    decreases s.len() - from,
{
    if from < 0 || from >= s.len() {
        None
    } else if s[from] == c {
        Some(from)
    } else {
        index_of_from(s, c, from + 1)
    }
}

/// `s.splitn(3, ':')` when it yields three parts.
pub open spec fn split3(s: Seq<char>) -> Option<(Seq<char>, Seq<char>, Seq<char>)> {
    match index_of_from(s, ':', 0) {
        Some(i) => match index_of_from(s, ':', i + 1) {
            Some(j) => Some((s.subrange(0, i), s.subrange(i + 1, j), s.subrange(j + 1, s.len() as int))),
            None => None,
        },
        None => None,
    }
}

/// `s.splitn(2, '.')` when it yields two parts.
pub open spec fn split2_dot(s: Seq<char>) -> Option<(Seq<char>, Seq<char>)> {
    match index_of_from(s, '.', 0) {
        Some(i) => Some((s.subrange(0, i), s.subrange(i + 1, s.len() as int))),
        None => None,
    }
}

/// `now - ts`, saturating at zero.
pub open spec fn sat_sub(now: u64, ts: u64) -> nat {
    if now >= ts { (now - ts) as nat } else { 0 }
}

/// Legacy token `"{ts}:{nonce}:{sig}"` where `sig` is the URL-safe base64 of
/// the HMAC-SHA256 of `"{ts}:{nonce}"` under the server secret.
pub open spec fn legacy_token(secret: Seq<u8>, ts: u64, nonce: u64) -> Seq<char> {
    let payload = decimal(ts as nat) + ":"@ + decimal(nonce as nat);
    payload + ":"@ + b64url_text(hmac_sha256_tag(secret, utf8(payload)))
}

/// A legacy token is valid at `now` when it has three `:`-separated parts,
/// its timestamp parses and is at most thirty days old, and its signature
/// decodes to the HMAC of the first two parts.
pub open spec fn legacy_valid(token: Seq<char>, secret: Seq<u8>, now: u64) -> bool {
    match split3(token) {
        Some((a, b, c)) => match parse_u64_spec(a) {
            Some(ts) => sat_sub(now, ts) <= TOKEN_LIFETIME_SECS && match b64url_bytes(utf8(c)) {
                Some(sig) => sig == hmac_sha256_tag(secret, utf8(a + ":"@ + b)),
                None => false,
            },
            None => false,
        },
        None => false,
    }
}

pub(crate) fn find_char_from(cs: &Vec<char>, c: char, from: usize) -> (r: Option<usize>)
    requires
        from <= cs@.len(),
    ensures
        match r {
            Some(i) => index_of_from(cs@, c, from as int) == Some(i as int) && from <= i < cs@.len(),
            None => index_of_from(cs@, c, from as int) is None,
        },
{
    let mut i = from;
    while i < cs.len()
        invariant
            from <= i <= cs@.len(),
            index_of_from(cs@, c, from as int) == index_of_from(cs@, c, i as int),
        decreases cs@.len() - i,
    {
        if cs[i] == c {
            return Some(i);
        }
        i = i + 1;
    }
    None
}

pub(crate) fn sub_string(cs: &Vec<char>, from: usize, to: usize) -> (r: String)
    requires
        from <= to <= cs@.len(),
    ensures
        r@ == cs@.subrange(from as int, to as int),
{
    let mut out: Vec<char> = Vec::new();
    let mut i = from;
    while i < to
        invariant
            from <= i <= to,
            to <= cs@.len(),
            out@ == cs@.subrange(from as int, i as int),
        decreases to - i,
    {
        out.push(cs[i]);
        i = i + 1;
    }
    string_from_chars(&out)
}

/// `s.splitn(3, ':')` when it yields three parts.
pub fn split_three(s: &str) -> (r: Option<(String, String, String)>)
    ensures
        match r {
            Some((a, b, c)) => split3(s@) == Some((a@, b@, c@)),
            None => split3(s@) is None,
        },
{
    let cs = chars_of(s);
    let i = match find_char_from(&cs, ':', 0) {
        Some(i) => i,
        None => return None,
    };
    let j = match find_char_from(&cs, ':', i + 1) {
        Some(j) => j,
        None => return None,
    };
    Some((sub_string(&cs, 0, i), sub_string(&cs, i + 1, j), sub_string(&cs, j + 1, cs.len())))
}

/// `s.splitn(2, '.')` when it yields two parts.
pub fn split_two_dot(s: &str) -> (r: Option<(String, String)>)
    ensures
        match r {
            Some((a, b)) => split2_dot(s@) == Some((a@, b@)),
            None => split2_dot(s@) is None,
        },
{
    let cs = chars_of(s);
    let i = match find_char_from(&cs, '.', 0) {
        Some(i) => i,
        None => return None,
    };
    let n = cs.len();
    let rest = i + 1;
    Some((sub_string(&cs, 0, i), sub_string(&cs, rest, n)))
}

/// The legacy token for a timestamp and nonce.
pub fn generate_token_at(secret: &[u8], ts: u64, nonce: u64) -> (r: String)
    ensures
        r@ == legacy_token(secret@, ts, nonce),
        forall|now: u64| now <= ts + TOKEN_LIFETIME_SECS ==> legacy_valid(r@, secret@, now),
{
    let a = u64_to_decimal(ts);
    let b = u64_to_decimal(nonce);
    let p0 = concat(a.as_str(), ":");
    let payload = concat(p0.as_str(), b.as_str());
    let tag = hmac_sha256(secret, payload.as_str().as_bytes());
    let sig = b64url_encode(tag.as_slice());
    let t0 = concat(payload.as_str(), ":");
    let r = concat(t0.as_str(), sig.as_str());
    proof {
        assert(payload@ == decimal(ts as nat) + ":"@ + decimal(nonce as nat));
        assert forall|now: u64| now <= ts + TOKEN_LIFETIME_SECS implies legacy_valid(r@, secret@, now) by {
            lemma_legacy_token_valid(secret@, ts, nonce, now);
        }
    }
    r
}

/// A fresh legacy token: the current time, a random nonce, signed with `secret`.
pub fn generate_token(secret: &[u8]) -> (r: String)
    ensures
        exists|ts: u64, nonce: u64| r@ == legacy_token(secret@, ts, nonce)
            && forall|now: u64| now <= ts + TOKEN_LIFETIME_SECS ==> legacy_valid(r@, secret@, now),
{
    let now = system_now().0;
    let nonce = random_u64();
    generate_token_at(secret, now, nonce)
}

/// A fresh legacy bearer token.
pub fn token_only(secret: &[u8]) -> (r: String)
    ensures
        exists|ts: u64, nonce: u64| r@ == legacy_token(secret@, ts, nonce)
            && forall|now: u64| now <= ts + TOKEN_LIFETIME_SECS ==> legacy_valid(r@, secret@, now),
{
    generate_token(secret)
}

/// Validity of a legacy token at time `now`.
pub fn validate_legacy_token_at(token: &str, secret: &[u8], now: u64) -> (r: bool)
    ensures
        r == legacy_valid(token@, secret@, now),
{
    let (a, b, c) = match split_three(token) {
        Some(parts) => parts,
        None => return false,
    };
    let ts = match parse_u64(a.as_str()) {
        Some(ts) => ts,
        None => return false,
    };
    let age: u64 = if now >= ts { now - ts } else { 0 };
    if age > TOKEN_LIFETIME_SECS {
        return false;
    }
    let p0 = concat(a.as_str(), ":");
    let payload = concat(p0.as_str(), b.as_str());
    let sig = match b64url_decode(c.as_str().as_bytes()) {
        Some(sig) => sig,
        None => return false,
    };
    hmac_sha256_verify(secret, payload.as_str().as_bytes(), sig.as_slice())
}

/// Validity of a legacy token by the system clock.
pub fn validate_legacy_token(token: &str, secret: &[u8]) -> (r: bool)
    ensures
        exists|now: u64| r == legacy_valid(token@, secret@, now),
{
    let now = system_now().0;
    validate_legacy_token_at(token, secret, now)
}

proof fn lemma_index_skip(s: Seq<char>, c: char, from: int, to: int)
    requires
        0 <= from <= to <= s.len(),
        forall|k: int| from <= k < to ==> s[k] != c,
    ensures
        index_of_from(s, c, from) == index_of_from(s, c, to),
    decreases to - from,
{
    if from < to {
        lemma_index_skip(s, c, from + 1, to);
    }
}

/// The token made from a timestamp and nonce is valid up to thirty days after
/// that timestamp, given that its signature text decodes back to the tag.
proof fn lemma_legacy_token_valid(secret: Seq<u8>, ts: u64, nonce: u64, now: u64)
    requires
        now <= ts + TOKEN_LIFETIME_SECS,
        b64url_bytes(utf8(b64url_text(hmac_sha256_tag(secret, utf8(decimal(ts as nat) + ":"@ + decimal(nonce as nat))))))
            == Some(hmac_sha256_tag(secret, utf8(decimal(ts as nat) + ":"@ + decimal(nonce as nat)))),
    ensures
        legacy_valid(legacy_token(secret, ts, nonce), secret, now),
{
    let da = decimal(ts as nat);
    let db = decimal(nonce as nat);
    let payload = da + ":"@ + db;
    let tag = hmac_sha256_tag(secret, utf8(payload));
    let sig = b64url_text(tag);
    let tok = payload + ":"@ + sig;
    assert(tok == legacy_token(secret, ts, nonce));
    lemma_decimal_digits(ts as nat);
    lemma_decimal_digits(nonce as nat);
    lemma_decimal_parse_roundtrip(ts);
    reveal_strlit(":");
    assert(":"@ =~= seq![':']);
    let i = da.len() as int;
    let j = (da.len() + 1 + db.len()) as int;
    assert forall|k: int| 0 <= k < i implies tok[k] != ':' by {
        assert(tok[k] == da[k]);
        assert(is_digit(da[k]));
    }
    lemma_index_skip(tok, ':', 0, i);
    assert(tok[i] == ':');
    assert forall|k: int| i + 1 <= k < j implies tok[k] != ':' by {
        assert(tok[k] == db[k - i - 1]);
        assert(is_digit(db[k - i - 1]));
    }
    lemma_index_skip(tok, ':', i + 1, j);
    assert(tok[j] == ':');
    assert(index_of_from(tok, ':', 0) == Some(i));
    assert(index_of_from(tok, ':', i + 1) == Some(j));
    assert(tok.subrange(0, i) =~= da);
    assert(tok.subrange(i + 1, j) =~= db);
    assert(tok.subrange(j + 1, tok.len() as int) =~= sig);
    assert(da + ":"@ + db == payload);
}


/// Bearer text of a scoped token: `base64url(json).base64url(hmac)`, the
/// signature taken over the encoded payload.
pub open spec fn scoped_frame(json: Seq<char>, secret: Seq<u8>) -> Seq<char> {
    let p = b64url_text(utf8(json));
    p + "."@ + b64url_text(hmac_sha256_tag(secret, utf8(p)))
}

/// Payload bytes of a scoped bearer text whose signature checks out.
pub open spec fn scoped_payload_of(token: Seq<char>, secret: Seq<u8>) -> Option<Seq<u8>> {
    match split2_dot(token) {
        Some((a, b)) => match b64url_bytes(utf8(b)) {
            Some(sig) => if sig == hmac_sha256_tag(secret, utf8(a)) { b64url_bytes(utf8(a)) } else { None },
            None => None,
        },
        None => None,
    }
}

/// Sign a serialized scoped token.
pub fn encode_scoped_token_frame(json: &str, secret: &[u8]) -> (r: String)
    requires
        utf8(json@).len() <= usize::MAX / 2,
    ensures
        r@ == scoped_frame(json@, secret@),
        scoped_payload_of(r@, secret@) == Some(utf8(json@)),
{
    let payload = b64url_encode(json.as_bytes());
    let tag = hmac_sha256(secret, payload.as_str().as_bytes());
    let sig = b64url_encode(tag.as_slice());
    let a = concat(payload.as_str(), ".");
    let r = concat(a.as_str(), sig.as_str());
    proof {
        reveal_strlit(".");
        let p = payload@;
        assert("."@ =~= seq!['.']);
        assert forall|k: int| 0 <= k < p.len() implies r@[k] != '.' by {
            assert(r@[k] == p[k]);
            assert(is_b64url_char(p[k]));
        }
        lemma_index_skip(r@, '.', 0, p.len() as int);
        assert(r@[p.len() as int] == '.');
        assert(r@.subrange(0, p.len() as int) =~= p);
        assert(r@.subrange(p.len() as int + 1, r@.len() as int) =~= sig@);
    }
    r
}

/// The payload bytes of a scoped bearer text whose signature checks out.
pub fn scoped_token_payload(token: &str, secret: &[u8]) -> (r: Option<Vec<u8>>)
    ensures
        match r {
            Some(v) => scoped_payload_of(token@, secret@) == Some(v@),
            None => scoped_payload_of(token@, secret@) is None,
        },
{
    let (a, b) = match split_two_dot(token) {
        Some(parts) => parts,
        None => return None,
    };
    let sig = match b64url_decode(b.as_str().as_bytes()) {
        Some(sig) => sig,
        None => return None,
    };
    if !hmac_sha256_verify(secret, a.as_str().as_bytes(), sig.as_slice()) {
        return None;
    }
    b64url_decode(a.as_str().as_bytes())
}

/// View of an optional string slice.
pub open spec fn opt_str(o: Option<&str>) -> Option<Seq<char>> {
    match o {
        Some(s) => Some(s@),
        None => None,
    }
}

/// `a` is strictly earlier than `b` (seconds, then nanoseconds).
pub open spec fn instant_before(a: (i64, u32), b: (i64, u32)) -> bool {
    a.0 < b.0 || (a.0 == b.0 && a.1 < b.1)
}

/// A token whose `expires_at` parses and lies before `now` has expired; an
/// absent or unparsable expiry never expires.
pub open spec fn expired_at(expires_at: Option<Seq<char>>, now: (i64, u32)) -> bool {
    match expires_at {
        Some(s) => match crate::crypto::rfc3339_instant(s) {
            Some(e) => instant_before(e, now),
            None => false,
        },
        None => false,
    }
}

/// Expiry check against a given instant.
pub fn is_expired_at(expires_at: Option<&str>, now: (i64, u32)) -> (r: bool)
    ensures
        r == expired_at(opt_str(expires_at), now),
{
    match expires_at {
        Some(s) => match crate::crypto::parse_rfc3339(s) {
            Some(e) => e.0 < now.0 || (e.0 == now.0 && e.1 < now.1),
            None => false,
        },
        None => false,
    }
}

/// Expiry check against the clock.
pub fn is_expired(expires_at: Option<&str>) -> (r: bool)
    ensures
        exists|now: (i64, u32)| r == #[trigger] expired_at(opt_str(expires_at), now),
{
    let (secs, nanos) = system_now();
    let s: i64 = if secs > i64::MAX as u64 { i64::MAX } else { secs as i64 };
    is_expired_at(expires_at, (s, nanos))
}


/// Project scope for a token.
#[derive(Debug, PartialEq, Eq)]
pub enum TokenScope {
    /// `"*"` — all projects
    Global,
    /// Specific project names
    Projects(Vec<String>),
}

/// Model of a scope.
pub enum ScopeView {
    Global,
    Projects(Seq<Seq<char>>),
}

impl View for TokenScope {
    type V = ScopeView;

    open spec fn view(&self) -> ScopeView {
        match self {
            TokenScope::Global => ScopeView::Global,
            TokenScope::Projects(v) => ScopeView::Projects(str_views(v@)),
        }
    }
}

/// Permission level. Admin > Project > Session.
#[derive(Debug, Clone, Copy, PartialEq, Eq, Structural)]
pub enum Permission {
    Session,
    Project,
    Admin,
}

pub open spec fn rank(p: Permission) -> nat {
    match p {
        Permission::Session => 0,
        Permission::Project => 1,
        Permission::Admin => 2,
    }
}

impl Permission {
    /// Numeric rank for comparison (higher = more permissive).
    pub fn rank(&self) -> (r: u8)
        ensures
            r as nat == rank(*self),
    {
        match self {
            Permission::Session => 0,
            Permission::Project => 1,
            Permission::Admin => 2,
        }
    }

    /// Debug name of the level.
    pub fn debug_name(&self) -> (r: &'static str)
        ensures
            r@ == match *self {
                Permission::Session => "Session"@,
                Permission::Project => "Project"@,
                Permission::Admin => "Admin"@,
            },
    {
        match self {
            Permission::Session => "Session",
            Permission::Project => "Project",
            Permission::Admin => "Admin",
        }
    }
}

pub open spec fn scope_includes(s: ScopeView, project: Seq<char>) -> bool {
    match s {
        ScopeView::Global => true,
        ScopeView::Projects(ps) => in_names(ps, project),
    }
}

pub open spec fn allows(have: Permission, need: Permission) -> bool {
    rank(have) >= rank(need)
}

/// `child` names no project outside `parent`, and is global only under a global parent.
pub open spec fn scope_subset(child: ScopeView, parent: ScopeView) -> bool {
    match parent {
        ScopeView::Global => true,
        ScopeView::Projects(pp) => match child {
            ScopeView::Global => false,
            ScopeView::Projects(cp) => forall|i: int| 0 <= i < cp.len() ==> in_names(pp, #[trigger] cp[i]),
        },
    }
}

/// Returns true if `scope` includes the given project.
pub fn scope_includes_project(scope: &TokenScope, project: &str) -> (r: bool)
    ensures
        r == scope_includes(scope@, project@),
{
    match scope {
        TokenScope::Global => true,
        TokenScope::Projects(projects) => contains_str(projects, project),
    }
}

/// Returns true if `token_perm` >= `required` (admin > project > session).
pub fn permission_allows(token_perm: &Permission, required: &Permission) -> (r: bool)
    ensures
        r == allows(*token_perm, *required),
{
    token_perm.rank() >= required.rank()
}

/// Check if `child` is a subset of `parent`.
pub fn scope_is_subset(child: &TokenScope, parent: &TokenScope) -> (r: bool)
    ensures
        r == scope_subset(child@, parent@),
{
    match parent {
        TokenScope::Global => true,
        TokenScope::Projects(parent_projects) => match child {
            TokenScope::Global => false,
            TokenScope::Projects(child_projects) => {
                let ghost pp = str_views(parent_projects@);
                let ghost cp = str_views(child_projects@);
                let mut i: usize = 0;
                while i < child_projects.len()
                    invariant
                        i <= child_projects@.len(),
                        pp == str_views(parent_projects@),
                        cp == str_views(child_projects@),
                        child@ == ScopeView::Projects(cp),
                        parent@ == ScopeView::Projects(pp),
                        forall|k: int| 0 <= k < i ==> in_names(pp, #[trigger] cp[k]),
                    decreases child_projects@.len() - i,
                {
                    assert(cp[i as int] == child_projects@[i as int]@);
                    if !contains_str(parent_projects, child_projects[i].as_str()) {
                        proof { lemma_subset_witness(cp, pp, i as int); }
                        return false;
                    }
                    i = i + 1;
                }
                true
            },
        },
    }
}

proof fn lemma_subset_witness(cp: Seq<Seq<char>>, pp: Seq<Seq<char>>, i: int)
    requires
        0 <= i < cp.len(),
        !in_names(pp, cp[i]),
    ensures
        !scope_subset(ScopeView::Projects(cp), ScopeView::Projects(pp)),
{
    let c = ScopeView::Projects(cp);
    let p = ScopeView::Projects(pp);
    if scope_subset(c, p) {
        assert(in_names(p->0, c->0[i]));
    }
}

/// Narrowing is a preorder on scopes: every scope narrows itself, and a
/// narrowing of a narrowing narrows the original.
pub proof fn law_scope_subset_preorder(a: ScopeView, b: ScopeView, c: ScopeView)
    ensures
        scope_subset(a, a),
        scope_subset(a, b) && scope_subset(b, c) ==> scope_subset(a, c),
{
    if let ScopeView::Projects(ap) = a {
        assert forall|i: int| 0 <= i < ap.len() implies in_names(ap, #[trigger] ap[i]) by {
            assert(ap[i] == ap[i]);
        }
    }
    if scope_subset(a, b) && scope_subset(b, c) {
        if let (ScopeView::Projects(ap), ScopeView::Projects(bp), ScopeView::Projects(cp)) = (a, b, c) {
            assert forall|i: int| 0 <= i < ap.len() implies in_names(cp, #[trigger] ap[i]) by {
                assert(in_names(bp, ap[i]));
                let j = choose|j: int| 0 <= j < bp.len() && bp[j] == ap[i];
                assert(in_names(cp, bp[j]));
            }
        }
    }
}

/// A narrower scope never reaches a project its parent does not.
pub proof fn law_subset_scope_includes(child: ScopeView, parent: ScopeView, project: Seq<char>)
    requires
        scope_subset(child, parent),
        scope_includes(child, project),
    ensures
        scope_includes(parent, project),
{
    if let (ScopeView::Projects(cp), ScopeView::Projects(pp)) = (child, parent) {
        let i = choose|i: int| 0 <= i < cp.len() && cp[i] == project;
        assert(in_names(pp, cp[i]));
    }
}

/// Permission order: every level allows itself, allowance composes, and any
/// two levels are comparable.
pub proof fn law_permission_order(a: Permission, b: Permission, c: Permission)
    ensures
        allows(a, a),
        allows(a, b) && allows(b, c) ==> allows(a, c),
        allows(a, b) || allows(b, a),
        allows(a, b) && allows(b, a) ==> a == b,
{
}


/// Copy of a list of strings.
fn clone_strings(v: &Vec<String>) -> (r: Vec<String>)
    ensures
        r@ == v@,
{
    let mut out: Vec<String> = Vec::new();
    let mut i: usize = 0;
    while i < v.len()
        invariant
            i <= v@.len(),
            out@ == v@.subrange(0, i as int),
        decreases v@.len() - i,
    {
        out.push(v[i].clone());
        i = i + 1;
    }
    out
}

impl Clone for TokenScope {
    fn clone(&self) -> (r: Self)
        ensures
            r@ == self@,
    {
        match self {
            TokenScope::Global => TokenScope::Global,
            TokenScope::Projects(v) => TokenScope::Projects(clone_strings(v)),
        }
    }
}

/// A scoped ARP token.
#[derive(Debug)]
pub struct ScopedToken {
    pub id: String,
    pub subject: String,
    pub scope: TokenScope,
    pub permission: Permission,
    pub session_id: Option<String>,
    pub issued_at: String,
    pub expires_at: Option<String>,
    pub parent_token_id: Option<String>,
}

/// Model of a scoped token.
pub struct TokenView {
    pub id: Seq<char>,
    pub subject: Seq<char>,
    pub scope: ScopeView,
    pub permission: Permission,
    pub session_id: Option<Seq<char>>,
    pub issued_at: Seq<char>,
    pub expires_at: Option<Seq<char>>,
    pub parent_token_id: Option<Seq<char>>,
}

impl View for ScopedToken {
    type V = TokenView;

    open spec fn view(&self) -> TokenView {
        TokenView {
            id: self.id@,
            subject: self.subject@,
            scope: self.scope@,
            permission: self.permission,
            session_id: opt_view(self.session_id),
            issued_at: self.issued_at@,
            expires_at: opt_view(self.expires_at),
            parent_token_id: opt_view(self.parent_token_id),
        }
    }
}

impl Clone for ScopedToken {
    fn clone(&self) -> (r: Self)
        ensures
            r@ == self@,
    {
        ScopedToken {
            id: self.id.clone(),
            subject: self.subject.clone(),
            scope: self.scope.clone(),
            permission: self.permission,
            session_id: self.session_id.clone(),
            issued_at: self.issued_at.clone(),
            expires_at: self.expires_at.clone(),
            parent_token_id: self.parent_token_id.clone(),
        }
    }
}

/// Issued tokens, keyed by id.
pub struct TokenStore {
    entries: Vec<(String, ScopedToken)>,
}

impl TokenStore {
    /// Ids are distinct and each entry sits under its token's id.
    pub closed spec fn wf(&self) -> bool {
        &&& distinct(keys_of(self.entries@))
        &&& forall|i: int| 0 <= i < self.entries@.len() ==> #[trigger] self.entries@[i].0@ == self.entries@[i].1.id@
    }

    /// The token stored under `id`.
    pub closed spec fn stored(&self, id: Seq<char>) -> Option<TokenView> {
        match lookup(self.entries@, id) {
            Some(t) => Some(t@),
            None => None,
        }
    }

    /// An empty store.
    pub fn new() -> (r: Self)
        ensures
            r.wf(),
            forall|id: Seq<char>| r.stored(id) is None,
    {
        TokenStore { entries: Vec::new() }
    }

    /// Store `t` under its id, replacing any token with that id.
    pub fn insert(&mut self, t: ScopedToken)
        requires
            old(self).wf(),
        ensures
            final(self).wf(),
            final(self).stored(t.id@) == Some(t@),
            forall|id: Seq<char>| id != t.id@ ==> final(self).stored(id) == old(self).stored(id),
    {
        let ghost tv = t@;
        let ghost old_entries = self.entries@;
        let key = t.id.clone();
        table_set(&mut self.entries, key, t);
        proof {
            let e = self.entries@;
            assert forall|i: int| 0 <= i < e.len() implies #[trigger] e[i].0@ == e[i].1.id@ by {
                crate::table::lemma_lookup_distinct(e, e[i].0@);
                if e[i].0@ != tv.id {
                    crate::table::lemma_lookup_distinct(old_entries, e[i].0@);
                    let j = choose|j: int| 0 <= j < old_entries.len() && old_entries[j].0@ == e[i].0@;
                    assert(old_entries[j].0@ == old_entries[j].1.id@);
                }
            }
        }
    }

    /// Set the session id of the token stored under `id`, if there is one.
    fn set_session(&mut self, id: &str, sid: &String)
        requires
            old(self).wf(),
        ensures
            final(self).wf(),
            match old(self).stored(id@) {
                Some(t) => final(self).stored(id@) == Some(TokenView { session_id: Some(sid@), ..t }),
                None => final(self).stored(id@) is None,
            },
            forall|k: Seq<char>| k != id@ ==> final(self).stored(k) == old(self).stored(k),
    {
        match find_key(&self.entries, id) {
            Some(i) => {
                proof {
                    crate::table::lemma_key_pos(keys_of(self.entries@), id@);
                    crate::table::lemma_lookup_distinct(self.entries@, id@);
                }
                let mut t = self.entries[i].1.clone();
                t.session_id = Some(sid.clone());
                self.insert(t);
            },
            None => {},
        }
    }
}

/// A reading of the clock as this crate uses it: seconds since the epoch,
/// no later than the last formattable second, and the nanoseconds of the
/// second.
pub open spec fn clock_reading(now: (u64, u32)) -> bool {
    now.0 <= MAX_TIMESTAMP_SECS && now.1 < 1_000_000_000
}

/// The second `secs` seconds after `now`, held at the last formattable
/// second.
pub open spec fn expiry_secs(now: u64, secs: u64) -> u64 {
    if now + secs > MAX_TIMESTAMP_SECS { MAX_TIMESTAMP_SECS } else { (now + secs) as u64 }
}

/// The clock, read once; a reading past the last formattable second is held
/// there.
fn clock_now() -> (r: (u64, u32))
    ensures
        clock_reading(r),
{
    let (secs, nanos) = system_now();
    if secs > MAX_TIMESTAMP_SECS { (MAX_TIMESTAMP_SECS, nanos) } else { (secs, nanos) }
}

/// The second `secs` seconds after `now`.
pub fn expiry_at(now: u64, secs: u64) -> (r: u64)
    requires
        now <= MAX_TIMESTAMP_SECS,
    ensures
        r == expiry_secs(now, secs),
        r <= MAX_TIMESTAMP_SECS,
{
    if secs > MAX_TIMESTAMP_SECS - now { MAX_TIMESTAMP_SECS } else { now + secs }
}

/// The current time as RFC 3339 text.
pub fn now_rfc3339() -> (r: String)
    ensures
        exists|now: (u64, u32)| #[trigger] clock_reading(now) && r@ == rfc3339_text(now.0, now.1),
{
    let now = clock_now();
    format_rfc3339(now.0, now.1)
}

/// Create a scoped token and record it in `store`.
pub fn create_scoped_token(
    store: &mut TokenStore,
    subject: &str,
    scope: TokenScope,
    permission: Permission,
    expires_in: Option<u64>,
) -> (r: ScopedToken)
    requires
        old(store).wf(),
    ensures
        r.subject@ == subject@,
        r.scope@ == scope@,
        r.permission == permission,
        r.session_id is None,
        r.parent_token_id is None,
        is_uuid_v4_text(r.id@),
        exists|now: (u64, u32)| #[trigger] clock_reading(now)
            && r.issued_at@ == rfc3339_text(now.0, now.1)
            && opt_view(r.expires_at) == match expires_in {
                Some(secs) => Some(rfc3339_text(expiry_secs(now.0, secs), now.1)),
                None => None,
            },
        final(store).wf(),
        final(store).stored(r.id@) == Some(r@),
        forall|id: Seq<char>| id != r.id@ ==> final(store).stored(id) == old(store).stored(id),
{
    let now = clock_now();
    let issued_at = format_rfc3339(now.0, now.1);
    let expires_at = match expires_in {
        Some(secs) => Some(format_rfc3339(expiry_at(now.0, secs), now.1)),
        None => None,
    };
    let token = ScopedToken {
        id: new_uuid_v4(),
        subject: owned(subject),
        scope,
        permission,
        session_id: None,
        issued_at,
        expires_at,
        parent_token_id: None,
    };
    store.insert(token.clone());
    token
}

/// Error text for a child permission above its parent's.
pub open spec fn child_permission_error(child: Permission, parent: Permission) -> Seq<char> {
    "child permission "@ + permission_name(child) + " exceeds parent "@ + permission_name(parent)
}

pub open spec fn permission_name(p: Permission) -> Seq<char> {
    match p {
        Permission::Session => "Session"@,
        Permission::Project => "Project"@,
        Permission::Admin => "Admin"@,
    }
}

/// Scope and permission a child token takes: the requested ones, or the
/// parent's where none is requested.
pub open spec fn child_grant(parent: TokenView, scope: Option<ScopeView>, permission: Option<Permission>) -> (ScopeView, Permission) {
    (
        match scope { Some(s) => s, None => parent.scope },
        match permission { Some(p) => p, None => parent.permission },
    )
}

/// Outcome of a child-token request: the grant, or why it is refused.
pub open spec fn child_check(parent: TokenView, scope: Option<ScopeView>, permission: Option<Permission>) -> Result<(ScopeView, Permission), Seq<char>> {
    let (cs, cp) = child_grant(parent, scope, permission);
    if rank(cp) > rank(parent.permission) {
        Err(child_permission_error(cp, parent.permission))
    } else if !scope_subset(cs, parent.scope) {
        Err("child scope exceeds parent scope"@)
    } else {
        Ok((cs, cp))
    }
}

pub open spec fn opt_scope_view(s: Option<TokenScope>) -> Option<ScopeView> {
    match s {
        Some(x) => Some(x@),
        None => None,
    }
}

/// Decide a child-token request: it may narrow scope and permission, never widen them.
pub fn check_child_grant(parent: &ScopedToken, scope: Option<TokenScope>, permission: Option<Permission>)
    -> (r: Result<(TokenScope, Permission), String>)
    ensures
        match (r, child_check(parent@, opt_scope_view(scope), permission)) {
            (Ok((s, p)), Ok((vs, vp))) => s@ == vs && p == vp,
            (Err(e), Err(ve)) => e@ == ve,
            _ => false,
        },
{
    let child_scope = match scope {
        Some(s) => s,
        None => parent.scope.clone(),
    };
    let child_perm = match permission {
        Some(p) => p,
        None => parent.permission,
    };
    if child_perm.rank() > parent.permission.rank() {
        let a = concat("child permission ", child_perm.debug_name());
        let b = concat(a.as_str(), " exceeds parent ");
        let e = concat(b.as_str(), parent.permission.debug_name());
        return Err(e);
    }
    if !scope_is_subset(&child_scope, &parent.scope) {
        return Err(owned("child scope exceeds parent scope"));
    }
    Ok((child_scope, child_perm))
}

/// Create a child token that can only narrow scope and permission, and
/// record it in `store`. It keeps the parent's subject, session and expiry.
pub fn create_child_token(
    store: &mut TokenStore,
    parent: &ScopedToken,
    scope: Option<TokenScope>,
    permission: Option<Permission>,
) -> (r: Result<ScopedToken, String>)
    requires
        old(store).wf(),
    ensures
        final(store).wf(),
        match (r, child_check(parent@, opt_scope_view(scope), permission)) {
            (Ok(t), Ok((vs, vp))) => {
                &&& t.scope@ == vs
                &&& t.permission == vp
                &&& t.subject@ == parent.subject@
                &&& opt_view(t.session_id) == opt_view(parent.session_id)
                &&& opt_view(t.expires_at) == opt_view(parent.expires_at)
                &&& opt_view(t.parent_token_id) == Some(parent.id@)
                &&& is_uuid_v4_text(t.id@)
                &&& final(store).stored(t.id@) == Some(t@)
                &&& forall|id: Seq<char>| id != t.id@ ==> final(store).stored(id) == old(store).stored(id)
            },
            (Err(e), Err(ve)) => e@ == ve && forall|id: Seq<char>| final(store).stored(id) == old(store).stored(id),
            _ => false,
        },
{
    let (child_scope, child_perm) = match check_child_grant(parent, scope, permission) {
        Ok(g) => g,
        Err(e) => return Err(e),
    };
    let token = ScopedToken {
        id: new_uuid_v4(),
        subject: parent.subject.clone(),
        scope: child_scope,
        permission: child_perm,
        session_id: parent.session_id.clone(),
        issued_at: now_rfc3339(),
        expires_at: parent.expires_at.clone(),
        parent_token_id: Some(parent.id.clone()),
    };
    store.insert(token.clone());
    Ok(token)
}

/// A synthetic admin, global-scope token for localhost callers.
pub fn localhost_admin_token() -> (r: ScopedToken)
    ensures
        r.id@ == "localhost-admin"@,
        r.subject@ == "localhost"@,
        r.scope@ == ScopeView::Global,
        r.permission == Permission::Admin,
        r.session_id is None,
        r.expires_at is None,
        r.parent_token_id is None,
{
    ScopedToken {
        id: owned("localhost-admin"),
        subject: owned("localhost"),
        scope: TokenScope::Global,
        permission: Permission::Admin,
        session_id: None,
        issued_at: now_rfc3339(),
        expires_at: None,
        parent_token_id: None,
    }
}

/// Look up a token by id.
pub fn get_token_by_id(store: &TokenStore, id: &str) -> (r: Option<ScopedToken>)
    requires
        store.wf(),
    ensures
        match r {
            Some(t) => store.stored(id@) == Some(t@),
            None => store.stored(id@) is None,
        },
{
    match find_key(&store.entries, id) {
        Some(i) => {
            proof {
                crate::table::lemma_key_pos(keys_of(store.entries@), id@);
            }
            Some(store.entries[i].1.clone())
        },
        None => None,
    }
}

/// Session ids are `sess-` and the first eight characters of a fresh UUID.
pub open spec fn is_session_id(s: Seq<char>) -> bool {
    &&& s.len() == 13
    &&& has_prefix(s, "sess-"@)
    &&& forall|i: int| 5 <= i < 13 ==> crate::crypto::is_hex_lower(#[trigger] s[i])
}

/// The token's session id, creating one (and recording it in `store`) where
/// the token has none.
pub fn ensure_session(store: &mut TokenStore, token: &mut ScopedToken) -> (r: String)
    requires
        old(store).wf(),
    ensures
        final(store).wf(),
        match old(token).session_id {
            Some(s) => {
                &&& r@ == s@
                &&& final(token)@ == old(token)@
                &&& forall|id: Seq<char>| final(store).stored(id) == old(store).stored(id)
            },
            None => {
                &&& is_session_id(r@)
                &&& final(token)@ == (TokenView { session_id: Some(r@), ..old(token)@ })
                &&& match old(store).stored(old(token).id@) {
                    Some(t) => final(store).stored(old(token).id@) == Some(TokenView { session_id: Some(r@), ..t }),
                    None => final(store).stored(old(token).id@) is None,
                }
                &&& forall|id: Seq<char>| id != old(token).id@ ==> final(store).stored(id) == old(store).stored(id)
            },
        },
{
    match &token.session_id {
        Some(sid) => {
            return sid.clone();
        },
        None => {},
    }
    let uuid = new_uuid_v4();
    let cs = chars_of(uuid.as_str());
    let head = sub_string(&cs, 0, 8);
    let sid = concat("sess-", head.as_str());
    proof {
        reveal_strlit("sess-");
        assert(sid@.subrange(0, 5) =~= "sess-"@);
        assert forall|i: int| 5 <= i < 13 implies crate::crypto::is_hex_lower(#[trigger] sid@[i]) by {
            assert(sid@[i] == uuid@[i - 5]);
        }
    }
    token.session_id = Some(sid.clone());
    store.set_session(token.id.as_str(), &sid);
    sid
}

/// A session-permission token reaches only agents of its own session; other
/// tokens need no session match.
pub open spec fn session_match(token: TokenView, agent_session: Option<Seq<char>>) -> bool {
    match token.permission {
        Permission::Session => match (token.session_id, agent_session) {
            (Some(ts), Some(a)) => ts == a,
            _ => false,
        },
        _ => true,
    }
}

/// For session-scoped tokens, checks that the agent's session id matches.
pub fn session_matches(token: &ScopedToken, agent: &AgentInstanceState) -> (r: bool)
    ensures
        r == session_match(token@, opt_view(agent.session_id)),
{
    match token.permission {
        Permission::Session => match (&token.session_id, &agent.session_id) {
            (Some(ts), Some(a)) => str_eq(ts.as_str(), a.as_str()),
            _ => false,
        },
        _ => true,
    }
}

/// The credential of an `Authorization` header of the form `Bearer <token>`.
pub open spec fn bearer_of(header: Option<Seq<char>>) -> Option<Seq<char>> {
    match header {
        Some(h) => if has_prefix(h, "Bearer "@) { Some(h.subrange(7, h.len() as int)) } else { None },
        None => None,
    }
}

/// The credential of an `Authorization` header of the form `Bearer <token>`.
pub fn bearer_credential(header: Option<&str>) -> (r: Option<String>)
    ensures
        opt_view(r) == bearer_of(opt_str(header)),
{
    match header {
        Some(h) => {
            proof { reveal_strlit("Bearer "); }
            if crate::text::starts_with(h, "Bearer ") {
                Some(crate::text::suffix_from(h, 7))
            } else {
                None
            }
        },
        None => None,
    }
}

/// A decoded scoped token is accepted at `now` unless its expiry has passed.
pub fn admit_scoped_token(token: ScopedToken, now: (i64, u32)) -> (r: Option<ScopedToken>)
    ensures
        match r {
            Some(t) => t@ == token@ && !expired_at(opt_view(token.expires_at), now),
            None => expired_at(opt_view(token.expires_at), now),
        },
{
    let expired = match &token.expires_at {
        Some(e) => is_expired_at(Some(e.as_str()), now),
        None => is_expired_at(None, now),
    };
    if expired {
        None
    } else {
        Some(token)
    }
}

/// A child token never widens its parent: whatever a child request is granted
/// lies within the parent's scope and permission.
pub proof fn law_child_never_widens(parent: TokenView, scope: Option<ScopeView>, permission: Option<Permission>)
    ensures
        match child_check(parent, scope, permission) {
            Ok((s, p)) => scope_subset(s, parent.scope) && allows(parent.permission, p),
            Err(_) => true,
        },
{
}

/// A child request that names no scope and no permission inherits the
/// parent's exactly, and is always granted.
pub proof fn law_child_inherits(parent: TokenView)
    ensures
        child_check(parent, None, None) == Ok::<(ScopeView, Permission), Seq<char>>((parent.scope, parent.permission)),
{
    law_scope_subset_preorder(parent.scope, parent.scope, parent.scope);
}

/// Where the server's signing secret is kept: `~/.config/awesometree/server.key`.
pub fn secret_path(home: &str) -> (r: String)
    ensures
        r@ == crate::paths::join_path(crate::paths::join_path(home@, ".config/awesometree"@), "server.key"@),
{
    let d = crate::paths::path_join(home, ".config/awesometree");
    crate::paths::path_join(d.as_str(), "server.key")
}

/// A stored secret is used only when it is exactly 32 bytes long.
pub fn usable_secret(stored: Option<Vec<u8>>) -> (r: Option<Vec<u8>>)
    ensures
        match stored {
            Some(v) => if v@.len() == 32 { r == Some(v) } else { r is None },
            None => r is None,
        },
{
    match stored {
        Some(v) => if v.len() == 32 { Some(v) } else { None },
        None => None,
    }
}

/// A child request that names no permission gets exactly the parent's
/// permission, whatever scope it asks for, and is refused only for a scope
/// wider than the parent's; one that names no scope gets the parent's scope.
pub proof fn law_child_inherits_unnamed(parent: TokenView, scope: Option<ScopeView>, permission: Option<Permission>)
    ensures
        permission is None ==> match child_check(parent, scope, permission) {
            Ok((s, p)) => p == parent.permission,
            Err(_) => scope matches Some(sc) && !scope_subset(sc, parent.scope),
        },
        scope is None ==> match child_check(parent, scope, permission) {
            Ok((s, p)) => s == parent.scope,
            Err(_) => permission matches Some(pp) && rank(pp) > rank(parent.permission),
        },
{
    if scope is None {
        match parent.scope {
            ScopeView::Global => {},
            ScopeView::Projects(pp) => {
                assert forall|i: int| 0 <= i < pp.len() implies in_names(pp, #[trigger] pp[i]) by {
                    assert(0 <= i < pp.len() && pp[i] == pp[i]);
                }
            },
        }
    }
}

} // verus!
