//! What the command line prints and asks for, apart from talking to the host.
use vstd::prelude::*;
use crate::text::{concat, owned, string_from_chars};
use crate::model::lifecycle::state_name;
use crate::model::work_session::{WorkSessionView, RealizationOptions, DEFAULT_WORK_PROFILE_ID,
    CreateWorkSessionRequest, CreateWorkSessionResponse};
use crate::model::lifecycle::WorkSessionState;
use crate::model::runtime::WorkSessionRuntime;
use crate::text::{str_eq, starts_with, has_prefix};
use crate::model::error::opt_view;
use crate::model::work_profile::WorkProfile;
use crate::model::project::ProjectSummary;

verus! {

/// Realization flags of `work-session create`: headless turns off tags,
/// apps and the window manager.
pub open spec fn cli_realization(no_tag: bool, no_launch: bool, headless: bool) -> RealizationOptions {
    RealizationOptions {
        create_tag: !no_tag && !headless,
        launch_apps: !no_launch && !headless,
        headless,
        no_wm: headless,
    }
}

/// Realization options for the `work-session create` flags.
pub fn realization_from_flags(no_tag: bool, no_launch: bool, headless: bool) -> (r: RealizationOptions)
    ensures
        r == cli_realization(no_tag, no_launch, headless),
{
    RealizationOptions {
        create_tag: !no_tag && !headless,
        launch_apps: !no_launch && !headless,
        headless,
        no_wm: headless,
    }
}

pub open spec fn or_dash(o: Option<Seq<char>>) -> Seq<char> {
    match o {
        Some(s) => s,
        None => "-"@,
    }
}

/// One line of `work-session list`: id, state, project, profile and directory, tab-separated.
pub open spec fn list_row_text(v: WorkSessionView) -> Seq<char> {
    v.work_session.work_session_id@ + "\t"@ + state_name(v.work_session.state)
        + "\t"@ + or_dash(opt_view(v.work_session.project_id))
        + "\t"@ + match opt_view(v.work_session.work_profile_id) { Some(p) => p, None => DEFAULT_WORK_PROFILE_ID@ }
        + "\t"@ + match v.runtime {
            Some(rt) => match rt.workspace { Some(w) => w.path@, None => "-"@ },
            None => "-"@,
        }
}

/// One line of `work-session list`.
pub fn list_row(v: &WorkSessionView) -> (r: String)
    ensures
        r@ == list_row_text(*v),
{
    let ws = &v.work_session;
    let a = concat(ws.work_session_id.as_str(), "\t");
    let b = concat(a.as_str(), ws.state.as_str());
    let c = concat(b.as_str(), "\t");
    let d = match &ws.project_id {
        Some(p) => concat(c.as_str(), p.as_str()),
        None => concat(c.as_str(), "-"),
    };
    let e = concat(d.as_str(), "\t");
    let f = match &ws.work_profile_id {
        Some(p) => concat(e.as_str(), p.as_str()),
        None => concat(e.as_str(), DEFAULT_WORK_PROFILE_ID),
    };
    let g = concat(f.as_str(), "\t");
    match &v.runtime {
        Some(rt) => match &rt.workspace {
            Some(w) => concat(g.as_str(), w.path.as_str()),
            None => concat(g.as_str(), "-"),
        },
        None => concat(g.as_str(), "-"),
    }
}

/// `id -> state` after a transition.
pub fn transition_line(v: &WorkSessionView) -> (r: String)
    ensures
        r@ == v.work_session.work_session_id@ + " -> "@ + state_name(v.work_session.state),
{
    let a = concat(v.work_session.work_session_id.as_str(), " -> ");
    concat(a.as_str(), v.work_session.state.as_str())
}

/// One line of `work-profiles`: id, ` *` for the default profile, a tab and the label.
pub fn work_profile_row(p: &WorkProfile) -> (r: String)
    ensures
        r@ == p.work_profile_id@ + (if p.work_profile_id@ == DEFAULT_WORK_PROFILE_ID@ { " *"@ } else { ""@ }) + "\t"@
            + match opt_view(p.display_name) {
                Some(d) => if d.len() > 0 { d } else { p.work_profile_id@ },
                None => p.work_profile_id@,
            },
{
    proof { reveal_strlit(""); }
    let marker = if crate::text::str_eq(p.work_profile_id.as_str(), DEFAULT_WORK_PROFILE_ID) { " *" } else { "" };
    let a = concat(p.work_profile_id.as_str(), marker);
    let b = concat(a.as_str(), "\t");
    concat(b.as_str(), p.display())
}

/// One line of `project list`: id, title and description, tab-separated.
pub fn project_row(p: &ProjectSummary) -> (r: String)
    ensures
        r@ == p.project_id@ + "\t"@ + p.title@ + "\t"@ + match opt_view(p.description) { Some(d) => d, None => Seq::empty() },
{
    let a = concat(p.project_id.as_str(), "\t");
    let b = concat(a.as_str(), p.title.as_str());
    let c = concat(b.as_str(), "\t");
    match &p.description {
        Some(d) => concat(c.as_str(), d.as_str()),
        None => c,
    }
}

/// Line printed after `project create`.
pub fn created_project_line(p: &ProjectSummary) -> (r: String)
    ensures
        r@ == "created project "@ + p.project_id@ + " revision="@ + or_dash(opt_view(p.revision)),
{
    let a = concat("created project ", p.project_id.as_str());
    let b = concat(a.as_str(), " revision=");
    match &p.revision {
        Some(r) => concat(b.as_str(), r.as_str()),
        None => concat(b.as_str(), "-"),
    }
}

/// The request of `work-session create`.
pub fn create_request(
    work_session_id: String,
    project: String,
    work_profile: Option<String>,
    display_name: Option<String>,
    no_tag: bool,
    no_launch: bool,
    headless: bool,
) -> (r: CreateWorkSessionRequest)
    ensures
        r.work_session_id == work_session_id,
        r.project_id == project,
        r.work_profile_id == work_profile,
        r.display_name == display_name,
        r.realization == cli_realization(no_tag, no_launch, headless),
{
    CreateWorkSessionRequest {
        work_session_id,
        project_id: project,
        work_profile_id: work_profile,
        display_name,
        realization: realization_from_flags(no_tag, no_launch, headless),
    }
}

/// What `work-session create` prints: the session, its state, profile and
/// revision, then its workspace path when one was realized.
pub fn created_lines(resp: &CreateWorkSessionResponse) -> (r: Vec<String>)
    ensures
        r@.len() >= 1,
        r@[0]@ == "work_session="@ + resp.work_session.work_session_id@ + " state="@ + state_name(resp.work_session.state)
            + " work_profile="@ + resp.work_profile_id@ + " revision="@ + or_dash(opt_view(resp.project_revision)),
        match resp.runtime {
            Some(rt) => match rt.workspace {
                Some(w) => r@.len() == 2 && r@[1]@ == "workspace_path="@ + w.path@,
                None => r@.len() == 1,
            },
            None => r@.len() == 1,
        },
{
    let a = concat("work_session=", resp.work_session.work_session_id.as_str());
    let b = concat(a.as_str(), " state=");
    let c = concat(b.as_str(), resp.work_session.state.as_str());
    let d = concat(c.as_str(), " work_profile=");
    let e = concat(d.as_str(), resp.work_profile_id.as_str());
    let f = concat(e.as_str(), " revision=");
    let g = match &resp.project_revision {
        Some(r) => concat(f.as_str(), r.as_str()),
        None => concat(f.as_str(), "-"),
    };
    let mut out: Vec<String> = Vec::new();
    out.push(g);
    match &resp.runtime {
        Some(rt) => match &rt.workspace {
            Some(w) => out.push(concat("workspace_path=", w.path.as_str())),
            None => {},
        },
        None => {},
    }
    out
}

/// A daemon reply means success when it is `ok` or starts with `ok `.
pub fn daemon_reply_ok(reply: &str) -> (r: bool)
    ensures
        r == (reply@ == "ok"@ || has_prefix(reply@, "ok "@)),
{
    str_eq(reply, "ok") || starts_with(reply, "ok ")
}

/// What `dir` prints for a WorkSession's local realization, or why it cannot.
pub fn dir_outcome(work_session_id: &str, runtime: Option<&WorkSessionRuntime>) -> (r: Result<String, String>)
    ensures
        match runtime {
            Some(rt) => match rt.workspace {
                Some(w) => r matches Ok(p) && p@ == w.path@,
                None => r matches Err(e) && e@ == "no workspace path for "@ + work_session_id@,
            },
            None => r matches Err(e) && e@ == "no local runtime for "@ + work_session_id@,
        },
{
    match runtime {
        Some(rt) => match &rt.workspace {
            Some(w) => Ok(w.path.clone()),
            None => Err(concat("no workspace path for ", work_session_id)),
        },
        None => Err(concat("no local runtime for ", work_session_id)),
    }
}

/// Lifecycle shortcuts of `work-session`.
#[derive(Debug, Clone, Copy, PartialEq, Eq, Structural)]
pub enum SessionVerb {
    Close,
    Pause,
    Resume,
}

/// The state a lifecycle shortcut moves a WorkSession to.
pub fn verb_target(v: SessionVerb) -> (r: WorkSessionState)
    ensures
        r == match v {
            SessionVerb::Close => WorkSessionState::Closed,
            SessionVerb::Pause => WorkSessionState::Paused,
            SessionVerb::Resume => WorkSessionState::Open,
        },
{
    match v {
        SessionVerb::Close => WorkSessionState::Closed,
        SessionVerb::Pause => WorkSessionState::Paused,
        SessionVerb::Resume => WorkSessionState::Open,
    }
}

/// Commands the command line hands to the daemon.
#[derive(Debug)]
pub enum DaemonRequestLine {
    Cycle,
    Switch(String),
    Pick,
    CreateInteractive,
    LaunchAgent { work_session_id: String, agent: String },
    ProjectsUi,
    AgentsUi,
    Cleanup,
    MobileQr,
}

/// The line sent to the daemon for a command.
pub fn daemon_line(c: &DaemonRequestLine) -> (r: String)
    ensures
        r@ == match *c {
            DaemonRequestLine::Cycle => "cycle"@,
            DaemonRequestLine::Switch(id) => "switch "@ + id@,
            DaemonRequestLine::Pick => "pick"@,
            DaemonRequestLine::CreateInteractive => "create"@,
            DaemonRequestLine::LaunchAgent { work_session_id, agent } => "launch-agent "@ + work_session_id@ + " "@ + agent@,
            DaemonRequestLine::ProjectsUi => "projects-ui"@,
            DaemonRequestLine::AgentsUi => "agents-ui"@,
            DaemonRequestLine::Cleanup => "cleanup"@,
            DaemonRequestLine::MobileQr => "mobile-qr"@,
        },
{
    match c {
        DaemonRequestLine::Cycle => owned("cycle"),
        DaemonRequestLine::Switch(id) => concat("switch ", id.as_str()),
        DaemonRequestLine::Pick => owned("pick"),
        DaemonRequestLine::CreateInteractive => owned("create"),
        DaemonRequestLine::LaunchAgent { work_session_id, agent } => {
            let a = concat("launch-agent ", work_session_id.as_str());
            let b = concat(a.as_str(), " ");
            concat(b.as_str(), agent.as_str())
        },
        DaemonRequestLine::ProjectsUi => owned("projects-ui"),
        DaemonRequestLine::AgentsUi => owned("agents-ui"),
        DaemonRequestLine::Cleanup => owned("cleanup"),
        DaemonRequestLine::MobileQr => owned("mobile-qr"),
    }
}

/// What a refused state name prints.
pub fn invalid_state_line(state: &str) -> (r: String)
    ensures
        r@ == "invalid state: "@ + state@,
{
    concat("invalid state: ", state)
}

/// A byte that a URL query carries as it is (RFC 3986 unreserved).
pub open spec fn unreserved(b: u8) -> bool {
    (0x41 <= b && b <= 0x5a) || (0x61 <= b && b <= 0x7a) || (0x30 <= b && b <= 0x39)
        || b == 0x2d || b == 0x2e || b == 0x5f || b == 0x7e
}

/// Uppercase hex digit of a value below 16.
pub open spec fn hex_digit(d: u8) -> char {
    if d < 10 { (0x30 + d) as char } else { (0x37 + d) as char }
}

/// How one byte is written in a query: as itself, or `%` and two hex digits.
pub open spec fn byte_text(b: u8) -> Seq<char> {
    if unreserved(b) { seq![b as char] } else { seq!['%', hex_digit(b / 16), hex_digit(b % 16)] }
}

/// Percent-encoding of a byte string.
pub open spec fn pct_encoded(bs: Seq<u8>) -> Seq<char>
    decreases bs.len(),
{
    if bs.len() == 0 { Seq::empty() } else { pct_encoded(bs.drop_last()) + byte_text(bs.last()) }
}

fn hex_char(d: u8) -> (c: char)
    requires
        d < 16,
    ensures
        c == hex_digit(d),
{
    if d < 10 { (0x30 + d) as char } else { (0x37 + d) as char }
}

/// Percent-encoding of the UTF-8 bytes of `s`, for a query value.
pub fn percent_encode(s: &str) -> (r: String)
    ensures
        r@ == pct_encoded(crate::crypto::utf8(s@)),
{
    let bs = s.as_bytes();
    let ghost b = bs@;
    let mut out: Vec<char> = Vec::new();
    let mut i: usize = 0;
    while i < bs.len()
        invariant
            i <= b.len(),
            b == bs@,
            b == crate::crypto::utf8(s@),
            out@ == pct_encoded(b.subrange(0, i as int)),
        decreases b.len() - i,
    {
        let x = bs[i];
        let ghost before = out@;
        proof {
            assert(b.subrange(0, i as int + 1).drop_last() =~= b.subrange(0, i as int));
            assert(b.subrange(0, i as int + 1).last() == x);
        }
        if (0x41 <= x && x <= 0x5a) || (0x61 <= x && x <= 0x7a) || (0x30 <= x && x <= 0x39)
            || x == 0x2d || x == 0x2e || x == 0x5f || x == 0x7e {
            out.push(x as char);
        } else {
            out.push('%');
            out.push(hex_char(x / 16));
            out.push(hex_char(x % 16));
        }
        assert(out@ =~= before + byte_text(x));
        i = i + 1;
    }
    assert(b.subrange(0, b.len() as int) =~= b);
    string_from_chars(&out)
}

/// The query of a listing: `state` and `project_id` when given, in that order.
pub open spec fn list_query(state: Option<Seq<char>>, project: Option<Seq<char>>) -> Seq<char> {
    match (state, project) {
        (None, None) => Seq::empty(),
        (Some(s), None) => "?state="@ + pct_encoded(crate::crypto::utf8(s)),
        (None, Some(p)) => "?project_id="@ + pct_encoded(crate::crypto::utf8(p)),
        (Some(s), Some(p)) => "?state="@ + pct_encoded(crate::crypto::utf8(s))
            + "&project_id="@ + pct_encoded(crate::crypto::utf8(p)),
    }
}

/// Path that lists WorkSessions, filtered by state and project when given.
pub fn list_path(state: Option<&str>, project: Option<&str>) -> (r: String)
    ensures
        r@ == "/api/work-sessions"@ + list_query(crate::auth::opt_str(state), crate::auth::opt_str(project)),
{
    proof { reveal_strlit(""); }
    let base = owned("/api/work-sessions");
    let with_state = match state {
        Some(s) => {
            let e = percent_encode(s);
            let a = concat(base.as_str(), "?state=");
            concat(a.as_str(), e.as_str())
        },
        None => base,
    };
    match project {
        Some(p) => {
            let e = percent_encode(p);
            let sep = match state { Some(_) => "&project_id=", None => "?project_id=" };
            let a = concat(with_state.as_str(), sep);
            concat(a.as_str(), e.as_str())
        },
        None => with_state,
    }
}

/// The JSON body of `POST /api/work-sessions` for the command line's
/// `work-session create`.
pub open spec fn create_body_view(id: Seq<char>, project: Seq<char>, profile: Option<Seq<char>>,
    display_name: Option<Seq<char>>, no_tag: bool, no_launch: bool, headless: bool) -> crate::json::JsonView
{
    crate::json::JsonView::Object(seq![
        ("work_session_id"@, crate::json::JsonView::Str(id)),
        ("project_id"@, crate::json::JsonView::Str(project)),
        ("work_profile_id"@, match profile { Some(p) => crate::json::JsonView::Str(p), None => crate::json::JsonView::Null }),
        ("display_name"@, match display_name { Some(d) => crate::json::JsonView::Str(d), None => crate::json::JsonView::Null }),
        ("headless"@, crate::json::JsonView::Bool(headless)),
        ("no_tag"@, crate::json::JsonView::Bool(no_tag)),
        ("no_launch"@, crate::json::JsonView::Bool(no_launch)),
    ])
}

fn opt_text(o: Option<&str>) -> (r: crate::json::JsonValue)
    ensures
        r@ == match crate::auth::opt_str(o) { Some(p) => crate::json::JsonView::Str(p), None => crate::json::JsonView::Null },
{
    match o {
        Some(p) => crate::json::JsonValue::Str(owned(p)),
        None => crate::json::JsonValue::Null,
    }
}

/// The JSON body of `POST /api/work-sessions`.
pub fn create_body(id: &str, project: &str, profile: Option<&str>, display_name: Option<&str>,
    no_tag: bool, no_launch: bool, headless: bool) -> (r: crate::json::JsonValue)
    ensures
        r@ == create_body_view(id@, project@, crate::auth::opt_str(profile), crate::auth::opt_str(display_name),
            no_tag, no_launch, headless),
{
    let mut v: Vec<(String, crate::json::JsonValue)> = Vec::new();
    crate::json::push_entry(&mut v, "work_session_id", crate::json::JsonValue::Str(owned(id)));
    crate::json::push_entry(&mut v, "project_id", crate::json::JsonValue::Str(owned(project)));
    crate::json::push_entry(&mut v, "work_profile_id", opt_text(profile));
    crate::json::push_entry(&mut v, "display_name", opt_text(display_name));
    crate::json::push_entry(&mut v, "headless", crate::json::JsonValue::Bool(headless));
    crate::json::push_entry(&mut v, "no_tag", crate::json::JsonValue::Bool(no_tag));
    crate::json::push_entry(&mut v, "no_launch", crate::json::JsonValue::Bool(no_launch));
    assert(crate::json::view_entries(v@) =~= seq![
        ("work_session_id"@, crate::json::JsonView::Str(id@)),
        ("project_id"@, crate::json::JsonView::Str(project@)),
        ("work_profile_id"@, match crate::auth::opt_str(profile) { Some(p) => crate::json::JsonView::Str(p), None => crate::json::JsonView::Null }),
        ("display_name"@, match crate::auth::opt_str(display_name) { Some(d) => crate::json::JsonView::Str(d), None => crate::json::JsonView::Null }),
        ("headless"@, crate::json::JsonView::Bool(headless)),
        ("no_tag"@, crate::json::JsonView::Bool(no_tag)),
        ("no_launch"@, crate::json::JsonView::Bool(no_launch)),
    ]);
    let ghost ents = crate::json::view_entries(v@);
    let r = crate::json::JsonValue::Object(v);
    assert(r@ == crate::json::JsonView::Object(ents));
    assert(ents == match create_body_view(id@, project@, crate::auth::opt_str(profile),
        crate::auth::opt_str(display_name), no_tag, no_launch, headless) {
        crate::json::JsonView::Object(e) => e,
        _ => ents,
    });
    r
}

} // verus!
