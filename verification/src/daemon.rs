//! The daemon's socket protocol: one line in, one line out.
use vstd::prelude::*;
use crate::text::{chars_of, string_from_chars, str_eq, owned, concat, starts_with, suffix_from, has_prefix, trim, trimmed, words, split_whitespace};
use crate::model::error::{SwitchboardError, code_name, opt_view};
use crate::model::lifecycle::state_name;
use crate::model::work_session::{CreateWorkSessionRequest, CreateWorkSessionResponse, RealizationOptions};

verus! {

/// Commands the daemon hands to its UI loop.
#[derive(Debug, Clone, Copy, PartialEq, Eq, Structural)]
pub enum DaemonCmd {
    Pick,
    Create,
    Projects,
    Cleanup,
    LaunchAgent,
    Agents,
    Restart,
    Reload,
    Logs,
    MobileQr,
}

/// The command a socket verb names. Verbs are case-sensitive.
pub open spec fn command_of(input: Seq<char>) -> Option<DaemonCmd> {
    if input == "pick"@ {
        Some(DaemonCmd::Pick)
    } else if input == "create"@ {
        Some(DaemonCmd::Create)
    } else if input == "projects"@ || input == "projects-ui"@ {
        Some(DaemonCmd::Projects)
    } else if input == "launch-agent"@ {
        Some(DaemonCmd::LaunchAgent)
    } else if input == "agents"@ || input == "agents-ui"@ {
        Some(DaemonCmd::Agents)
    } else if input == "restart"@ {
        Some(DaemonCmd::Restart)
    } else if input == "reload"@ {
        Some(DaemonCmd::Reload)
    } else if input == "logs"@ {
        Some(DaemonCmd::Logs)
    } else if input == "mobile-qr"@ {
        Some(DaemonCmd::MobileQr)
    } else if input == "cleanup"@ {
        Some(DaemonCmd::Cleanup)
    } else {
        None
    }
}

/// Parse a socket verb.
pub fn parse_command(input: &str) -> (r: Option<DaemonCmd>)
    ensures
        r == command_of(input@),
{
    if str_eq(input, "pick") {
        Some(DaemonCmd::Pick)
    } else if str_eq(input, "create") {
        Some(DaemonCmd::Create)
    } else if str_eq(input, "projects") || str_eq(input, "projects-ui") {
        Some(DaemonCmd::Projects)
    } else if str_eq(input, "launch-agent") {
        Some(DaemonCmd::LaunchAgent)
    } else if str_eq(input, "agents") || str_eq(input, "agents-ui") {
        Some(DaemonCmd::Agents)
    } else if str_eq(input, "restart") {
        Some(DaemonCmd::Restart)
    } else if str_eq(input, "reload") {
        Some(DaemonCmd::Reload)
    } else if str_eq(input, "logs") {
        Some(DaemonCmd::Logs)
    } else if str_eq(input, "mobile-qr") {
        Some(DaemonCmd::MobileQr)
    } else if str_eq(input, "cleanup") {
        Some(DaemonCmd::Cleanup)
    } else {
        None
    }
}

/// Usage text of `work-session-create`.
pub open spec fn create_usage() -> Seq<char> {
    "error: usage: work-session-create <work_session_id> <project_id> [--profile ID] [--headless]"@
}

/// Options after the two positional words: `--profile ID` and `--headless`.
pub open spec fn parse_opts(parts: Seq<Seq<char>>, i: int, profile: Option<Seq<char>>, headless: bool)
    -> Result<(Option<Seq<char>>, bool), Seq<char>>
    decreases parts.len() - i,
{
    if i < 0 || i >= parts.len() {
        Ok((profile, headless))
    } else if parts[i] == "--profile"@ && i + 1 < parts.len() {
        parse_opts(parts, i + 2, Some(parts[i + 1]), headless)
    } else if parts[i] == "--headless"@ {
        parse_opts(parts, i + 1, profile, true)
    } else {
        Err("error: unknown arg "@ + parts[i])
    }
}

/// Realization flags of a headless or a desktop creation.
pub open spec fn realization_for(headless: bool) -> RealizationOptions {
    RealizationOptions { create_tag: !headless, launch_apps: !headless, headless, no_wm: headless }
}

/// The request that `work-session-create <id> <project_id> [--profile ID] [--headless]`
/// describes, or its error line.
pub open spec fn create_args(args: Seq<char>) -> Result<(Seq<char>, Seq<char>, Option<Seq<char>>, bool), Seq<char>> {
    let parts = words(args);
    if parts.len() < 2 {
        Err(create_usage())
    } else {
        match parse_opts(parts, 2, None, false) {
            Ok((profile, headless)) => Ok((parts[0], parts[1], profile, headless)),
            Err(e) => Err(e),
        }
    }
}

/// Parse the arguments of `work-session-create` into a creation request.
pub fn parse_work_session_create(args: &str) -> (r: Result<CreateWorkSessionRequest, String>)
    ensures
        match (r, create_args(args@)) {
            (Ok(req), Ok((id, project, profile, headless))) => {
                &&& req.work_session_id@ == id
                &&& req.project_id@ == project
                &&& opt_view(req.work_profile_id) == profile
                &&& opt_view(req.display_name) == Some(id)
                &&& req.realization == realization_for(headless)
            },
            (Err(e), Err(ve)) => e@ == ve,
            _ => false,
        },
{
    let parts = split_whitespace(args);
    let ghost pv = crate::text::str_views(parts@);
    if parts.len() < 2 {
        return Err(owned("error: usage: work-session-create <work_session_id> <project_id> [--profile ID] [--headless]"));
    }
    let mut profile: Option<String> = None;
    let mut headless = false;
    let mut i: usize = 2;
    while i < parts.len()
        invariant
            2 <= i <= parts@.len(),
            pv == crate::text::str_views(parts@),
            pv == words(args@),
            parse_opts(pv, 2, None, false) == parse_opts(pv, i as int, opt_view(profile), headless),
        decreases parts@.len() - i,
    {
        assert(pv[i as int] == parts@[i as int]@);
        if str_eq(parts[i].as_str(), "--profile") && i + 1 < parts.len() {
            assert(pv[i as int + 1] == parts@[i as int + 1]@);
            profile = Some(parts[i + 1].clone());
            i = i + 2;
        } else if str_eq(parts[i].as_str(), "--headless") {
            headless = true;
            i = i + 1;
        } else {
            return Err(concat("error: unknown arg ", parts[i].as_str()));
        }
    }
    assert(pv[0] == parts@[0]@);
    assert(pv[1] == parts@[1]@);
    Ok(CreateWorkSessionRequest {
        work_session_id: parts[0].clone(),
        project_id: parts[1].clone(),
        work_profile_id: profile,
        display_name: Some(parts[0].clone()),
        realization: RealizationOptions {
            create_tag: !headless,
            launch_apps: !headless,
            headless,
            no_wm: headless,
        },
    })
}

/// What one socket line asks of the daemon.
#[derive(Debug)]
pub enum DaemonRequest {
    /// Create a work session synchronously; the text holds its arguments.
    WorkSessionCreate(String),
    /// A UI command, or none when the verb is unknown.
    Command(Option<DaemonCmd>),
}

/// How a socket line is read: trimmed, then either a synchronous creation or a verb.
pub open spec fn request_of(line: Seq<char>) -> Result<Seq<char>, Option<DaemonCmd>> {
    let input = trimmed(line);
    let p = "work-session-create "@;
    if has_prefix(input, p) {
        Ok(input.subrange(p.len() as int, input.len() as int))
    } else {
        Err(command_of(input))
    }
}

/// Classify one socket line.
pub fn classify_line(line: &str) -> (r: DaemonRequest)
    ensures
        match (r, request_of(line@)) {
            (DaemonRequest::WorkSessionCreate(a), Ok(va)) => a@ == va,
            (DaemonRequest::Command(c), Err(vc)) => c == vc,
            _ => false,
        },
{
    let input = trim(line);
    proof { reveal_strlit("work-session-create "); }
    if starts_with(input.as_str(), "work-session-create ") {
        DaemonRequest::WorkSessionCreate(suffix_from(input.as_str(), 20))
    } else {
        DaemonRequest::Command(parse_command(input.as_str()))
    }
}

/// Reply line to a verb: `ok` when it names a command.
pub fn command_reply(cmd: &Option<DaemonCmd>) -> (r: &'static str)
    ensures
        r@ == (if cmd is Some { "ok"@ } else { "unknown command"@ }),
{
    match cmd {
        Some(_) => "ok",
        None => "unknown command",
    }
}

/// `work_session=… state=… work_profile=… revision=…` for a created session.
pub open spec fn create_summary_text(resp: CreateWorkSessionResponse) -> Seq<char> {
    "work_session="@ + resp.work_session.work_session_id@
        + " state="@ + state_name(resp.work_session.state)
        + " work_profile="@ + resp.work_profile_id@
        + " revision="@ + match resp.project_revision {
            Some(r) => r@,
            None => "-"@,
        }
}

/// Summary line of a created session.
pub fn create_summary(resp: &CreateWorkSessionResponse) -> (r: String)
    ensures
        r@ == create_summary_text(*resp),
{
    let a = concat("work_session=", resp.work_session.work_session_id.as_str());
    let b = concat(a.as_str(), " state=");
    let c = concat(b.as_str(), resp.work_session.state.as_str());
    let d = concat(c.as_str(), " work_profile=");
    let e = concat(d.as_str(), resp.work_profile_id.as_str());
    let f = concat(e.as_str(), " revision=");
    match &resp.project_revision {
        Some(rev) => concat(f.as_str(), rev.as_str()),
        None => concat(f.as_str(), "-"),
    }
}

/// Reply line to a `work-session-create` request.
pub fn create_reply(result: &Result<CreateWorkSessionResponse, SwitchboardError>) -> (r: String)
    ensures
        r@ == match result {
            Ok(resp) => "ok "@ + create_summary_text(*resp),
            Err(e) => "error: "@ + code_name(e.code) + ": "@ + e.message@,
        },
{
    match result {
        Ok(resp) => {
            let s = create_summary(resp);
            concat("ok ", s.as_str())
        },
        Err(e) => {
            let s = e.to_string();
            concat("error: ", s.as_str())
        },
    }
}

/// Reading options depends only on the words from where reading starts.
pub proof fn lemma_parse_opts_suffix(a: Seq<Seq<char>>, b: Seq<Seq<char>>, i: int, profile: Option<Seq<char>>, headless: bool)
    requires
        0 <= i,
        a.len() == b.len(),
        forall|k: int| i <= k < a.len() ==> a[k] == b[k],
    ensures
        parse_opts(a, i, profile, headless) == parse_opts(b, i, profile, headless),
    decreases a.len() - i,
{
    if i < a.len() {
        if a[i] == "--profile"@ && i + 1 < a.len() {
            lemma_parse_opts_suffix(a, b, i + 2, Some(a[i + 1]), headless);
        } else if a[i] == "--headless"@ {
            lemma_parse_opts_suffix(a, b, i + 1, profile, true);
        }
    }
}

/// Options are read whatever their order: `--headless --profile P` and
/// `--profile P --headless`, wherever they stand and whatever follows, read
/// the same; on their own they give the profile `P` and a headless session.
pub proof fn law_options_in_any_order(pre: Seq<Seq<char>>, p: Seq<char>, rest: Seq<Seq<char>>,
    profile: Option<Seq<char>>, headless: bool)
    ensures
        parse_opts(pre + seq!["--headless"@, "--profile"@, p] + rest, pre.len() as int, profile, headless)
            == parse_opts(pre + seq!["--profile"@, p, "--headless"@] + rest, pre.len() as int, profile, headless),
        parse_opts(pre + seq!["--headless"@, "--profile"@, p], pre.len() as int, profile, headless)
            == Ok::<(Option<Seq<char>>, bool), Seq<char>>((Some(p), true)),
        parse_opts(pre + seq!["--profile"@, p, "--headless"@], pre.len() as int, profile, headless)
            == Ok::<(Option<Seq<char>>, bool), Seq<char>>((Some(p), true)),
{
    reveal_strlit("--headless");
    reveal_strlit("--profile");
    assert("--headless"@ != "--profile"@) by {
        assert("--headless"@[2] != "--profile"@[2]);
    }
    let n = pre.len() as int;
    let a = pre + seq!["--headless"@, "--profile"@, p] + rest;
    let b = pre + seq!["--profile"@, p, "--headless"@] + rest;
    assert(a[n] == "--headless"@);
    assert(a[n + 1] == "--profile"@);
    assert(a[n + 2] == p);
    assert(b[n] == "--profile"@);
    assert(b[n + 1] == p);
    assert(b[n + 2] == "--headless"@);
    lemma_parse_opts_suffix(a, b, n + 3, Some(p), true);
    assert(parse_opts(a, n, profile, headless) == parse_opts(a, n + 1, profile, true));
    assert(parse_opts(a, n + 1, profile, true) == parse_opts(a, n + 3, Some(p), true));
    assert(parse_opts(b, n, profile, headless) == parse_opts(b, n + 2, Some(p), headless));
    assert(parse_opts(b, n + 2, Some(p), headless) == parse_opts(b, n + 3, Some(p), true));
    let a2 = pre + seq!["--headless"@, "--profile"@, p];
    let b2 = pre + seq!["--profile"@, p, "--headless"@];
    assert(a2[n] == "--headless"@ && a2[n + 1] == "--profile"@ && a2[n + 2] == p);
    assert(b2[n] == "--profile"@ && b2[n + 1] == p && b2[n + 2] == "--headless"@);
    assert(parse_opts(a2, n, profile, headless) == parse_opts(a2, n + 1, profile, true));
    assert(parse_opts(a2, n + 1, profile, true) == parse_opts(a2, n + 3, Some(p), true));
    assert(parse_opts(b2, n, profile, headless) == parse_opts(b2, n + 2, Some(p), headless));
    assert(parse_opts(b2, n + 2, Some(p), headless) == parse_opts(b2, n + 3, Some(p), true));
}

/// The daemon's socket: `~/.config/awesometree/daemon.sock`.
pub fn sock_path(home: &str) -> (r: String)
    ensures
        r@ == crate::paths::join_path(crate::paths::join_path(home@, ".config/awesometree"@), "daemon.sock"@),
{
    let d = crate::paths::path_join(home, ".config/awesometree");
    crate::paths::path_join(d.as_str(), "daemon.sock")
}

} // verus!
