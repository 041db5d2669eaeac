//! Bezalel sidecars of headless WorkSessions: their tokens, command line,
//! and which to start or stop when the runtime document changes.
use vstd::prelude::*;
use crate::text::{owned, str_eq, contains_str, in_names, str_views};
use crate::table::{lookup, keys_of, distinct};
use crate::runtime_store::RuntimeDocument;
use crate::model::runtime::{RuntimeSecrets, WorkSessionRuntime, secret_of};
use crate::decimal::{decimal, u64_to_decimal};

verus! {

/// Executable started for each headless WorkSession.
pub const BEZALEL_BIN: &'static str = "bezalel";

/// Lowercase hexadecimal digit.
pub open spec fn hex_digit(v: int) -> char {
    if v < 10 { ((v + 48) as u8) as char } else { ((v + 87) as u8) as char }
}

/// Two lowercase hex digits per byte (`{:02x}`).
pub open spec fn hex_text(bytes: Seq<u8>) -> Seq<char>
    decreases bytes.len(),
{
    if bytes.len() == 0 {
        Seq::empty()
    } else {
        hex_text(bytes.drop_last()) + seq![hex_digit(bytes.last() as int / 16), hex_digit(bytes.last() as int % 16)]
    }
}

fn hex_char(v: u8) -> (r: char)
    requires
        v < 16,
    ensures
        r == hex_digit(v as int),
{
    if v < 10 { (v + 48) as char } else { (v + 87) as char }
}

/// Lowercase hex text of `bytes`.
pub fn hex_encode(bytes: &[u8]) -> (r: String)
    ensures
        r@ == hex_text(bytes@),
{
    let mut out: Vec<char> = Vec::new();
    let mut i: usize = 0;
    while i < bytes.len()
        invariant
            i <= bytes@.len(),
            out@ == hex_text(bytes@.subrange(0, i as int)),
        decreases bytes@.len() - i,
    {
        let b = bytes[i];
        proof {
            assert(bytes@.subrange(0, i as int + 1).drop_last() =~= bytes@.subrange(0, i as int));
        }
        out.push(hex_char(b / 16));
        out.push(hex_char(b % 16));
        i = i + 1;
    }
    proof {
        assert(bytes@.subrange(0, bytes@.len() as int) =~= bytes@);
    }
    crate::text::string_from_chars(&out)
}

/// A fresh bearer token for a bezalel instance: 32 random bytes in hex.
pub fn generate_token() -> (r: String)
    ensures
        exists|b: Seq<u8>| b.len() == 32 && r@ == hex_text(b),
{
    let b = crate::crypto::random_bytes_32();
    hex_encode(b.as_slice())
}

/// Arguments of the bezalel command.
pub fn bezalel_args(port: u16, dir: &str, token: &str) -> (r: Vec<String>)
    ensures
        str_views(r@) == seq!["--host"@, "127.0.0.1"@, "--port"@, decimal(port as nat), "--workdir"@, dir@,
            "--auth-token"@, token@],
{
    let mut v: Vec<String> = Vec::new();
    v.push(owned("--host"));
    v.push(owned("127.0.0.1"));
    v.push(owned("--port"));
    v.push(u64_to_decimal(port as u64));
    v.push(owned("--workdir"));
    v.push(owned(dir));
    v.push(owned("--auth-token"));
    v.push(owned(token));
    proof {
        assert(str_views(v@) =~= seq!["--host"@, "127.0.0.1"@, "--port"@, decimal(port as nat), "--workdir"@, dir@,
            "--auth-token"@, token@]);
    }
    v
}

/// A bezalel instance to start.
#[derive(Debug)]
pub struct StartPlan {
    pub work_session_id: String,
    pub dir: String,
    pub port: u16,
    pub token: String,
}

/// A realization that needs a bezalel instance it does not have: headless,
/// not running, with a port and a stored token (a non-empty one when
/// `skip_empty_token`).
pub open spec fn wants_start(rt: WorkSessionRuntime, running: Seq<Seq<char>>, token: Option<Seq<char>>,
    skip_empty_token: bool) -> bool
{
    &&& rt.headless
    &&& !in_names(running, rt.work_session_id@)
    &&& rt.bezalel_port is Some
    &&& token is Some
    &&& !(skip_empty_token && token.unwrap().len() == 0)
}

/// `p` starts the instance that `rt` wants.
pub open spec fn plan_of(p: StartPlan, rt: WorkSessionRuntime, running: Seq<Seq<char>>, secrets: RuntimeSecrets,
    skip_empty_token: bool) -> bool
{
    &&& wants_start(rt, running, secret_of(secrets, rt.work_session_id@), skip_empty_token)
    &&& p.work_session_id@ == rt.work_session_id@
    &&& Some(p.port) == rt.bezalel_port
    &&& Some(p.token@) == secret_of(secrets, rt.work_session_id@)
    &&& p.dir@ == match rt.workspace { Some(w) => w.path@, None => Seq::<char>::empty() }
}

/// What a start plan holds: WorkSession id, directory, port and token.
pub open spec fn plan_view(p: StartPlan) -> (Seq<char>, Seq<char>, u16, Seq<char>) {
    (p.work_session_id@, p.dir@, p.port, p.token@)
}

pub open spec fn plan_views(s: Seq<StartPlan>) -> Seq<(Seq<char>, Seq<char>, u16, Seq<char>)> {
    s.map_values(|p: StartPlan| plan_view(p))
}

/// The plan a realization calls for, if it wants a start: its id, its
/// workspace path (empty without one), its port and its stored token.
pub open spec fn plan_for(rt: WorkSessionRuntime, running: Seq<Seq<char>>, secrets: RuntimeSecrets,
    skip_empty_token: bool) -> Option<(Seq<char>, Seq<char>, u16, Seq<char>)>
{
    let token = secret_of(secrets, rt.work_session_id@);
    if wants_start(rt, running, token, skip_empty_token) {
        Some((
            rt.work_session_id@,
            match rt.workspace { Some(w) => w.path@, None => Seq::<char>::empty() },
            rt.bezalel_port.unwrap(),
            token.unwrap(),
        ))
    } else {
        None
    }
}

/// The plans for a sequence of realizations, in their order.
pub open spec fn planned(rs: Seq<(String, WorkSessionRuntime)>, running: Seq<Seq<char>>, secrets: RuntimeSecrets,
    skip_empty_token: bool) -> Seq<(Seq<char>, Seq<char>, u16, Seq<char>)>
    decreases rs.len(),
{
    if rs.len() == 0 {
        Seq::empty()
    } else {
        let before = planned(rs.drop_last(), running, secrets, skip_empty_token);
        match plan_for(rs.last().1, running, secrets, skip_empty_token) {
            Some(p) => before.push(p),
            None => before,
        }
    }
}

/// The instances to start: one for each realization that wants one, in
/// document order, so no WorkSession is planned twice.
pub fn plan_starts(doc: &RuntimeDocument, secrets: &RuntimeSecrets, running: &Vec<String>, skip_empty_token: bool)
    -> (r: Vec<StartPlan>)
    requires
        doc.wf(),
    ensures
        plan_views(r@) == planned(doc.runtimes@, str_views(running@), *secrets, skip_empty_token),
        forall|a: int, b: int| 0 <= a < b < r@.len() ==> r@[a].work_session_id@ != r@[b].work_session_id@,
{
    let ghost rs = doc.runtimes@;
    let ghost names = str_views(running@);
    let mut out: Vec<StartPlan> = Vec::new();
    let mut i: usize = 0;
    while i < doc.runtimes.len()
        invariant
            i <= doc.runtimes@.len(),
            rs == doc.runtimes@,
            names == str_views(running@),
            doc.wf(),
            plan_views(out@) == planned(rs.subrange(0, i as int), names, *secrets, skip_empty_token),
            forall|k: int| 0 <= k < out@.len() ==> exists|j: int| 0 <= j < i && #[trigger] out@[k].work_session_id@ == rs[j].0@,
            forall|a: int, b: int| 0 <= a < b < out@.len() ==> out@[a].work_session_id@ != out@[b].work_session_id@,
        decreases doc.runtimes@.len() - i,
    {
        let rt = &doc.runtimes[i].1;
        let ghost ov = out@;
        let ghost rv = rs[i as int].1;
        let plan: Option<StartPlan> = if rt.headless && !contains_str(running, rt.work_session_id.as_str()) {
            match rt.bezalel_port {
                Some(port) => match secrets.get_bezalel_token(rt.work_session_id.as_str()) {
                    Some(token) => {
                        if !(skip_empty_token && token.as_str().unicode_len() == 0) {
                            let dir = match &rt.workspace {
                                Some(w) => w.path.clone(),
                                None => String::new(),
                            };
                            Some(StartPlan { work_session_id: rt.work_session_id.clone(), dir, port, token })
                        } else {
                            None
                        }
                    },
                    None => None,
                },
                None => None,
            }
        } else {
            None
        };
        proof {
            reveal_strlit("");
            assert(rs.subrange(0, i as int + 1).drop_last() =~= rs.subrange(0, i as int));
            assert(rs.subrange(0, i as int + 1).last() == rs[i as int]);
            assert(rv.work_session_id@ == rs[i as int].0@);
        }
        assert(match plan {
            Some(p) => plan_for(rv, names, *secrets, skip_empty_token) == Some(plan_view(p)),
            None => plan_for(rv, names, *secrets, skip_empty_token) is None,
        });
        match plan {
            Some(p) => {
                out.push(p);
                proof {
                    assert(plan_views(out@) =~= plan_views(ov).push(plan_view(out@[ov.len() as int])));
                    assert forall|k: int| 0 <= k < ov.len() implies out@[k].work_session_id@ != rs[i as int].0@ by {
                        assert(out@[k] == ov[k]);
                        let j = choose|j: int| 0 <= j < i && #[trigger] ov[k].work_session_id@ == rs[j].0@;
                        assert(keys_of(rs)[j] != keys_of(rs)[i as int]);
                    }
                    assert forall|k: int| 0 <= k < out@.len() implies exists|j: int| 0 <= j < i + 1 && #[trigger] out@[k].work_session_id@ == rs[j].0@ by {
                        if k < ov.len() {
                            assert(out@[k] == ov[k]);
                            let j = choose|j: int| 0 <= j < i && #[trigger] ov[k].work_session_id@ == rs[j].0@;
                            assert(out@[k].work_session_id@ == rs[j].0@);
                        } else {
                            assert(out@[k].work_session_id@ == rs[i as int].0@);
                        }
                    }
                    assert forall|a: int, b: int| 0 <= a < b < out@.len() implies out@[a].work_session_id@ != out@[b].work_session_id@ by {
                        if b < ov.len() {
                            assert(out@[a] == ov[a]);
                            assert(out@[b] == ov[b]);
                        }
                    }
                }
            },
            None => {},
        }
        i = i + 1;
    }
    proof {
        assert(rs.subrange(0, rs.len() as int) =~= rs);
    }
    out
}

/// Running instances whose WorkSession is gone from the document or no longer headless.
pub open spec fn wants_stop(doc: RuntimeDocument, name: Seq<char>) -> bool {
    match lookup(doc.runtimes@, name) {
        Some(rt) => !rt.headless,
        None => true,
    }
}

/// The running instances to stop, in the order given.
pub fn plan_stops(doc: &RuntimeDocument, running: &Vec<String>) -> (r: Vec<String>)
    requires
        doc.wf(),
    ensures
        str_views(r@) == str_views(running@).filter(|n: Seq<char>| wants_stop(*doc, n)),
{
    let ghost names = str_views(running@);
    let ghost pred = |n: Seq<char>| wants_stop(*doc, n);
    let mut out: Vec<String> = Vec::new();
    let mut i: usize = 0;
    while i < running.len()
        invariant
            i <= running@.len(),
            doc.wf(),
            names == str_views(running@),
            pred == (|n: Seq<char>| wants_stop(*doc, n)),
            str_views(out@) == names.subrange(0, i as int).filter(pred),
        decreases running@.len() - i,
    {
        let ghost ovv = str_views(out@);
        proof {
            reveal(Seq::filter);
            assert(names.subrange(0, i as int + 1).drop_last() =~= names.subrange(0, i as int));
            assert(names.subrange(0, i as int + 1).last() == running@[i as int]@);
        }
        let stop = match doc.get(running[i].as_str()) {
            Some(rt) => !rt.headless,
            None => true,
        };
        if stop {
            out.push(running[i].clone());
            proof {
                assert(str_views(out@) =~= ovv.push(running@[i as int]@));
            }
        }
        i = i + 1;
    }
    proof {
        assert(names.subrange(0, names.len() as int) =~= names);
    }
    out
}

/// The names a keeper table holds, as a list with the same members.
pub open spec fn lists_kept(names: Seq<Seq<char>>, keepers: crate::keeper::Keepers) -> bool {
    forall|n: Seq<char>| in_names(names, n) <==> (#[trigger] keepers.kept(n)) is Some
}

/// Start-up pass: start every headless realization that has a port and a
/// non-empty stored token and is not already kept.
pub fn start_active_workspaces(doc: &RuntimeDocument, secrets: &RuntimeSecrets, keepers: &crate::keeper::Keepers)
    -> (r: Vec<StartPlan>)
    requires
        doc.wf(),
        keepers.wf(),
    ensures
        exists|names: Seq<Seq<char>>| #[trigger] lists_kept(names, *keepers)
            && plan_views(r@) == planned(doc.runtimes@, names, *secrets, true),
        forall|a: int, b: int| 0 <= a < b < r@.len() ==> r@[a].work_session_id@ != r@[b].work_session_id@,
{
    let running = keepers.running_workspaces();
    proof {
        assert forall|n: Seq<char>| in_names(str_views(running@), n) <==> (#[trigger] keepers.kept(n)) is Some by {
            if keepers.kept(n) is Some {
                let i = choose|i: int| 0 <= i < running@.len() && running@[i]@ == n;
                assert(str_views(running@)[i] == n);
            }
            if in_names(str_views(running@), n) {
                let j = choose|j: int| 0 <= j < str_views(running@).len() && str_views(running@)[j] == n;
                assert(keepers.kept(running@[j]@) is Some);
            }
        }
        assert(lists_kept(str_views(running@), *keepers));
    }
    plan_starts(doc, secrets, &running, true)
}

/// Periodic pass: start every headless realization that has a port and a
/// stored token (even an empty one) and is not kept, and stop every kept
/// instance whose realization is gone or no longer headless.
pub fn sync_workspaces(doc: &RuntimeDocument, secrets: &RuntimeSecrets, keepers: &crate::keeper::Keepers)
    -> (r: (Vec<StartPlan>, Vec<String>))
    requires
        doc.wf(),
        keepers.wf(),
    ensures
        exists|names: Seq<Seq<char>>| #[trigger] lists_kept(names, *keepers)
            && plan_views(r.0@) == planned(doc.runtimes@, names, *secrets, false)
            && str_views(r.1@) == names.filter(|n: Seq<char>| wants_stop(*doc, n)),
        forall|a: int, b: int| 0 <= a < b < r.0@.len() ==> r.0@[a].work_session_id@ != r.0@[b].work_session_id@,
{
    let running = keepers.running_workspaces();
    proof {
        assert forall|n: Seq<char>| in_names(str_views(running@), n) <==> (#[trigger] keepers.kept(n)) is Some by {
            if keepers.kept(n) is Some {
                let i = choose|i: int| 0 <= i < running@.len() && running@[i]@ == n;
                assert(str_views(running@)[i] == n);
            }
            if in_names(str_views(running@), n) {
                let j = choose|j: int| 0 <= j < str_views(running@).len() && str_views(running@)[j] == n;
                assert(keepers.kept(running@[j]@) is Some);
            }
        }
        assert(lists_kept(str_views(running@), *keepers));
    }
    let starts = plan_starts(doc, secrets, &running, false);
    let stops = plan_stops(doc, &running);
    (starts, stops)
}

} // verus!
