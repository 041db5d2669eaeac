//! The host-local runtime document: realizations keyed by WorkSession id,
//! the numbers they hold, and the checks made when the document is opened.
use vstd::prelude::*;
use crate::text::{owned, concat, str_eq, contains_text, has_infix};
use crate::table::{keys_of, distinct, lookup, find_key, table_set, table_remove, lemma_lookup_distinct};
use crate::model::error::{ErrorCode, SwitchboardError, ErrorView, plain_error};
use crate::model::runtime::WorkSessionRuntime;
use crate::numbering::{smallest_unused, is_smallest_unused};
use crate::decimal::{decimal, u64_to_decimal};

verus! {

/// Version of the runtime document this host reads and writes.
pub const DOCUMENT_VERSION: u32 = 2;

/// First tag index handed out.
pub const TAG_OFFSET: i32 = 10;

/// Ports handed to bezalel sidecars.
pub const BEZALEL_PORT_BASE: u16 = 9200;
pub const BEZALEL_PORT_MAX: u16 = 9299;

/// The runtime document.
#[derive(Debug)]
pub struct RuntimeDocument {
    pub version: u32,
    pub host_id: String,
    /// Realizations by WorkSession id, one entry per id.
    pub runtimes: Vec<(String, WorkSessionRuntime)>,
}

impl RuntimeDocument {
    /// One entry per WorkSession id, each under its own id.
    pub open spec fn wf(&self) -> bool {
        &&& distinct(keys_of(self.runtimes@))
        &&& forall|i: int| 0 <= i < self.runtimes@.len() ==> #[trigger] self.runtimes@[i].0@ == self.runtimes@[i].1.work_session_id@
    }

    /// A fresh document for this host.
    pub fn fresh(host_id: &str) -> (r: Self)
        ensures
            r.wf(),
            r.version == DOCUMENT_VERSION,
            r.host_id@ == host_id@,
            r.runtimes@.len() == 0,
    {
        RuntimeDocument { version: DOCUMENT_VERSION, host_id: owned(host_id), runtimes: Vec::new() }
    }

    /// The realization of a WorkSession.
    pub fn get(&self, work_session_id: &str) -> (r: Option<&WorkSessionRuntime>)
        ensures
            match r {
                Some(rt) => lookup(self.runtimes@, work_session_id@) == Some(*rt),
                None => lookup(self.runtimes@, work_session_id@) is None,
            },
    {
        match find_key(&self.runtimes, work_session_id) {
            Some(i) => {
                proof {
                    crate::table::lemma_key_pos(keys_of(self.runtimes@), work_session_id@);
                }
                Some(&self.runtimes[i].1)
            },
            None => None,
        }
    }

    /// Record a realization under its id. A missing host id is filled from
    /// the document's, which itself is filled from `this_host` when empty.
    pub fn upsert(&mut self, runtime: WorkSessionRuntime, this_host: &str)
        requires
            old(self).wf(),
        ensures
            final(self).wf(),
            final(self).version == old(self).version,
            final(self).host_id@ == (if old(self).host_id@.len() == 0 { this_host@ } else { old(self).host_id@ }),
            match lookup(final(self).runtimes@, runtime.work_session_id@) {
                Some(rt) => {
                    &&& rt.work_session_id@ == runtime.work_session_id@
                    &&& rt.host_id@ == (if runtime.host_id@.len() == 0 { final(self).host_id@ } else { runtime.host_id@ })
                    &&& rt.tag_index == runtime.tag_index
                    &&& rt.bezalel_port == runtime.bezalel_port
                    &&& rt.realization_status == runtime.realization_status
                },
                None => false,
            },
            forall|k: Seq<char>| k != runtime.work_session_id@ ==> lookup(final(self).runtimes@, k) == lookup(old(self).runtimes@, k),
    {
        if self.host_id.as_str().unicode_len() == 0 {
            self.host_id = owned(this_host);
        }
        let mut rt = runtime;
        if rt.host_id.as_str().unicode_len() == 0 {
            rt.host_id = self.host_id.clone();
        }
        let key = rt.work_session_id.clone();
        let ghost old_entries = self.runtimes@;
        table_set(&mut self.runtimes, key, rt);
        proof {
            let e = self.runtimes@;
            assert forall|i: int| 0 <= i < e.len() implies #[trigger] e[i].0@ == e[i].1.work_session_id@ by {
                lemma_lookup_distinct(e, e[i].0@);
                if e[i].0@ != rt.work_session_id@ {
                    lemma_lookup_distinct(old_entries, e[i].0@);
                    let j = choose|j: int| 0 <= j < old_entries.len() && old_entries[j].0@ == e[i].0@;
                    assert(old_entries[j].0@ == old_entries[j].1.work_session_id@);
                }
            }
        }
    }

    /// Forget the realization of a WorkSession.
    pub fn remove(&mut self, work_session_id: &str)
        requires
            old(self).wf(),
        ensures
            final(self).wf(),
            final(self).version == old(self).version,
            final(self).host_id == old(self).host_id,
            lookup(final(self).runtimes@, work_session_id@) is None,
            forall|k: Seq<char>| k != work_session_id@ ==> lookup(final(self).runtimes@, k) == lookup(old(self).runtimes@, k),
    {
        let ghost old_entries = self.runtimes@;
        table_remove(&mut self.runtimes, work_session_id);
        proof {
            let e = self.runtimes@;
            assert forall|i: int| 0 <= i < e.len() implies #[trigger] e[i].0@ == e[i].1.work_session_id@ by {
                lemma_lookup_distinct(e, e[i].0@);
                lemma_lookup_distinct(old_entries, e[i].0@);
                let j = choose|j: int| 0 <= j < old_entries.len() && old_entries[j].0@ == e[i].0@;
                assert(old_entries[j].0@ == old_entries[j].1.work_session_id@);
            }
        }
    }

    /// Take out the realization of a WorkSession for changing, or a pending
    /// one for this document's host when there is none.
    pub fn take_for_update(&mut self, work_session_id: &str) -> (r: WorkSessionRuntime)
        requires
            old(self).wf(),
        ensures
            final(self).wf(),
            final(self).host_id == old(self).host_id,
            lookup(final(self).runtimes@, work_session_id@) is None,
            forall|k: Seq<char>| k != work_session_id@ ==> lookup(final(self).runtimes@, k) == lookup(old(self).runtimes@, k),
            match lookup(old(self).runtimes@, work_session_id@) {
                Some(rt) => r == rt,
                None => r.work_session_id@ == work_session_id@ && r.host_id@ == old(self).host_id@
                    && r.workspace is None && r.tag_index is None && r.bezalel_port is None
                    && r.realization_status == crate::model::runtime::RealizationStatus::Pending,
            },
    {
        let r = match find_key(&self.runtimes, work_session_id) {
            Some(i) => {
                proof {
                    crate::table::lemma_key_pos(keys_of(self.runtimes@), work_session_id@);
                }
                let ghost before = self.runtimes@;
                let (_, rt) = self.runtimes.remove(i);
                proof {
                    assert(keys_of(self.runtimes@) =~= keys_of(before).remove(i as int));
                    assert forall|a: int, b: int| 0 <= a < b < keys_of(self.runtimes@).len()
                        implies keys_of(self.runtimes@)[a] != keys_of(self.runtimes@)[b] by {
                        let a2 = if a < i { a } else { a + 1 };
                        let b2 = if b < i { b } else { b + 1 };
                        assert(keys_of(self.runtimes@)[a] == keys_of(before)[a2]);
                        assert(keys_of(self.runtimes@)[b] == keys_of(before)[b2]);
                    }
                    let e = self.runtimes@;
                    assert forall|j: int| 0 <= j < e.len() implies #[trigger] e[j].0@ == e[j].1.work_session_id@ by {
                        let j2 = if j < i { j } else { j + 1 };
                        assert(e[j] == before[j2]);
                    }
                    lemma_lookup_distinct(e, work_session_id@);
                    assert forall|j: int| 0 <= j < e.len() implies #[trigger] e[j].0@ != work_session_id@ by {
                        let j2 = if j < i { j } else { j + 1 };
                        assert(e[j] == before[j2]);
                        assert(keys_of(before)[j2] != keys_of(before)[i as int]);
                    }
                    assert forall|k: Seq<char>| k != work_session_id@ implies lookup(e, k) == lookup(before, k) by {
                        lemma_lookup_distinct(e, k);
                        lemma_lookup_distinct(before, k);
                        if exists|j: int| 0 <= j < before.len() && before[j].0@ == k {
                            let j = choose|j: int| 0 <= j < before.len() && before[j].0@ == k;
                            let j3 = if j < i { j } else { j - 1 };
                            assert(e[j3] == before[j]);
                        } else {
                            assert forall|j: int| 0 <= j < e.len() implies #[trigger] e[j].0@ != k by {
                                let j2 = if j < i { j } else { j + 1 };
                                assert(e[j] == before[j2]);
                            }
                        }
                    }
                }
                rt
            },
            None => WorkSessionRuntime::pending(work_session_id, self.host_id.as_str()),
        };
        r
    }
}

/// Error for a document of another version.
pub open spec fn version_error(version: u32) -> ErrorView {
    plain_error(ErrorCode::UnsupportedOldState,
        "runtime store version "@ + decimal(version as nat) + " unsupported (want 2)"@)
}

/// Accept a parsed document only at the current version.
pub fn check_version(doc: RuntimeDocument) -> (r: Result<RuntimeDocument, SwitchboardError>)
    ensures
        match r {
            Ok(d) => doc.version == DOCUMENT_VERSION && d == doc,
            Err(e) => doc.version != DOCUMENT_VERSION && e@ == version_error(doc.version),
        },
{
    if doc.version != DOCUMENT_VERSION {
        let v = u64_to_decimal(doc.version as u64);
        let a = concat("runtime store version ", v.as_str());
        let msg = concat(a.as_str(), " unsupported (want 2)");
        return Err(SwitchboardError::new(ErrorCode::UnsupportedOldState, msg.as_str()));
    }
    Ok(doc)
}

/// Error for an old workspace-episode state file found where no runtime document exists.
pub open spec fn legacy_error(path: Seq<char>) -> ErrorView {
    plain_error(ErrorCode::UnsupportedOldState,
        "unsupported old state at "@ + path
            + ": recreate WorkSessions in Switchboard; old workspace-episode state is not migrated"@)
}

/// An old state file is refused when it mentions `"workspaces"` and no
/// runtime document exists yet.
pub open spec fn legacy_refused(legacy_text: Option<Seq<char>>, runtime_exists: bool) -> bool {
    !runtime_exists && match legacy_text {
        Some(t) => has_infix(t, "\"workspaces\""@),
        None => false,
    }
}

/// Refuse an old state file (one holding `"workspaces"`) when there is no
/// runtime document yet. `legacy_text` is the old file's text where it exists
/// and reads.
pub fn legacy_state_check(legacy_path: &str, legacy_text: Option<&str>, runtime_exists: bool)
    -> (r: Result<(), SwitchboardError>)
    ensures
        match r {
            Err(e) => legacy_refused(crate::auth::opt_str(legacy_text), runtime_exists)
                && e@ == legacy_error(legacy_path@),
            Ok(()) => !legacy_refused(crate::auth::opt_str(legacy_text), runtime_exists),
        },
{
    if runtime_exists {
        return Ok(());
    }
    match legacy_text {
        Some(t) => {
            if contains_text(t, "\"workspaces\"") {
                let a = concat("unsupported old state at ", legacy_path);
                let msg = concat(a.as_str(), ": recreate WorkSessions in Switchboard; old workspace-episode state is not migrated");
                Err(SwitchboardError::new(ErrorCode::UnsupportedOldState, msg.as_str()))
            } else {
                Ok(())
            }
        },
        None => Ok(()),
    }
}

/// The host id, or `unknown-host` when the host name is not known.
pub fn host_id_or_unknown(host_name: Option<String>) -> (r: String)
    ensures
        r@ == match host_name {
            Some(h) => h@,
            None => "unknown-host"@,
        },
{
    match host_name {
        Some(h) => h,
        None => owned("unknown-host"),
    }
}

/// Tag indices held by realizations other than `exclude`'s.
pub open spec fn held_tags(rs: Seq<(String, WorkSessionRuntime)>, exclude: Seq<char>) -> Seq<i32>
    decreases rs.len(),
{
    if rs.len() == 0 {
        Seq::empty()
    } else {
        let rest = held_tags(rs.drop_last(), exclude);
        let last = rs.last().1;
        if last.work_session_id@ != exclude && last.tag_index is Some {
            rest.push(last.tag_index.unwrap())
        } else {
            rest
        }
    }
}

proof fn lemma_held_tags_len(rs: Seq<(String, WorkSessionRuntime)>, exclude: Seq<char>)
    ensures
        held_tags(rs, exclude).len() <= rs.len(),
    decreases rs.len(),
{
    if rs.len() > 0 {
        lemma_held_tags_len(rs.drop_last(), exclude);
    }
}

/// The smallest tag index from `TAG_OFFSET` on held by no other realization.
pub fn allocate_tag_index(doc: &RuntimeDocument, exclude: &str) -> (r: i32)
    requires
        TAG_OFFSET + doc.runtimes@.len() <= i32::MAX,
    ensures
        is_smallest_unused(held_tags(doc.runtimes@, exclude@), TAG_OFFSET as int, r as int),
{
    let mut used: Vec<i32> = Vec::new();
    let mut i: usize = 0;
    while i < doc.runtimes.len()
        invariant
            i <= doc.runtimes@.len(),
            used@ == held_tags(doc.runtimes@.subrange(0, i as int), exclude@),
        decreases doc.runtimes@.len() - i,
    {
        proof {
            assert(doc.runtimes@.subrange(0, i as int + 1).drop_last() =~= doc.runtimes@.subrange(0, i as int));
        }
        let rt = &doc.runtimes[i].1;
        if !str_eq(rt.work_session_id.as_str(), exclude) {
            match rt.tag_index {
                Some(t) => used.push(t),
                None => {},
            }
        }
        i = i + 1;
    }
    proof {
        assert(doc.runtimes@.subrange(0, doc.runtimes@.len() as int) =~= doc.runtimes@);
        lemma_held_tags_len(doc.runtimes@, exclude@);
    }
    smallest_unused(&used, TAG_OFFSET)
}

/// A realization other than `exclude`'s holds bezalel port `p`.
pub open spec fn bezalel_port_held(rs: Seq<(String, WorkSessionRuntime)>, exclude: Seq<char>, p: u16) -> bool {
    exists|i: int| 0 <= i < rs.len() && rs[i].1.work_session_id@ != exclude && rs[i].1.bezalel_port == Some(p)
}

fn port_held(doc: &RuntimeDocument, exclude: &str, p: u16) -> (r: bool)
    ensures
        r == bezalel_port_held(doc.runtimes@, exclude@, p),
{
    let mut i: usize = 0;
    while i < doc.runtimes.len()
        invariant
            i <= doc.runtimes@.len(),
            forall|j: int| 0 <= j < i ==> !(doc.runtimes@[j].1.work_session_id@ != exclude@ && doc.runtimes@[j].1.bezalel_port == Some(p)),
        decreases doc.runtimes@.len() - i,
    {
        let rt = &doc.runtimes[i].1;
        if !str_eq(rt.work_session_id.as_str(), exclude) && rt.bezalel_port == Some(p) {
            return true;
        }
        i = i + 1;
    }
    false
}

/// The first bezalel port in 9200..=9299 that no other realization holds and
/// that the probe reports free.
pub fn allocate_bezalel_port<F: Fn(u16) -> bool>(doc: &RuntimeDocument, exclude: &str, is_port_available: F) -> (r: Option<u16>)
    requires
        forall|p: u16| call_requires(is_port_available, (p,)),
    ensures
        match r {
            Some(p) => {
                &&& BEZALEL_PORT_BASE <= p <= BEZALEL_PORT_MAX
                &&& !bezalel_port_held(doc.runtimes@, exclude@, p)
                &&& call_ensures(is_port_available, (p,), true)
                &&& forall|q: u16| BEZALEL_PORT_BASE <= q < p ==> bezalel_port_held(doc.runtimes@, exclude@, q)
                    || call_ensures(is_port_available, (q,), false)
            },
            None => forall|q: u16| BEZALEL_PORT_BASE <= q <= BEZALEL_PORT_MAX ==> bezalel_port_held(doc.runtimes@, exclude@, q)
                || call_ensures(is_port_available, (q,), false),
        },
{
    let mut port: u16 = BEZALEL_PORT_BASE;
    while port <= BEZALEL_PORT_MAX
        invariant
            BEZALEL_PORT_BASE <= port <= BEZALEL_PORT_MAX + 1,
            forall|p: u16| call_requires(is_port_available, (p,)),
            forall|q: u16| BEZALEL_PORT_BASE <= q < port ==> bezalel_port_held(doc.runtimes@, exclude@, q)
                || call_ensures(is_port_available, (q,), false),
        decreases BEZALEL_PORT_MAX + 1 - port,
    {
        if !port_held(doc, exclude, port) {
            if is_port_available(port) {
                return Some(port);
            }
        }
        port = port + 1;
    }
    None
}

} // verus!
