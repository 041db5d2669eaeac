//! Host-local realization records and secrets.
use vstd::prelude::*;
use crate::model::resource::{ResourceBinding, WorkspaceResourceRef};
use crate::table::{lookup, distinct, keys_of, table_set, table_remove, find_key, lemma_lookup_distinct};
use crate::text::owned;

verus! {

/// Host-local realization status (not authoritative WorkSession lifecycle).
#[derive(Debug, Clone, Copy, PartialEq, Eq, Structural)]
pub enum RealizationStatus {
    Pending,
    Ready,
    Degraded,
    Failed,
    Cleaned,
}

pub open spec fn status_name(s: RealizationStatus) -> Seq<char> {
    match s {
        RealizationStatus::Pending => "pending"@,
        RealizationStatus::Ready => "ready"@,
        RealizationStatus::Degraded => "degraded"@,
        RealizationStatus::Failed => "failed"@,
        RealizationStatus::Cleaned => "cleaned"@,
    }
}

impl RealizationStatus {
    pub fn default_status() -> (r: Self)
        ensures
            r == RealizationStatus::Pending,
    {
        RealizationStatus::Pending
    }

    pub fn as_str(self) -> (r: &'static str)
        ensures
            r@ == status_name(self),
    {
        match self {
            RealizationStatus::Pending => "pending",
            RealizationStatus::Ready => "ready",
            RealizationStatus::Degraded => "degraded",
            RealizationStatus::Failed => "failed",
            RealizationStatus::Cleaned => "cleaned",
        }
    }
}

/// Host-local runtime realization keyed by work_session_id.
///
/// Must not store Project/WorkProfile/WorkSession definitions or lifecycle
/// truth; foreign keys only.
#[derive(Debug, Clone)]
pub struct WorkSessionRuntime {
    pub work_session_id: String,
    /// Stable host identity for multi-host reconciliation.
    pub host_id: String,
    pub workspace: Option<WorkspaceResourceRef>,
    pub resource_binding: Option<ResourceBinding>,
    pub tag_index: Option<i32>,
    pub tag_name: Option<String>,
    pub headless: bool,
    pub bezalel_port: Option<u16>,
    /// Secret reference only (e.g. "bezalel:{work_session_id}").
    pub bezalel_token_ref: Option<String>,
    pub process_ids: Vec<u32>,
    pub realization_status: RealizationStatus,
    pub last_error: Option<String>,
}

impl WorkSessionRuntime {
    /// A pending record for a session with nothing realized yet.
    pub fn pending(work_session_id: &str, host_id: &str) -> (r: Self)
        ensures
            r.work_session_id@ == work_session_id@,
            r.host_id@ == host_id@,
            r.workspace is None,
            r.resource_binding is None,
            r.tag_index is None,
            r.tag_name is None,
            !r.headless,
            r.bezalel_port is None,
            r.bezalel_token_ref is None,
            r.process_ids@.len() == 0,
            r.realization_status == RealizationStatus::Pending,
            r.last_error is None,
    {
        WorkSessionRuntime {
            work_session_id: owned(work_session_id),
            host_id: owned(host_id),
            workspace: None,
            resource_binding: None,
            tag_index: None,
            tag_name: None,
            headless: false,
            bezalel_port: None,
            bezalel_token_ref: None,
            process_ids: Vec::new(),
            realization_status: RealizationStatus::Pending,
            last_error: None,
        }
    }
}

/// Host-local secrets (never sent to Switchboard): work_session_id → bezalel
/// bearer token, with distinct keys.
#[derive(Debug, Clone)]
pub struct RuntimeSecrets {
    pub bezalel_tokens: Vec<(String, String)>,
}

/// The token stored for a session.
pub open spec fn secret_of(s: RuntimeSecrets, ws: Seq<char>) -> Option<Seq<char>> {
    match lookup(s.bezalel_tokens@, ws) {
        Some(t) => Some(t@),
        None => None,
    }
}

impl RuntimeSecrets {
    pub open spec fn wf(&self) -> bool {
        distinct(keys_of(self.bezalel_tokens@))
    }

    pub fn new() -> (r: Self)
        ensures
            r.wf(),
            forall|k: Seq<char>| secret_of(r, k) is None,
    {
        let r = RuntimeSecrets { bezalel_tokens: Vec::new() };
        proof {
            assert forall|k: Seq<char>| secret_of(r, k) is None by {
                lemma_lookup_distinct(r.bezalel_tokens@, k);
            }
        }
        r
    }

    /// Store the bezalel token for a session.
    pub fn set_bezalel_token(&mut self, work_session_id: &str, token: &str)
        requires
            old(self).wf(),
        ensures
            final(self).wf(),
            secret_of(*final(self), work_session_id@) == Some(token@),
            forall|k: Seq<char>| k != work_session_id@ ==> secret_of(*final(self), k) == secret_of(*old(self), k),
    {
        table_set(&mut self.bezalel_tokens, owned(work_session_id), owned(token));
    }

    /// The bezalel token stored for a session.
    pub fn get_bezalel_token(&self, work_session_id: &str) -> (r: Option<String>)
        ensures
            match r {
                Some(t) => secret_of(*self, work_session_id@) == Some(t@),
                None => secret_of(*self, work_session_id@) is None,
            },
    {
        match find_key(&self.bezalel_tokens, work_session_id) {
            Some(i) => Some(self.bezalel_tokens[i].1.clone()),
            None => None,
        }
    }

    /// Forget the bezalel token of a session.
    pub fn clear_bezalel_token(&mut self, work_session_id: &str)
        requires
            old(self).wf(),
        ensures
            final(self).wf(),
            secret_of(*final(self), work_session_id@) is None,
            forall|k: Seq<char>| k != work_session_id@ ==> secret_of(*final(self), k) == secret_of(*old(self), k),
    {
        table_remove(&mut self.bezalel_tokens, work_session_id);
    }
}

} // verus!
