//! Material Workspace resources and their bindings into WorkSessions.
use vstd::prelude::*;
use crate::text::owned;
use crate::json::{JsonValue, JsonView, entries_set, view_entries_of};

verus! {

/// Independently identified material Workspace Resource (git worktree/environment).
#[derive(Debug, Clone)]
pub struct WorkspaceResourceRef {
    pub workspace_id: String,
    pub resource_id: String,
    /// e.g. "git-worktree"
    pub environment_kind: String,
    /// Non-secret resolved filesystem locator.
    pub path: String,
}

/// WorkSession-owned binding of a Resource into the episode.
#[derive(Debug, Clone)]
pub struct ResourceBinding {
    pub work_session_id: String,
    pub resource_id: String,
    /// Non-secret resolved locator (path/URI).
    pub locator: String,
    /// Grant that narrows session policy (never credentials).
    pub grant: Option<JsonValue>,
}

/// The `workspace` member written for a binding.
pub open spec fn binding_object(resource_id: Seq<char>, kind: Seq<char>, locator: Seq<char>) -> JsonView {
    JsonView::Object(seq![
        ("kind"@, JsonView::Str(kind)),
        ("locator"@, JsonView::Str(locator)),
        ("resource_id"@, JsonView::Str(resource_id)),
    ])
}

fn binding_value(binding: &ResourceBinding, kind: &str) -> (r: JsonValue)
    ensures
        r@ == binding_object(binding.resource_id@, kind@, binding.locator@),
{
    let mut v: Vec<(String, JsonValue)> = Vec::new();
    v.push((owned("kind"), JsonValue::Str(owned(kind))));
    v.push((owned("locator"), JsonValue::Str(binding.locator.clone())));
    v.push((owned("resource_id"), JsonValue::Str(binding.resource_id.clone())));
    let r = JsonValue::Object(v);
    assert(crate::json::view_entries(v@) =~= seq![
        ("kind"@, JsonView::Str(kind@)),
        ("locator"@, JsonView::Str(binding.locator@)),
        ("resource_id"@, JsonView::Str(binding.resource_id@)),
    ]);
    r
}

/// Persist a host worktree binding in Switchboard WorkSession.policy.workspace.
pub fn workspace_binding_policy(binding: &ResourceBinding, kind: &str) -> (r: JsonValue)
    ensures
        r@ == JsonView::Object(seq![("workspace"@, binding_object(binding.resource_id@, kind@, binding.locator@))]),
{
    let r = JsonValue::empty_object().with_entry("workspace", binding_value(binding, kind));
    assert(entries_set(Seq::empty(), "workspace"@, binding_object(binding.resource_id@, kind@, binding.locator@))
        =~= seq![("workspace"@, binding_object(binding.resource_id@, kind@, binding.locator@))]);
    r
}

/// Merge a workspace binding into an existing policy object without dropping
/// other keys. A missing or non-object policy starts from the empty object.
pub fn merge_workspace_binding(existing: Option<&JsonValue>, binding: &ResourceBinding, kind: &str) -> (r: JsonValue)
    ensures
        r@ == JsonView::Object(entries_set(
            match existing {
                Some(e) => view_entries_of(e@),
                None => Seq::empty(),
            },
            "workspace"@,
            binding_object(binding.resource_id@, kind@, binding.locator@),
        )),
{
    let base = match existing {
        Some(e) => if e.is_object() { e.deep_clone() } else { JsonValue::empty_object() },
        None => JsonValue::empty_object(),
    };
    base.with_entry("workspace", binding_value(binding, kind))
}

} // verus!
