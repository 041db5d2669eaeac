//! Switchboard WorkProfiles (session blueprints) and which apply to a project.
use vstd::prelude::*;
use crate::text::str_eq;
use crate::json::JsonValue;
use crate::model::error::opt_view;

verus! {

/// Switchboard WorkProfile.
#[derive(Debug, Clone)]
pub struct WorkProfile {
    pub version: String,
    pub work_profile_id: String,
    pub display_name: Option<String>,
    pub description: Option<String>,
    pub project_ids: Vec<String>,
    pub intended_resources: Vec<String>,
    pub default_policy: Option<JsonValue>,
}

/// A profile applies when it lists no projects (global) or lists this one.
pub open spec fn applies(p: WorkProfile, project_id: Seq<char>) -> bool {
    p.project_ids@.len() == 0 || exists|i: int| 0 <= i < p.project_ids@.len() && #[trigger] p.project_ids@[i]@ == project_id
}

/// Indices of the profiles a create form offers for `project_id`, in order.
pub open spec fn eligible_indices(ps: Seq<WorkProfile>, project_id: Seq<char>) -> Seq<int>
    decreases ps.len(),
{
    if project_id.len() == 0 || ps.len() == 0 {
        Seq::empty()
    } else {
        let rest = eligible_indices(ps.drop_last(), project_id);
        if applies(ps.last(), project_id) { rest.push(ps.len() - 1) } else { rest }
    }
}

impl WorkProfile {
    /// Display label: a non-empty display name, else the id.
    pub fn display(&self) -> (r: &str)
        ensures
            r@ == match opt_view(self.display_name) {
                Some(d) => if d.len() > 0 { d } else { self.work_profile_id@ },
                None => self.work_profile_id@,
            },
    {
        match &self.display_name {
            Some(d) => if d.as_str().unicode_len() > 0 { d.as_str() } else { self.work_profile_id.as_str() },
            None => self.work_profile_id.as_str(),
        }
    }

    /// Globally applicable when `project_ids` is empty; otherwise must list the project.
    pub fn applies_to(&self, project_id: &str) -> (r: bool)
        ensures
            r == applies(*self, project_id@),
    {
        if self.project_ids.len() == 0 {
            return true;
        }
        let mut i: usize = 0;
        while i < self.project_ids.len()
            invariant
                i <= self.project_ids@.len(),
                forall|k: int| 0 <= k < i ==> self.project_ids@[k]@ != project_id@,
            decreases self.project_ids@.len() - i,
        {
            if str_eq(self.project_ids[i].as_str(), project_id) {
                return true;
            }
            i = i + 1;
        }
        false
    }
}

/// Profiles a create form may offer for `project_id`, in order. An empty
/// `project_id` yields none; a profile with empty `project_ids` is global.
pub fn eligible_for_project<'a>(profiles: &'a Vec<WorkProfile>, project_id: &str) -> (r: Vec<&'a WorkProfile>)
    ensures
        r@.len() == eligible_indices(profiles@, project_id@).len(),
        forall|k: int| 0 <= k < r@.len() ==> *r@[k] == profiles@[#[trigger] eligible_indices(profiles@, project_id@)[k]],
{
    let mut r: Vec<&'a WorkProfile> = Vec::new();
    if project_id.unicode_len() == 0 {
        return r;
    }
    let mut i: usize = 0;
    while i < profiles.len()
        invariant
            i <= profiles@.len(),
            project_id@.len() > 0,
            r@.len() == eligible_indices(profiles@.subrange(0, i as int), project_id@).len(),
            forall|k: int| 0 <= k < r@.len() ==> 0 <= #[trigger] eligible_indices(profiles@.subrange(0, i as int), project_id@)[k] < i
                && *r@[k] == profiles@[eligible_indices(profiles@.subrange(0, i as int), project_id@)[k]],
        decreases profiles@.len() - i,
    {
        let ghost pre = profiles@.subrange(0, i as int);
        let ghost post = profiles@.subrange(0, i + 1);
        assert(post.drop_last() =~= pre);
        assert(post.last() == profiles@[i as int]);
        if profiles[i].applies_to(project_id) {
            r.push(&profiles[i]);
        }
        i = i + 1;
    }
    assert(profiles@.subrange(0, profiles@.len() as int) =~= profiles@);
    r
}

} // verus!
