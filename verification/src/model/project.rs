//! Projects as stored in Switchboard: summaries, envelopes, snapshot pins and
//! the definition documents the forms build and update.
use vstd::prelude::*;
use crate::text::{owned, concat};
use crate::json::{JsonValue, JsonView, view_get, view_as_str, view_entries, view_get_str, view_str_items, str_array, string_array, str_items, entries_set, entries_remove, view_entries_of};
use crate::model::error::opt_view;

verus! {

/// Lightweight project row from Switchboard `project_list`.
#[derive(Debug, Clone)]
pub struct ProjectSummary {
    pub project_id: String,
    pub title: String,
    pub description: Option<String>,
    pub revision: Option<String>,
    pub source_revision: Option<String>,
}

/// Full project envelope from Switchboard `project_get` (definition + CAS tokens).
#[derive(Debug, Clone)]
pub struct ProjectEnvelope {
    pub project_id: String,
    pub revision: String,
    pub source_revision: String,
    /// Open definition object (may include resources, launch, extensions, …).
    pub definition: JsonValue,
    pub summary: Option<ProjectSummary>,
    pub uri: Option<String>,
}

/// Immutable pin of a Project revision/snapshot.
#[derive(Debug, Clone)]
pub struct ProjectSnapshotRef {
    pub project_id: String,
    pub project_revision: String,
    pub project_snapshot_id: String,
}

/// Host-local launch / worktree settings carried in Project definition extensions.
#[derive(Debug, Clone)]
pub struct AwesometreeExt {
    pub mcp: Option<String>,
    pub apps: Vec<String>,
    pub layout: String,
    pub worktree_dir: Option<String>,
}

/// Model of `AwesometreeExt`.
pub struct ExtView {
    pub mcp: Option<Seq<char>>,
    pub apps: Seq<Seq<char>>,
    pub layout: Seq<char>,
    pub worktree_dir: Option<Seq<char>>,
}

impl View for AwesometreeExt {
    type V = ExtView;

    open spec fn view(&self) -> ExtView {
        ExtView {
            mcp: opt_view(self.mcp),
            apps: Seq::new(self.apps@.len(), |i: int| self.apps@[i]@),
            layout: self.layout@,
            worktree_dir: opt_view(self.worktree_dir),
        }
    }
}

pub open spec fn default_ext() -> ExtView {
    ExtView { mcp: None, apps: Seq::empty(), layout: Seq::empty(), worktree_dir: None }
}

/// Serialized form of the extension blob with `wd_key` naming the worktree
/// directory: keys in order, empty lists, empty strings and absent options left out.
pub open spec fn ext_json_keyed(e: ExtView, wd_key: Seq<char>) -> JsonView {
    JsonView::Object(
        (if e.apps.len() > 0 { seq![("apps"@, str_array(e.apps))] } else { Seq::empty() })
        + (if e.layout.len() > 0 { seq![("layout"@, JsonView::Str(e.layout))] } else { Seq::empty() })
        + (match e.mcp { Some(m) => seq![("mcp"@, JsonView::Str(m))], None => Seq::empty() })
        + (match e.worktree_dir { Some(w) => seq![(wd_key, JsonView::Str(w))], None => Seq::empty() })
    )
}

/// Serialized form of the extension blob in a project definition (camelCase keys).
pub open spec fn ext_json(e: ExtView) -> JsonView {
    ext_json_keyed(e, "worktreeDir"@)
}

/// An optional string field: absent or null is `None`; `None` overall when the
/// value has another type.
pub open spec fn opt_str_field(j: JsonView, key: Seq<char>) -> Option<Option<Seq<char>>> {
    match view_get(j, key) {
        None => Some(None),
        Some(JsonView::Null) => Some(None),
        Some(JsonView::Str(s)) => Some(Some(s)),
        _ => None,
    }
}

/// A defaulted string field: absent is empty.
pub open spec fn str_field(j: JsonView, key: Seq<char>) -> Option<Seq<char>> {
    match view_get(j, key) {
        None => Some(Seq::empty()),
        Some(JsonView::Str(s)) => Some(s),
        _ => None,
    }
}

/// A defaulted list-of-strings field: absent is empty.
pub open spec fn str_list_field(j: JsonView, key: Seq<char>) -> Option<Seq<Seq<char>>> {
    match view_get(j, key) {
        None => Some(Seq::empty()),
        Some(v) => view_str_items(v),
    }
}

/// Decoding of the extension blob with `wd_key` naming the worktree directory;
/// anything that does not decode gives the default settings.
pub open spec fn ext_from_json_keyed(j: JsonView, wd_key: Seq<char>) -> ExtView {
    if j is Object && opt_str_field(j, "mcp"@) is Some && str_list_field(j, "apps"@) is Some
        && str_field(j, "layout"@) is Some && opt_str_field(j, wd_key) is Some {
        ExtView {
            mcp: opt_str_field(j, "mcp"@).unwrap(),
            apps: str_list_field(j, "apps"@).unwrap(),
            layout: str_field(j, "layout"@).unwrap(),
            worktree_dir: opt_str_field(j, wd_key).unwrap(),
        }
    } else {
        default_ext()
    }
}

/// Decoding of the extension blob in a project definition.
pub open spec fn ext_from_json(j: JsonView) -> ExtView {
    ext_from_json_keyed(j, "worktreeDir"@)
}

fn get_opt_str(j: &JsonValue, key: &str) -> (r: Option<Option<String>>)
    ensures
        match r {
            Some(o) => opt_str_field(j@, key@) == Some(opt_view(o)),
            None => opt_str_field(j@, key@) is None,
        },
{
    match j.get(key) {
        None => Some(None),
        Some(JsonValue::Null) => Some(None),
        Some(JsonValue::Str(s)) => Some(Some(s.clone())),
        Some(_) => None,
    }
}

fn get_str_field(j: &JsonValue, key: &str) -> (r: Option<String>)
    ensures
        match r {
            Some(s) => str_field(j@, key@) == Some(s@),
            None => str_field(j@, key@) is None,
        },
{
    match j.get(key) {
        None => Some(String::new()),
        Some(JsonValue::Str(s)) => Some(s.clone()),
        Some(_) => None,
    }
}

fn get_str_list(j: &JsonValue, key: &str) -> (r: Option<Vec<String>>)
    ensures
        match r {
            Some(v) => str_list_field(j@, key@) == Some(Seq::new(v@.len(), |i: int| v@[i]@)),
            None => str_list_field(j@, key@) is None,
        },
{
    match j.get(key) {
        None => {
            let v: Vec<String> = Vec::new();
            assert(Seq::new(v@.len(), |i: int| v@[i]@) =~= Seq::<Seq<char>>::empty());
            Some(v)
        },
        Some(v) => str_items(v),
    }
}

impl AwesometreeExt {
    pub fn default_ext() -> (r: Self)
        ensures
            r@ == default_ext(),
    {
        let r = AwesometreeExt { mcp: None, apps: Vec::new(), layout: String::new(), worktree_dir: None };
        assert(r@.apps =~= Seq::<Seq<char>>::empty());
        r
    }

    /// Serialized JSON form (camelCase keys).
    pub fn to_json(&self) -> (r: JsonValue)
        ensures
            r@ == ext_json(self@),
    {
        self.to_json_keyed("worktreeDir")
    }

    /// Serialized JSON form with `wd_key` naming the worktree directory.
    pub fn to_json_keyed(&self, wd_key: &str) -> (r: JsonValue)
        ensures
            r@ == ext_json_keyed(self@, wd_key@),
    {
        let mut v: Vec<(String, JsonValue)> = Vec::new();
        let ghost mut model: Seq<(Seq<char>, JsonView)> = Seq::empty();
        if self.apps.len() > 0 {
            v.push((owned("apps"), string_array(&self.apps)));
            proof { model = model.push(("apps"@, str_array(self@.apps))); }
        }
        assert(view_entries(v@) =~= model);
        if self.layout.as_str().unicode_len() > 0 {
            v.push((owned("layout"), JsonValue::Str(self.layout.clone())));
            proof { model = model.push(("layout"@, JsonView::Str(self.layout@))); }
        }
        assert(view_entries(v@) =~= model);
        match &self.mcp {
            Some(m) => {
                v.push((owned("mcp"), JsonValue::Str(m.clone())));
                proof { model = model.push(("mcp"@, JsonView::Str(m@))); }
            },
            None => {},
        }
        assert(view_entries(v@) =~= model);
        match &self.worktree_dir {
            Some(w) => {
                v.push((owned(wd_key), JsonValue::Str(w.clone())));
                proof { model = model.push((wd_key@, JsonView::Str(w@))); }
            },
            None => {},
        }
        assert(view_entries(v@) =~= model);
        let ghost e = self@;
        assert(model =~= (if e.apps.len() > 0 { seq![("apps"@, str_array(e.apps))] } else { Seq::empty() })
            + (if e.layout.len() > 0 { seq![("layout"@, JsonView::Str(e.layout))] } else { Seq::empty() })
            + (match e.mcp { Some(m) => seq![("mcp"@, JsonView::Str(m))], None => Seq::empty() })
            + (match e.worktree_dir { Some(w) => seq![(wd_key@, JsonView::Str(w))], None => Seq::empty() }));
        JsonValue::Object(v)
    }

    /// Decode the extension blob; anything that does not decode gives the defaults.
    pub fn from_json(j: &JsonValue) -> (r: Self)
        ensures
            r@ == ext_from_json(j@),
    {
        Self::from_json_keyed(j, "worktreeDir")
    }

    /// Decode the extension blob with `wd_key` naming the worktree directory.
    pub fn from_json_keyed(j: &JsonValue, wd_key: &str) -> (r: Self)
        ensures
            r@ == ext_from_json_keyed(j@, wd_key@),
    {
        if !j.is_object() {
            return AwesometreeExt::default_ext();
        }
        let mcp = get_opt_str(j, "mcp");
        let apps = get_str_list(j, "apps");
        let layout = get_str_field(j, "layout");
        let wd = get_opt_str(j, wd_key);
        match (mcp, apps, layout, wd) {
            (Some(mcp), Some(apps), Some(layout), Some(worktree_dir)) => {
                AwesometreeExt { mcp, apps, layout, worktree_dir }
            },
            _ => AwesometreeExt::default_ext(),
        }
    }

    pub fn is_empty_json(&self) -> (r: bool)
        ensures
            r == (ext_json(self@) == JsonView::Object(Seq::empty())),
    {
        let r = self.apps.len() == 0 && self.layout.as_str().unicode_len() == 0 && self.mcp.is_none()
            && self.worktree_dir.is_none();
        proof {
            let e = self@;
            if !r {
                if let JsonView::Object(es) = ext_json(e) {
                    assert(es.len() > 0);
                }
            }
        }
        r
    }
}


/// `d` with `k` set to `v` (as an object).
pub open spec fn set_key(d: JsonView, k: Seq<char>, v: JsonView) -> JsonView {
    JsonView::Object(entries_set(view_entries_of(d), k, v))
}

/// A resource whose `type` is `repo` or `git`.
pub open spec fn is_repo_resource(res: JsonView) -> bool {
    view_get_str(res, "type"@) == Some("repo"@) || view_get_str(res, "type"@) == Some("git"@)
}

/// Path of a repo resource: the first present of `path`, `root`, `repo`, as a string.
pub open spec fn res_path(res: JsonView) -> Option<Seq<char>> {
    let v = match view_get(res, "path"@) {
        Some(v) => Some(v),
        None => match view_get(res, "root"@) {
            Some(v) => Some(v),
            None => view_get(res, "repo"@),
        },
    };
    match v {
        Some(x) => view_as_str(x),
        None => None,
    }
}

/// Entries of the `resources` object.
pub open spec fn resources_entries(def: JsonView) -> Option<Seq<(Seq<char>, JsonView)>> {
    match view_get(def, "resources"@) {
        Some(JsonView::Object(es)) => Some(es),
        _ => None,
    }
}

pub open spec fn first_repo_path(es: Seq<(Seq<char>, JsonView)>, i: int) -> Option<Seq<char>>
    decreases es.len() - i,
{
    if i < 0 || i >= es.len() {
        None
    } else if is_repo_resource(es[i].1) && res_path(es[i].1) is Some {
        res_path(es[i].1)
    } else {
        first_repo_path(es, i + 1)
    }
}

pub open spec fn first_repo_branch(es: Seq<(Seq<char>, JsonView)>, i: int) -> Option<Seq<char>>
    decreases es.len() - i,
{
    if i < 0 || i >= es.len() {
        None
    } else if is_repo_resource(es[i].1) && view_get_str(es[i].1, "branch"@) is Some {
        view_get_str(es[i].1, "branch"@)
    } else {
        first_repo_branch(es, i + 1)
    }
}

/// Primary git repo path of a definition: top-level `repo`, else the first
/// repo resource (in entry order) that names a path.
pub open spec fn primary_repo_of(def: JsonView) -> Option<Seq<char>> {
    match view_get_str(def, "repo"@) {
        Some(r) => Some(r),
        None => match resources_entries(def) {
            Some(es) => first_repo_path(es, 0),
            None => None,
        },
    }
}

/// Branch of a definition: top-level `branch`, else that of the first repo resource naming one.
pub open spec fn branch_of(def: JsonView) -> Option<Seq<char>> {
    match view_get_str(def, "branch"@) {
        Some(b) => Some(b),
        None => match resources_entries(def) {
            Some(es) => first_repo_branch(es, 0),
            None => None,
        },
    }
}

fn is_repo_res(res: &JsonValue) -> (r: bool)
    ensures
        r == is_repo_resource(res@),
{
    match res.get_str("type") {
        Some(t) => crate::text::str_eq(t.as_str(), "repo") || crate::text::str_eq(t.as_str(), "git"),
        None => false,
    }
}

fn res_path_exec(res: &JsonValue) -> (r: Option<String>)
    ensures
        opt_view(r) == res_path(res@),
{
    let v = match res.get("path") {
        Some(v) => Some(v),
        None => match res.get("root") {
            Some(v) => Some(v),
            None => res.get("repo"),
        },
    };
    match v {
        Some(x) => match x.as_str() {
            Some(s) => Some(owned(s)),
            None => None,
        },
        None => None,
    }
}

impl ProjectEnvelope {
    /// Display name: definition `name`, else the project id.
    pub fn name(&self) -> (r: String)
        ensures
            r@ == match view_get_str(self.definition@, "name"@) {
                Some(n) => n,
                None => self.project_id@,
            },
    {
        match self.definition.get_str("name") {
            Some(n) => n,
            None => self.project_id.clone(),
        }
    }

    pub fn description(&self) -> (r: Option<String>)
        ensures
            opt_view(r) == view_get_str(self.definition@, "description"@),
    {
        self.definition.get_str("description")
    }

    /// Primary git repo path if present on the definition (legacy field or resources).
    pub fn primary_repo(&self) -> (r: Option<String>)
        ensures
            opt_view(r) == primary_repo_of(self.definition@),
    {
        if let Some(r) = self.definition.get_str("repo") {
            return Some(r);
        }
        let res = match self.definition.get("resources") {
            Some(v) => v,
            None => return None,
        };
        let es = match res.entries() {
            Some(es) => es,
            None => return None,
        };
        let ghost ev = view_entries(es@);
        assert(resources_entries(self.definition@) == Some(ev));
        let mut i: usize = 0;
        while i < es.len()
            invariant
                i <= es.len(),
                ev == view_entries(es@),
                view_get_str(self.definition@, "repo"@) is None,
                resources_entries(self.definition@) == Some(ev),
                first_repo_path(ev, 0) == first_repo_path(ev, i as int),
            decreases es.len() - i,
        {
            assert(ev[i as int].1 == es@[i as int].1@);
            if is_repo_res(&es[i].1) {
                if let Some(p) = res_path_exec(&es[i].1) {
                    return Some(p);
                }
            }
            i = i + 1;
        }
        None
    }

    pub fn branch(&self) -> (r: Option<String>)
        ensures
            opt_view(r) == branch_of(self.definition@),
    {
        if let Some(b) = self.definition.get_str("branch") {
            return Some(b);
        }
        let res = match self.definition.get("resources") {
            Some(v) => v,
            None => return None,
        };
        let es = match res.entries() {
            Some(es) => es,
            None => return None,
        };
        let ghost ev = view_entries(es@);
        assert(resources_entries(self.definition@) == Some(ev));
        let mut i: usize = 0;
        while i < es.len()
            invariant
                i <= es.len(),
                ev == view_entries(es@),
                view_get_str(self.definition@, "branch"@) is None,
                resources_entries(self.definition@) == Some(ev),
                first_repo_branch(ev, 0) == first_repo_branch(ev, i as int),
            decreases es.len() - i,
        {
            assert(ev[i as int].1 == es@[i as int].1@);
            if is_repo_res(&es[i].1) {
                if let Some(b) = es[i].1.get_str("branch") {
                    return Some(b);
                }
            }
            i = i + 1;
        }
        None
    }

    /// Awesometree extension blob under `definition.extensions["dev.awesometree"]`.
    pub fn awesometree_ext(&self) -> (r: AwesometreeExt)
        ensures
            r@ == match view_get(self.definition@, "extensions"@) {
                Some(e) => match view_get(e, "dev.awesometree"@) {
                    Some(v) => ext_from_json(v),
                    None => default_ext(),
                },
                None => default_ext(),
            },
    {
        match self.definition.get("extensions") {
            Some(e) => match e.get("dev.awesometree") {
                Some(v) => AwesometreeExt::from_json(v),
                None => AwesometreeExt::default_ext(),
            },
            None => AwesometreeExt::default_ext(),
        }
    }

    pub fn policy(&self) -> (r: Option<&JsonValue>)
        ensures
            match r {
                Some(p) => view_get(self.definition@, "policy"@) == Some(p@),
                None => view_get(self.definition@, "policy"@) is None,
            },
    {
        self.definition.get("policy")
    }

    pub fn snapshot_ref(&self) -> (r: ProjectSnapshotRef)
        ensures
            r.project_id@ == self.project_id@,
            r.project_revision@ == self.revision@,
            r.project_snapshot_id@ == "project://registry/projects/"@ + self.project_id@ + "/revisions/"@ + self.revision@,
    {
        let a = concat("project://registry/projects/", self.project_id.as_str());
        let b = concat(a.as_str(), "/revisions/");
        let c = concat(b.as_str(), self.revision.as_str());
        ProjectSnapshotRef {
            project_id: self.project_id.clone(),
            project_revision: self.revision.clone(),
            project_snapshot_id: c,
        }
    }
}


/// The resource written for a form repo path.
pub open spec fn primary_resource(r: Seq<char>) -> JsonView {
    JsonView::Object(seq![("path"@, JsonView::Str(r)), ("type"@, JsonView::Str("repo"@))])
}

/// Minimal definition built for project creation.
pub open spec fn definition_for_create_spec(
    project_id: Seq<char>,
    description: Option<Seq<char>>,
    repo: Option<Seq<char>>,
    branch: Option<Seq<char>>,
    ext: Option<ExtView>,
) -> JsonView {
    let d0 = JsonView::Object(seq![
        ("name"@, JsonView::Str(project_id)),
        ("resources"@, JsonView::Object(Seq::empty())),
        ("version"@, JsonView::Str("1"@)),
    ]);
    let d1 = match description { Some(d) => set_key(d0, "description"@, JsonView::Str(d)), None => d0 };
    let d2 = match repo {
        Some(r) => set_key(
            set_key(d1, "repo"@, JsonView::Str(r)),
            "resources"@,
            JsonView::Object(seq![("primary"@, primary_resource(r))]),
        ),
        None => d1,
    };
    let d3 = match branch { Some(b) => set_key(d2, "branch"@, JsonView::Str(b)), None => d2 };
    match ext {
        Some(e) => set_key(d3, "extensions"@, JsonView::Object(seq![("dev.awesometree"@, ext_json(e))])),
        None => d3,
    }
}

fn str_val(s: &str) -> (r: JsonValue)
    ensures
        r@ == JsonView::Str(s@),
{
    JsonValue::Str(owned(s))
}

fn primary_resource_value(r: &str) -> (v: JsonValue)
    ensures
        v@ == primary_resource(r@),
{
    let mut e: Vec<(String, JsonValue)> = Vec::new();
    e.push((owned("path"), str_val(r)));
    e.push((owned("type"), str_val("repo")));
    assert(view_entries(e@) =~= seq![("path"@, JsonView::Str(r@)), ("type"@, JsonView::Str("repo"@))]);
    JsonValue::Object(e)
}

fn single_entry(k: &str, v: JsonValue) -> (r: JsonValue)
    ensures
        r@ == JsonView::Object(seq![(k@, v@)]),
{
    let r = JsonValue::empty_object().with_entry(k, v);
    assert(entries_set(Seq::empty(), k@, v@) =~= seq![(k@, v@)]);
    r
}

/// Build a minimal Switchboard project definition for create.
pub fn definition_for_create(
    project_id: &str,
    description: Option<&str>,
    repo: Option<&str>,
    branch: Option<&str>,
    ext: Option<&AwesometreeExt>,
) -> (r: JsonValue)
    ensures
        r@ == definition_for_create_spec(
            project_id@,
            match description { Some(d) => Some(d@), None => None },
            match repo { Some(x) => Some(x@), None => None },
            match branch { Some(b) => Some(b@), None => None },
            match ext { Some(e) => Some(e@), None => None },
        ),
{
    let mut e: Vec<(String, JsonValue)> = Vec::new();
    e.push((owned("name"), str_val(project_id)));
    e.push((owned("resources"), JsonValue::empty_object()));
    e.push((owned("version"), str_val("1")));
    assert(view_entries(e@) =~= seq![
        ("name"@, JsonView::Str(project_id@)),
        ("resources"@, JsonView::Object(Seq::empty())),
        ("version"@, JsonView::Str("1"@)),
    ]);
    let mut def = JsonValue::Object(e);
    if let Some(d) = description {
        def = def.with_entry("description", str_val(d));
    }
    if let Some(r) = repo {
        def = def.with_entry("repo", str_val(r));
        def = def.with_entry("resources", single_entry("primary", primary_resource_value(r)));
    }
    if let Some(b) = branch {
        def = def.with_entry("branch", str_val(b));
    }
    if let Some(x) = ext {
        def = def.with_entry("extensions", single_entry("dev.awesometree", x.to_json()));
    }
    def
}

/// A repo resource updated with a new path and/or branch.
pub open spec fn update_res(res: JsonView, path: Option<Seq<char>>, branch: Option<Seq<char>>) -> JsonView {
    let e0 = view_entries_of(res);
    let e1 = match path { Some(p) => entries_set(e0, "path"@, JsonView::Str(p)), None => e0 };
    let e2 = match branch { Some(b) => entries_set(e1, "branch"@, JsonView::Str(b)), None => e1 };
    JsonView::Object(e2)
}

pub open spec fn update_repo_entries(es: Seq<(Seq<char>, JsonView)>, path: Option<Seq<char>>, branch: Option<Seq<char>>) -> Seq<(Seq<char>, JsonView)> {
    Seq::new(es.len(), |i: int| if is_repo_resource(es[i].1) { (es[i].0, update_res(es[i].1, path, branch)) } else { es[i] })
}

/// Every repo/git resource of the definition gets the given path and/or branch.
pub open spec fn update_repo_resources_spec(def: JsonView, path: Option<Seq<char>>, branch: Option<Seq<char>>) -> JsonView {
    match resources_entries(def) {
        Some(es) => set_key(def, "resources"@, JsonView::Object(update_repo_entries(es, path, branch))),
        None => def,
    }
}

/// Some entry is a repo/git resource.
pub open spec fn any_repo(es: Seq<(Seq<char>, JsonView)>) -> bool {
    exists|i: int| 0 <= i < es.len() && is_repo_resource(#[trigger] es[i].1)
}

pub open spec fn has_repo_resources(def: JsonView) -> bool {
    match resources_entries(def) {
        Some(es) => any_repo(es),
        None => false,
    }
}

/// `Some(s)` for a present non-empty string.
pub open spec fn filled(o: Option<Seq<char>>) -> Option<Seq<char>> {
    match o {
        Some(s) => if s.len() > 0 { Some(s) } else { None },
        None => None,
    }
}

/// What `merge_form_into_definition` builds.
pub open spec fn merge_form_spec(existing: JsonView, repo: Option<Seq<char>>, branch: Option<Seq<char>>, ext: ExtView) -> JsonView {
    let d0 = match existing {
        JsonView::Object(_) => existing,
        _ => JsonView::Object(seq![("version"@, JsonView::Str("1"@))]),
    };
    let d1 = set_key(d0, "version"@, JsonView::Str("1"@));
    let d2 = JsonView::Object(entries_remove(view_entries_of(d1), "name"@));
    let hr = has_repo_resources(d2);
    let htr = view_get_str(d2, "repo"@) is Some;
    let htb = view_get_str(d2, "branch"@) is Some;
    let d3 = match filled(repo) {
        Some(r) => {
            let a = if htr || !hr { set_key(d2, "repo"@, JsonView::Str(r)) } else { d2 };
            if hr {
                update_repo_resources_spec(a, Some(r), None)
            } else {
                let res = match view_get(a, "resources"@) {
                    Some(JsonView::Object(es)) => es,
                    _ => Seq::empty(),
                };
                set_key(a, "resources"@, JsonView::Object(entries_set(res, "primary"@, primary_resource(r))))
            }
        },
        None => d2,
    };
    let d4 = match filled(branch) {
        Some(b) => {
            let a = if hr { update_repo_resources_spec(d3, None, Some(b)) } else { d3 };
            if htb || !hr { set_key(a, "branch"@, JsonView::Str(b)) } else { a }
        },
        None => d3,
    };
    let ev = ext_json(ext);
    if ev == JsonView::Object(Seq::empty()) {
        d4
    } else {
        let exts = match view_get(d4, "extensions"@) {
            Some(JsonView::Object(es)) => es,
            _ => Seq::empty(),
        };
        set_key(d4, "extensions"@, JsonView::Object(entries_set(exts, "dev.awesometree"@, ev)))
    }
}

fn update_res_exec(res: &JsonValue, path: Option<&str>, branch: Option<&str>) -> (r: JsonValue)
    ensures
        r@ == update_res(res@, match path { Some(p) => Some(p@), None => None }, match branch { Some(b) => Some(b@), None => None }),
{
    let mut v = if res.is_object() { res.deep_clone() } else { JsonValue::empty_object() };
    assert(view_entries_of(v@) == view_entries_of(res@));
    if let Some(p) = path {
        v = v.with_entry("path", str_val(p));
    }
    if let Some(b) = branch {
        v = v.with_entry("branch", str_val(b));
    }
    if path.is_none() && branch.is_none() {
        v = if v.is_object() { v } else { JsonValue::empty_object() };
        proof {
            if !(res@ is Object) {
                assert(view_entries_of(res@) =~= Seq::empty());
            }
        }
    }
    v
}

fn update_repo_resources(def: JsonValue, path: Option<&str>, branch: Option<&str>) -> (r: JsonValue)
    ensures
        r@ == update_repo_resources_spec(def@, match path { Some(p) => Some(p@), None => None }, match branch { Some(b) => Some(b@), None => None }),
{
    let ghost pv = match path { Some(p) => Some(p@), None => None::<Seq<char>> };
    let ghost bv = match branch { Some(b) => Some(b@), None => None::<Seq<char>> };
    let newres = match def.get("resources") {
        Some(res) => match res.entries() {
            Some(es) => {
                let ghost ev = view_entries(es@);
                let mut out: Vec<(String, JsonValue)> = Vec::new();
                let mut i: usize = 0;
                while i < es.len()
                    invariant
                        i <= es.len(),
                        ev == view_entries(es@),
                        pv == match path { Some(p) => Some(p@), None => None::<Seq<char>> },
                        bv == match branch { Some(b) => Some(b@), None => None::<Seq<char>> },
                        out@.len() == i,
                        forall|k: int| 0 <= k < i ==> (#[trigger] view_entries(out@)[k]) == update_repo_entries(ev, pv, bv)[k],
                    decreases es.len() - i,
                {
                    assert(ev[i as int] == (es@[i as int].0@, es@[i as int].1@));
                    let ghost before = out@;
                    if is_repo_res(&es[i].1) {
                        out.push((es[i].0.clone(), update_res_exec(&es[i].1, path, branch)));
                        assert(view_entries(out@)[i as int] == update_repo_entries(ev, pv, bv)[i as int]);
                    } else {
                        out.push((es[i].0.clone(), es[i].1.deep_clone()));
                        assert(view_entries(out@)[i as int] == update_repo_entries(ev, pv, bv)[i as int]);
                    }
                    proof {
                        assert forall|k: int| 0 <= k < i + 1 implies (#[trigger] view_entries(out@)[k]) == update_repo_entries(ev, pv, bv)[k] by {
                            if k < i {
                                assert(out@[k] == before[k]);
                                assert(view_entries(before)[k] == update_repo_entries(ev, pv, bv)[k]);
                            }
                        }
                    }
                    i = i + 1;
                }
                assert(view_entries(out@) =~= update_repo_entries(ev, pv, bv));
                Some(JsonValue::Object(out))
            },
            None => None,
        },
        None => None,
    };
    match newres {
        Some(n) => def.with_entry("resources", n),
        None => def,
    }
}

fn has_repo_res_exec(def: &JsonValue) -> (r: bool)
    ensures
        r == has_repo_resources(def@),
{
    match def.get("resources") {
        Some(res) => match res.entries() {
            Some(es) => {
                let ghost ev = view_entries(es@);
                assert(resources_entries(def@) == Some(ev));
                let mut i: usize = 0;
                while i < es.len()
                    invariant
                        i <= es.len(),
                        ev == view_entries(es@),
                        resources_entries(def@) == Some(ev),
                        forall|k: int| 0 <= k < i ==> !is_repo_resource(#[trigger] ev[k].1),
                    decreases es.len() - i,
                {
                    assert(ev[i as int].1 == es@[i as int].1@);
                    if is_repo_res(&es[i].1) {
                        assert(is_repo_resource(ev[i as int].1));
                        assert(0 <= i < ev.len());
                        assert(any_repo(ev));
                        return true;
                    }
                    i = i + 1;
                }
                false
            },
            None => false,
        },
        None => false,
    }
}

fn filled_str<'a>(o: Option<&'a str>) -> (r: Option<&'a str>)
    ensures
        match r { Some(s) => filled(match o { Some(x) => Some(x@), None => None }) == Some(s@), None => filled(match o { Some(x) => Some(x@), None => None }) is None },
{
    match o {
        Some(s) => if s.unicode_len() > 0 { Some(s) } else { None },
        None => None,
    }
}

fn object_entries_or_empty(d: &JsonValue, key: &str) -> (r: JsonValue)
    ensures
        r@ == JsonView::Object(match view_get(d@, key@) {
            Some(JsonView::Object(es)) => es,
            _ => Seq::empty(),
        }),
{
    match d.get(key) {
        Some(v) => if v.is_object() { v.deep_clone() } else { JsonValue::empty_object() },
        None => JsonValue::empty_object(),
    }
}

/// Overlay form fields onto an existing Switchboard definition without
/// dropping unknown catalog fields. The immutable `name` is omitted from the
/// result, which is an update payload.
pub fn merge_form_into_definition(
    existing: &JsonValue,
    _project_id: &str,
    repo: Option<&str>,
    branch: Option<&str>,
    ext: &AwesometreeExt,
) -> (r: JsonValue)
    ensures
        r@ == merge_form_spec(
            existing@,
            match repo { Some(x) => Some(x@), None => None },
            match branch { Some(b) => Some(b@), None => None },
            ext@,
        ),
{
    let d0 = if existing.is_object() {
        existing.deep_clone()
    } else {
        let mut e: Vec<(String, JsonValue)> = Vec::new();
        e.push((owned("version"), str_val("1")));
        assert(view_entries(e@) =~= seq![("version"@, JsonView::Str("1"@))]);
        JsonValue::Object(e)
    };
    let d1 = d0.with_entry("version", str_val("1"));
    let d2 = d1.without_entry("name");
    let hr = has_repo_res_exec(&d2);
    let htr = d2.get_str("repo").is_some();
    let htb = d2.get_str("branch").is_some();
    let d3 = match filled_str(repo) {
        Some(r) => {
            let a = if htr || !hr { d2.with_entry("repo", str_val(r)) } else { d2 };
            if hr {
                update_repo_resources(a, Some(r), None)
            } else {
                let res = object_entries_or_empty(&a, "resources");
                let res2 = res.with_entry("primary", primary_resource_value(r));
                a.with_entry("resources", res2)
            }
        },
        None => d2,
    };
    let d4 = match filled_str(branch) {
        Some(b) => {
            let a = if hr { update_repo_resources(d3, None, Some(b)) } else { d3 };
            if htb || !hr { a.with_entry("branch", str_val(b)) } else { a }
        },
        None => d3,
    };
    if ext.is_empty_json() {
        d4
    } else {
        let exts = object_entries_or_empty(&d4, "extensions");
        let exts2 = exts.with_entry("dev.awesometree", ext.to_json());
        d4.with_entry("extensions", exts2)
    }
}

} // verus!
