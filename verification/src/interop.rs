//! Project-interop descriptors: where they live, how a repo-local file
//! overlays the user-level one, and how launch text is assembled.
use vstd::prelude::*;
use crate::text::{has_prefix, owned, concat, chars_of, string_from_chars, str_eq, str_views, in_names};
use crate::sorting::Keyed;
use crate::json::{JsonValue, JsonView, view_entries, view_entries_of, entries_set, view_get};
use crate::table::{keys_of, distinct, lookup, find_key, table_set, lemma_lookup_distinct};
use crate::model::error::opt_view;
use crate::model::project::{ExtView, ext_json_keyed, ext_from_json_keyed, default_ext};
use crate::paths::{join_path, path_join, expanded};

verus! {

/// Key of this host's block in a descriptor's extensions.
pub const EXT_KEY: &'static str = "dev.awesometree";

/// Schema URL written into new descriptors.
pub const DEFAULT_SCHEMA: &'static str = "https://project-interop.dev/schemas/v1/project.schema.json";

/// Root of the interop tree: `$XDG_CONFIG_HOME/project-interop`, else
/// `~/.config/project-interop`.
pub open spec fn base_dir_of(xdg: Option<Seq<char>>, home: Seq<char>) -> Seq<char> {
    match xdg {
        Some(x) => join_path(x, "project-interop"@),
        None => join_path(home, ".config/project-interop"@),
    }
}

/// Root of the interop tree, given `$XDG_CONFIG_HOME` (if set) and the home directory.
pub fn base_dir(xdg: Option<&str>, home: &str) -> (r: String)
    ensures
        r@ == base_dir_of(crate::auth::opt_str(xdg), home@),
{
    match xdg {
        Some(x) => path_join(x, "project-interop"),
        None => path_join(home, ".config/project-interop"),
    }
}

/// Directory of user-level descriptors.
pub fn projects_dir(xdg: Option<&str>, home: &str) -> (r: String)
    ensures
        r@ == join_path(base_dir_of(crate::auth::opt_str(xdg), home@), "projects"@),
{
    let b = base_dir(xdg, home);
    path_join(b.as_str(), "projects")
}

/// Context directory of a project.
pub fn context_dir(name: &str, xdg: Option<&str>, home: &str) -> (r: String)
    ensures
        r@ == join_path(join_path(base_dir_of(crate::auth::opt_str(xdg), home@), "context"@), name@),
{
    let b = base_dir(xdg, home);
    let c = path_join(b.as_str(), "context");
    path_join(c.as_str(), name)
}

/// Default parent of worktrees: `~/worktrees`.
pub fn worktree_base(home: &str) -> (r: String)
    ensures
        r@ == join_path(home@, "worktrees"@),
{
    path_join(home, "worktrees")
}

/// Expand a leading `~/`.
pub fn expand_home(p: &str, home: &str) -> (r: String)
    ensures
        r@ == expanded(p@, home@),
{
    crate::paths::expand_home(p, home)
}

/// File name of a user-level descriptor.
pub fn descriptor_file_name(name: &str) -> (r: String)
    ensures
        r@ == name@ + ".project.json"@,
{
    concat(name, ".project.json")
}

/// Whether a user-level descriptor may be deleted: one that does not exist
/// is refused with `project not found: <name>`; removing the file that does
/// exist is the caller's part.
pub fn delete(name: &str, descriptor_exists: bool) -> (r: Result<(), String>)
    ensures
        descriptor_exists <==> r is Ok,
        r matches Err(e) ==> e@ == "project not found: "@ + name@,
{
    if descriptor_exists {
        Ok(())
    } else {
        Err(concat("project not found: ", name))
    }
}

/// `str::replace`: every non-overlapping occurrence of `pat`, scanning from
/// the left, replaced by `rep`.
pub open spec fn replace_all(s: Seq<char>, pat: Seq<char>, rep: Seq<char>) -> Seq<char>
    decreases s.len(),
{
    if pat.len() == 0 || s.len() < pat.len() {
        s
    } else if s.subrange(0, pat.len() as int) == pat {
        rep + replace_all(s.subrange(pat.len() as int, s.len() as int), pat, rep)
    } else {
        seq![s[0]] + replace_all(s.drop_first(), pat, rep)
    }
}

fn chars_match_at(cs: &Vec<char>, i: usize, pat: &Vec<char>) -> (r: bool)
    requires
        i <= cs@.len(),
    ensures
        r == (i + pat@.len() <= cs@.len() && cs@.subrange(i as int, i + pat@.len()) == pat@),
{
    if pat.len() > cs.len() - i {
        return false;
    }
    let mut k: usize = 0;
    while k < pat.len()
        invariant
            k <= pat@.len(),
            i + pat@.len() <= cs@.len(),
            cs@.len() == cs.len(),
            forall|j: int| 0 <= j < k ==> cs@[i + j] == pat@[j],
        decreases pat@.len() - k,
    {
        if cs[i + k] != pat[k] {
            assert(cs@.subrange(i as int, i + pat@.len())[k as int] != pat@[k as int]);
            return false;
        }
        k = k + 1;
    }
    assert(cs@.subrange(i as int, i + pat@.len()) =~= pat@);
    true
}

/// Replace every occurrence of `pat` in `s` by `rep`.
pub fn replace_str(s: &str, pat: &str, rep: &str) -> (r: String)
    ensures
        r@ == replace_all(s@, pat@, rep@),
{
    let cs = chars_of(s);
    let cp = chars_of(pat);
    let cr = chars_of(rep);
    if cp.len() == 0 {
        return owned(s);
    }
    let mut out: Vec<char> = Vec::new();
    let mut i: usize = 0;
    proof {
        assert(cs@.subrange(0, cs@.len() as int) =~= cs@);
        assert(out@ + replace_all(cs@, cp@, cr@) =~= replace_all(cs@, cp@, cr@));
    }
    while i < cs.len()
        invariant
            i <= cs@.len(),
            cs@ == s@,
            cp@ == pat@,
            cr@ == rep@,
            cp@.len() > 0,
            out@ + replace_all(cs@.subrange(i as int, cs@.len() as int), cp@, cr@) == replace_all(cs@, cp@, cr@),
        decreases cs@.len() - i,
    {
        let ghost rest = cs@.subrange(i as int, cs@.len() as int);
        if chars_match_at(&cs, i, &cp) {
            proof {
                assert(rest.subrange(0, cp@.len() as int) =~= cs@.subrange(i as int, i + cp@.len()));
                assert(rest.subrange(cp@.len() as int, rest.len() as int) =~= cs@.subrange(i + cp@.len(), cs@.len() as int));
            }
            let ghost before = out@;
            let mut k: usize = 0;
            while k < cr.len()
                invariant
                    k <= cr@.len(),
                    out@ == before + cr@.subrange(0, k as int),
                decreases cr@.len() - k,
            {
                out.push(cr[k]);
                k = k + 1;
            }
            proof {
                assert(cr@.subrange(0, cr@.len() as int) =~= cr@);
                assert(before + replace_all(rest, cp@, cr@) == before + (cr@ + replace_all(cs@.subrange(i + cp@.len(), cs@.len() as int), cp@, cr@)));
                assert(before + (cr@ + replace_all(cs@.subrange(i + cp@.len(), cs@.len() as int), cp@, cr@))
                    =~= out@ + replace_all(cs@.subrange(i + cp@.len(), cs@.len() as int), cp@, cr@));
            }
            i = i + cp.len();
        } else {
            proof {
                if rest.len() >= cp@.len() {
                    assert(rest.subrange(0, cp@.len() as int) =~= cs@.subrange(i as int, i + cp@.len()));
                }
                assert(rest.drop_first() =~= cs@.subrange(i + 1, cs@.len() as int));
                assert(rest[0] == cs@[i as int]);
                if rest.len() < cp@.len() {
                    // the rest is copied unchanged
                    assert(replace_all(rest, cp@, cr@) == rest);
                    assert(rest.drop_first().len() < cp@.len());
                    assert(replace_all(rest.drop_first(), cp@, cr@) == rest.drop_first());
                    assert(rest =~= seq![rest[0]] + rest.drop_first());
                }
            }
            let ghost before = out@;
            out.push(cs[i]);
            proof {
                assert(before + replace_all(rest, cp@, cr@) =~= out@ + replace_all(cs@.subrange(i + 1, cs@.len() as int), cp@, cr@));
            }
            i = i + 1;
        }
    }
    proof {
        assert(cs@.subrange(i as int, cs@.len() as int) =~= Seq::<char>::empty());
        assert(out@ + Seq::<char>::empty() =~= out@);
    }
    string_from_chars(&out)
}

/// `{project}` replaced by the project name, then `{dir}` by the directory.
pub open spec fn interpolated(template: Seq<char>, project: Seq<char>, dir: Seq<char>) -> Seq<char> {
    replace_all(replace_all(template, "{project}"@, project), "{dir}"@, dir)
}

/// Fill the `{project}` and `{dir}` placeholders of a template.
pub fn interpolate(template: &str, project_name: &str, dir: &str) -> (r: String)
    ensures
        r@ == interpolated(template@, project_name@, dir@),
{
    let a = replace_str(template, "{project}", project_name);
    replace_str(a.as_str(), "{dir}", dir)
}

/// A string table as a map from key to value.
pub open spec fn str_table_map(t: Seq<(String, String)>) -> Map<Seq<char>, Seq<char>> {
    Map::new(|k: Seq<char>| lookup(t, k) is Some, |k: Seq<char>| lookup(t, k).unwrap()@)
}

/// A JSON-valued table as a map from key to value.
pub open spec fn json_table_map(t: Seq<(String, JsonValue)>) -> Map<Seq<char>, JsonView> {
    Map::new(|k: Seq<char>| lookup(t, k) is Some, |k: Seq<char>| lookup(t, k).unwrap()@)
}

/// Launch settings of a project.
#[derive(Debug)]
pub struct Launch {
    pub prompt: Option<String>,
    pub prompt_file: Option<String>,
    /// Environment overrides, one entry per variable.
    pub env: Option<Vec<(String, String)>>,
}

/// Model of `Launch`.
pub struct LaunchView {
    pub prompt: Option<Seq<char>>,
    pub prompt_file: Option<Seq<char>>,
    pub env: Option<Map<Seq<char>, Seq<char>>>,
}

impl View for Launch {
    type V = LaunchView;

    open spec fn view(&self) -> LaunchView {
        LaunchView {
            prompt: opt_view(self.prompt),
            prompt_file: opt_view(self.prompt_file),
            env: match self.env {
                Some(t) => Some(str_table_map(t@)),
                None => None,
            },
        }
    }
}

impl Launch {
    /// Each variable occurs once.
    pub open spec fn wf(&self) -> bool {
        match self.env {
            Some(t) => distinct(keys_of(t@)),
            None => true,
        }
    }

    /// No prompt, no prompt file, no environment.
    pub fn empty() -> (r: Self)
        ensures
            r.wf(),
            r.prompt is None,
            r.prompt_file is None,
            r.env is None,
    {
        Launch { prompt: None, prompt_file: None, env: None }
    }
}

/// Context files bundled for agents.
#[derive(Debug)]
pub struct ContextConfig {
    pub files: Option<Vec<String>>,
    pub repo_includes: Option<Vec<String>>,
    pub max_bytes: Option<usize>,
}

/// Model of `ContextConfig`.
pub struct ContextView {
    pub files: Option<Seq<Seq<char>>>,
    pub repo_includes: Option<Seq<Seq<char>>>,
    pub max_bytes: Option<usize>,
}

pub open spec fn opt_strs(o: Option<Vec<String>>) -> Option<Seq<Seq<char>>> {
    match o {
        Some(v) => Some(crate::text::str_views(v@)),
        None => None,
    }
}

impl View for ContextConfig {
    type V = ContextView;

    open spec fn view(&self) -> ContextView {
        ContextView {
            files: opt_strs(self.files),
            repo_includes: opt_strs(self.repo_includes),
            max_bytes: self.max_bytes,
        }
    }
}

/// This host's settings inside a descriptor's extensions (snake_case keys).
#[derive(Debug)]
pub struct AwesometreeExt {
    pub mcp: Option<String>,
    pub apps: Vec<String>,
    pub layout: String,
    pub worktree_dir: Option<String>,
}

impl View for AwesometreeExt {
    type V = ExtView;

    open spec fn view(&self) -> ExtView {
        ExtView {
            mcp: opt_view(self.mcp),
            apps: crate::text::str_views(self.apps@),
            layout: self.layout@,
            worktree_dir: opt_view(self.worktree_dir),
        }
    }
}

impl AwesometreeExt {
    /// No settings.
    pub fn default_ext() -> (r: Self)
        ensures
            r@ == default_ext(),
    {
        let r = AwesometreeExt { mcp: None, apps: Vec::new(), layout: String::new(), worktree_dir: None };
        assert(r@.apps =~= Seq::<Seq<char>>::empty());
        r
    }

    /// Serialized form.
    pub fn to_json(&self) -> (r: JsonValue)
        ensures
            r@ == ext_json_keyed(self@, "worktree_dir"@),
    {
        let m = crate::model::project::AwesometreeExt {
            mcp: self.mcp.clone(),
            apps: clone_strings(&self.apps),
            layout: self.layout.clone(),
            worktree_dir: self.worktree_dir.clone(),
        };
        proof {
            assert(m@.apps =~= self@.apps);
        }
        m.to_json_keyed("worktree_dir")
    }

    /// Decode the serialized form; anything that does not decode gives no settings.
    pub fn from_json(j: &JsonValue) -> (r: Self)
        ensures
            r@ == ext_from_json_keyed(j@, "worktree_dir"@),
    {
        let m = crate::model::project::AwesometreeExt::from_json_keyed(j, "worktree_dir");
        let r = AwesometreeExt { mcp: m.mcp, apps: m.apps, layout: m.layout, worktree_dir: m.worktree_dir };
        proof {
            assert(r@.apps =~= m@.apps);
        }
        r
    }
}

fn clone_strings(v: &Vec<String>) -> (r: Vec<String>)
    ensures
        r@ == v@,
{
    let mut out: Vec<String> = Vec::new();
    let mut i: usize = 0;
    while i < v.len()
        invariant
            i <= v@.len(),
            out@ == v@.subrange(0, i as int),
        decreases v@.len() - i,
    {
        out.push(v[i].clone());
        i = i + 1;
    }
    out
}

impl Default for Launch {
    fn default() -> (r: Self)
        ensures
            r.wf(),
            r.prompt is None,
            r.prompt_file is None,
            r.env is None,
    {
        Launch::empty()
    }
}

impl Default for ContextConfig {
    fn default() -> (r: Self)
        ensures
            r.files is None,
            r.repo_includes is None,
            r.max_bytes is None,
    {
        ContextConfig { files: None, repo_includes: None, max_bytes: None }
    }
}

impl Default for AwesometreeExt {
    fn default() -> (r: Self)
        ensures
            r@ == default_ext(),
    {
        AwesometreeExt::default_ext()
    }
}

/// A project-interop descriptor.
#[derive(Debug)]
pub struct Project {
    pub schema: Option<String>,
    pub version: String,
    pub name: String,
    pub repo: Option<String>,
    pub branch: Option<String>,
    pub launch: Option<Launch>,
    pub tools: Option<JsonValue>,
    pub context: Option<ContextConfig>,
    pub agents: Option<JsonValue>,
    /// Vendor extension blocks, one entry per key.
    pub extensions: Option<Vec<(String, JsonValue)>>,
}

/// Model of `Project`.
pub struct ProjectView {
    pub schema: Option<Seq<char>>,
    pub version: Seq<char>,
    pub name: Seq<char>,
    pub repo: Option<Seq<char>>,
    pub branch: Option<Seq<char>>,
    pub launch: Option<LaunchView>,
    pub tools: Option<JsonView>,
    pub context: Option<ContextView>,
    pub agents: Option<JsonView>,
    pub extensions: Option<Map<Seq<char>, JsonView>>,
}

pub open spec fn opt_json(o: Option<JsonValue>) -> Option<JsonView> {
    match o {
        Some(j) => Some(j@),
        None => None,
    }
}

impl View for Project {
    type V = ProjectView;

    open spec fn view(&self) -> ProjectView {
        ProjectView {
            schema: opt_view(self.schema),
            version: self.version@,
            name: self.name@,
            repo: opt_view(self.repo),
            branch: opt_view(self.branch),
            launch: match self.launch {
                Some(l) => Some(l@),
                None => None,
            },
            tools: opt_json(self.tools),
            context: match self.context {
                Some(c) => Some(c@),
                None => None,
            },
            agents: opt_json(self.agents),
            extensions: match self.extensions {
                Some(t) => Some(json_table_map(t@)),
                None => None,
            },
        }
    }
}

impl Default for Project {
    fn default() -> (r: Self)
        ensures
            r.wf(),
            r.schema is None,
            r.version@ == Seq::<char>::empty(),
            r.name@ == Seq::<char>::empty(),
            r.repo is None,
            r.branch is None,
            r.launch is None,
            r.tools is None,
            r.context is None,
            r.agents is None,
            r.extensions is None,
    {
        Project {
            schema: None,
            version: String::new(),
            name: String::new(),
            repo: None,
            branch: None,
            launch: None,
            tools: None,
            context: None,
            agents: None,
            extensions: None,
        }
    }
}

impl Project {
    /// Environment variables and extension keys each occur once.
    pub open spec fn wf(&self) -> bool {
        &&& match self.launch {
            Some(l) => l.wf(),
            None => true,
        }
        &&& match self.extensions {
            Some(t) => distinct(keys_of(t@)),
            None => true,
        }
    }

    /// A version-1 descriptor with the default schema, a repo and a branch.
    pub fn new(name: &str, repo: &str, branch: &str) -> (r: Self)
        ensures
            r.wf(),
            r@ == (ProjectView {
                schema: Some(DEFAULT_SCHEMA@),
                version: "1"@,
                name: name@,
                repo: Some(repo@),
                branch: Some(branch@),
                launch: None,
                tools: None,
                context: None,
                agents: None,
                extensions: None,
            }),
    {
        Project {
            schema: Some(owned(DEFAULT_SCHEMA)),
            version: owned("1"),
            name: owned(name),
            repo: Some(owned(repo)),
            branch: Some(owned(branch)),
            launch: None,
            tools: None,
            context: None,
            agents: None,
            extensions: None,
        }
    }

    /// The repo path with `~/` expanded.
    pub fn repo_path(&self, home: &str) -> (r: Option<String>)
        ensures
            opt_view(r) == match self.repo {
                Some(p) => Some(expanded(p@, home@)),
                None => None,
            },
    {
        match &self.repo {
            Some(p) => Some(expand_home(p.as_str(), home)),
            None => None,
        }
    }

    /// The branch, or `master`.
    pub fn branch_or_default(&self) -> (r: &str)
        ensures
            r@ == match self.branch {
                Some(b) => b@,
                None => "master"@,
            },
    {
        match &self.branch {
            Some(b) => b.as_str(),
            None => "master",
        }
    }

    /// This host's settings, decoded from the extensions; none where absent or malformed.
    pub fn awesometree_ext(&self) -> (r: AwesometreeExt)
        requires
            self.wf(),
        ensures
            r@ == match self@.extensions {
                Some(m) => if m.contains_key(EXT_KEY@) { ext_from_json_keyed(m[EXT_KEY@], "worktree_dir"@) } else { default_ext() },
                None => default_ext(),
            },
    {
        match &self.extensions {
            Some(t) => match find_key(t, EXT_KEY) {
                Some(i) => {
                    proof {
                        crate::table::lemma_key_pos(keys_of(t@), EXT_KEY@);
                    }
                    AwesometreeExt::from_json(&t[i].1)
                },
                None => AwesometreeExt::default_ext(),
            },
            None => AwesometreeExt::default_ext(),
        }
    }

    /// Store this host's settings in the extensions, keeping other keys.
    pub fn set_awesometree_ext(&mut self, ext: &AwesometreeExt)
        requires
            old(self).wf(),
        ensures
            final(self).wf(),
            final(self)@ == (ProjectView {
                extensions: Some(match old(self)@.extensions {
                    Some(m) => m.insert(EXT_KEY@, ext_json_keyed(ext@, "worktree_dir"@)),
                    None => Map::empty().insert(EXT_KEY@, ext_json_keyed(ext@, "worktree_dir"@)),
                }),
                ..old(self)@
            }),
    {
        let val = ext.to_json();
        let ghost vv = val@;
        let mut t = match self.extensions.take() {
            Some(t) => t,
            None => Vec::new(),
        };
        let ghost old_t = t@;
        table_set(&mut t, owned(EXT_KEY), val);
        proof {
            if old(self).extensions is Some {
                assert(json_table_map(t@) =~= json_table_map(old_t).insert(EXT_KEY@, vv));
            } else {
                assert forall|k: Seq<char>| #![auto] lookup(old_t, k) is None by {
                    lemma_lookup_distinct(old_t, k);
                }
                assert(json_table_map(t@) =~= Map::<Seq<char>, JsonView>::empty().insert(EXT_KEY@, vv));
            }
        }
        self.extensions = Some(t);
    }

    /// The MCP URL of this host's settings, with placeholders filled.
    pub fn resolved_mcp_url(&self, dir: &str) -> (r: Option<String>)
        requires
            self.wf(),
        ensures
            opt_view(r) == match self.awesometree_ext_spec().mcp {
                Some(url) => Some(interpolated(url, self.name@, dir@)),
                None => None,
            },
    {
        let ext = self.awesometree_ext();
        match ext.mcp {
            Some(url) => Some(interpolate(url.as_str(), self.name.as_str(), dir)),
            None => None,
        }
    }

    /// This host's settings, as decoded by `awesometree_ext`.
    pub open spec fn awesometree_ext_spec(&self) -> ExtView {
        match self@.extensions {
            Some(m) => if m.contains_key(EXT_KEY@) { ext_from_json_keyed(m[EXT_KEY@], "worktree_dir"@) } else { default_ext() },
            None => default_ext(),
        }
    }
}

/// Every entry of `over` set into `base`, in order.
pub open spec fn set_all(base: Seq<(Seq<char>, JsonView)>, over: Seq<(Seq<char>, JsonView)>) -> Seq<(Seq<char>, JsonView)>
    decreases over.len(),
{
    if over.len() == 0 {
        base
    } else {
        set_all(entries_set(base, over[0].0, over[0].1), over.drop_first())
    }
}

/// Two objects merge key by key, the overlay winning; otherwise the overlay replaces the base.
pub open spec fn merged_json(base: JsonView, overlay: JsonView) -> JsonView {
    match (base, overlay) {
        (JsonView::Object(b), JsonView::Object(o)) => JsonView::Object(set_all(b, o)),
        _ => overlay,
    }
}

/// Merge two JSON values: objects key by key with the overlay winning, anything else replaced.
pub fn merge_json_objects(base: JsonValue, overlay: JsonValue) -> (r: JsonValue)
    ensures
        r@ == merged_json(base@, overlay@),
{
    match (base, overlay) {
        (JsonValue::Object(b), JsonValue::Object(o)) => {
            let ghost be = view_entries(b@);
            let ghost oe = view_entries(o@);
            let mut cur = JsonValue::Object(b);
            let mut i: usize = 0;
            proof {
                assert(oe.subrange(0, oe.len() as int) =~= oe);
            }
            while i < o.len()
                invariant
                    i <= o@.len(),
                    oe == view_entries(o@),
                    cur@ is Object,
                    set_all(be, oe) == set_all(view_entries_of(cur@), oe.subrange(i as int, oe.len() as int)),
                decreases o@.len() - i,
            {
                let ghost ce = view_entries_of(cur@);
                let ghost sub = oe.subrange(i as int, oe.len() as int);
                proof {
                    assert(sub.drop_first() =~= oe.subrange(i as int + 1, oe.len() as int));
                    assert(sub[0] == oe[i as int]);
                    assert(oe[i as int] == (o@[i as int].0@, o@[i as int].1@));
                }
                let val = o[i].1.deep_clone();
                cur = cur.with_entry(o[i].0.as_str(), val);
                i = i + 1;
            }
            proof {
                assert(oe.subrange(i as int, oe.len() as int) =~= Seq::<(Seq<char>, JsonView)>::empty());
            }
            cur
        },
        (_, overlay) => overlay,
    }
}

pub open spec fn prefer_over<A>(base: Option<A>, over: Option<A>) -> Option<A> {
    match over {
        Some(x) => Some(x),
        None => base,
    }
}

pub open spec fn merged_json_opt(base: Option<JsonView>, over: Option<JsonView>) -> Option<JsonView> {
    match over {
        Some(o) => Some(match base {
            Some(b) => merged_json(b, o),
            None => o,
        }),
        None => base,
    }
}

pub open spec fn or_empty_map<A>(m: Option<Map<Seq<char>, A>>) -> Map<Seq<char>, A> {
    match m {
        Some(x) => x,
        None => Map::empty(),
    }
}

pub open spec fn merged_map_opt<A>(base: Option<Map<Seq<char>, A>>, over: Option<Map<Seq<char>, A>>) -> Option<Map<Seq<char>, A>> {
    match over {
        Some(o) => Some(or_empty_map(base).union_prefer_right(o)),
        None => base,
    }
}

/// Launch settings of the overlay laid over the base's.
pub open spec fn merged_launch(base: Option<LaunchView>, over: Option<LaunchView>) -> Option<LaunchView> {
    match over {
        None => base,
        Some(o) => {
            let t = match base {
                Some(b) => b,
                None => LaunchView { prompt: None, prompt_file: None, env: None },
            };
            Some(LaunchView {
                prompt: prefer_over(t.prompt, o.prompt),
                prompt_file: prefer_over(t.prompt_file, o.prompt_file),
                env: merged_map_opt(t.env, o.env),
            })
        },
    }
}

pub open spec fn extended(base: Option<Seq<Seq<char>>>, over: Option<Seq<Seq<char>>>) -> Option<Seq<Seq<char>>> {
    match over {
        Some(o) => Some(match base {
            Some(b) => b + o,
            None => o,
        }),
        None => base,
    }
}

/// Context settings of the overlay laid over the base's: lists extend, the byte cap is replaced.
pub open spec fn merged_context(base: Option<ContextView>, over: Option<ContextView>) -> Option<ContextView> {
    match over {
        None => base,
        Some(o) => {
            let t = match base {
                Some(b) => b,
                None => ContextView { files: None, repo_includes: None, max_bytes: None },
            };
            Some(ContextView {
                files: extended(t.files, o.files),
                repo_includes: extended(t.repo_includes, o.repo_includes),
                max_bytes: prefer_over(t.max_bytes, o.max_bytes),
            })
        },
    }
}

/// A repo-local descriptor laid over the user-level one.
pub open spec fn merged_project(base: ProjectView, over: ProjectView) -> ProjectView {
    ProjectView {
        schema: base.schema,
        version: base.version,
        name: base.name,
        repo: prefer_over(base.repo, over.repo),
        branch: prefer_over(base.branch, over.branch),
        launch: merged_launch(base.launch, over.launch),
        tools: merged_json_opt(base.tools, over.tools),
        context: merged_context(base.context, over.context),
        agents: merged_json_opt(base.agents, over.agents),
        extensions: merged_map_opt(base.extensions, over.extensions),
    }
}

/// Error text when the two descriptors name different projects.
pub open spec fn name_mismatch(base: Seq<char>, over: Seq<char>) -> Seq<char> {
    "project name mismatch: user-level '"@ + base + "' vs repo-local '"@ + over + "'"@
}

fn merge_opt_json(base: Option<JsonValue>, over: Option<JsonValue>) -> (r: Option<JsonValue>)
    ensures
        opt_json(r) == merged_json_opt(opt_json(base), opt_json(over)),
{
    match over {
        Some(o) => Some(match base {
            Some(b) => merge_json_objects(b, o),
            None => o,
        }),
        None => base,
    }
}

fn merge_str_tables(base: Option<Vec<(String, String)>>, over: Option<Vec<(String, String)>>) -> (r: Option<Vec<(String, String)>>)
    requires
        base matches Some(b) ==> distinct(keys_of(b@)),
        over matches Some(o) ==> distinct(keys_of(o@)),
    ensures
        r matches Some(t) ==> distinct(keys_of(t@)),
        (match r { Some(t) => Some(str_table_map(t@)), None => None })
            == merged_map_opt(
                match base { Some(t) => Some(str_table_map(t@)), None => None },
                match over { Some(t) => Some(str_table_map(t@)), None => None },
            ),
{
    match over {
        Some(o) => {
            let ghost ov = o@;
            let mut t = match base {
                Some(b) => b,
                None => Vec::new(),
            };
            let ghost bv = t@;
            proof {
                if base is None {
                    assert forall|k: Seq<char>| #![auto] lookup(bv, k) is None by {
                        lemma_lookup_distinct(bv, k);
                    }
                    assert(str_table_map(bv) =~= Map::<Seq<char>, Seq<char>>::empty());
                }
            }
            crate::table::merge_into(&mut t, o);
            proof {
                assert(str_table_map(t@) =~= str_table_map(bv).union_prefer_right(str_table_map(ov)));
            }
            Some(t)
        },
        None => base,
    }
}

fn merge_json_tables(base: Option<Vec<(String, JsonValue)>>, over: Option<Vec<(String, JsonValue)>>) -> (r: Option<Vec<(String, JsonValue)>>)
    requires
        base matches Some(b) ==> distinct(keys_of(b@)),
        over matches Some(o) ==> distinct(keys_of(o@)),
    ensures
        r matches Some(t) ==> distinct(keys_of(t@)),
        (match r { Some(t) => Some(json_table_map(t@)), None => None })
            == merged_map_opt(
                match base { Some(t) => Some(json_table_map(t@)), None => None },
                match over { Some(t) => Some(json_table_map(t@)), None => None },
            ),
{
    match over {
        Some(o) => {
            let ghost ov = o@;
            let mut t = match base {
                Some(b) => b,
                None => Vec::new(),
            };
            let ghost bv = t@;
            proof {
                if base is None {
                    assert forall|k: Seq<char>| #![auto] lookup(bv, k) is None by {
                        lemma_lookup_distinct(bv, k);
                    }
                    assert(json_table_map(bv) =~= Map::<Seq<char>, JsonView>::empty());
                }
            }
            crate::table::merge_into(&mut t, o);
            proof {
                assert(json_table_map(t@) =~= json_table_map(bv).union_prefer_right(json_table_map(ov)));
            }
            Some(t)
        },
        None => base,
    }
}

fn extend_strings(base: Option<Vec<String>>, over: Option<Vec<String>>) -> (r: Option<Vec<String>>)
    ensures
        opt_strs(r) == extended(opt_strs(base), opt_strs(over)),
{
    match over {
        Some(o) => {
            let mut t = match base {
                Some(b) => b,
                None => Vec::new(),
            };
            let ghost tv = t@;
            let mut i: usize = 0;
            while i < o.len()
                invariant
                    i <= o@.len(),
                    t@ == tv + o@.subrange(0, i as int),
                decreases o@.len() - i,
            {
                t.push(o[i].clone());
                i = i + 1;
            }
            proof {
                assert(o@.subrange(0, o@.len() as int) =~= o@);
                assert(crate::text::str_views(t@) =~= crate::text::str_views(tv) + crate::text::str_views(o@));
                if base is None {
                    assert(crate::text::str_views(t@) =~= crate::text::str_views(o@));
                }
            }
            Some(t)
        },
        None => base,
    }
}

fn merge_launch(base: Option<Launch>, over: Option<Launch>) -> (r: Option<Launch>)
    requires
        base matches Some(b) ==> b.wf(),
        over matches Some(o) ==> o.wf(),
    ensures
        r matches Some(l) ==> l.wf(),
        (match r { Some(l) => Some(l@), None => None })
            == merged_launch(match base { Some(l) => Some(l@), None => None }, match over { Some(l) => Some(l@), None => None }),
{
    match over {
        None => base,
        Some(o) => {
            let t = match base {
                Some(b) => b,
                None => Launch::empty(),
            };
            let prompt = match o.prompt {
                Some(p) => Some(p),
                None => t.prompt,
            };
            let prompt_file = match o.prompt_file {
                Some(p) => Some(p),
                None => t.prompt_file,
            };
            let env = merge_str_tables(t.env, o.env);
            Some(Launch { prompt, prompt_file, env })
        },
    }
}

fn merge_context(base: Option<ContextConfig>, over: Option<ContextConfig>) -> (r: Option<ContextConfig>)
    ensures
        (match r { Some(c) => Some(c@), None => None })
            == merged_context(match base { Some(c) => Some(c@), None => None }, match over { Some(c) => Some(c@), None => None }),
{
    match over {
        None => base,
        Some(o) => {
            let t = match base {
                Some(b) => b,
                None => ContextConfig { files: None, repo_includes: None, max_bytes: None },
            };
            let files = extend_strings(t.files, o.files);
            let repo_includes = extend_strings(t.repo_includes, o.repo_includes);
            let max_bytes = match o.max_bytes {
                Some(m) => Some(m),
                None => t.max_bytes,
            };
            Some(ContextConfig { files, repo_includes, max_bytes })
        },
    }
}

/// Lay a repo-local descriptor over the user-level one. A non-empty overlay
/// name must match the base's.
pub fn merge(base: Project, overlay: Project) -> (r: Result<Project, String>)
    requires
        base.wf(),
        overlay.wf(),
    ensures
        match r {
            Ok(m) => {
                &&& !(overlay.name@.len() > 0 && overlay.name@ != base.name@)
                &&& m.wf()
                &&& m@ == merged_project(base@, overlay@)
            },
            Err(e) => overlay.name@.len() > 0 && overlay.name@ != base.name@
                && e@ == name_mismatch(base.name@, overlay.name@),
        },
{
    if overlay.name.as_str().unicode_len() > 0 && !str_eq(overlay.name.as_str(), base.name.as_str()) {
        let a = concat("project name mismatch: user-level '", base.name.as_str());
        let b = concat(a.as_str(), "' vs repo-local '");
        let c = concat(b.as_str(), overlay.name.as_str());
        return Err(concat(c.as_str(), "'"));
    }
    let repo = match overlay.repo {
        Some(x) => Some(x),
        None => base.repo,
    };
    let branch = match overlay.branch {
        Some(x) => Some(x),
        None => base.branch,
    };
    let launch = merge_launch(base.launch, overlay.launch);
    let tools = merge_opt_json(base.tools, overlay.tools);
    let context = merge_context(base.context, overlay.context);
    let agents = merge_opt_json(base.agents, overlay.agents);
    let extensions = merge_json_tables(base.extensions, overlay.extensions);
    Ok(Project {
        schema: base.schema,
        version: base.version,
        name: base.name,
        repo,
        branch,
        launch,
        tools,
        context,
        agents,
        extensions,
    })
}

/// The model of a descriptor with nothing set.
pub open spec fn blank_project() -> ProjectView {
    ProjectView {
        schema: None,
        version: Seq::empty(),
        name: Seq::empty(),
        repo: None,
        branch: None,
        launch: None,
        tools: None,
        context: None,
        agents: None,
        extensions: None,
    }
}

/// An overlay that sets nothing leaves the user-level descriptor as it is.
pub proof fn law_merge_blank_overlay(base: ProjectView)
    ensures
        merged_project(base, blank_project()) == base,
{
}

/// The repo-local descriptor wins: whatever it sets (repo, branch, launch
/// prompt and prompt file, context byte cap) is what the merge holds, and
/// whatever it leaves unset keeps the user-level value; the name, schema and
/// version stay the user-level ones.
pub proof fn law_merge_overlay_wins(base: ProjectView, over: ProjectView)
    ensures
        ({
            let m = merged_project(base, over);
            &&& m.name == base.name && m.schema == base.schema && m.version == base.version
            &&& (over.repo matches Some(x) ==> m.repo == Some(x))
            &&& (over.repo is None ==> m.repo == base.repo)
            &&& (over.branch matches Some(x) ==> m.branch == Some(x))
            &&& (over.branch is None ==> m.branch == base.branch)
            &&& (over.launch is None ==> m.launch == base.launch)
            &&& (over.launch matches Some(ol) ==> m.launch matches Some(ml) && {
                    &&& (ol.prompt matches Some(x) ==> ml.prompt == Some(x))
                    &&& (ol.prompt_file matches Some(x) ==> ml.prompt_file == Some(x))
                    &&& (ol.prompt is None ==> ml.prompt == match base.launch { Some(bl) => bl.prompt, None => None })
                    &&& (ol.prompt_file is None ==> ml.prompt_file == match base.launch { Some(bl) => bl.prompt_file, None => None })
                })
            &&& (over.context matches Some(oc) ==> m.context matches Some(mc)
                    && (oc.max_bytes matches Some(x) ==> mc.max_bytes == Some(x)))
            &&& (over.context is None ==> m.context == base.context)
            &&& (over.context matches Some(oc) ==> m.context matches Some(mc)
                    && (oc.files matches Some(of) ==> mc.files == Some(match base.context {
                        Some(bc) => match bc.files { Some(bf) => bf + of, None => of },
                        None => of,
                    })))
            &&& (over.tools is None ==> m.tools == base.tools)
            &&& (over.agents is None ==> m.agents == base.agents)
            &&& (over.extensions is None ==> m.extensions == base.extensions)
            &&& (over.extensions matches Some(oe) ==> m.extensions matches Some(me)
                    && forall|k: Seq<char>| #[trigger] oe.contains_key(k) ==> me.contains_key(k) && me[k] == oe[k])
        }),
{
}

/// Merging an object with an empty object gives the object back.
pub proof fn law_merge_json_empty(base: Seq<(Seq<char>, JsonView)>)
    ensures
        merged_json(JsonView::Object(base), JsonView::Object(Seq::empty())) == JsonView::Object(base),
{
}

/// Launch text: the inline prompt and the prompt file's text, each with
/// placeholders filled, joined by a newline; empty without launch settings.
pub open spec fn launch_prompt_text(launch: Option<LaunchView>, name: Seq<char>, dir: Seq<char>, file_text: Option<Seq<char>>) -> Seq<char> {
    match launch {
        None => Seq::empty(),
        Some(l) => {
            let a = match l.prompt {
                Some(p) => Some(interpolated(p, name, dir)),
                None => None,
            };
            let b = match (l.prompt_file, file_text) {
                (Some(_), Some(t)) => Some(interpolated(t, name, dir)),
                _ => None,
            };
            match (a, b) {
                (Some(x), Some(y)) => x + "\n"@ + y,
                (Some(x), None) => x,
                (None, Some(y)) => y,
                (None, None) => Seq::empty(),
            }
        },
    }
}

/// Assemble the launch prompt. `prompt_file_text` is the text of the launch
/// prompt file when it was read; it is ignored when no prompt file is set.
pub fn assemble_launch_prompt(project: &Project, dir: &str, prompt_file_text: Option<&str>) -> (r: Result<String, String>)
    ensures
        r matches Ok(t) && t@ == launch_prompt_text(
            match project.launch { Some(l) => Some(l@), None => None },
            project.name@,
            dir@,
            crate::auth::opt_str(prompt_file_text),
        ),
{
    let launch = match &project.launch {
        Some(l) => l,
        None => return Ok(String::new()),
    };
    let a = match &launch.prompt {
        Some(p) => Some(interpolate(p.as_str(), project.name.as_str(), dir)),
        None => None,
    };
    let b = match (&launch.prompt_file, prompt_file_text) {
        (Some(_), Some(t)) => Some(interpolate(t, project.name.as_str(), dir)),
        _ => None,
    };
    match (a, b) {
        (Some(x), Some(y)) => {
            let x1 = concat(x.as_str(), "\n");
            Ok(concat(x1.as_str(), y.as_str()))
        },
        (Some(x), None) => Ok(x),
        (None, Some(y)) => Ok(y),
        (None, None) => Ok(String::new()),
    }
}

/// Name of the marker entry that ends a bundle cut at its byte cap.
pub open spec fn truncated_name() -> Seq<char> {
    "__truncated__"@
}

/// Text of the marker entry for cap `max`.
pub open spec fn truncated_text(max: usize) -> Seq<char> {
    "Context truncated at "@ + crate::decimal::decimal(max as nat) + " bytes"@
}

/// A context bundle being filled: files in the order offered, each name once,
/// until the bytes read exceed the cap; then a marker entry ends it.
pub struct ContextBundle {
    entries: Vec<(String, String)>,
    seen: Vec<String>,
    total: usize,
    max_bytes: usize,
    done: bool,
}

impl ContextBundle {
    /// Entries so far, by view.
    pub closed spec fn entries_view(&self) -> Seq<(Seq<char>, Seq<char>)> {
        Seq::new(self.entries@.len(), |i: int| (self.entries@[i].0@, self.entries@[i].1@))
    }

    /// Names already taken in.
    pub closed spec fn seen_view(&self) -> Seq<Seq<char>> {
        crate::text::str_views(self.seen@)
    }

    /// Bytes taken in so far.
    pub closed spec fn total_view(&self) -> nat {
        self.total as nat
    }

    /// The cap.
    pub closed spec fn cap(&self) -> usize {
        self.max_bytes
    }

    /// Whether the bundle has been cut.
    pub closed spec fn is_done(&self) -> bool {
        self.done
    }

    /// An empty bundle with byte cap `max_bytes`.
    pub fn new(max_bytes: usize) -> (r: Self)
        ensures
            r.entries_view() == Seq::<(Seq<char>, Seq<char>)>::empty(),
            r.seen_view() == Seq::<Seq<char>>::empty(),
            r.total_view() == 0,
            r.cap() == max_bytes,
            !r.is_done(),
    {
        let r = ContextBundle { entries: Vec::new(), seen: Vec::new(), total: 0, max_bytes, done: false };
        assert(r.entries_view() =~= Seq::<(Seq<char>, Seq<char>)>::empty());
        assert(r.seen_view() =~= Seq::<Seq<char>>::empty());
        r
    }

    /// Whether a file named `name` is still wanted: the bundle is not cut and
    /// the name is not taken in yet.
    pub fn wants(&self, name: &str) -> (r: bool)
        ensures
            r == (!self.is_done() && !crate::text::in_names(self.seen_view(), name@)),
    {
        !self.done && !crate::text::contains_str(&self.seen, name)
    }

    /// Take in a file's text. When the bytes so far exceed the cap, the marker
    /// entry is added instead and the bundle is cut; the result tells whether
    /// it was.
    pub fn add(&mut self, name: String, content: String) -> (cut: bool)
        requires
            !old(self).is_done(),
        ensures
            final(self).cap() == old(self).cap(),
            cut == final(self).is_done(),
            cut == (old(self).total_view() + crate::crypto::utf8(content@).len() > old(self).cap()),
            cut ==> final(self).entries_view() == old(self).entries_view().push(
                (truncated_name(), truncated_text(old(self).cap()))),
            !cut ==> {
                &&& final(self).entries_view() == old(self).entries_view().push((name@, content@))
                &&& final(self).seen_view() == old(self).seen_view().push(name@)
                &&& final(self).total_view() == old(self).total_view() + crate::crypto::utf8(content@).len()
            },
    {
        let n = content.as_str().as_bytes().len();
        let ghost ev = self.entries_view();
        let ghost sv = self.seen_view();
        if self.total > self.max_bytes || n > self.max_bytes - self.total {
            let num = crate::decimal::u64_to_decimal(self.max_bytes as u64);
            let a = concat("Context truncated at ", num.as_str());
            let msg = concat(a.as_str(), " bytes");
            self.entries.push((owned("__truncated__"), msg));
            self.done = true;
            proof {
                assert(self.entries_view() =~= ev.push((truncated_name(), truncated_text(self.max_bytes))));
            }
            true
        } else {
            self.total = self.total + n;
            let ghost cv = content@;
            self.seen.push(name.clone());
            self.entries.push((name, content));
            proof {
                assert(self.entries_view() =~= ev.push((self.entries@.last().0@, cv)));
                assert(self.seen_view() =~= sv.push(self.seen@.last()@));
            }
            false
        }
    }

    /// The bundle's entries.
    pub fn into_entries(self) -> (r: Vec<(String, String)>)
        ensures
            Seq::new(r@.len(), |i: int| (r@[i].0@, r@[i].1@)) == self.entries_view(),
    {
        self.entries
    }
}

impl crate::sorting::Keyed for Project {
    open spec fn key(&self) -> Seq<char> {
        self.name@
    }

    fn key_text(&self) -> (r: &str) {
        self.name.as_str()
    }
}

/// A descriptor file of the catalog is named `<name>.project.json`.
pub fn is_descriptor_file(file_name: &str) -> (r: bool)
    ensures
        r == crate::text::has_suffix(file_name@, ".project.json"@),
{
    crate::text::ends_with(file_name, ".project.json")
}

/// Descriptors the catalog lists: version 1 and named.
pub open spec fn listed_descriptor(p: Project) -> bool {
    p.version@ == "1"@ && p.name@.len() > 0
}

/// The catalog: the listed descriptors among those read, ordered by name.
pub fn catalog(read: Vec<Project>) -> (r: Vec<Project>)
    ensures
        crate::sorting::sorted_by_key(r@),
        r@.to_multiset() == read@.filter(|p: Project| listed_descriptor(p)).to_multiset(),
{
    let ghost pred = |p: Project| listed_descriptor(p);
    let ghost all = read@;
    let n = read.len();
    let mut rest = read;
    let mut kept: Vec<Project> = Vec::new();
    let mut i: usize = 0;
    assert(all.subrange(0, n as int) =~= all);
    while rest.len() > 0
        invariant
            i + rest@.len() == n,
            all.len() == n,
            rest@ == all.subrange(i as int, n as int),
            pred == (|p: Project| listed_descriptor(p)),
            kept@ == all.subrange(0, i as int).filter(pred),
        decreases rest@.len(),
    {
        let p = rest.remove(0);
        proof {
            reveal(Seq::filter);
            assert(all.subrange(0, i as int + 1).drop_last() =~= all.subrange(0, i as int));
            assert(all.subrange(0, i as int + 1).last() == all[i as int]);
            assert(p == all[i as int]);
            assert(rest@ =~= all.subrange(i as int + 1, n as int));
        }
        if str_eq(p.version.as_str(), "1") && p.name.unicode_len() > 0 {
            kept.push(p);
        }
        i = i + 1;
    }
    crate::sorting::sort_by_key(kept)
}

/// `str::lines`: the pieces between newlines, a `\r` before a newline
/// dropped, and no final empty piece.
pub open spec fn std_lines(s: Seq<char>) -> Seq<Seq<char>> {
    let p = crate::text::split_lines(s);
    let body = p.drop_last().map_values(|l: Seq<char>| if l.len() > 0 && l.last() == '\r' { l.drop_last() } else { l });
    if p.last().len() == 0 { body } else { body.push(p.last()) }
}

/// A branch name as `git branch -a` prints it, without a leading `origin/`.
pub open spec fn clean_branch(l: Seq<char>) -> Seq<char> {
    match crate::text::without_prefix(l, "origin/"@) {
        Some(rest) => rest,
        None => l,
    }
}

/// A cleaned line names a branch unless it is empty or `HEAD`.
pub open spec fn names_branch(l: Seq<char>) -> bool {
    clean_branch(l).len() > 0 && clean_branch(l) != "HEAD"@
}

fn strip_cr(l: String) -> (r: String)
    ensures
        r@ == if l@.len() > 0 && l@.last() == '\r' { l@.drop_last() } else { l@ },
{
    let n = l.unicode_len();
    if n > 0 && l.as_str().get_char(n - 1) == '\r' {
        crate::text::prefix_to(l.as_str(), n - 1)
    } else {
        l
    }
}

/// The lines of a text (`str::lines`).
pub fn std_lines_exec(s: &str) -> (r: Vec<String>)
    ensures
        str_views(r@) == std_lines(s@),
{
    let pieces = crate::text::split_lines_exec(s);
    proof {
        crate::text::lemma_split_lines_nonempty(s@);
    }
    let ghost p = str_views(pieces@);
    let ghost f = |l: Seq<char>| if l.len() > 0 && l.last() == '\r' { l.drop_last() } else { l };
    let n = pieces.len();
    let mut out: Vec<String> = Vec::new();
    let mut i: usize = 0;
    while i + 1 < n
        invariant
            n == pieces@.len(),
            n >= 1,
            i + 1 <= n,
            p == str_views(pieces@),
            f == (|l: Seq<char>| if l.len() > 0 && l.last() == '\r' { l.drop_last() } else { l }),
            str_views(out@) == p.subrange(0, i as int).map_values(f),
        decreases n - i,
    {
        let c = strip_cr(pieces[i].clone());
        let ghost before = out@;
        out.push(c);
        assert(str_views(out@) =~= str_views(before).push(c@));
        assert(p.subrange(0, i as int + 1).map_values(f) =~= p.subrange(0, i as int).map_values(f).push(f(p[i as int])));
        i = i + 1;
    }
    assert(p.drop_last() =~= p.subrange(0, n as int - 1));
    if pieces[n - 1].unicode_len() > 0 {
        let ghost before = out@;
        out.push(pieces[n - 1].clone());
        assert(str_views(out@) =~= str_views(before).push(p.last()));
    }
    out
}

/// Branch names in the output of `git branch -a --format=%(refname:short)`:
/// each line without `origin/`, empty lines and `HEAD` left out, each name
/// once, in order.
pub fn branch_names(output: &str) -> (r: Vec<String>)
    ensures
        forall|i: int, j: int| 0 <= i < j < r@.len() ==> crate::sorting::lex_le(#[trigger] r@[i]@, #[trigger] r@[j]@)
            && r@[i]@ != r@[j]@,
        forall|x: Seq<char>| in_names(str_views(r@), x) <==>
            exists|k: int| 0 <= k < std_lines(output@).len() && #[trigger] clean_branch(std_lines(output@)[k]) == x
                && names_branch(std_lines(output@)[k]),
{
    let lines = std_lines_exec(output);
    let ghost ls = std_lines(output@);
    let mut names: Vec<String> = Vec::new();
    let mut i: usize = 0;
    while i < lines.len()
        invariant
            i <= lines@.len(),
            str_views(lines@) == ls,
            forall|x: Seq<char>| in_names(str_views(names@), x) <==>
                exists|k: int| 0 <= k < i && #[trigger] clean_branch(ls[k]) == x && names_branch(ls[k]),
        decreases lines@.len() - i,
    {
        let line = lines[i].as_str();
        let clean = match crate::text::strip_prefix(line, "origin/") {
            Some(rest) => rest,
            None => owned(line),
        };
        let ghost before = names@;
        proof {
            assert(ls[i as int] == line@);
            assert(clean@ == clean_branch(ls[i as int]));
        }
        if clean.unicode_len() > 0 && !str_eq(clean.as_str(), "HEAD") {
            names.push(clean);
            proof {
                assert(str_views(names@) =~= str_views(before).push(clean_branch(ls[i as int])));
                assert forall|x: Seq<char>| in_names(str_views(names@), x) <==>
                    exists|k: int| 0 <= k < i + 1 && #[trigger] clean_branch(ls[k]) == x && names_branch(ls[k]) by {
                    if in_names(str_views(names@), x) {
                        let m = choose|m: int| 0 <= m < str_views(names@).len() && str_views(names@)[m] == x;
                        if m == before.len() {
                            assert(clean_branch(ls[i as int]) == x);
                        } else {
                            assert(str_views(before)[m] == x);
                            assert(in_names(str_views(before), x));
                        }
                    }
                    if exists|k: int| 0 <= k < i + 1 && #[trigger] clean_branch(ls[k]) == x && names_branch(ls[k]) {
                        let k = choose|k: int| 0 <= k < i + 1 && #[trigger] clean_branch(ls[k]) == x && names_branch(ls[k]);
                        if k == i {
                            assert(str_views(names@)[before.len() as int] == x);
                        } else {
                            assert(in_names(str_views(before), x));
                            let m = choose|m: int| 0 <= m < str_views(before).len() && str_views(before)[m] == x;
                            assert(str_views(names@)[m] == x);
                        }
                    }
                }
            }
        } else {
            proof {
                assert forall|x: Seq<char>| in_names(str_views(names@), x) <==>
                    exists|k: int| 0 <= k < i + 1 && #[trigger] clean_branch(ls[k]) == x && names_branch(ls[k]) by {
                    if exists|k: int| 0 <= k < i + 1 && #[trigger] clean_branch(ls[k]) == x && names_branch(ls[k]) {
                        let k = choose|k: int| 0 <= k < i + 1 && #[trigger] clean_branch(ls[k]) == x && names_branch(ls[k]);
                        assert(k != i);
                    }
                }
            }
        }
        i = i + 1;
    }
    let ghost nv = names@;
    let sorted = crate::sorting::sort_by_key(names);
    proof {
        lemma_same_names(sorted@, nv);
    }
    dedup_sorted(sorted)
}

/// Lists that are rearrangements of each other hold the same names.
proof fn lemma_same_names(a: Seq<String>, b: Seq<String>)
    requires
        a.to_multiset() == b.to_multiset(),
    ensures
        forall|x: Seq<char>| in_names(str_views(a), x) <==> in_names(str_views(b), x),
{
    broadcast use vstd::seq_lib::group_to_multiset_ensures;
    assert forall|x: Seq<char>| in_names(str_views(a), x) implies in_names(str_views(b), x) by {
        let m = choose|m: int| 0 <= m < str_views(a).len() && str_views(a)[m] == x;
        assert(a.contains(a[m]));
        assert(b.to_multiset().count(a[m]) > 0);
        assert(b.contains(a[m]));
        let k = choose|k: int| 0 <= k < b.len() && b[k] == a[m];
        assert(str_views(b)[k] == x);
    }
    assert forall|x: Seq<char>| in_names(str_views(b), x) implies in_names(str_views(a), x) by {
        let m = choose|m: int| 0 <= m < str_views(b).len() && str_views(b)[m] == x;
        assert(b.contains(b[m]));
        assert(a.to_multiset().count(b[m]) > 0);
        assert(a.contains(b[m]));
        let k = choose|k: int| 0 <= k < a.len() && a[k] == b[m];
        assert(str_views(a)[k] == x);
    }
}

/// The distinct entries of a sorted list, in order.
fn dedup_sorted(v: Vec<String>) -> (r: Vec<String>)
    requires
        crate::sorting::sorted_by_key(v@),
    ensures
        forall|i: int, j: int| 0 <= i < j < r@.len() ==> crate::sorting::lex_le(#[trigger] r@[i]@, #[trigger] r@[j]@)
            && r@[i]@ != r@[j]@,
        forall|x: Seq<char>| in_names(str_views(r@), x) <==> in_names(str_views(v@), x),
{
    let mut out: Vec<String> = Vec::new();
    let mut i: usize = 0;
    while i < v.len()
        invariant
            i <= v@.len(),
            crate::sorting::sorted_by_key(v@),
            forall|a: int, b: int| 0 <= a < b < out@.len() ==> crate::sorting::lex_le(#[trigger] out@[a]@, #[trigger] out@[b]@)
                && out@[a]@ != out@[b]@,
            out@.len() > 0 ==> i > 0 && out@.last()@ == v@[i - 1]@,
            out@.len() == 0 ==> i == 0,
            forall|x: Seq<char>| in_names(str_views(out@), x) <==> in_names(str_views(v@.subrange(0, i as int)), x),
            forall|a: int| 0 <= a < out@.len() ==> exists|k: int| 0 <= k < i && (#[trigger] out@[a])@ == v@[k]@,
        decreases v@.len() - i,
    {
        let ghost before = out@;
        let dup = out.len() > 0 && str_eq(out[out.len() - 1].as_str(), v[i].as_str());
        if !dup {
            out.push(v[i].clone());
            proof {
                assert forall|a: int, b: int| 0 <= a < b < out@.len() implies crate::sorting::lex_le(#[trigger] out@[a]@, #[trigger] out@[b]@)
                    && out@[a]@ != out@[b]@ by {
                    if b == out@.len() - 1 {
                        assert(out@[a] == before[a]);
                        assert(out@[b]@ == v@[i as int]@);
                        let k = choose|k: int| 0 <= k < i && (#[trigger] before[a])@ == v@[k]@;
                        assert(crate::sorting::lex_le(v@[k].key(), v@[i as int].key()));
                        let l = before.len() - 1;
                        assert(before[l]@ == v@[i - 1]@);
                        if before[a]@ == v@[i as int]@ {
                            if k < i - 1 {
                                assert(crate::sorting::lex_le(v@[k].key(), v@[i - 1].key()));
                                assert(crate::sorting::lex_le(v@[i - 1].key(), v@[i as int].key()));
                                crate::sorting::lemma_lex_antisym(v@[i - 1]@, v@[i as int]@);
                            }
                            assert(false);
                        }
                    } else {
                        assert(out@[a] == before[a] && out@[b] == before[b]);
                    }
                }
                assert forall|a: int| 0 <= a < out@.len() implies exists|k: int| 0 <= k < i + 1 && (#[trigger] out@[a])@ == v@[k]@ by {
                    if a < before.len() {
                        assert(out@[a] == before[a]);
                        let k = choose|k: int| 0 <= k < i && (#[trigger] before[a])@ == v@[k]@;
                        assert(0 <= k < i + 1 && out@[a]@ == v@[k]@);
                    } else {
                        assert(out@[a]@ == v@[i as int]@);
                    }
                }
            }
        }
        proof {
            assert(str_views(v@.subrange(0, i as int + 1)) =~= str_views(v@.subrange(0, i as int)).push(v@[i as int]@));
            if !dup {
                assert(str_views(out@) =~= str_views(before).push(v@[i as int]@));
            }
            assert forall|x: Seq<char>| in_names(str_views(out@), x) <==> in_names(str_views(v@.subrange(0, i as int + 1)), x) by {
                let sv = str_views(v@.subrange(0, i as int + 1));
                if in_names(sv, x) {
                    let m = choose|m: int| 0 <= m < sv.len() && sv[m] == x;
                    if m < i {
                        assert(str_views(v@.subrange(0, i as int))[m] == x);
                        assert(in_names(str_views(v@.subrange(0, i as int)), x));
                        assert(in_names(str_views(before), x));
                        let q = choose|q: int| 0 <= q < str_views(before).len() && str_views(before)[q] == x;
                        assert(str_views(out@)[q] == x);
                    } else {
                        assert(str_views(out@)[out@.len() - 1] == x);
                    }
                }
                if in_names(str_views(out@), x) {
                    let m = choose|m: int| 0 <= m < str_views(out@).len() && str_views(out@)[m] == x;
                    if !dup && m == out@.len() - 1 {
                        assert(sv[i as int] == x);
                    } else {
                        assert(str_views(before)[m] == x);
                        assert(in_names(str_views(before), x));
                        assert(in_names(str_views(v@.subrange(0, i as int)), x));
                        let q = choose|q: int| 0 <= q < i && str_views(v@.subrange(0, i as int))[q] == x;
                        assert(sv[q] == x);
                    }
                }
            }
            if dup {
                assert(out@.last()@ == v@[i as int]@);
            }
        }
        i = i + 1;
    }
    assert(v@.subrange(0, v@.len() as int) =~= v@);
    out
}

} // verus!
