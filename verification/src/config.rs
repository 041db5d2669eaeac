//! The workspace configuration file and the tag-index state beside it.
use vstd::prelude::*;
use crate::text::{owned, concat, str_eq, str_views, chars_of, string_from_chars};
use crate::table::{keys_of, distinct, lookup, find_key};
use crate::paths::{join_path, path_join, expanded};
use crate::numbering::{smallest_unused, is_smallest_unused};

verus! {

/// First tag index handed out.
pub const TAG_OFFSET: i32 = 10;

/// Repo and branch used where a workspace names none.
#[derive(Debug, Clone)]
pub struct Defaults {
    pub repo: String,
    pub branch: String,
}

/// One `[[workspace]]` entry.
#[derive(Debug, Clone)]
pub struct Workspace {
    pub name: String,
    pub repo: String,
    pub branch: String,
    pub path: String,
    pub gui: Vec<String>,
    pub layout: String,
}

/// The configuration file.
#[derive(Debug)]
pub struct Config {
    pub defaults: Defaults,
    pub workspaces: Vec<Workspace>,
}

/// Host state of one workspace.
#[derive(Debug, Clone)]
pub struct WorkspaceState {
    pub tag_index: i32,
    pub dir: String,
    pub active: bool,
}

/// Workspace states by name, one entry per name.
pub type State = Vec<(String, WorkspaceState)>;

/// `~/.config/workspaces.toml`.
pub fn config_path(home: &str) -> (r: String)
    ensures
        r@ == join_path(home@, ".config/workspaces.toml"@),
{
    path_join(home, ".config/workspaces.toml")
}

/// `~/.local/state/workspaces.json`.
pub fn state_path(home: &str) -> (r: String)
    ensures
        r@ == join_path(home@, ".local/state/workspaces.json"@),
{
    path_join(home, ".local/state/workspaces.json")
}

/// `~/worktrees`.
pub fn worktree_base(home: &str) -> (r: String)
    ensures
        r@ == join_path(home@, "worktrees"@),
{
    path_join(home, "worktrees")
}

/// Index of the first workspace named `name`.
pub open spec fn first_named(ws: Seq<Workspace>, name: Seq<char>) -> Option<int> {
    if exists|i: int| 0 <= i < ws.len() && ws[i].name@ == name {
        Some(choose|i: int| 0 <= i < ws.len() && ws[i].name@ == name
            && forall|j: int| 0 <= j < i ==> ws[j].name@ != name)
    } else {
        None
    }
}

/// Whether `name` is active in `state`.
pub open spec fn is_active(state: Seq<(String, WorkspaceState)>, name: Seq<char>) -> bool {
    match lookup(state, name) {
        Some(s) => s.active,
        None => false,
    }
}

impl Config {
    /// The first workspace named `name`.
    pub fn find_workspace(&self, name: &str) -> (r: Option<&Workspace>)
        ensures
            match r {
                Some(w) => exists|i: int| 0 <= i < self.workspaces@.len() && self.workspaces@[i] == *w
                    && w.name@ == name@
                    && forall|j: int| 0 <= j < i ==> self.workspaces@[j].name@ != name@,
                None => forall|i: int| 0 <= i < self.workspaces@.len() ==> self.workspaces@[i].name@ != name@,
            },
    {
        let mut i: usize = 0;
        while i < self.workspaces.len()
            invariant
                i <= self.workspaces@.len(),
                forall|j: int| 0 <= j < i ==> self.workspaces@[j].name@ != name@,
            decreases self.workspaces@.len() - i,
        {
            if str_eq(self.workspaces[i].name.as_str(), name) {
                return Some(&self.workspaces[i]);
            }
            i = i + 1;
        }
        None
    }

    /// Names of all workspaces, in file order.
    pub fn all_names(&self) -> (r: Vec<String>)
        ensures
            str_views(r@) == Seq::new(self.workspaces@.len(), |i: int| self.workspaces@[i].name@),
    {
        let mut out: Vec<String> = Vec::new();
        let mut i: usize = 0;
        while i < self.workspaces.len()
            invariant
                i <= self.workspaces@.len(),
                str_views(out@) == Seq::new(i as nat, |k: int| self.workspaces@[k].name@),
            decreases self.workspaces@.len() - i,
        {
            let ghost ov = str_views(out@);
            out.push(self.workspaces[i].name.clone());
            proof {
                assert(str_views(out@) =~= ov.push(self.workspaces@[i as int].name@));
                assert(str_views(out@) =~= Seq::new(i as nat + 1, |k: int| self.workspaces@[k].name@));
            }
            i = i + 1;
        }
        out
    }

    /// Names of the workspaces that `state` marks active, in file order.
    pub fn active_names(&self, state: &State) -> (r: Vec<String>)
        ensures
            str_views(r@) == Seq::new(self.workspaces@.len(), |i: int| self.workspaces@[i].name@)
                .filter(|n: Seq<char>| is_active(state@, n)),
    {
        let ghost names = Seq::new(self.workspaces@.len(), |i: int| self.workspaces@[i].name@);
        let ghost pred = |n: Seq<char>| is_active(state@, n);
        let mut out: Vec<String> = Vec::new();
        let mut i: usize = 0;
        while i < self.workspaces.len()
            invariant
                i <= self.workspaces@.len(),
                names == Seq::new(self.workspaces@.len(), |k: int| self.workspaces@[k].name@),
                pred == (|n: Seq<char>| is_active(state@, n)),
                str_views(out@) == names.subrange(0, i as int).filter(pred),
            decreases self.workspaces@.len() - i,
        {
            let ghost ov = str_views(out@);
            proof {
                reveal(Seq::filter);
                assert(names.subrange(0, i as int + 1).drop_last() =~= names.subrange(0, i as int));
                assert(names.subrange(0, i as int + 1).last() == self.workspaces@[i as int].name@);
                crate::table::lemma_key_pos(keys_of(state@), self.workspaces@[i as int].name@);
            }
            let active = match find_key(state, self.workspaces[i].name.as_str()) {
                Some(k) => state[k].1.active,
                None => false,
            };
            if active {
                out.push(self.workspaces[i].name.clone());
                proof {
                    assert(str_views(out@) =~= ov.push(self.workspaces@[i as int].name@));
                }
            }
            i = i + 1;
        }
        proof {
            assert(names.subrange(0, names.len() as int) =~= names);
        }
        out
    }
}

/// Directory of a workspace: its path with `~/` expanded, else (when it has a
/// branch) its worktree under `~/worktrees` with `/` in the name turned into `-`,
/// else the working directory.
pub open spec fn resolved_dir(w: Workspace, home: Seq<char>, cwd: Seq<char>) -> Seq<char> {
    if w.path@.len() > 0 {
        expanded(w.path@, home)
    } else if w.branch@.len() > 0 {
        join_path(join_path(home, "worktrees"@), crate::config::slashes_to_dashes(w.name@))
    } else {
        cwd
    }
}

/// `s.replace('/', "-")`.
pub open spec fn slashes_to_dashes(s: Seq<char>) -> Seq<char> {
    s.map_values(|c: char| if c == '/' { '-' } else { c })
}

fn replace_slashes(s: &str) -> (r: String)
    ensures
        r@ == slashes_to_dashes(s@),
{
    let cs = chars_of(s);
    let mut out: Vec<char> = Vec::new();
    let mut i: usize = 0;
    while i < cs.len()
        invariant
            i <= cs@.len(),
            cs@ == s@,
            out@ == slashes_to_dashes(cs@.subrange(0, i as int)),
        decreases cs@.len() - i,
    {
        let c = cs[i];
        out.push(if c == '/' { '-' } else { c });
        proof {
            assert(slashes_to_dashes(cs@.subrange(0, i as int + 1)) =~= slashes_to_dashes(cs@.subrange(0, i as int)).push(if c == '/' { '-' } else { c }));
        }
        i = i + 1;
    }
    proof {
        assert(cs@.subrange(0, cs@.len() as int) =~= cs@);
    }
    string_from_chars(&out)
}

impl Workspace {
    /// Directory of the workspace; `cwd` is the working directory.
    pub fn resolve_dir(&self, home: &str, cwd: &str) -> (r: String)
        ensures
            r@ == resolved_dir(*self, home@, cwd@),
    {
        if self.path.as_str().unicode_len() > 0 {
            return crate::paths::expand_home(self.path.as_str(), home);
        }
        if self.branch.as_str().unicode_len() > 0 {
            let safe = replace_slashes(self.name.as_str());
            let base = worktree_base(home);
            return path_join(base.as_str(), safe.as_str());
        }
        owned(cwd)
    }

    /// The repo, or the default one, with `~/` expanded.
    pub fn resolve_repo(&self, defaults: &Defaults, home: &str) -> (r: String)
        ensures
            r@ == expanded(if self.repo@.len() > 0 { self.repo@ } else { defaults.repo@ }, home@),
    {
        let r = if self.repo.as_str().unicode_len() > 0 { self.repo.as_str() } else { defaults.repo.as_str() };
        crate::paths::expand_home(r, home)
    }

    /// The branch, or the default one.
    pub fn resolve_branch(&self, defaults: &Defaults) -> (r: String)
        ensures
            r@ == (if self.branch@.len() > 0 { self.branch@ } else { defaults.branch@ }),
    {
        if self.branch.as_str().unicode_len() > 0 {
            self.branch.clone()
        } else {
            defaults.branch.clone()
        }
    }

    /// The layout, or `tile`.
    pub fn resolve_layout(&self) -> (r: &str)
        ensures
            r@ == (if self.layout@.len() > 0 { self.layout@ } else { "tile"@ }),
    {
        if self.layout.as_str().unicode_len() > 0 {
            self.layout.as_str()
        } else {
            "tile"
        }
    }
}

/// Tag indices held in `state`.
pub open spec fn tags_of(state: Seq<(String, WorkspaceState)>) -> Seq<i32> {
    Seq::new(state.len(), |i: int| state[i].1.tag_index)
}

/// The tag index of `name`: its recorded one, else the smallest from
/// `TAG_OFFSET` on that no workspace holds.
pub fn allocate_tag_index(name: &str, state: &State) -> (r: i32)
    requires
        distinct(keys_of(state@)),
        TAG_OFFSET + state@.len() <= i32::MAX,
    ensures
        match lookup(state@, name@) {
            Some(s) => r == s.tag_index,
            None => is_smallest_unused(tags_of(state@), TAG_OFFSET as int, r as int),
        },
{
    match find_key(state, name) {
        Some(i) => {
            proof {
                crate::table::lemma_key_pos(keys_of(state@), name@);
            }
            return state[i].1.tag_index;
        },
        None => {},
    }
    let mut used: Vec<i32> = Vec::new();
    let mut i: usize = 0;
    while i < state.len()
        invariant
            i <= state@.len(),
            used@ == tags_of(state@).subrange(0, i as int),
        decreases state@.len() - i,
    {
        used.push(state[i].1.tag_index);
        i = i + 1;
    }
    proof {
        assert(tags_of(state@).subrange(0, state@.len() as int) =~= tags_of(state@));
    }
    smallest_unused(&used, TAG_OFFSET)
}

/// Text appended to the configuration file for a new workspace.
pub fn config_entry(name: &str, repo: &str, branch: &str) -> (r: String)
    ensures
        r@ == "\n[[workspace]]\nname = \""@ + name@ + "\"\nrepo = \""@ + repo@ + "\"\nbranch = \""@ + branch@ + "\"\n"@,
{
    let a = concat("\n[[workspace]]\nname = \"", name);
    let b = concat(a.as_str(), "\"\nrepo = \"");
    let c = concat(b.as_str(), repo);
    let d = concat(c.as_str(), "\"\nbranch = \"");
    let e = concat(d.as_str(), branch);
    concat(e.as_str(), "\"\n")
}

/// A `[[workspace]]` header line.
pub open spec fn is_header(line: Seq<char>) -> bool {
    crate::text::trimmed(line) == "[[workspace]]"@
}

/// A line holding only whitespace.
pub open spec fn is_blank(line: Seq<char>) -> bool {
    crate::text::trimmed(line).len() == 0
}

/// `out` without its trailing header and blank lines.
pub open spec fn drop_trailing_headers(out: Seq<Seq<char>>) -> Seq<Seq<char>>
    decreases out.len(),
{
    if out.len() > 0 && (is_header(out.last()) || is_blank(out.last())) {
        drop_trailing_headers(out.drop_last())
    } else {
        out
    }
}

/// `out` without its trailing blank lines.
pub open spec fn drop_trailing_blanks(out: Seq<Seq<char>>) -> Seq<Seq<char>>
    decreases out.len(),
{
    if out.len() > 0 && is_blank(out.last()) {
        drop_trailing_blanks(out.drop_last())
    } else {
        out
    }
}

/// Lines kept so far, and whether the lines now read belong to the removed entry.
pub open spec fn strip_entry(lines: Seq<Seq<char>>, target: Seq<char>) -> (Seq<Seq<char>>, bool)
    decreases lines.len(),
{
    if lines.len() == 0 {
        (Seq::empty(), false)
    } else {
        let (out, skip) = strip_entry(lines.drop_last(), target);
        let line = lines.last();
        if is_header(line) {
            (out.push(line), false)
        } else if skip {
            (out, true)
        } else if crate::text::trimmed(line) == target {
            (drop_trailing_headers(out), true)
        } else {
            (out.push(line), false)
        }
    }
}

/// The configuration text without the entry named `name`: its header and
/// the blank lines before it go too; the text ends in one newline.
pub open spec fn config_text_without(data: Seq<char>, name: Seq<char>) -> Seq<char> {
    let target = "name = \""@ + name + "\""@;
    let kept = drop_trailing_blanks(strip_entry(crate::text::split_lines(data), target).0);
    crate::text::joined(kept, "\n"@) + "\n"@
}

fn line_is_header(line: &String) -> (r: bool)
    ensures
        r == is_header(line@),
{
    let t = crate::text::trim(line.as_str());
    str_eq(t.as_str(), "[[workspace]]")
}

fn line_is_blank(line: &String) -> (r: bool)
    ensures
        r == is_blank(line@),
{
    let t = crate::text::trim(line.as_str());
    t.as_str().unicode_len() == 0
}

/// Remove the entry named `name` from the configuration text.
pub fn config_without(data: &str, name: &str) -> (r: String)
    ensures
        r@ == config_text_without(data@, name@),
{
    let lines = crate::text::split_lines_exec(data);
    let ghost lv = str_views(lines@);
    let t0 = concat("name = \"", name);
    let target = concat(t0.as_str(), "\"");
    let mut out: Vec<String> = Vec::new();
    let mut skip = false;
    let mut i: usize = 0;
    proof {
        assert(lv.subrange(0, 0) =~= Seq::<Seq<char>>::empty());
        assert(str_views(out@) =~= Seq::<Seq<char>>::empty());
    }
    while i < lines.len()
        invariant
            i <= lines@.len(),
            lv == str_views(lines@),
            strip_entry(lv.subrange(0, i as int), target@) == (str_views(out@), skip),
        decreases lines@.len() - i,
    {
        let ghost next = lv.subrange(0, i as int + 1);
        let ghost ov = str_views(out@);
        proof {
            assert(next.drop_last() =~= lv.subrange(0, i as int));
            assert(next.last() == lines@[i as int]@);
        }
        if line_is_header(&lines[i]) {
            skip = false;
            out.push(lines[i].clone());
            proof { assert(str_views(out@) =~= ov.push(lines@[i as int]@)); }
        } else if skip {
        } else {
            let t = crate::text::trim(lines[i].as_str());
            if str_eq(t.as_str(), target.as_str()) {
                while out.len() > 0 && (line_is_header(&out[out.len() - 1]) || line_is_blank(&out[out.len() - 1]))
                    invariant
                        drop_trailing_headers(ov) == drop_trailing_headers(str_views(out@)),
                    decreases out@.len(),
                {
                    let ghost cur = str_views(out@);
                    out.pop();
                    proof {
                        assert(str_views(out@) =~= cur.drop_last());
                    }
                }
                skip = true;
            } else {
                out.push(lines[i].clone());
                proof { assert(str_views(out@) =~= ov.push(lines@[i as int]@)); }
            }
        }
        i = i + 1;
    }
    let ghost stripped = str_views(out@);
    while out.len() > 0 && line_is_blank(&out[out.len() - 1])
        invariant
            drop_trailing_blanks(stripped) == drop_trailing_blanks(str_views(out@)),
        decreases out@.len(),
    {
        let ghost cur = str_views(out@);
        out.pop();
        proof {
            assert(str_views(out@) =~= cur.drop_last());
        }
    }
    proof {
        assert(lv.subrange(0, lv.len() as int) =~= lv);
    }
    let body = crate::text::join_with(&out, "\n");
    concat(body.as_str(), "\n")
}

} // verus!
