//! The picker: its text protocol, its fuzzy filter, and the state of the
//! picker window as keys and edits change it.
use vstd::prelude::*;
use crate::auth::index_of_from;
use crate::crypto::utf8;
use crate::text::{chars_of, str_eq, concat, owned, contains_str, in_names, str_views};

verus! {

/// Line the picker sends to ask for the creation form.
pub const CREATE_SENTINEL: &'static str = "\0CREATE";

/// Prefix of the line the picker sends to destroy a workspace.
pub const DESTROY_PREFIX: &'static str = "\0DESTROY\0";

/// `p` is a subsequence of `t`, matched greedily from the left.
pub open spec fn is_subseq(p: Seq<u8>, t: Seq<u8>) -> bool
    decreases t.len(),
{
    if p.len() == 0 {
        true
    } else if t.len() == 0 {
        false
    } else if t[0] == p[0] {
        is_subseq(p.drop_first(), t.drop_first())
    } else {
        is_subseq(p, t.drop_first())
    }
}

/// The bytes of `pattern` occur in `text` in order.
pub fn fuzzy_match(text: &str, pattern: &str) -> (r: bool)
    ensures
        r == is_subseq(crate::crypto::utf8(pattern@), crate::crypto::utf8(text@)),
{
    let tb = text.as_bytes();
    let pb = pattern.as_bytes();
    let ghost t = tb@;
    let ghost p = pb@;
    let mut pi: usize = 0;
    let mut i: usize = 0;
    proof {
        assert(p.subrange(0, p.len() as int) =~= p);
        assert(t.subrange(0, t.len() as int) =~= t);
    }
    while i < tb.len()
        invariant
            i <= t.len(),
            pi <= p.len(),
            t == tb@,
            p == pb@,
            is_subseq(p, t) == is_subseq(p.subrange(pi as int, p.len() as int), t.subrange(i as int, t.len() as int)),
        decreases t.len() - i,
    {
        let ghost ps = p.subrange(pi as int, p.len() as int);
        let ghost ts = t.subrange(i as int, t.len() as int);
        proof {
            assert(ts.drop_first() =~= t.subrange(i as int + 1, t.len() as int));
            if pi < p.len() {
                assert(ps.drop_first() =~= p.subrange(pi as int + 1, p.len() as int));
                assert(ps[0] == p[pi as int]);
            } else {
                assert(ps.len() == 0);
            }
            assert(ts[0] == t[i as int]);
        }
        if pi < pb.len() && tb[i] == pb[pi] {
            pi = pi + 1;
        }
        i = i + 1;
    }
    proof {
        let ps = p.subrange(pi as int, p.len() as int);
        let ts = t.subrange(i as int, t.len() as int);
        assert(ts.len() == 0);
    }
    pi == pb.len()
}

/// Fields of a submitted creation form.
#[derive(Debug)]
pub struct CreateFormResult {
    pub name: String,
    pub project: String,
    pub repo_path: String,
    pub branch: String,
    pub is_new_project: bool,
}

/// The five NUL-separated fields of a form line (`splitn(5, '\0')`), the last
/// one holding the rest of the line.
pub open spec fn form_fields(s: Seq<char>) -> Option<(Seq<char>, Seq<char>, Seq<char>, Seq<char>, Seq<char>)> {
    match index_of_from(s, '\0', 0) {
        Some(a) => match index_of_from(s, '\0', a + 1) {
            Some(b) => match index_of_from(s, '\0', b + 1) {
                Some(c) => match index_of_from(s, '\0', c + 1) {
                    Some(d) => Some((s.subrange(0, a), s.subrange(a + 1, b), s.subrange(b + 1, c),
                        s.subrange(c + 1, d), s.subrange(d + 1, s.len() as int))),
                    None => None,
                },
                None => None,
            },
            None => None,
        },
        None => None,
    }
}

/// Read a submitted creation form: name, project, repo path, branch, and
/// whether the project is new (`1`).
pub fn parse_create_result(s: &str) -> (r: Option<CreateFormResult>)
    ensures
        match (r, form_fields(s@)) {
            (Some(f), Some((a, b, c, d, e))) => f.name@ == a && f.project@ == b && f.repo_path@ == c
                && f.branch@ == d && f.is_new_project == (e == "1"@),
            (None, None) => true,
            _ => false,
        },
{
    let cs = chars_of(s);
    let a = match crate::auth::find_char_from(&cs, '\0', 0) { Some(i) => i, None => return None };
    let b = match crate::auth::find_char_from(&cs, '\0', a + 1) { Some(i) => i, None => return None };
    let c = match crate::auth::find_char_from(&cs, '\0', b + 1) { Some(i) => i, None => return None };
    let d = match crate::auth::find_char_from(&cs, '\0', c + 1) { Some(i) => i, None => return None };
    let n = cs.len();
    let last = crate::auth::sub_string(&cs, d + 1, n);
    Some(CreateFormResult {
        name: crate::auth::sub_string(&cs, 0, a),
        project: crate::auth::sub_string(&cs, a + 1, b),
        repo_path: crate::auth::sub_string(&cs, b + 1, c),
        branch: crate::auth::sub_string(&cs, c + 1, d),
        is_new_project: str_eq(last.as_str(), "1"),
    })
}

/// The creation form's line: the five fields joined by NUL, the last one `1`
/// for a new project and `0` otherwise.
pub open spec fn form_line(name: Seq<char>, project: Seq<char>, repo: Seq<char>, branch: Seq<char>, is_new: bool)
    -> Seq<char>
{
    name + "\0"@ + project + "\0"@ + repo + "\0"@ + branch + "\0"@ + (if is_new { "1"@ } else { "0"@ })
}

/// `c` does not occur in `s`.
pub open spec fn lacks(s: Seq<char>, c: char) -> bool {
    forall|i: int| 0 <= i < s.len() ==> s[i] != c
}

proof fn lemma_first_at(s: Seq<char>, c: char, from: int, k: int)
    requires
        0 <= from <= k < s.len(),
        s[k] == c,
        forall|i: int| from <= i < k ==> s[i] != c,
    ensures
        index_of_from(s, c, from) == Some(k),
    decreases k - from,
{
    if from < k {
        lemma_first_at(s, c, from + 1, k);
    }
}

/// What the creation form sends reads back as the same fields, whenever no
/// field holds a NUL.
pub proof fn law_form_line_reads_back(name: Seq<char>, project: Seq<char>, repo: Seq<char>, branch: Seq<char>, is_new: bool)
    requires
        lacks(name, '\0'),
        lacks(project, '\0'),
        lacks(repo, '\0'),
        lacks(branch, '\0'),
    ensures
        form_fields(form_line(name, project, repo, branch, is_new))
            == Some((name, project, repo, branch, if is_new { "1"@ } else { "0"@ })),
{
    reveal_strlit("\0");
    let s = form_line(name, project, repo, branch, is_new);
    let flag = if is_new { "1"@ } else { "0"@ };
    let a = name.len() as int;
    let b = a + 1 + project.len();
    let c = b + 1 + repo.len();
    let d = c + 1 + branch.len();
    assert(s =~= name + seq!['\0'] + project + seq!['\0'] + repo + seq!['\0'] + branch + seq!['\0'] + flag);
    assert(s[a] == '\0');
    assert forall|i: int| 0 <= i < a implies s[i] != '\0' by { assert(s[i] == name[i]); }
    lemma_first_at(s, '\0', 0, a);
    assert(s[b] == '\0');
    assert forall|i: int| a + 1 <= i < b implies s[i] != '\0' by { assert(s[i] == project[i - a - 1]); }
    lemma_first_at(s, '\0', a + 1, b);
    assert(s[c] == '\0');
    assert forall|i: int| b + 1 <= i < c implies s[i] != '\0' by { assert(s[i] == repo[i - b - 1]); }
    lemma_first_at(s, '\0', b + 1, c);
    assert(s[d] == '\0');
    assert forall|i: int| c + 1 <= i < d implies s[i] != '\0' by { assert(s[i] == branch[i - c - 1]); }
    lemma_first_at(s, '\0', c + 1, d);
    assert(s.subrange(0, a) =~= name);
    assert(s.subrange(a + 1, b) =~= project);
    assert(s.subrange(b + 1, c) =~= repo);
    assert(s.subrange(c + 1, d) =~= branch);
    assert(s.subrange(d + 1, s.len() as int) =~= flag);
}

/// One entry of the picker's list.
#[derive(Debug, Clone)]
pub struct PickerItem {
    pub name: String,
    pub project: String,
    pub active: bool,
    pub acp_status: Option<String>,
}

/// What the picker is opened for.
pub enum PickerMode {
    List { items: Vec<PickerItem> },
    Freeform { prompt: String },
    CreateForm { projects: Vec<String> },
}

/// A field of the creation form.
#[derive(Debug, Clone, Copy, PartialEq, Eq, Structural)]
pub enum FormField {
    Name,
    Project,
    Repo,
    Branch,
}

/// The picker window's state: the list and its filter, or the creation form.
pub struct PickerState {
    pub items: Vec<PickerItem>,
    /// Indices into `items` that pass the filter, in order.
    pub filtered: Vec<usize>,
    pub selected: usize,
    pub freeform: bool,
    pub is_form: bool,
    pub form_field: FormField,
    pub query: String,
    pub name: String,
    pub project: String,
    pub repo: String,
    pub branch: String,
    pub projects: Vec<String>,
    /// Indices into `projects` that pass the project filter, in order.
    pub project_filtered: Vec<usize>,
    pub project_selected: usize,
}

/// What the window does after a key.
#[derive(Debug, PartialEq, Eq)]
pub enum PickerAction {
    /// Stay open.
    Stay,
    /// Send this line and close.
    Send(String),
    /// Close without sending.
    Close,
}

/// The lowercase form of a text (`str::to_lowercase`).
pub uninterp spec fn lowercase(s: Seq<char>) -> Seq<char>;

/// `str::to_lowercase`: the result is named `lowercase` of the text.
#[verifier::external_body]
fn to_lower(s: &str) -> (r: String)
    ensures
        r@ == lowercase(s@),
{
    s.to_lowercase()
}

/// A name passes the filter when the lowercase query is empty or its bytes
/// occur, in order, in the lowercase name.
pub open spec fn passes(name: Seq<char>, query: Seq<char>) -> bool {
    lowercase(query).len() == 0 || is_subseq(utf8(lowercase(query)), utf8(lowercase(name)))
}

/// Indices of the names that pass the filter, in order.
pub open spec fn hits(names: Seq<Seq<char>>, query: Seq<char>) -> Seq<int>
    decreases names.len(),
{
    if names.len() == 0 {
        Seq::empty()
    } else {
        hits(names.drop_last(), query) + if passes(names.last(), query) { seq![names.len() - 1] } else { Seq::empty() }
    }
}

proof fn lemma_hits_bound(names: Seq<Seq<char>>, query: Seq<char>)
    ensures
        hits(names, query).len() <= names.len(),
        forall|k: int| 0 <= k < hits(names, query).len() ==> 0 <= #[trigger] hits(names, query)[k] < names.len(),
    decreases names.len(),
{
    if names.len() > 0 {
        lemma_hits_bound(names.drop_last(), query);
        let h = hits(names.drop_last(), query);
        assert forall|k: int| 0 <= k < hits(names, query).len() implies 0 <= #[trigger] hits(names, query)[k] < names.len() by {
            if k < h.len() {
                assert(hits(names, query)[k] == h[k]);
            }
        }
    }
}

pub open spec fn item_names(items: Seq<PickerItem>) -> Seq<Seq<char>> {
    Seq::new(items.len(), |i: int| items[i].name@)
}

pub open spec fn as_ints(v: Seq<usize>) -> Seq<int> {
    Seq::new(v.len(), |i: int| v[i] as int)
}

/// Indices of `names` (with the lowercase query already taken) that pass.
fn filter_names(names: &Vec<String>, query: &str) -> (r: Vec<usize>)
    ensures
        as_ints(r@) == hits(str_views(names@), query@),
        forall|k: int| 0 <= k < r@.len() ==> #[trigger] r@[k] < names@.len(),
{
    let q = to_lower(query);
    let qb = q.unicode_len() == 0;
    let mut out: Vec<usize> = Vec::new();
    let mut i: usize = 0;
    let ghost all = str_views(names@);
    while i < names.len()
        invariant
            i <= names@.len(),
            all == str_views(names@),
            q@ == lowercase(query@),
            qb == (q@.len() == 0),
            as_ints(out@) == hits(all.subrange(0, i as int), query@),
            forall|k: int| 0 <= k < out@.len() ==> #[trigger] out@[k] < i,
        decreases names@.len() - i,
    {
        proof {
            assert(all.subrange(0, i as int + 1).drop_last() =~= all.subrange(0, i as int));
            assert(all.subrange(0, i as int + 1).last() == names@[i as int]@);
        }
        let keep = if qb {
            true
        } else {
            let n = to_lower(names[i].as_str());
            fuzzy_match(n.as_str(), q.as_str())
        };
        let ghost before = out@;
        if keep {
            out.push(i);
            assert(as_ints(out@) =~= as_ints(before).push(i as int));
        } else {
            assert(as_ints(out@) =~= as_ints(before));
        }
        assert(as_ints(out@) =~= hits(all.subrange(0, i as int + 1), query@));
        i = i + 1;
    }
    assert(all.subrange(0, names@.len() as int) =~= all);
    out
}

fn item_name_list(items: &Vec<PickerItem>) -> (r: Vec<String>)
    ensures
        str_views(r@) == item_names(items@),
{
    let mut out: Vec<String> = Vec::new();
    let mut i: usize = 0;
    while i < items.len()
        invariant
            i <= items@.len(),
            out@.len() == i,
            forall|k: int| 0 <= k < i ==> (#[trigger] out@[k])@ == items@[k].name@,
        decreases items@.len() - i,
    {
        out.push(items[i].name.clone());
        i = i + 1;
    }
    assert(str_views(out@) =~= item_names(items@));
    out
}

/// All indices below `n`.
fn all_indices(n: usize) -> (r: Vec<usize>)
    ensures
        r@.len() == n,
        forall|k: int| 0 <= k < n ==> #[trigger] r@[k] == k,
{
    let mut out: Vec<usize> = Vec::new();
    let mut i: usize = 0;
    while i < n
        invariant
            i <= n,
            out@.len() == i,
            forall|k: int| 0 <= k < i ==> #[trigger] out@[k] == k,
        decreases n - i,
    {
        out.push(i);
        i = i + 1;
    }
    out
}

/// The field after `f` on Tab: a new project also asks for its repository and branch.
pub open spec fn next_field(f: FormField, is_new: bool) -> FormField {
    match f {
        FormField::Name => FormField::Project,
        FormField::Project => if is_new { FormField::Repo } else { FormField::Name },
        FormField::Repo => FormField::Branch,
        FormField::Branch => FormField::Name,
    }
}

/// The field before `f` on Shift-Tab.
pub open spec fn prev_field(f: FormField, is_new: bool) -> FormField {
    match f {
        FormField::Name => if is_new { FormField::Branch } else { FormField::Project },
        FormField::Project => FormField::Name,
        FormField::Repo => FormField::Project,
        FormField::Branch => FormField::Repo,
    }
}

/// Tab and Shift-Tab undo each other on the fields the form visits: all four
/// for a new project, name and project otherwise.
pub proof fn law_tab_round_trip(f: FormField, is_new: bool)
    requires
        is_new || f == FormField::Name || f == FormField::Project,
    ensures
        prev_field(next_field(f, is_new), is_new) == f,
        next_field(prev_field(f, is_new), is_new) == f,
{
}

/// The next index of a cyclic selection over `len` entries.
pub open spec fn cycle_next(i: usize, len: usize) -> usize {
    if len == 0 { i } else { ((i + 1) % (len as int)) as usize }
}

/// The previous index of a cyclic selection over `len` entries.
pub open spec fn cycle_prev(i: usize, len: usize) -> usize {
    if len == 0 { i } else if i == 0 { (len - 1) as usize } else { (i - 1) as usize }
}

impl PickerState {
    /// Indices in range and selections within the filtered lists.
    pub open spec fn wf(&self) -> bool {
        &&& forall|k: int| 0 <= k < self.filtered@.len() ==> #[trigger] self.filtered@[k] < self.items@.len()
        &&& forall|k: int| 0 <= k < self.project_filtered@.len() ==> #[trigger] self.project_filtered@[k] < self.projects@.len()
        &&& (self.filtered@.len() == 0 ==> self.selected == 0)
        &&& (self.filtered@.len() > 0 ==> self.selected < self.filtered@.len())
        &&& (self.project_filtered@.len() == 0 ==> self.project_selected == 0)
        &&& (self.project_filtered@.len() > 0 ==> self.project_selected < self.project_filtered@.len())
    }

    /// The picker as opened: a list shows every item, a form every project,
    /// both with the first entry selected and every text empty.
    pub fn new(mode: PickerMode) -> (r: Self)
        ensures
            r.wf(),
            r.selected == 0,
            r.project_selected == 0,
            r.form_field == FormField::Name,
            r.query@.len() == 0 && r.name@.len() == 0 && r.project@.len() == 0,
            r.repo@.len() == 0 && r.branch@.len() == 0,
            match mode {
                PickerMode::List { items } => r.items@ == items@ && !r.freeform && !r.is_form
                    && r.filtered@.len() == items@.len() && (forall|k: int| 0 <= k < items@.len() ==> #[trigger] r.filtered@[k] == k)
                    && r.projects@.len() == 0,
                PickerMode::Freeform { .. } => r.items@.len() == 0 && r.freeform && !r.is_form && r.projects@.len() == 0,
                PickerMode::CreateForm { projects } => r.items@.len() == 0 && !r.freeform && r.is_form
                    && r.projects@ == projects@ && r.project_filtered@.len() == projects@.len()
                    && (forall|k: int| 0 <= k < projects@.len() ==> #[trigger] r.project_filtered@[k] == k),
            },
    {
        let empty_items: Vec<PickerItem> = Vec::new();
        let empty_idx: Vec<usize> = Vec::new();
        match mode {
            PickerMode::List { items } => {
                let filtered = all_indices(items.len());
                PickerState {
                    items, filtered, selected: 0, freeform: false, is_form: false, form_field: FormField::Name,
                    query: String::new(), name: String::new(), project: String::new(), repo: String::new(),
                    branch: String::new(), projects: Vec::new(), project_filtered: empty_idx, project_selected: 0,
                }
            },
            PickerMode::Freeform { prompt: _ } => PickerState {
                items: empty_items, filtered: Vec::new(), selected: 0, freeform: true, is_form: false,
                form_field: FormField::Name, query: String::new(), name: String::new(), project: String::new(),
                repo: String::new(), branch: String::new(), projects: Vec::new(), project_filtered: empty_idx,
                project_selected: 0,
            },
            PickerMode::CreateForm { projects } => {
                let project_filtered = all_indices(projects.len());
                PickerState {
                    items: empty_items, filtered: Vec::new(), selected: 0, freeform: false, is_form: true,
                    form_field: FormField::Name, query: String::new(), name: String::new(),
                    project: String::new(), repo: String::new(), branch: String::new(), projects,
                    project_filtered, project_selected: 0,
                }
            },
        }
    }

    /// The query was edited: keep the items whose name passes, select the first.
    pub fn set_query(&mut self, text: String)
        requires
            old(self).wf(),
        ensures
            final(self).wf(),
            final(self).query == text,
            as_ints(final(self).filtered@) == hits(item_names(old(self).items@), text@),
            final(self).selected == 0,
            final(self).items == old(self).items,
            final(self).projects == old(self).projects,
            final(self).project_filtered == old(self).project_filtered,
            final(self).project_selected == old(self).project_selected,
            final(self).is_form == old(self).is_form,
            final(self).freeform == old(self).freeform,
            final(self).form_field == old(self).form_field,
    {
        let names = item_name_list(&self.items);
        let f = filter_names(&names, text.as_str());
        self.filtered = f;
        self.selected = 0;
        self.query = text;
    }

    /// A form field was edited; editing the project refilters the project list.
    pub fn set_field(&mut self, field: FormField, text: String)
        requires
            old(self).wf(),
        ensures
            final(self).wf(),
            field == FormField::Name ==> final(self).name == text,
            field == FormField::Project ==> final(self).project == text
                && as_ints(final(self).project_filtered@) == hits(str_views(old(self).projects@), text@)
                && final(self).project_selected == 0,
            field == FormField::Repo ==> final(self).repo == text,
            field == FormField::Branch ==> final(self).branch == text,
            field != FormField::Name ==> final(self).name == old(self).name,
            field != FormField::Project ==> final(self).project == old(self).project
                && final(self).project_filtered == old(self).project_filtered
                && final(self).project_selected == old(self).project_selected,
            field != FormField::Repo ==> final(self).repo == old(self).repo,
            field != FormField::Branch ==> final(self).branch == old(self).branch,
            final(self).items == old(self).items,
            final(self).filtered == old(self).filtered,
            final(self).selected == old(self).selected,
            final(self).projects == old(self).projects,
            final(self).query == old(self).query,
            final(self).is_form == old(self).is_form,
            final(self).freeform == old(self).freeform,
            final(self).form_field == old(self).form_field,
    {
        match field {
            FormField::Name => { self.name = text; },
            FormField::Project => {
                let f = filter_names(&self.projects, text.as_str());
                self.project_filtered = f;
                self.project_selected = 0;
                self.project = text;
            },
            FormField::Repo => { self.repo = text; },
            FormField::Branch => { self.branch = text; },
        }
    }

    /// The project typed is not one of the known ones.
    pub fn is_new_project(&self) -> (r: bool)
        ensures
            r == (self.project@.len() > 0 && !in_names(str_views(self.projects@), self.project@)),
    {
        self.project.unicode_len() > 0 && !contains_str(&self.projects, self.project.as_str())
    }

    /// The field after the current one.
    pub fn next_form_field(&self) -> (r: FormField)
        ensures
            r == next_field(self.form_field, self.project@.len() > 0 && !in_names(str_views(self.projects@), self.project@)),
    {
        match self.form_field {
            FormField::Name => FormField::Project,
            FormField::Project => if self.is_new_project() { FormField::Repo } else { FormField::Name },
            FormField::Repo => FormField::Branch,
            FormField::Branch => FormField::Name,
        }
    }

    /// The field before the current one.
    pub fn prev_form_field(&self) -> (r: FormField)
        ensures
            r == prev_field(self.form_field, self.project@.len() > 0 && !in_names(str_views(self.projects@), self.project@)),
    {
        match self.form_field {
            FormField::Name => if self.is_new_project() { FormField::Branch } else { FormField::Project },
            FormField::Project => FormField::Name,
            FormField::Repo => FormField::Project,
            FormField::Branch => FormField::Repo,
        }
    }

    /// The line a complete form sends; an empty branch means `master`.
    pub fn submit_text(&self) -> (r: String)
        ensures
            r@ == form_line(self.name@, self.project@, self.repo@,
                if self.branch@.len() == 0 { "master"@ } else { self.branch@ },
                self.project@.len() > 0 && !in_names(str_views(self.projects@), self.project@)),
    {
        let is_new = self.is_new_project();
        let branch = if self.branch.unicode_len() == 0 { "master" } else { self.branch.as_str() };
        let a = concat(self.name.as_str(), "\0");
        let b = concat(a.as_str(), self.project.as_str());
        let c = concat(b.as_str(), "\0");
        let d = concat(c.as_str(), self.repo.as_str());
        let e = concat(d.as_str(), "\0");
        let f = concat(e.as_str(), branch);
        let g = concat(f.as_str(), "\0");
        concat(g.as_str(), if is_new { "1" } else { "0" })
    }

    /// Enter. In the form: take the highlighted project, or go to the first
    /// missing field, or send the form. In the list: send the query
    /// (freeform) or the selected item's name; with nothing to send, close.
    pub fn confirm(&mut self) -> (r: PickerAction)
        requires
            old(self).wf(),
        ensures
            final(self).wf(),
            final(self).items == old(self).items,
            final(self).filtered == old(self).filtered,
            final(self).selected == old(self).selected,
            final(self).projects == old(self).projects,
            final(self).project_filtered == old(self).project_filtered,
            final(self).project_selected == old(self).project_selected,
            final(self).query == old(self).query,
            final(self).name == old(self).name,
            final(self).repo == old(self).repo,
            final(self).branch == old(self).branch,
            final(self).is_form == old(self).is_form,
            final(self).freeform == old(self).freeform,
            ({
                let s = *old(self);
                let is_new = s.project@.len() > 0 && !in_names(str_views(s.projects@), s.project@);
                if s.is_form {
                    if s.form_field == FormField::Project && s.project_filtered@.len() > 0 {
                        let chosen = s.projects@[s.project_filtered@[s.project_selected as int] as int]@;
                        &&& final(self).project@ == chosen
                        &&& final(self).form_field == next_field(FormField::Project,
                                chosen.len() > 0 && !in_names(str_views(s.projects@), chosen))
                        &&& r == PickerAction::Stay
                    } else if s.name@.len() == 0 {
                        final(self).form_field == FormField::Name && r == PickerAction::Stay && final(self).project == s.project
                    } else if s.project@.len() == 0 {
                        final(self).form_field == FormField::Project && r == PickerAction::Stay && final(self).project == s.project
                    } else if is_new && s.repo@.len() == 0 {
                        final(self).form_field == FormField::Repo && r == PickerAction::Stay && final(self).project == s.project
                    } else {
                        &&& r matches PickerAction::Send(line) && line@ == form_line(s.name@, s.project@, s.repo@,
                                if s.branch@.len() == 0 { "master"@ } else { s.branch@ }, is_new)
                        &&& final(self).project == s.project
                        &&& final(self).form_field == s.form_field
                    }
                } else {
                    &&& final(self).project == s.project
                    &&& final(self).form_field == s.form_field
                    &&& if s.freeform {
                        if s.query@.len() == 0 { r == PickerAction::Close } else { r matches PickerAction::Send(l) && l@ == s.query@ }
                    } else if s.filtered@.len() > 0 {
                        r matches PickerAction::Send(l) && l@ == s.items@[s.filtered@[s.selected as int] as int].name@
                    } else {
                        r == PickerAction::Close
                    }
                }
            }),
    {
        if self.is_form {
            if self.form_field == FormField::Project && self.project_filtered.len() > 0 {
                let idx = self.project_filtered[self.project_selected];
                self.project = self.projects[idx].clone();
                self.form_field = self.next_form_field();
                return PickerAction::Stay;
            }
            if self.name.unicode_len() == 0 {
                self.form_field = FormField::Name;
                return PickerAction::Stay;
            }
            if self.project.unicode_len() == 0 {
                self.form_field = FormField::Project;
                return PickerAction::Stay;
            }
            if self.is_new_project() && self.repo.unicode_len() == 0 {
                self.form_field = FormField::Repo;
                return PickerAction::Stay;
            }
            return PickerAction::Send(self.submit_text());
        }
        if self.freeform {
            if self.query.unicode_len() == 0 {
                return PickerAction::Close;
            }
            return PickerAction::Send(self.query.clone());
        }
        if self.filtered.len() > 0 {
            let idx = self.filtered[self.selected];
            PickerAction::Send(self.items[idx].name.clone())
        } else {
            PickerAction::Close
        }
    }

    /// Down: the next entry, wrapping around (the next project in the form's
    /// project field; nothing elsewhere in the form).
    pub fn select_next(&mut self)
        requires
            old(self).wf(),
        ensures
            final(self).wf(),
            old(self).is_form ==> final(self).selected == old(self).selected
                && final(self).project_selected == if old(self).form_field == FormField::Project {
                    cycle_next(old(self).project_selected, old(self).project_filtered@.len() as usize)
                } else { old(self).project_selected },
            !old(self).is_form ==> final(self).project_selected == old(self).project_selected
                && final(self).selected == cycle_next(old(self).selected, old(self).filtered@.len() as usize),
            final(self).filtered == old(self).filtered,
            final(self).project_filtered == old(self).project_filtered,
            final(self).items == old(self).items,
            final(self).projects == old(self).projects,
            final(self).form_field == old(self).form_field,
            final(self).is_form == old(self).is_form,
            final(self).freeform == old(self).freeform,
    {
        if self.is_form {
            if self.form_field == FormField::Project && self.project_filtered.len() > 0 {
                self.project_selected = (self.project_selected + 1) % self.project_filtered.len();
            }
            return;
        }
        if self.filtered.len() > 0 {
            self.selected = (self.selected + 1) % self.filtered.len();
        }
    }

    /// Up: the previous entry, wrapping around.
    pub fn select_prev(&mut self)
        requires
            old(self).wf(),
        ensures
            final(self).wf(),
            old(self).is_form ==> final(self).selected == old(self).selected
                && final(self).project_selected == if old(self).form_field == FormField::Project {
                    cycle_prev(old(self).project_selected, old(self).project_filtered@.len() as usize)
                } else { old(self).project_selected },
            !old(self).is_form ==> final(self).project_selected == old(self).project_selected
                && final(self).selected == cycle_prev(old(self).selected, old(self).filtered@.len() as usize),
            final(self).filtered == old(self).filtered,
            final(self).project_filtered == old(self).project_filtered,
            final(self).items == old(self).items,
            final(self).projects == old(self).projects,
            final(self).form_field == old(self).form_field,
            final(self).is_form == old(self).is_form,
            final(self).freeform == old(self).freeform,
    {
        if self.is_form {
            if self.form_field == FormField::Project && self.project_filtered.len() > 0 {
                self.project_selected = if self.project_selected == 0 {
                    self.project_filtered.len() - 1
                } else {
                    self.project_selected - 1
                };
            }
            return;
        }
        if self.filtered.len() > 0 {
            self.selected = if self.selected == 0 { self.filtered.len() - 1 } else { self.selected - 1 };
        }
    }

    /// Tab: the next form field; in the list, the next entry.
    pub fn tab(&mut self)
        requires
            old(self).wf(),
        ensures
            final(self).wf(),
            old(self).is_form ==> final(self).form_field == next_field(old(self).form_field,
                old(self).project@.len() > 0 && !in_names(str_views(old(self).projects@), old(self).project@))
                && final(self).selected == old(self).selected,
            !old(self).is_form ==> final(self).form_field == old(self).form_field
                && final(self).selected == cycle_next(old(self).selected, old(self).filtered@.len() as usize),
            final(self).project == old(self).project,
            final(self).projects == old(self).projects,
            final(self).filtered == old(self).filtered,
            final(self).items == old(self).items,
            final(self).is_form == old(self).is_form,
    {
        if self.is_form {
            self.form_field = self.next_form_field();
        } else if self.filtered.len() > 0 {
            self.selected = (self.selected + 1) % self.filtered.len();
        }
    }

    /// Shift-Tab: the previous form field; nothing in the list.
    pub fn tab_back(&mut self)
        requires
            old(self).wf(),
        ensures
            final(self).wf(),
            old(self).is_form ==> final(self).form_field == prev_field(old(self).form_field,
                old(self).project@.len() > 0 && !in_names(str_views(old(self).projects@), old(self).project@)),
            !old(self).is_form ==> final(self).form_field == old(self).form_field,
            final(self).selected == old(self).selected,
            final(self).project == old(self).project,
            final(self).projects == old(self).projects,
            final(self).filtered == old(self).filtered,
            final(self).items == old(self).items,
            final(self).is_form == old(self).is_form,
    {
        if self.is_form {
            self.form_field = self.prev_form_field();
        }
    }

    /// The line that asks to destroy the selected item, in the list only.
    pub fn destroy_selected(&self) -> (r: Option<String>)
        requires
            self.wf(),
        ensures
            (self.is_form || self.freeform || self.filtered@.len() == 0) <==> r is None,
            r matches Some(l) ==> l@ == DESTROY_PREFIX@ + self.items@[self.filtered@[self.selected as int] as int].name@,
    {
        if self.is_form || self.freeform {
            return None;
        }
        if self.filtered.len() > 0 {
            let idx = self.filtered[self.selected];
            Some(concat(DESTROY_PREFIX, self.items[idx].name.as_str()))
        } else {
            None
        }
    }

    /// The line that asks for the creation form.
    pub fn open_create(&self) -> (r: String)
        ensures
            r@ == CREATE_SENTINEL@,
    {
        owned(CREATE_SENTINEL)
    }
}

impl crate::sorting::PairKeyed for PickerItem {
    open spec fn pair_key(&self) -> (Seq<char>, Seq<char>) {
        (self.project@, self.name@)
    }

    fn pair_key_text(&self) -> (r: (&str, &str)) {
        (self.project.as_str(), self.name.as_str())
    }
}

/// Model of a picker entry.
pub open spec fn picker_item_view(i: PickerItem) -> (Seq<char>, Seq<char>, bool, Option<Seq<char>>) {
    (i.name@, i.project@, i.active, crate::model::error::opt_view(i.acp_status))
}

/// The entry for a WorkSession: its id, its project (empty when none), and
/// whether its realization is up (ready or degraded).
pub open spec fn session_item_view(v: crate::model::work_session::WorkSessionView)
    -> (Seq<char>, Seq<char>, bool, Option<Seq<char>>)
{
    (
        v.work_session.work_session_id@,
        match crate::model::error::opt_view(v.work_session.project_id) { Some(p) => p, None => Seq::empty() },
        match v.runtime {
            Some(rt) => rt.realization_status == crate::model::runtime::RealizationStatus::Ready
                || rt.realization_status == crate::model::runtime::RealizationStatus::Degraded,
            None => false,
        },
        None,
    )
}

/// The picker's entries for the WorkSessions, ordered by project, then id.
pub fn session_items(list: &Vec<crate::model::work_session::WorkSessionView>) -> (r: Vec<PickerItem>)
    ensures
        crate::sorting::sorted_by_pair(r@),
        r@.map_values(|i: PickerItem| picker_item_view(i)).to_multiset()
            == list@.map_values(|v: crate::model::work_session::WorkSessionView| session_item_view(v)).to_multiset(),
{
    let ghost f = |i: PickerItem| picker_item_view(i);
    let ghost g = |v: crate::model::work_session::WorkSessionView| session_item_view(v);
    let mut items: Vec<PickerItem> = Vec::new();
    let mut i: usize = 0;
    while i < list.len()
        invariant
            i <= list@.len(),
            f == (|i: PickerItem| picker_item_view(i)),
            g == (|v: crate::model::work_session::WorkSessionView| session_item_view(v)),
            items@.map_values(f) == list@.subrange(0, i as int).map_values(g),
        decreases list@.len() - i,
    {
        let v = &list[i];
        let active = match &v.runtime {
            Some(rt) => match rt.realization_status {
                crate::model::runtime::RealizationStatus::Ready => true,
                crate::model::runtime::RealizationStatus::Degraded => true,
                _ => false,
            },
            None => false,
        };
        let project = match &v.work_session.project_id {
            Some(p) => p.clone(),
            None => String::new(),
        };
        let it = PickerItem { name: v.work_session.work_session_id.clone(), project, active, acp_status: None };
        let ghost before = items@;
        items.push(it);
        proof {
            assert(items@.map_values(f) =~= before.map_values(f).push(f(it)));
            assert(list@.subrange(0, i as int + 1).map_values(g) =~= list@.subrange(0, i as int).map_values(g).push(g(list@[i as int])));
        }
        i = i + 1;
    }
    proof {
        assert(list@.subrange(0, list@.len() as int) =~= list@);
    }
    let ghost unsorted = items@;
    let r = crate::sorting::sort_by_pair(items);
    proof {
        crate::sorting::lemma_map_multiset(r@, unsorted, f);
    }
    r
}

/// What a line from the picker asks for.
#[derive(Debug, PartialEq, Eq)]
pub enum PickerSelection {
    /// Open the creation form.
    Create,
    /// Destroy this WorkSession.
    Destroy(String),
    /// Switch to this WorkSession.
    Open(String),
}

/// Model of a selection.
pub enum SelectionView {
    Create,
    Destroy(Seq<char>),
    Open(Seq<char>),
}

/// What a line from the picker asks for.
pub open spec fn selection_view(line: Seq<char>) -> SelectionView {
    if line == CREATE_SENTINEL@ {
        SelectionView::Create
    } else {
        match crate::text::without_prefix(line, DESTROY_PREFIX@) {
            Some(id) => SelectionView::Destroy(id),
            None => SelectionView::Open(line),
        }
    }
}

/// What a line from the picker asks for.
pub fn selection_of(line: &str) -> (r: PickerSelection)
    ensures
        r == PickerSelection::Create <==> selection_view(line@) == SelectionView::Create,
        r matches PickerSelection::Destroy(id) ==> selection_view(line@) == SelectionView::Destroy(id@),
        r matches PickerSelection::Open(name) ==> selection_view(line@) == SelectionView::Open(name@),
{
    if str_eq(line, CREATE_SENTINEL) {
        return PickerSelection::Create;
    }
    match crate::text::strip_prefix(line, DESTROY_PREFIX) {
        Some(id) => PickerSelection::Destroy(id),
        None => PickerSelection::Open(owned(line)),
    }
}

} // verus!
