//! A JSON document model owned by the library.
//!
//! `JsonValue` is the executable tree; `JsonView` is its mathematical model,
//! with every string taken by its character sequence. Objects are ordered
//! lists of entries whose keys are distinct (`wf`).
use vstd::prelude::*;
use crate::text::{str_eq, owned};

verus! {

/// Executable JSON value.
#[derive(Debug)]
pub enum JsonValue {
    Null,
    Bool(bool),
    /// A number, kept as its canonical decimal text.
    Number(String),
    Str(String),
    Array(Vec<JsonValue>),
    Object(Vec<(String, JsonValue)>),
}

/// Mathematical model of a JSON value.
pub enum JsonView {
    Null,
    Bool(bool),
    Number(Seq<char>),
    Str(Seq<char>),
    Array(Seq<JsonView>),
    Object(Seq<(Seq<char>, JsonView)>),
}

pub open spec fn view_items(s: Seq<JsonValue>) -> Seq<JsonView>
    decreases s,
{
    Seq::new(s.len(), |i: int| if 0 <= i < s.len() { json_view(s[i]) } else { JsonView::Null })
}

pub open spec fn view_entries(s: Seq<(String, JsonValue)>) -> Seq<(Seq<char>, JsonView)>
    decreases s,
{
    Seq::new(s.len(), |i: int| if 0 <= i < s.len() { (s[i].0@, json_view(s[i].1)) } else { (Seq::empty(), JsonView::Null) })
}

pub open spec fn json_view(j: JsonValue) -> JsonView
    decreases j,
{
    match j {
        JsonValue::Null => JsonView::Null,
        JsonValue::Bool(b) => JsonView::Bool(b),
        JsonValue::Number(n) => JsonView::Number(n@),
        JsonValue::Str(s) => JsonView::Str(s@),
        JsonValue::Array(v) => JsonView::Array(view_items(v@)),
        JsonValue::Object(v) => JsonView::Object(view_entries(v@)),
    }
}


impl View for JsonValue {
    type V = JsonView;

    open spec fn view(&self) -> JsonView {
        json_view(*self)
    }
}

/// Index of the first entry whose key is `key`.
pub open spec fn entry_index(entries: Seq<(Seq<char>, JsonView)>, key: Seq<char>) -> Option<int>
    decreases entries.len(),
{
    if entries.len() == 0 {
        None
    } else if entries[0].0 == key {
        Some(0)
    } else {
        match entry_index(entries.drop_first(), key) {
            Some(i) => Some(i + 1),
            None => None,
        }
    }
}

/// The value under `key` in an object; `None` for a missing key or a non-object.
pub open spec fn view_get(j: JsonView, key: Seq<char>) -> Option<JsonView> {
    match j {
        JsonView::Object(entries) => match entry_index(entries, key) {
            Some(i) => Some(entries[i].1),
            None => None,
        },
        _ => None,
    }
}

/// The string inside a string value.
pub open spec fn view_as_str(j: JsonView) -> Option<Seq<char>> {
    match j {
        JsonView::Str(s) => Some(s),
        _ => None,
    }
}

/// The boolean inside a boolean value.
pub open spec fn view_as_bool(j: JsonView) -> Option<bool> {
    match j {
        JsonView::Bool(b) => Some(b),
        _ => None,
    }
}

/// `get(key)` followed by `as_str`.
pub open spec fn view_get_str(j: JsonView, key: Seq<char>) -> Option<Seq<char>> {
    match view_get(j, key) {
        Some(v) => view_as_str(v),
        None => None,
    }
}

/// Keys are pairwise distinct at every level of the document.
pub open spec fn keys_distinct(entries: Seq<(Seq<char>, JsonView)>) -> bool {
    forall|i: int, k: int| 0 <= i < k < entries.len() ==> entries[i].0 != entries[k].0
}

/// The object obtained by setting `key` to `val`: an existing entry is replaced
/// in place, a new key is appended.
pub open spec fn entries_set(entries: Seq<(Seq<char>, JsonView)>, key: Seq<char>, val: JsonView) -> Seq<(Seq<char>, JsonView)> {
    match entry_index(entries, key) {
        Some(i) => entries.update(i, (key, val)),
        None => entries.push((key, val)),
    }
}

/// The object without the entry for `key`.
pub open spec fn entries_remove(entries: Seq<(Seq<char>, JsonView)>, key: Seq<char>) -> Seq<(Seq<char>, JsonView)> {
    match entry_index(entries, key) {
        Some(i) => entries.remove(i),
        None => entries,
    }
}

pub proof fn lemma_entry_index(entries: Seq<(Seq<char>, JsonView)>, key: Seq<char>)
    ensures
        match entry_index(entries, key) {
            Some(i) => 0 <= i < entries.len() && entries[i].0 == key
                && forall|j: int| 0 <= j < i ==> entries[j].0 != key,
            None => forall|j: int| 0 <= j < entries.len() ==> entries[j].0 != key,
        },
    decreases entries.len(),
{
    if entries.len() > 0 && entries[0].0 != key {
        lemma_entry_index(entries.drop_first(), key);
        match entry_index(entries.drop_first(), key) {
            Some(i) => {
                assert forall|j: int| 0 <= j < i + 1 implies entries[j].0 != key by {
                    if j > 0 {
                        assert(entries[j] == entries.drop_first()[j - 1]);
                    }
                }
            },
            None => {
                assert forall|j: int| 0 <= j < entries.len() implies entries[j].0 != key by {
                    if j > 0 {
                        assert(entries[j] == entries.drop_first()[j - 1]);
                    }
                }
            },
        }
    }
}

impl JsonValue {
    /// A copy with the same model.
    #[verifier::loop_isolation(false)]
    pub fn deep_clone(&self) -> (r: JsonValue)
        ensures
            r@ == self@,
        decreases self,
    {
        match self {
            JsonValue::Null => JsonValue::Null,
            JsonValue::Bool(b) => JsonValue::Bool(*b),
            JsonValue::Number(n) => JsonValue::Number(n.clone()),
            JsonValue::Str(s) => JsonValue::Str(s.clone()),
            JsonValue::Array(v) => {
                let mut out: Vec<JsonValue> = Vec::new();
                let mut i: usize = 0;
                while i < v.len()
                    invariant
                        i <= v.len(),
                        out@.len() == i,
                        forall|k: int| 0 <= k < i ==> json_view(#[trigger] out@[k]) == json_view(v@[k]),
                    decreases v.len() - i,
                {
                    proof {
                        assert(decreases_to!(*v => v[i as int]));
                    }
                    let c = v[i].deep_clone();
                    out.push(c);
                    i = i + 1;
                }
                assert(view_items(out@) =~= view_items(v@));
                JsonValue::Array(out)
            },
            JsonValue::Object(v) => {
                let mut out: Vec<(String, JsonValue)> = Vec::new();
                let mut i: usize = 0;
                while i < v.len()
                    invariant
                        i <= v.len(),
                        out@.len() == i,
                        forall|k: int| 0 <= k < i ==> (#[trigger] out@[k]).0@ == v@[k].0@
                            && json_view(out@[k].1) == json_view(v@[k].1),
                    decreases v.len() - i,
                {
                    let k = v[i].0.clone();
                    proof {
                        assert(decreases_to!(*v => v[i as int]));
                        assert(decreases_to!(v[i as int] => v[i as int].1));
                    }
                    let c = v[i].1.deep_clone();
                    out.push((k, c));
                    i = i + 1;
                }
                assert(view_entries(out@) =~= view_entries(v@));
                JsonValue::Object(out)
            },
        }
    }

    /// The value under `key` when `self` is an object.
    pub fn get(&self, key: &str) -> (r: Option<&JsonValue>)
        ensures
            match r {
                Some(v) => view_get(self@, key@) == Some(v@),
                None => view_get(self@, key@) is None,
            },
    {
        match self {
            JsonValue::Object(v) => {
                let ghost ents = view_entries(v@);
                assert(self@ == JsonView::Object(ents));
                let mut i: usize = 0;
                while i < v.len()
                    invariant
                        i <= v.len(),
                        ents == view_entries(v@),
                        self@ == JsonView::Object(ents),
                        forall|j: int| 0 <= j < i ==> ents[j].0 != key@,
                    decreases v.len() - i,
                {
                    if str_eq(v[i].0.as_str(), key) {
                        proof {
                            lemma_entry_index(ents, key@);
                            assert(ents[i as int].0 == key@);
                            assert(entry_index(ents, key@) == Some(i as int));
                            assert(ents[i as int].1 == json_view(v@[i as int].1));
                            assert(self@ == JsonView::Object(ents));
                        }
                        return Some(&v[i].1);
                    }
                    i = i + 1;
                }
                proof {
                    lemma_entry_index(ents, key@);
                }
                None
            },
            _ => None,
        }
    }

    /// The string when `self` is a string value.
    pub fn as_str(&self) -> (r: Option<&str>)
        ensures
            match r {
                Some(s) => view_as_str(self@) == Some(s@),
                None => view_as_str(self@) is None,
            },
    {
        match self {
            JsonValue::Str(s) => Some(s.as_str()),
            _ => None,
        }
    }

    /// The boolean when `self` is a boolean value.
    pub fn as_bool(&self) -> (r: Option<bool>)
        ensures
            r == view_as_bool(self@),
    {
        match self {
            JsonValue::Bool(b) => Some(*b),
            _ => None,
        }
    }

    pub fn is_object(&self) -> (r: bool)
        ensures
            r == (self@ is Object),
    {
        match self {
            JsonValue::Object(_) => true,
            _ => false,
        }
    }

    /// `get(key)` then `as_str`, as an owned string.
    pub fn get_str(&self, key: &str) -> (r: Option<String>)
        ensures
            match r {
                Some(s) => view_get_str(self@, key@) == Some(s@),
                None => view_get_str(self@, key@) is None,
            },
    {
        match self.get(key) {
            Some(v) => match v.as_str() {
                Some(s) => Some(owned(s)),
                None => None,
            },
            None => None,
        }
    }
}


/// Entries of an object view; a non-object counts as the empty object.
pub open spec fn view_entries_of(j: JsonView) -> Seq<(Seq<char>, JsonView)> {
    match j {
        JsonView::Object(e) => e,
        _ => Seq::empty(),
    }
}

/// Position of `key` among executable entries.
fn find_entry(v: &Vec<(String, JsonValue)>, key: &str) -> (r: Option<usize>)
    ensures
        r.is_some() ==> entry_index(view_entries(v@), key@) == Some(r.unwrap() as int),
        r.is_none() ==> entry_index(view_entries(v@), key@) is None,
        r.is_some() ==> r.unwrap() < v@.len(),
{
    let ghost ents = view_entries(v@);
    let mut i: usize = 0;
    while i < v.len()
        invariant
            i <= v.len(),
            ents == view_entries(v@),
            forall|j: int| 0 <= j < i ==> ents[j].0 != key@,
        decreases v.len() - i,
    {
        if str_eq(v[i].0.as_str(), key) {
            proof {
                lemma_entry_index(ents, key@);
                assert(ents[i as int].0 == key@);
            }
            return Some(i);
        }
        i = i + 1;
    }
    proof {
        lemma_entry_index(ents, key@);
    }
    None
}

impl JsonValue {
    /// An empty object.
    pub fn empty_object() -> (r: JsonValue)
        ensures
            r@ == JsonView::Object(Seq::empty()),
    {
        let v: Vec<(String, JsonValue)> = Vec::new();
        let r = JsonValue::Object(v);
        assert(view_entries(v@) =~= Seq::empty());
        r
    }

    /// The object with `key` set to `val` (replacing an existing entry in
    /// place, appending a new one otherwise). A non-object becomes an object.
    pub fn with_entry(self, key: &str, val: JsonValue) -> (r: JsonValue)
        ensures
            r@ == JsonView::Object(entries_set(view_entries_of(self@), key@, val@)),
    {
        let mut v: Vec<(String, JsonValue)> = match self {
            JsonValue::Object(v) => v,
            _ => Vec::new(),
        };
        let ghost old_v = v@;
        proof {
            if !(self@ is Object) {
                assert(view_entries(old_v) =~= view_entries_of(self@));
            }
        }
        let k = owned(key);
        match find_entry(&v, key) {
            Some(i) => {
                v.set(i, (k, val));
                proof {
                    assert(view_entries(v@) =~= view_entries(old_v).update(i as int, (key@, val@)));
                }
            },
            None => {
                v.push((k, val));
                proof {
                    assert(view_entries(v@) =~= view_entries(old_v).push((key@, val@)));
                }
            },
        }
        JsonValue::Object(v)
    }

    /// The object without the entry for `key`. A non-object becomes an empty object.
    pub fn without_entry(self, key: &str) -> (r: JsonValue)
        ensures
            r@ == JsonView::Object(entries_remove(view_entries_of(self@), key@)),
    {
        let mut v: Vec<(String, JsonValue)> = match self {
            JsonValue::Object(v) => v,
            _ => Vec::new(),
        };
        let ghost old_v = v@;
        proof {
            if !(self@ is Object) {
                assert(view_entries(old_v) =~= view_entries_of(self@));
            }
        }
        match find_entry(&v, key) {
            Some(i) => {
                v.remove(i);
                proof {
                    assert(view_entries(v@) =~= view_entries(old_v).remove(i as int));
                }
            },
            None => {},
        }
        JsonValue::Object(v)
    }
}


/// Equality of two JSON values by model.
#[verifier::loop_isolation(false)]
pub fn json_eq(a: &JsonValue, b: &JsonValue) -> (r: bool)
    ensures
        r == (a@ == b@),
    decreases a,
{
    match (a, b) {
        (JsonValue::Null, JsonValue::Null) => true,
        (JsonValue::Bool(x), JsonValue::Bool(y)) => *x == *y,
        (JsonValue::Number(x), JsonValue::Number(y)) => str_eq(x.as_str(), y.as_str()),
        (JsonValue::Str(x), JsonValue::Str(y)) => str_eq(x.as_str(), y.as_str()),
        (JsonValue::Array(x), JsonValue::Array(y)) => {
            if x.len() != y.len() {
                assert(view_items(x@).len() != view_items(y@).len());
                return false;
            }
            let mut i: usize = 0;
            while i < x.len()
                invariant
                    x.len() == y.len(),
                    i <= x.len(),
                    forall|k: int| 0 <= k < i ==> json_view(#[trigger] x@[k]) == json_view(y@[k]),
                decreases x.len() - i,
            {
                proof {
                    assert(decreases_to!(*x => x[i as int]));
                }
                if !json_eq(&x[i], &y[i]) {
                    assert(view_items(x@)[i as int] != view_items(y@)[i as int]);
                    return false;
                }
                i = i + 1;
            }
            assert(view_items(x@) =~= view_items(y@));
            true
        },
        (JsonValue::Object(x), JsonValue::Object(y)) => {
            if x.len() != y.len() {
                assert(view_entries(x@).len() != view_entries(y@).len());
                return false;
            }
            let mut i: usize = 0;
            while i < x.len()
                invariant
                    x.len() == y.len(),
                    i <= x.len(),
                    forall|k: int| 0 <= k < i ==> (#[trigger] x@[k]).0@ == y@[k].0@
                        && json_view(x@[k].1) == json_view(y@[k].1),
                decreases x.len() - i,
            {
                if !str_eq(x[i].0.as_str(), y[i].0.as_str()) {
                    assert(view_entries(x@)[i as int] != view_entries(y@)[i as int]);
                    return false;
                }
                proof {
                    assert(decreases_to!(*x => x[i as int]));
                    assert(decreases_to!(x[i as int] => x[i as int].1));
                }
                if !json_eq(&x[i].1, &y[i].1) {
                    assert(view_entries(x@)[i as int] != view_entries(y@)[i as int]);
                    return false;
                }
                i = i + 1;
            }
            assert(view_entries(x@) =~= view_entries(y@));
            true
        },
        _ => false,
    }
}


impl Clone for JsonValue {
    fn clone(&self) -> (r: Self)
        ensures
            r@ == self@,
    {
        self.deep_clone()
    }
}


/// Array of string values.
pub open spec fn str_array(items: Seq<Seq<char>>) -> JsonView {
    JsonView::Array(Seq::new(items.len(), |i: int| JsonView::Str(items[i])))
}

/// The strings of an array made only of strings.
pub open spec fn view_str_items(j: JsonView) -> Option<Seq<Seq<char>>> {
    match j {
        JsonView::Array(items) => if forall|i: int| 0 <= i < items.len() ==> #[trigger] items[i] is Str {
            Some(Seq::new(items.len(), |i: int| view_as_str(items[i]).unwrap()))
        } else {
            None
        },
        _ => None,
    }
}

/// A JSON array of the given strings.
pub fn string_array(items: &Vec<String>) -> (r: JsonValue)
    ensures
        r@ == str_array(Seq::new(items@.len(), |i: int| items@[i]@)),
{
    let mut out: Vec<JsonValue> = Vec::new();
    let mut i: usize = 0;
    while i < items.len()
        invariant
            i <= items.len(),
            out@.len() == i,
            forall|k: int| 0 <= k < i ==> json_view(#[trigger] out@[k]) == JsonView::Str(items@[k]@),
        decreases items.len() - i,
    {
        out.push(JsonValue::Str(items[i].clone()));
        i = i + 1;
    }
    let r = JsonValue::Array(out);
    assert(view_items(out@) =~= Seq::new(items@.len(), |k: int| JsonView::Str(Seq::new(items@.len(), |i: int| items@[i]@)[k])));
    r
}

/// The strings of an array made only of strings.
pub fn str_items(j: &JsonValue) -> (r: Option<Vec<String>>)
    ensures
        match r {
            Some(v) => view_str_items(j@) == Some(Seq::new(v@.len(), |i: int| v@[i]@)),
            None => view_str_items(j@) is None,
        },
{
    match j {
        JsonValue::Array(items) => {
            let ghost vs = view_items(items@);
            assert(j@ == JsonView::Array(vs));
            let mut out: Vec<String> = Vec::new();
            let mut i: usize = 0;
            while i < items.len()
                invariant
                    i <= items.len(),
                    vs == view_items(items@),
                    vs.len() == items@.len(),
                    j@ == JsonView::Array(vs),
                    out@.len() == i,
                    forall|k: int| 0 <= k < i ==> vs[k] == JsonView::Str(#[trigger] out@[k]@),
                decreases items.len() - i,
            {
                match &items[i] {
                    JsonValue::Str(s) => {
                        out.push(s.clone());
                    },
                    _ => {
                        assert(!(vs[i as int] is Str));
                        assert(!(forall|k: int| 0 <= k < vs.len() ==> #[trigger] vs[k] is Str));
                        return None;
                    },
                }
                i = i + 1;
            }
            assert forall|k: int| 0 <= k < vs.len() implies #[trigger] vs[k] is Str by {
                assert(vs[k] == JsonView::Str(out@[k]@));
            }
            assert(Seq::new(vs.len(), |k: int| view_as_str(vs[k]).unwrap()) =~= Seq::new(out@.len(), |k: int| out@[k]@));
            Some(out)
        },
        _ => None,
    }
}

impl JsonValue {
    /// The entries when `self` is an object.
    pub fn entries(&self) -> (r: Option<&Vec<(String, JsonValue)>>)
        ensures
            match r {
                Some(v) => self@ == JsonView::Object(view_entries(v@)),
                None => !(self@ is Object),
            },
    {
        match self {
            JsonValue::Object(v) => Some(v),
            _ => None,
        }
    }
}

/// Append an entry to the entries of an object under construction.
pub fn push_entry(v: &mut Vec<(String, JsonValue)>, key: &str, val: JsonValue)
    ensures
        view_entries(final(v)@) == view_entries(old(v)@).push((key@, val@)),
{
    let ghost before = v@;
    v.push((owned(key), val));
    assert(view_entries(v@) =~= view_entries(before).push((key@, val@)));
}

/// A JSON string.
pub fn str_value(s: &str) -> (r: JsonValue)
    ensures
        r@ == JsonView::Str(s@),
{
    JsonValue::Str(owned(s))
}

/// A JSON number holding a non-negative integer.
pub fn number_value(n: u64) -> (r: JsonValue)
    ensures
        r@ == JsonView::Number(crate::decimal::decimal(n as nat)),
{
    JsonValue::Number(crate::decimal::u64_to_decimal(n))
}

} // verus!
