//! Character-level string helpers shared by the library.
//!
//! Strings are modelled by their `Seq<char>` view; these helpers give the
//! executable operations the rest of the crate needs, each with an exact
//! contract over that view.
use vstd::prelude::*;

verus! {

/// `s` starts with `p`.
pub open spec fn has_prefix(s: Seq<char>, p: Seq<char>) -> bool {
    p.len() <= s.len() && s.subrange(0, p.len() as int) == p
}

/// `s` ends with `p`.
pub open spec fn has_suffix(s: Seq<char>, p: Seq<char>) -> bool {
    p.len() <= s.len() && s.subrange(s.len() - p.len(), s.len() as int) == p
}

/// Appends one character to a `String`.
#[verifier::external_body]
pub(crate) fn push_char(s: &mut String, c: char)
    ensures
        final(s)@ == old(s)@.push(c),
{
    s.push(c);
}

/// A fresh `String` holding the given characters.
pub fn string_from_chars(cs: &Vec<char>) -> (r: String)
    ensures
        r@ == cs@,
{
    let mut r = String::new();
    let mut i: usize = 0;
    while i < cs.len()
        invariant
            i <= cs.len(),
            r@ == cs@.subrange(0, i as int),
        decreases cs.len() - i,
    {
        push_char(&mut r, cs[i]);
        i = i + 1;
    }
    r
}

/// The characters of `s`, in order.
pub fn chars_of(s: &str) -> (r: Vec<char>)
    ensures
        r@ == s@,
{
    let n = s.unicode_len();
    let mut r: Vec<char> = Vec::new();
    let mut i: usize = 0;
    while i < n
        invariant
            n == s@.len(),
            i <= n,
            r@ == s@.subrange(0, i as int),
        decreases n - i,
    {
        r.push(s.get_char(i));
        i = i + 1;
    }
    r
}

/// An owned copy of `s`.
pub fn owned(s: &str) -> (r: String)
    ensures
        r@ == s@,
{
    let cs = chars_of(s);
    string_from_chars(&cs)
}

/// Character-wise equality of two character vectors.
pub fn chars_eq(a: &Vec<char>, b: &Vec<char>) -> (r: bool)
    ensures
        r == (a@ == b@),
{
    if a.len() != b.len() {
        return false;
    }
    let mut i: usize = 0;
    while i < a.len()
        invariant
            a.len() == b.len(),
            i <= a.len(),
            forall|j: int| 0 <= j < i ==> a@[j] == b@[j],
        decreases a.len() - i,
    {
        if a[i] != b[i] {
            return false;
        }
        i = i + 1;
    }
    assert(a@ =~= b@);
    true
}

/// String equality by view.
pub fn str_eq(a: &str, b: &str) -> (r: bool)
    ensures
        r == (a@ == b@),
{
    let ca = chars_of(a);
    let cb = chars_of(b);
    chars_eq(&ca, &cb)
}

/// `s` starts with `p`.
pub fn starts_with(s: &str, p: &str) -> (r: bool)
    ensures
        r == has_prefix(s@, p@),
{
    let cs = chars_of(s);
    let cp = chars_of(p);
    if cp.len() > cs.len() {
        return false;
    }
    let mut i: usize = 0;
    while i < cp.len()
        invariant
            cs@ == s@,
            cp@ == p@,
            cp.len() <= cs.len(),
            i <= cp.len(),
            forall|j: int| 0 <= j < i ==> cs@[j] == cp@[j],
        decreases cp.len() - i,
    {
        if cs[i] != cp[i] {
            assert(s@.subrange(0, p@.len() as int)[i as int] != p@[i as int]);
            return false;
        }
        i = i + 1;
    }
    assert(s@.subrange(0, p@.len() as int) =~= p@);
    true
}

/// `s` ends with `p`.
pub fn ends_with(s: &str, p: &str) -> (r: bool)
    ensures
        r == has_suffix(s@, p@),
{
    let cs = chars_of(s);
    let cp = chars_of(p);
    if cp.len() > cs.len() {
        return false;
    }
    let off = cs.len() - cp.len();
    let mut i: usize = 0;
    while i < cp.len()
        invariant
            cs@ == s@,
            cp@ == p@,
            cp.len() <= cs.len(),
            off == cs.len() - cp.len(),
            i <= cp.len(),
            forall|j: int| 0 <= j < i ==> cs@[off + j] == cp@[j],
        decreases cp.len() - i,
    {
        if cs[off + i] != cp[i] {
            assert(s@.subrange(off as int, s@.len() as int)[i as int] != p@[i as int]);
            return false;
        }
        i = i + 1;
    }
    assert(s@.subrange(off as int, s@.len() as int) =~= p@);
    true
}

/// The characters of `s` from `from` to the end.
pub fn suffix_from(s: &str, from: usize) -> (r: String)
    requires
        from <= s@.len(),
    ensures
        r@ == s@.subrange(from as int, s@.len() as int),
{
    let n = s.unicode_len();
    let sub = s.substring_char(from, n);
    owned(sub)
}

/// Concatenation of two strings.
pub fn concat(a: &str, b: &str) -> (r: String)
    ensures
        r@ == a@ + b@,
{
    let mut r = owned(a);
    r.append(b);
    r
}


/// Views of a list of strings.
pub open spec fn str_views(v: Seq<String>) -> Seq<Seq<char>> {
    Seq::new(v.len(), |i: int| v[i]@)
}

/// `x` occurs in `names`.
pub open spec fn in_names(names: Seq<Seq<char>>, x: Seq<char>) -> bool {
    exists|j: int| 0 <= j < names.len() && names[j] == x
}

/// Membership of a string in a vector of strings.
pub fn contains_str(v: &Vec<String>, x: &str) -> (r: bool)
    ensures
        r == in_names(str_views(v@), x@),
{
    let mut i: usize = 0;
    while i < v.len()
        invariant
            i <= v@.len(),
            forall|k: int| 0 <= k < i ==> v@[k]@ != x@,
        decreases v@.len() - i,
    {
        if str_eq(v[i].as_str(), x) {
            assert(str_views(v@)[i as int] == x@);
            return true;
        }
        i = i + 1;
    }
    assert forall|j: int| 0 <= j < str_views(v@).len() implies str_views(v@)[j] != x@ by {
        assert(str_views(v@)[j] == v@[j]@);
    }
    false
}

/// Unicode `White_Space`, as `char::is_whitespace` decides it.
pub open spec fn is_ws(c: char) -> bool {
    let n = c as u32;
    (0x09 <= n && n <= 0x0d) || n == 0x20 || n == 0x85 || n == 0xa0 || n == 0x1680
        || (0x2000 <= n && n <= 0x200a) || n == 0x2028 || n == 0x2029 || n == 0x202f
        || n == 0x205f || n == 0x3000
}

pub fn char_is_ws(c: char) -> (r: bool)
    ensures
        r == is_ws(c),
{
    let n = c as u32;
    (0x09 <= n && n <= 0x0d) || n == 0x20 || n == 0x85 || n == 0xa0 || n == 0x1680
        || (0x2000 <= n && n <= 0x200a) || n == 0x2028 || n == 0x2029 || n == 0x202f
        || n == 0x205f || n == 0x3000
}

/// Number of leading whitespace characters.
pub open spec fn lead_ws(s: Seq<char>) -> nat
    decreases s.len(),
{
    if s.len() > 0 && is_ws(s[0]) { 1 + lead_ws(s.drop_first()) } else { 0 }
}

/// Number of trailing whitespace characters.
pub open spec fn trail_ws(s: Seq<char>) -> nat
    decreases s.len(),
{
    if s.len() > 0 && is_ws(s.last()) { 1 + trail_ws(s.drop_last()) } else { 0 }
}

/// `s` without leading and trailing whitespace (`str::trim`).
pub open spec fn trimmed(s: Seq<char>) -> Seq<char> {
    let rest = s.subrange(lead_ws(s) as int, s.len() as int);
    rest.subrange(0, rest.len() - trail_ws(rest))
}

proof fn lemma_lead_exact(s: Seq<char>, a: int)
    requires
        0 <= a <= s.len(),
        forall|k: int| 0 <= k < a ==> is_ws(#[trigger] s[k]),
        a < s.len() ==> !is_ws(s[a]),
    ensures
        lead_ws(s) == a,
    decreases s.len(),
{
    if a > 0 {
        assert(is_ws(s[0]));
        assert forall|k: int| 0 <= k < a - 1 implies is_ws(#[trigger] s.drop_first()[k]) by {
            assert(s.drop_first()[k] == s[k + 1]);
        }
        if a - 1 < s.drop_first().len() {
            assert(s.drop_first()[a - 1] == s[a]);
        }
        lemma_lead_exact(s.drop_first(), a - 1);
    }
}

proof fn lemma_trail_exact(s: Seq<char>, b: int)
    requires
        0 <= b <= s.len(),
        forall|k: int| s.len() - b <= k < s.len() ==> is_ws(#[trigger] s[k]),
        b < s.len() ==> !is_ws(s[s.len() - 1 - b]),
    ensures
        trail_ws(s) == b,
    decreases s.len(),
{
    if b > 0 {
        assert(is_ws(s[s.len() - 1]));
        let d = s.drop_last();
        assert forall|k: int| d.len() - (b - 1) <= k < d.len() implies is_ws(#[trigger] d[k]) by {
            assert(d[k] == s[k]);
        }
        if b - 1 < d.len() {
            assert(d[d.len() - 1 - (b - 1)] == s[s.len() - 1 - b]);
        }
        lemma_trail_exact(d, b - 1);
    }
}

/// `str::trim`: the text without leading and trailing whitespace.
pub fn trim(s: &str) -> (r: String)
    ensures
        r@ == trimmed(s@),
{
    let cs = chars_of(s);
    let n = cs.len();
    let mut a: usize = 0;
    while a < n && char_is_ws(cs[a])
        invariant
            a <= n,
            n == cs@.len(),
            cs@ == s@,
            forall|k: int| 0 <= k < a ==> is_ws(#[trigger] cs@[k]),
        decreases n - a,
    {
        a = a + 1;
    }
    let mut b: usize = n;
    while b > a && char_is_ws(cs[b - 1])
        invariant
            a <= b <= n,
            n == cs@.len(),
            forall|k: int| b <= k < n ==> is_ws(#[trigger] cs@[k]),
        decreases b,
    {
        b = b - 1;
    }
    let mut out: Vec<char> = Vec::new();
    let mut i: usize = a;
    while i < b
        invariant
            a <= i <= b,
            b <= n,
            n == cs@.len(),
            out@ == cs@.subrange(a as int, i as int),
        decreases b - i,
    {
        out.push(cs[i]);
        i = i + 1;
    }
    proof {
        let sv = s@;
        lemma_lead_exact(sv, a as int);
        let rest = sv.subrange(a as int, sv.len() as int);
        let t = (n - b) as int;
        assert forall|k: int| rest.len() - t <= k < rest.len() implies is_ws(#[trigger] rest[k]) by {
            assert(rest[k] == sv[k + a]);
        }
        if t < rest.len() {
            assert(rest[rest.len() - 1 - t] == sv[b - 1]);
        }
        lemma_trail_exact(rest, t);
        assert(out@ =~= rest.subrange(0, rest.len() - t));
    }
    string_from_chars(&out)
}

/// The whitespace-separated words of `s` (`str::split_whitespace`), built
/// character by character.
pub open spec fn words(s: Seq<char>) -> Seq<Seq<char>>
    decreases s.len(),
{
    if s.len() == 0 {
        Seq::empty()
    } else {
        let w = words(s.drop_last());
        let c = s.last();
        if is_ws(c) {
            w
        } else if s.len() >= 2 && !is_ws(s[s.len() - 2]) {
            w.update(w.len() - 1, w.last().push(c))
        } else {
            w.push(seq![c])
        }
    }
}

/// `str::split_whitespace`.
pub fn split_whitespace(s: &str) -> (r: Vec<String>)
    ensures
        str_views(r@) == words(s@),
{
    let cs = chars_of(s);
    let mut out: Vec<String> = Vec::new();
    let mut cur: Vec<char> = Vec::new();
    let mut i: usize = 0;
    while i < cs.len()
        invariant
            i <= cs@.len(),
            cs@ == s@,
            (i > 0 && !is_ws(cs@[i - 1])) ==> cur@.len() > 0
                && words(cs@.subrange(0, i as int)) == str_views(out@).push(cur@),
            !(i > 0 && !is_ws(cs@[i - 1])) ==> cur@.len() == 0
                && words(cs@.subrange(0, i as int)) == str_views(out@),
        decreases cs@.len() - i,
    {
        let c = cs[i];
        let ghost pre = cs@.subrange(0, i as int);
        let ghost next = cs@.subrange(0, i as int + 1);
        proof {
            assert(next.drop_last() =~= pre);
            assert(next.last() == c);
            if i > 0 {
                assert(next[next.len() - 2] == cs@[i - 1]);
            }
        }
        if char_is_ws(c) {
            if cur.len() > 0 {
                let ghost ov = str_views(out@);
                let w = string_from_chars(&cur);
                out.push(w);
                proof {
                    assert(str_views(out@) =~= ov.push(cur@));
                }
                cur = Vec::new();
            }
        } else {
            let ghost old_cur = cur@;
            let ghost ov = str_views(out@);
            cur.push(c);
            proof {
                if i > 0 && !is_ws(cs@[i - 1]) {
                    let w = ov.push(old_cur);
                    assert(words(next) == w.update(w.len() - 1, w.last().push(c)));
                    assert(w.update(w.len() - 1, w.last().push(c)) =~= ov.push(cur@));
                } else {
                    assert(cur@ =~= seq![c]);
                }
            }
        }
        i = i + 1;
    }
    if cur.len() > 0 {
        let ghost ov = str_views(out@);
        let w = string_from_chars(&cur);
        out.push(w);
        proof {
            assert(str_views(out@) =~= ov.push(cur@));
        }
    }
    proof {
        assert(cs@.subrange(0, cs@.len() as int) =~= cs@);
    }
    out
}

/// `s.split('\n')`: the pieces between newlines, empty ones included.
pub open spec fn split_lines(s: Seq<char>) -> Seq<Seq<char>>
    decreases s.len(),
{
    if s.len() == 0 {
        seq![Seq::empty()]
    } else {
        let p = split_lines(s.drop_last());
        if s.last() == '\n' {
            p.push(Seq::empty())
        } else {
            p.update(p.len() - 1, p.last().push(s.last()))
        }
    }
}

pub proof fn lemma_split_lines_nonempty(s: Seq<char>)
    ensures
        split_lines(s).len() >= 1,
    decreases s.len(),
{
    if s.len() > 0 {
        lemma_split_lines_nonempty(s.drop_last());
    }
}

/// `s.split('\n')`.
pub fn split_lines_exec(s: &str) -> (r: Vec<String>)
    ensures
        str_views(r@) == split_lines(s@),
{
    let cs = chars_of(s);
    let mut done: Vec<String> = Vec::new();
    let mut cur: Vec<char> = Vec::new();
    let mut i: usize = 0;
    proof {
        assert(cs@.subrange(0, 0) =~= Seq::<char>::empty());
        assert(str_views(done@).push(cur@) =~= seq![Seq::<char>::empty()]);
    }
    while i < cs.len()
        invariant
            i <= cs@.len(),
            cs@ == s@,
            split_lines(cs@.subrange(0, i as int)) == str_views(done@).push(cur@),
        decreases cs@.len() - i,
    {
        let c = cs[i];
        let ghost next = cs@.subrange(0, i as int + 1);
        let ghost dv = str_views(done@);
        let ghost cv = cur@;
        proof {
            assert(next.drop_last() =~= cs@.subrange(0, i as int));
            assert(next.last() == c);
        }
        if c == '\n' {
            let w = string_from_chars(&cur);
            done.push(w);
            cur = Vec::new();
            proof {
                assert(str_views(done@) =~= dv.push(cv));
                assert(str_views(done@).push(cur@) =~= dv.push(cv).push(Seq::empty()));
            }
        } else {
            cur.push(c);
            proof {
                let p = dv.push(cv);
                assert(p.update(p.len() - 1, p.last().push(c)) =~= dv.push(cur@));
            }
        }
        i = i + 1;
    }
    let w = string_from_chars(&cur);
    let ghost dv = str_views(done@);
    done.push(w);
    proof {
        assert(cs@.subrange(0, cs@.len() as int) =~= cs@);
        assert(str_views(done@) =~= dv.push(cur@));
    }
    done
}

/// `lines.join(sep)`.
pub open spec fn joined(lines: Seq<Seq<char>>, sep: Seq<char>) -> Seq<char>
    decreases lines.len(),
{
    if lines.len() == 0 {
        Seq::empty()
    } else if lines.len() == 1 {
        lines[0]
    } else {
        joined(lines.drop_last(), sep) + sep + lines.last()
    }
}

/// `lines.join(sep)`.
pub fn join_with(lines: &Vec<String>, sep: &str) -> (r: String)
    ensures
        r@ == joined(str_views(lines@), sep@),
{
    if lines.len() == 0 {
        return String::new();
    }
    let mut out = lines[0].clone();
    let mut i: usize = 1;
    proof {
        assert(str_views(lines@).subrange(0, 1).drop_last().len() == 0);
    }
    while i < lines.len()
        invariant
            1 <= i <= lines@.len(),
            out@ == joined(str_views(lines@).subrange(0, i as int), sep@),
        decreases lines@.len() - i,
    {
        let ghost pre = str_views(lines@).subrange(0, i as int);
        let ghost next = str_views(lines@).subrange(0, i as int + 1);
        proof {
            assert(next.drop_last() =~= pre);
            assert(next.last() == lines@[i as int]@);
        }
        let a = concat(out.as_str(), sep);
        out = concat(a.as_str(), lines[i].as_str());
        i = i + 1;
    }
    proof {
        assert(str_views(lines@).subrange(0, lines@.len() as int) =~= str_views(lines@));
    }
    out
}

/// `p` occurs in `s`.
pub open spec fn has_infix(s: Seq<char>, p: Seq<char>) -> bool {
    exists|i: int| 0 <= i && i + p.len() <= s.len() && #[trigger] s.subrange(i, i + p.len()) == p
}

/// `s.contains(p)`.
pub fn contains_text(s: &str, p: &str) -> (r: bool)
    ensures
        r == has_infix(s@, p@),
{
    let cs = chars_of(s);
    let cp = chars_of(p);
    if cp.len() == 0 {
        assert(s@.subrange(0int, 0int + p@.len()) =~= p@);
        return true;
    }
    if cp.len() > cs.len() {
        return false;
    }
    let end = cs.len() - cp.len() + 1;
    let mut i: usize = 0;
    while i < end
        invariant
            cs@ == s@,
            cp@ == p@,
            cs@.len() == cs.len(),
            end == cs@.len() - cp@.len() + 1,
            1 <= cp@.len() <= cs@.len(),
            i <= end,
            forall|j: int| 0 <= j < i ==> #[trigger] s@.subrange(j, j + p@.len()) != p@,
        decreases end - i,
    {
        let mut k: usize = 0;
        let mut ok = true;
        while k < cp.len()
            invariant
                cs@ == s@,
                cp@ == p@,
                cs@.len() == cs.len(),
                i + cp@.len() <= cs@.len(),
                k <= cp@.len(),
                ok ==> forall|j: int| 0 <= j < k ==> cs@[i + j] == cp@[j],
                !ok ==> s@.subrange(i as int, i + p@.len()) != p@,
            decreases cp@.len() - k,
        {
            if cs[i + k] != cp[k] {
                assert(s@.subrange(i as int, i + p@.len())[k as int] != p@[k as int]);
                ok = false;
            }
            k = k + 1;
        }
        if ok {
            assert(s@.subrange(i as int, i + p@.len()) =~= p@);
            return true;
        }
        i = i + 1;
    }
    false
}

/// `s` without its trailing run of `c` (`str::trim_end_matches` with a char).
pub open spec fn trimmed_end(s: Seq<char>, c: char) -> Seq<char>
    decreases s.len(),
{
    if s.len() > 0 && s.last() == c { trimmed_end(s.drop_last(), c) } else { s }
}

/// `s` without its trailing run of `c`.
pub fn trim_end_char(s: &str, c: char) -> (r: String)
    ensures
        r@ == trimmed_end(s@, c),
{
    let cs = chars_of(s);
    let mut n: usize = cs.len();
    assert(cs@.subrange(0, n as int) =~= s@);
    while n > 0 && cs[n - 1] == c
        invariant
            n <= cs@.len(),
            cs@ == s@,
            trimmed_end(cs@.subrange(0, n as int), c) == trimmed_end(s@, c),
        decreases n,
    {
        assert(cs@.subrange(0, n as int).drop_last() =~= cs@.subrange(0, n as int - 1));
        n = n - 1;
    }
    assert(trimmed_end(cs@.subrange(0, n as int), c) == cs@.subrange(0, n as int));
    let mut out: Vec<char> = Vec::new();
    let mut i: usize = 0;
    while i < n
        invariant
            i <= n <= cs@.len(),
            out@ == cs@.subrange(0, i as int),
        decreases n - i,
    {
        out.push(cs[i]);
        assert(cs@.subrange(0, i as int + 1) =~= cs@.subrange(0, i as int).push(cs@[i as int]));
        i = i + 1;
    }
    string_from_chars(&out)
}

/// `s` without the prefix `p`, when it has it (`str::strip_prefix`).
pub open spec fn without_prefix(s: Seq<char>, p: Seq<char>) -> Option<Seq<char>> {
    if has_prefix(s, p) { Some(s.subrange(p.len() as int, s.len() as int)) } else { None }
}

/// `s` without the suffix `p`, when it has it (`str::strip_suffix`).
pub open spec fn without_suffix(s: Seq<char>, p: Seq<char>) -> Option<Seq<char>> {
    if has_suffix(s, p) { Some(s.subrange(0, s.len() - p.len())) } else { None }
}

/// `s` without the prefix `p`, when it has it.
pub fn strip_prefix(s: &str, p: &str) -> (r: Option<String>)
    ensures
        match r {
            Some(t) => without_prefix(s@, p@) == Some(t@),
            None => without_prefix(s@, p@) is None,
        },
{
    if starts_with(s, p) {
        Some(suffix_from(s, p.unicode_len()))
    } else {
        None
    }
}

/// The first `to` characters of `s`.
pub fn prefix_to(s: &str, to: usize) -> (r: String)
    requires
        to <= s@.len(),
    ensures
        r@ == s@.subrange(0, to as int),
{
    let cs = chars_of(s);
    let mut out: Vec<char> = Vec::new();
    let mut i: usize = 0;
    while i < to
        invariant
            i <= to <= cs@.len(),
            cs@ == s@,
            out@ == cs@.subrange(0, i as int),
        decreases to - i,
    {
        out.push(cs[i]);
        assert(cs@.subrange(0, i as int + 1) =~= cs@.subrange(0, i as int).push(cs@[i as int]));
        i = i + 1;
    }
    string_from_chars(&out)
}

/// `s` without the suffix `p`, when it has it.
pub fn strip_suffix(s: &str, p: &str) -> (r: Option<String>)
    ensures
        match r {
            Some(t) => without_suffix(s@, p@) == Some(t@),
            None => without_suffix(s@, p@) is None,
        },
{
    if ends_with(s, p) {
        Some(prefix_to(s, s.unicode_len() - p.unicode_len()))
    } else {
        None
    }
}

} // verus!
