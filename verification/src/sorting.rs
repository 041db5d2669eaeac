//! Ordering by text: the order `String` compares in (by code point, which is
//! the order of the UTF-8 bytes) and a sort of keyed entries.
use vstd::prelude::*;
use crate::text::chars_of;
use vstd::multiset::Multiset;

verus! {

broadcast use vstd::seq_lib::group_to_multiset_ensures;

/// `a <= b` in lexicographic order of code points.
pub open spec fn lex_le(a: Seq<char>, b: Seq<char>) -> bool
    decreases a.len(),
{
    if a.len() == 0 {
        true
    } else if b.len() == 0 {
        false
    } else if a[0] < b[0] {
        true
    } else if a[0] > b[0] {
        false
    } else {
        lex_le(a.drop_first(), b.drop_first())
    }
}

/// Any two texts compare one way or the other.
pub proof fn lemma_lex_total(a: Seq<char>, b: Seq<char>)
    ensures
        lex_le(a, b) || lex_le(b, a),
    decreases a.len(),
{
    if a.len() > 0 && b.len() > 0 && a[0] == b[0] {
        lemma_lex_total(a.drop_first(), b.drop_first());
    }
}

/// The order is transitive.
pub proof fn lemma_lex_trans(a: Seq<char>, b: Seq<char>, c: Seq<char>)
    requires
        lex_le(a, b),
        lex_le(b, c),
    ensures
        lex_le(a, c),
    decreases a.len(),
{
    if a.len() > 0 && b.len() > 0 && c.len() > 0 && a[0] == b[0] && b[0] == c[0] {
        lemma_lex_trans(a.drop_first(), b.drop_first(), c.drop_first());
    }
}

/// `a <= b` as `String`s compare.
pub fn text_le(a: &str, b: &str) -> (r: bool)
    ensures
        r == lex_le(a@, b@),
{
    let ca = chars_of(a);
    let cb = chars_of(b);
    let mut i: usize = 0;
    proof {
        assert(a@.subrange(0, a@.len() as int) =~= a@);
        assert(b@.subrange(0, b@.len() as int) =~= b@);
    }
    while i < ca.len() && i < cb.len() && ca[i] == cb[i]
        invariant
            i <= ca@.len(),
            i <= cb@.len(),
            ca@ == a@,
            cb@ == b@,
            lex_le(a@, b@) == lex_le(a@.subrange(i as int, a@.len() as int), b@.subrange(i as int, b@.len() as int)),
        decreases ca@.len() - i,
    {
        proof {
            let sa = a@.subrange(i as int, a@.len() as int);
            let sb = b@.subrange(i as int, b@.len() as int);
            assert(sa.drop_first() =~= a@.subrange(i as int + 1, a@.len() as int));
            assert(sb.drop_first() =~= b@.subrange(i as int + 1, b@.len() as int));
            assert(sa[0] == ca@[i as int]);
            assert(sb[0] == cb@[i as int]);
        }
        i = i + 1;
    }
    proof {
        let sa = a@.subrange(i as int, a@.len() as int);
        let sb = b@.subrange(i as int, b@.len() as int);
        if i < ca.len() {
            assert(sa[0] == ca@[i as int]);
        }
        if i < cb.len() {
            assert(sb[0] == cb@[i as int]);
        }
    }
    if i == ca.len() {
        true
    } else if i == cb.len() {
        false
    } else {
        ca[i] < cb[i]
    }
}

/// Values ordered by a text key.
pub trait Keyed {
    /// The key, by view.
    spec fn key(&self) -> Seq<char>;

    /// The key.
    fn key_text(&self) -> (r: &str)
        ensures
            r@ == self.key();
}

impl Keyed for String {
    open spec fn key(&self) -> Seq<char> {
        self@
    }

    fn key_text(&self) -> (r: &str) {
        self.as_str()
    }
}

/// Keys in non-decreasing order.
pub open spec fn sorted_by_key<T: Keyed>(s: Seq<T>) -> bool {
    forall|i: int, j: int| 0 <= i < j < s.len() ==> lex_le(#[trigger] s[i].key(), #[trigger] s[j].key())
}

/// Sort by key.
pub fn sort_by_key<T: Keyed>(v: Vec<T>) -> (r: Vec<T>)
    ensures
        sorted_by_key(r@),
        r@.to_multiset() == v@.to_multiset(),
{
    let ghost orig = v@;
    let mut rest = v;
    let mut out: Vec<T> = Vec::new();
    while rest.len() > 0
        invariant
            sorted_by_key(out@),
            out@.to_multiset().add(rest@.to_multiset()) == orig.to_multiset(),
        decreases rest@.len(),
    {
        let ghost rv = rest@;
        let item = rest.remove(0);
        proof {
            assert(rv.remove(0) == rest@);
            assert(rest@.to_multiset() == rv.to_multiset().remove(rv[0]));
        }
        let mut pos: usize = 0;
        while pos < out.len() && text_le(out[pos].key_text(), item.key_text())
            invariant
                pos <= out@.len(),
                sorted_by_key(out@),
                forall|k: int| 0 <= k < pos ==> lex_le(#[trigger] out@[k].key(), item.key()),
            decreases out@.len() - pos,
        {
            pos = pos + 1;
        }
        proof {
            assert forall|k: int| pos <= k < out@.len() implies !lex_le(#[trigger] out@[k].key(), item.key()) by {
                if lex_le(out@[k].key(), item.key()) {
                    if pos < k {
                        lemma_lex_trans(out@[pos as int].key(), out@[k].key(), item.key());
                    }
                }
            }
        }
        let ghost ov = out@;
        let ghost iv = item;
        out.insert(pos, item);
        proof {
            assert(out@ == ov.insert(pos as int, iv));
            assert(out@.remove(pos as int) =~= ov);
            assert(out@.to_multiset().remove(iv) == ov.to_multiset());
            assert(out@.to_multiset() =~= ov.to_multiset().insert(iv));
            assert(rv.to_multiset() =~= rest@.to_multiset().insert(rv[0]));
            assert(out@.to_multiset().add(rest@.to_multiset()) =~= ov.to_multiset().add(rv.to_multiset()));
            assert forall|i: int, j: int| 0 <= i < j < out@.len() implies lex_le(#[trigger] out@[i].key(), #[trigger] out@[j].key()) by {
                if j < pos {
                    assert(out@[i] == ov[i] && out@[j] == ov[j]);
                } else if j == pos {
                    assert(out@[i] == ov[i]);
                } else if i == pos {
                    assert(out@[j] == ov[j - 1]);
                    lemma_lex_total(ov[j - 1].key(), iv.key());
                } else if i < pos {
                    assert(out@[i] == ov[i] && out@[j] == ov[j - 1]);
                } else {
                    assert(out@[i] == ov[i - 1] && out@[j] == ov[j - 1]);
                }
            }
        }
    }
    proof {
        assert(rest@.to_multiset() =~= Multiset::<T>::empty());
        assert(out@.to_multiset().add(Multiset::empty()) =~= out@.to_multiset());
    }
    out
}

/// Rearranging a sequence and then mapping it rearranges the mapped sequence.
pub proof fn lemma_map_multiset<A, B>(a: Seq<A>, b: Seq<A>, f: spec_fn(A) -> B)
    requires
        a.to_multiset() == b.to_multiset(),
    ensures
        a.map_values(f).to_multiset() == b.map_values(f).to_multiset(),
    decreases a.len(),
{
    if a.len() == 0 {
        assert(b.to_multiset().len() == 0);
        assert(a.map_values(f) =~= Seq::<B>::empty());
        assert(b.map_values(f) =~= Seq::<B>::empty());
    } else {
        let x = a[0];
        assert(a.contains(x));
        assert(a.to_multiset().count(x) > 0);
        assert(b.to_multiset().count(x) > 0);
        assert(b.contains(x));
        let k = choose|k: int| 0 <= k < b.len() && b[k] == x;
        let a2 = a.remove(0);
        let b2 = b.remove(k);
        assert(a2.to_multiset() == a.to_multiset().remove(x));
        assert(b2.to_multiset() == b.to_multiset().remove(x));
        lemma_map_multiset(a2, b2, f);
        let am = a.map_values(f);
        let bm = b.map_values(f);
        assert(am.remove(0) =~= a2.map_values(f));
        assert(bm.remove(k) =~= b2.map_values(f));
        assert(am.remove(0).to_multiset() == am.to_multiset().remove(f(x)));
        assert(bm.remove(k).to_multiset() == bm.to_multiset().remove(f(x)));
        assert(am.to_multiset().count(f(x)) > 0) by {
            assert(am[0] == f(x));
            assert(am.contains(f(x)));
        }
        assert(bm.to_multiset().count(f(x)) > 0) by {
            assert(bm[k] == f(x));
            assert(bm.contains(f(x)));
        }
        assert(am.to_multiset() =~= am.to_multiset().remove(f(x)).insert(f(x)));
        assert(bm.to_multiset() =~= bm.to_multiset().remove(f(x)).insert(f(x)));
    }
}

/// Texts that compare both ways are equal.
pub proof fn lemma_lex_antisym(a: Seq<char>, b: Seq<char>)
    requires
        lex_le(a, b),
        lex_le(b, a),
    ensures
        a == b,
    decreases a.len(),
{
    if a.len() > 0 && b.len() > 0 {
        lemma_lex_antisym(a.drop_first(), b.drop_first());
        assert(a =~= seq![a[0]] + a.drop_first());
        assert(b =~= seq![b[0]] + b.drop_first());
    } else {
        assert(a =~= b);
    }
}

/// `a <= b` by the first text, then by the second.
pub open spec fn pair_le(a: (Seq<char>, Seq<char>), b: (Seq<char>, Seq<char>)) -> bool {
    if a.0 == b.0 { lex_le(a.1, b.1) } else { lex_le(a.0, b.0) }
}

/// Any two pairs compare one way or the other.
pub proof fn lemma_pair_total(a: (Seq<char>, Seq<char>), b: (Seq<char>, Seq<char>))
    ensures
        pair_le(a, b) || pair_le(b, a),
{
    lemma_lex_total(a.0, b.0);
    lemma_lex_total(a.1, b.1);
}

/// The pair order is transitive.
pub proof fn lemma_pair_trans(a: (Seq<char>, Seq<char>), b: (Seq<char>, Seq<char>), c: (Seq<char>, Seq<char>))
    requires
        pair_le(a, b),
        pair_le(b, c),
    ensures
        pair_le(a, c),
{
    if a.0 == b.0 && b.0 == c.0 {
        lemma_lex_trans(a.1, b.1, c.1);
    } else if a.0 != b.0 && b.0 != c.0 {
        lemma_lex_trans(a.0, b.0, c.0);
        if a.0 == c.0 {
            lemma_lex_antisym(a.0, b.0);
        }
    }
}

/// Values ordered by two text keys, the first deciding unless equal.
pub trait PairKeyed {
    /// The keys, by view.
    spec fn pair_key(&self) -> (Seq<char>, Seq<char>);

    /// The keys.
    fn pair_key_text(&self) -> (r: (&str, &str))
        ensures
            (r.0@, r.1@) == self.pair_key();
}

/// Keys in non-decreasing pair order.
pub open spec fn sorted_by_pair<T: PairKeyed>(s: Seq<T>) -> bool {
    forall|i: int, j: int| 0 <= i < j < s.len() ==> pair_le(#[trigger] s[i].pair_key(), #[trigger] s[j].pair_key())
}

fn pair_le_exec<T: PairKeyed>(a: &T, b: &T) -> (r: bool)
    ensures
        r == pair_le(a.pair_key(), b.pair_key()),
{
    let (a0, a1) = a.pair_key_text();
    let (b0, b1) = b.pair_key_text();
    if crate::text::str_eq(a0, b0) { text_le(a1, b1) } else { text_le(a0, b0) }
}

/// Sort by pair of keys.
pub fn sort_by_pair<T: PairKeyed>(v: Vec<T>) -> (r: Vec<T>)
    ensures
        sorted_by_pair(r@),
        r@.to_multiset() == v@.to_multiset(),
{
    let ghost orig = v@;
    let mut rest = v;
    let mut out: Vec<T> = Vec::new();
    while rest.len() > 0
        invariant
            sorted_by_pair(out@),
            out@.to_multiset().add(rest@.to_multiset()) == orig.to_multiset(),
        decreases rest@.len(),
    {
        let ghost rv = rest@;
        let item = rest.remove(0);
        proof {
            assert(rv.remove(0) == rest@);
            assert(rest@.to_multiset() == rv.to_multiset().remove(rv[0]));
        }
        let mut pos: usize = 0;
        while pos < out.len() && pair_le_exec(&out[pos], &item)
            invariant
                pos <= out@.len(),
                sorted_by_pair(out@),
                forall|k: int| 0 <= k < pos ==> pair_le(#[trigger] out@[k].pair_key(), item.pair_key()),
            decreases out@.len() - pos,
        {
            pos = pos + 1;
        }
        proof {
            assert forall|k: int| pos <= k < out@.len() implies !pair_le(#[trigger] out@[k].pair_key(), item.pair_key()) by {
                if pair_le(out@[k].pair_key(), item.pair_key()) {
                    if pos < k {
                        lemma_pair_trans(out@[pos as int].pair_key(), out@[k].pair_key(), item.pair_key());
                    }
                }
            }
        }
        let ghost ov = out@;
        let ghost iv = item;
        out.insert(pos, item);
        proof {
            assert(out@ == ov.insert(pos as int, iv));
            assert(out@.remove(pos as int) =~= ov);
            assert(out@.to_multiset().remove(iv) == ov.to_multiset());
            assert(out@.to_multiset() =~= ov.to_multiset().insert(iv));
            assert(rv.to_multiset() =~= rest@.to_multiset().insert(rv[0]));
            assert(out@.to_multiset().add(rest@.to_multiset()) =~= ov.to_multiset().add(rv.to_multiset()));
            assert forall|i: int, j: int| 0 <= i < j < out@.len() implies pair_le(#[trigger] out@[i].pair_key(), #[trigger] out@[j].pair_key()) by {
                if j < pos {
                    assert(out@[i] == ov[i] && out@[j] == ov[j]);
                } else if j == pos {
                    assert(out@[i] == ov[i]);
                } else if i == pos {
                    assert(out@[j] == ov[j - 1]);
                    lemma_pair_total(ov[j - 1].pair_key(), iv.pair_key());
                } else if i < pos {
                    assert(out@[i] == ov[i] && out@[j] == ov[j - 1]);
                } else {
                    assert(out@[i] == ov[i - 1] && out@[j] == ov[j - 1]);
                }
            }
        }
    }
    proof {
        assert(rest@.to_multiset() =~= Multiset::<T>::empty());
        assert(out@.to_multiset().add(Multiset::empty()) =~= out@.to_multiset());
    }
    out
}

} // verus!
