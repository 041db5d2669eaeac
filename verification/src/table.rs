//! String-keyed tables kept as ordered entry lists with distinct keys.
use vstd::prelude::*;
use crate::text::str_eq;

verus! {

/// The keys of a table, by view.
pub open spec fn keys_of<V>(s: Seq<(String, V)>) -> Seq<Seq<char>> {
    Seq::new(s.len(), |i: int| s[i].0@)
}

/// Position of the first occurrence of `k`.
pub open spec fn key_pos(keys: Seq<Seq<char>>, k: Seq<char>) -> Option<int>
    decreases keys.len(),
{
    if keys.len() == 0 {
        None
    } else if keys[0] == k {
        Some(0)
    } else {
        match key_pos(keys.drop_first(), k) {
            Some(i) => Some(i + 1),
            None => None,
        }
    }
}

/// No key occurs twice.
pub open spec fn distinct(keys: Seq<Seq<char>>) -> bool {
    forall|i: int, j: int| 0 <= i < j < keys.len() ==> keys[i] != keys[j]
}

pub proof fn lemma_key_pos(keys: Seq<Seq<char>>, k: Seq<char>)
    ensures
        match key_pos(keys, k) {
            Some(i) => 0 <= i < keys.len() && keys[i] == k
                && forall|j: int| 0 <= j < i ==> keys[j] != k,
            None => forall|j: int| 0 <= j < keys.len() ==> keys[j] != k,
        },
    decreases keys.len(),
{
    if keys.len() > 0 && keys[0] != k {
        lemma_key_pos(keys.drop_first(), k);
        match key_pos(keys.drop_first(), k) {
            Some(i) => {
                assert forall|j: int| 0 <= j < i + 1 implies keys[j] != k by {
                    if j > 0 {
                        assert(keys[j] == keys.drop_first()[j - 1]);
                    }
                }
            },
            None => {
                assert forall|j: int| 0 <= j < keys.len() implies keys[j] != k by {
                    if j > 0 {
                        assert(keys[j] == keys.drop_first()[j - 1]);
                    }
                }
            },
        }
    }
}

/// With distinct keys, `key_pos` finds exactly the index holding `k`.
pub proof fn lemma_key_pos_distinct(keys: Seq<Seq<char>>, k: Seq<char>, i: int)
    requires
        distinct(keys),
        0 <= i < keys.len(),
        keys[i] == k,
    ensures
        key_pos(keys, k) == Some(i),
{
    lemma_key_pos(keys, k);
}

/// Position of `key` in an entry list.
pub fn find_key<V>(v: &Vec<(String, V)>, key: &str) -> (r: Option<usize>)
    ensures
        match r {
            Some(i) => key_pos(keys_of(v@), key@) == Some(i as int) && i < v@.len(),
            None => key_pos(keys_of(v@), key@) is None,
        },
{
    let ghost ks = keys_of(v@);
    let mut i: usize = 0;
    while i < v.len()
        invariant
            i <= v.len(),
            ks == keys_of(v@),
            forall|j: int| 0 <= j < i ==> ks[j] != key@,
        decreases v.len() - i,
    {
        if str_eq(v[i].0.as_str(), key) {
            proof {
                lemma_key_pos(ks, key@);
                assert(ks[i as int] == key@);
            }
            return Some(i);
        }
        i = i + 1;
    }
    proof {
        lemma_key_pos(ks, key@);
    }
    None
}


/// Value stored under `k`, if any.
pub open spec fn lookup<V>(s: Seq<(String, V)>, k: Seq<char>) -> Option<V> {
    match key_pos(keys_of(s), k) {
        Some(i) => Some(s[i].1),
        None => None,
    }
}

/// With distinct keys, a lookup is determined by the unique holder of the key.
pub proof fn lemma_lookup_distinct<V>(s: Seq<(String, V)>, k: Seq<char>)
    requires
        distinct(keys_of(s)),
    ensures
        (exists|i: int| 0 <= i < s.len() && s[i].0@ == k) ==> lookup(s, k) is Some,
        forall|i: int| 0 <= i < s.len() && #[trigger] s[i].0@ == k ==> lookup(s, k) == Some(s[i].1),
        (forall|i: int| 0 <= i < s.len() ==> #[trigger] s[i].0@ != k) ==> lookup(s, k) is None,
{
    lemma_key_pos(keys_of(s), k);
    assert forall|i: int| 0 <= i < s.len() && #[trigger] s[i].0@ == k implies lookup(s, k) == Some(s[i].1) by {
        assert(keys_of(s)[i] == k);
        lemma_key_pos_distinct(keys_of(s), k, i);
    }
    if exists|i: int| 0 <= i < s.len() && s[i].0@ == k {
        let i = choose|i: int| 0 <= i < s.len() && s[i].0@ == k;
        assert(keys_of(s)[i] == k);
    }
    if forall|i: int| 0 <= i < s.len() ==> #[trigger] s[i].0@ != k {
        assert forall|j: int| 0 <= j < keys_of(s).len() implies keys_of(s)[j] != k by {
            assert(s[j].0@ != k);
        }
    }
}

/// The table with `k` set to `val` (replaced in place or appended).
pub fn table_set<V>(v: &mut Vec<(String, V)>, k: String, val: V)
    requires
        distinct(keys_of(old(v)@)),
    ensures
        distinct(keys_of(final(v)@)),
        lookup(final(v)@, k@) == Some(val),
        forall|k2: Seq<char>| k2 != k@ ==> lookup(final(v)@, k2) == lookup(old(v)@, k2),
        forall|k2: Seq<char>| (lookup(final(v)@, k2) is Some) <==> (k2 == k@ || lookup(old(v)@, k2) is Some),
{
    let ghost old_s = v@;
    match find_key(v, k.as_str()) {
        Some(i) => {
            let ghost kv = k@;
            v.set(i, (k, val));
            proof {
                lemma_key_pos(keys_of(old_s), kv);
                assert(keys_of(v@) =~= keys_of(old_s));
                lemma_lookup_distinct(v@, kv);
                lemma_lookup_distinct(old_s, kv);
                assert(v@[i as int].0@ == kv);
                assert forall|k2: Seq<char>| k2 != kv implies lookup(v@, k2) == lookup(old_s, k2) by {
                    lemma_lookup_distinct(v@, k2);
                    lemma_lookup_distinct(old_s, k2);
                    if exists|j: int| 0 <= j < old_s.len() && old_s[j].0@ == k2 {
                        let j = choose|j: int| 0 <= j < old_s.len() && old_s[j].0@ == k2;
                        assert(v@[j].0@ == k2);
                    } else {
                        assert forall|j: int| 0 <= j < v@.len() implies #[trigger] v@[j].0@ != k2 by {
                            if j != i {
                                assert(v@[j] == old_s[j]);
                            }
                        }
                    }
                }
                assert forall|k2: Seq<char>| (lookup(v@, k2) is Some) <==> (k2 == kv || lookup(old_s, k2) is Some) by {
                    if k2 != kv {
                    } else {
                    }
                }
            }
        },
        None => {
            let ghost kv = k@;
            v.push((k, val));
            proof {
                lemma_key_pos(keys_of(old_s), kv);
                assert(keys_of(v@) =~= keys_of(old_s).push(kv));
                assert forall|a: int, b: int| 0 <= a < b < keys_of(v@).len() implies keys_of(v@)[a] != keys_of(v@)[b] by {
                    if b == old_s.len() {
                        assert(keys_of(old_s)[a] != kv);
                    } else {
                        assert(keys_of(v@)[a] == keys_of(old_s)[a]);
                        assert(keys_of(v@)[b] == keys_of(old_s)[b]);
                    }
                }
                lemma_lookup_distinct(v@, kv);
                assert(v@[old_s.len() as int].0@ == kv);
                assert forall|k2: Seq<char>| k2 != kv implies lookup(v@, k2) == lookup(old_s, k2) by {
                    lemma_lookup_distinct(v@, k2);
                    lemma_lookup_distinct(old_s, k2);
                    if exists|j: int| 0 <= j < old_s.len() && old_s[j].0@ == k2 {
                        let j = choose|j: int| 0 <= j < old_s.len() && old_s[j].0@ == k2;
                        assert(v@[j].0@ == k2);
                    } else {
                        assert forall|j: int| 0 <= j < v@.len() implies #[trigger] v@[j].0@ != k2 by {
                            if j < old_s.len() {
                                assert(v@[j] == old_s[j]);
                            }
                        }
                    }
                }
            }
        },
    }
}

/// The table without `k`.
pub fn table_remove<V>(v: &mut Vec<(String, V)>, k: &str)
    requires
        distinct(keys_of(old(v)@)),
    ensures
        distinct(keys_of(final(v)@)),
        lookup(final(v)@, k@) is None,
        forall|k2: Seq<char>| k2 != k@ ==> lookup(final(v)@, k2) == lookup(old(v)@, k2),
{
    let ghost old_s = v@;
    match find_key(v, k) {
        Some(i) => {
            v.remove(i);
            proof {
                lemma_key_pos(keys_of(old_s), k@);
                assert(keys_of(v@) =~= keys_of(old_s).remove(i as int));
                assert forall|a: int, b: int| 0 <= a < b < keys_of(v@).len() implies keys_of(v@)[a] != keys_of(v@)[b] by {
                    let a2 = if a < i { a } else { a + 1 };
                    let b2 = if b < i { b } else { b + 1 };
                    assert(keys_of(v@)[a] == keys_of(old_s)[a2]);
                    assert(keys_of(v@)[b] == keys_of(old_s)[b2]);
                }
                lemma_lookup_distinct(v@, k@);
                assert forall|j: int| 0 <= j < v@.len() implies #[trigger] v@[j].0@ != k@ by {
                    let j2 = if j < i { j } else { j + 1 };
                    assert(v@[j] == old_s[j2]);
                    assert(keys_of(old_s)[j2] != keys_of(old_s)[i as int]);
                }
                assert forall|k2: Seq<char>| k2 != k@ implies lookup(v@, k2) == lookup(old_s, k2) by {
                    lemma_lookup_distinct(v@, k2);
                    lemma_lookup_distinct(old_s, k2);
                    if exists|j: int| 0 <= j < old_s.len() && old_s[j].0@ == k2 {
                        let j = choose|j: int| 0 <= j < old_s.len() && old_s[j].0@ == k2;
                        assert(j != i);
                        let j3 = if j < i { j } else { j - 1 };
                        assert(v@[j3] == old_s[j]);
                    } else {
                        assert forall|j: int| 0 <= j < v@.len() implies #[trigger] v@[j].0@ != k2 by {
                            let j2 = if j < i { j } else { j + 1 };
                            assert(v@[j] == old_s[j2]);
                        }
                    }
                }
            }
        },
        None => {
            proof {
                lemma_key_pos(keys_of(old_s), k@);
            }
        },
    }
}

/// Past the first entry, lookups skip it unless they ask for its key.
pub proof fn lemma_lookup_drop_first<V>(s: Seq<(String, V)>, k: Seq<char>)
    requires
        s.len() > 0,
        s[0].0@ != k,
    ensures
        lookup(s.drop_first(), k) == lookup(s, k),
{
    let ks = keys_of(s);
    assert(keys_of(s.drop_first()) =~= ks.drop_first());
    assert(ks[0] != k);
    assert(key_pos(ks, k) == match key_pos(ks.drop_first(), k) {
        Some(i) => Some(i + 1),
        None => None::<int>,
    });
    lemma_key_pos(ks.drop_first(), k);
    match key_pos(ks.drop_first(), k) {
        Some(i) => {
            assert(s.drop_first()[i] == s[i + 1]);
        },
        None => {},
    }
}

/// Set every entry of `over` into `base`: afterwards a key of `over` maps to
/// its value there, any other key keeps its value in `base`.
pub fn merge_into<V>(base: &mut Vec<(String, V)>, over: Vec<(String, V)>)
    requires
        distinct(keys_of(old(base)@)),
        distinct(keys_of(over@)),
    ensures
        distinct(keys_of(final(base)@)),
        forall|k: Seq<char>| #[trigger] lookup(final(base)@, k) == (if lookup(over@, k) is Some {
            lookup(over@, k)
        } else {
            lookup(old(base)@, k)
        }),
{
    let ghost over0 = over@;
    let ghost base0 = base@;
    let mut over = over;
    while over.len() > 0
        invariant
            distinct(keys_of(base@)),
            distinct(keys_of(over@)),
            forall|k: Seq<char>| #[trigger] lookup(over0, k) == (if lookup(over@, k) is Some {
                lookup(over@, k)
            } else {
                lookup(over0, k)
            }),
            forall|k: Seq<char>| (if lookup(over@, k) is Some { lookup(over@, k) } else { #[trigger] lookup(base@, k) })
                == (if lookup(over0, k) is Some { lookup(over0, k) } else { lookup(base0, k) }),
        decreases over@.len(),
    {
        let ghost ov = over@;
        let ghost bv = base@;
        let (k, v) = over.remove(0);
        let ghost kv = k@;
        proof {
            assert(over@ =~= ov.drop_first());
            assert(keys_of(over@) =~= keys_of(ov).drop_first());
            lemma_lookup_distinct(ov, kv);
            assert(ov[0].0@ == kv);
            assert forall|k2: Seq<char>| k2 != kv implies lookup(over@, k2) == lookup(ov, k2) by {
                lemma_lookup_drop_first(ov, k2);
            }
            lemma_lookup_distinct(over@, kv);
            assert forall|j: int| 0 <= j < over@.len() implies #[trigger] over@[j].0@ != kv by {
                assert(over@[j] == ov[j + 1]);
                assert(keys_of(ov)[j + 1] != keys_of(ov)[0]);
            }
        }
        table_set(base, k, v);
        proof {
            assert forall|k2: Seq<char>| (if lookup(over@, k2) is Some { lookup(over@, k2) } else { #[trigger] lookup(base@, k2) })
                == (if lookup(over0, k2) is Some { lookup(over0, k2) } else { lookup(base0, k2) }) by {
                if k2 != kv {
                    assert(lookup(over@, k2) == lookup(ov, k2));
                    assert(lookup(base@, k2) == lookup(bv, k2));
                } else {
                    assert(lookup(over@, k2) is None);
                    assert(lookup(ov, k2) is Some);
                }
            }
            assert forall|k2: Seq<char>| #[trigger] lookup(over0, k2) == (if lookup(over@, k2) is Some {
                lookup(over@, k2)
            } else {
                lookup(over0, k2)
            }) by {
            }
        }
    }
    proof {
        assert forall|k: Seq<char>| #[trigger] lookup(base@, k) == (if lookup(over0, k) is Some {
            lookup(over0, k)
        } else {
            lookup(base0, k)
        }) by {
            lemma_lookup_distinct(over@, k);
        }
    }
}

} // verus!
