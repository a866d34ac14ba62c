//! Association lists with string keys, kept in insertion order.
//!
//! The transfer bookkeeping and the peer directory need small maps whose
//! iteration order is the insertion order, so they are held as vectors
//! of pairs with pairwise-distinct keys.  Lookups are specified through
//! [`kv_get`], which reads the first matching key.
use vstd::prelude::*;

verus! {

/// Value stored under key `k`, reading pairs front to back.
pub open spec fn kv_get<V>(s: Seq<(String, V)>, k: Seq<char>) -> Option<V>
    decreases s.len(),
{
    if s.len() == 0 {
        None
    } else if s[0].0@ == k {
        Some(s[0].1)
    } else {
        kv_get(s.drop_first(), k)
    }
}

/// All keys of the list are pairwise distinct.
pub open spec fn kv_unique<V>(s: Seq<(String, V)>) -> bool {
    forall|i: int, j: int| 0 <= i < j < s.len() ==> s[i].0@ != s[j].0@
}

/// A key occurs somewhere in the list.
pub open spec fn kv_has<V>(s: Seq<(String, V)>, k: Seq<char>) -> bool {
    exists|i: int| 0 <= i < s.len() && s[i].0@ == k
}

proof fn lemma_kv_get_skip<V>(s: Seq<(String, V)>, k: Seq<char>, i: int)
    requires
        0 <= i <= s.len(),
        forall|j: int| 0 <= j < i ==> s[j].0@ != k,
    ensures
        kv_get(s, k) == kv_get(s.skip(i), k),
    decreases i,
{
    if i > 0 {
        assert(s.drop_first() =~= s.skip(1));
        assert(s.skip(1).skip(i - 1) =~= s.skip(i));
        lemma_kv_get_skip(s.skip(1), k, i - 1);
    } else {
        assert(s.skip(0) =~= s);
    }
}

/// The value stored at an index whose key is `k` is what `kv_get` reads,
/// provided no earlier index holds the same key.
pub proof fn lemma_kv_get_at<V>(s: Seq<(String, V)>, k: Seq<char>, i: int)
    requires
        0 <= i < s.len(),
        s[i].0@ == k,
        forall|j: int| 0 <= j < i ==> s[j].0@ != k,
    ensures
        kv_get(s, k) == Some(s[i].1),
{
    lemma_kv_get_skip(s, k, i);
    assert(s.skip(i)[0] == s[i]);
}

/// A key held by no index reads as `None`.
pub proof fn lemma_kv_get_absent<V>(s: Seq<(String, V)>, k: Seq<char>)
    requires
        forall|j: int| 0 <= j < s.len() ==> s[j].0@ != k,
    ensures
        kv_get(s, k) is None,
{
    lemma_kv_get_skip(s, k, s.len() as int);
    assert(s.skip(s.len() as int) =~= Seq::<(String, V)>::empty());
}

/// Index of the first pair whose key equals `k`, if any.
pub fn kv_find<V>(v: &Vec<(String, V)>, k: &String) -> (r: Option<usize>)
    ensures
        match r {
            Some(i) => i < v@.len() && v@[i as int].0@ == k@ && forall|j: int|
                0 <= j < i ==> v@[j].0@ != k@,
            None => forall|j: int| 0 <= j < v@.len() ==> v@[j].0@ != k@,
        },
        r is Some <==> kv_has(v@, k@),
        r matches Some(i) ==> kv_get(v@, k@) == Some(v@[i as int].1),
        r is None ==> kv_get(v@, k@) is None,
{
    let mut i: usize = 0;
    while i < v.len()
        invariant
            i <= v@.len(),
            forall|j: int| 0 <= j < i ==> v@[j].0@ != k@,
        decreases v@.len() - i,
    {
        if v[i].0 == *k {
            proof {
                lemma_kv_get_at(v@, k@, i as int);
            }
            return Some(i);
        }
        i = i + 1;
    }
    proof {
        lemma_kv_get_absent(v@, k@);
    }
    None
}

/// Stores `val` under `k`: overwrites the first pair with that key, or
/// appends a new pair.  Every other key keeps its value, uniqueness and
/// the order of existing pairs are preserved.
pub fn kv_upsert<V>(v: &mut Vec<(String, V)>, k: String, val: V)
    requires
        kv_unique(old(v)@),
    ensures
        kv_unique(final(v)@),
        kv_get(final(v)@, k@) == Some(val),
        forall|k2: Seq<char>| k2 != k@ ==> kv_get(final(v)@, k2) == kv_get(old(v)@, k2),
        kv_has(old(v)@, k@) ==> final(v)@.len() == old(v)@.len(),
        !kv_has(old(v)@, k@) ==> final(v)@ =~= old(v)@.push((k, val)),
        forall|j: int| 0 <= j < old(v)@.len() ==> final(v)@[j].0@ == old(v)@[j].0@,
{
    let ghost s0 = v@;
    let ghost kk = k@;
    match kv_find(v, &k) {
        Some(i) => {
            v.remove(i);
            v.insert(i, (k, val));
            proof {
                assert(v@ =~= s0.update(i as int, v@[i as int]));
                lemma_kv_get_at(v@, kk, i as int);
                assert forall|k2: Seq<char>| k2 != kk implies kv_get(v@, k2) == kv_get(
                    s0,
                    k2,
                ) by {
                    lemma_kv_same_keys_same_get(s0, v@, k2, i as int);
                }
            }
        },
        None => {
            v.push((k, val));
            proof {
                lemma_kv_get_at(v@, kk, s0.len() as int);
                assert forall|k2: Seq<char>| k2 != kk implies kv_get(v@, k2) == kv_get(
                    s0,
                    k2,
                ) by {
                    lemma_kv_get_push_other(s0, v@.last(), k2);
                }
            }
        },
    }
}

proof fn lemma_kv_get_push_other<V>(s: Seq<(String, V)>, p: (String, V), k: Seq<char>)
    requires
        k != p.0@,
    ensures
        kv_get(s.push(p), k) == kv_get(s, k),
    decreases s.len(),
{
    let t = s.push(p);
    if s.len() == 0 {
        assert(t[0] == p);
        assert(t.drop_first() =~= Seq::<(String, V)>::empty());
        assert(kv_get(t, k) == kv_get(t.drop_first(), k));
    } else {
        assert(t[0] == s[0]);
        if s[0].0@ == k {
            assert(kv_get(t, k) == Some(t[0].1));
            assert(kv_get(s, k) == Some(s[0].1));
        } else {
            assert(t.drop_first() =~= s.drop_first().push(p));
            lemma_kv_get_push_other(s.drop_first(), p, k);
            assert(kv_get(t, k) == kv_get(t.drop_first(), k));
            assert(kv_get(s, k) == kv_get(s.drop_first(), k));
        }
    }
}

proof fn lemma_kv_same_keys_same_get<V>(
    s1: Seq<(String, V)>,
    s2: Seq<(String, V)>,
    k: Seq<char>,
    i: int,
)
    requires
        s1.len() == s2.len(),
        0 <= i < s1.len(),
        forall|j: int| 0 <= j < s1.len() && j != i ==> s1[j] == s2[j],
        s1[i].0@ == s2[i].0@,
        s1[i].0@ != k,
    ensures
        kv_get(s1, k) == kv_get(s2, k),
    decreases s1.len(),
{
    if s1.len() > 0 {
        if i == 0 {
            assert(s1.drop_first() =~= s2.drop_first());
        } else if s1[0].0@ != k {
            assert(s1.drop_first()[i - 1].0@ == s2.drop_first()[i - 1].0@);
            lemma_kv_same_keys_same_get(s1.drop_first(), s2.drop_first(), k, i - 1);
        } else {
            assert(s1[0] == s2[0]);
        }
    }
}

/// Appending a pair with a different key leaves a lookup unchanged.
pub proof fn lemma_kv_get_push_other_pub<V>(s: Seq<(String, V)>, p: (String, V), k: Seq<char>)
    requires
        k != p.0@,
    ensures
        kv_get(s.push(p), k) == kv_get(s, k),
{
    lemma_kv_get_push_other(s, p, k);
}

/// Replacing the pair at one index leaves every other key's lookup
/// unchanged, provided the key at that index stays the same.
pub proof fn lemma_kv_other_after_update<V>(
    s1: Seq<(String, V)>,
    s2: Seq<(String, V)>,
    k: Seq<char>,
    i: int,
)
    requires
        s1.len() == s2.len(),
        0 <= i < s1.len(),
        forall|j: int| 0 <= j < s1.len() && j != i ==> s1[j] == s2[j],
        s1[i].0@ == s2[i].0@,
        s1[i].0@ != k,
    ensures
        kv_get(s1, k) == kv_get(s2, k),
{
    lemma_kv_same_keys_same_get(s1, s2, k, i);
}

/// Removes the pair under `k`, if present; every other key keeps its value.
pub fn kv_remove<V>(v: &mut Vec<(String, V)>, k: &String)
    requires
        kv_unique(old(v)@),
    ensures
        kv_unique(final(v)@),
        kv_get(final(v)@, k@) is None,
        forall|k2: Seq<char>| k2 != k@ ==> kv_get(final(v)@, k2) == kv_get(old(v)@, k2),
{
    let ghost s0 = v@;
    match kv_find(v, k) {
        Some(i) => {
            v.remove(i);
            proof {
                assert(v@ =~= s0.remove(i as int));
                assert forall|j: int| 0 <= j < v@.len() implies v@[j].0@ != k@ by {
                    if j < i {
                        assert(v@[j] == s0[j]);
                    } else {
                        assert(v@[j] == s0[j + 1]);
                    }
                }
                lemma_kv_get_absent(v@, k@);
                assert forall|k2: Seq<char>| k2 != k@ implies kv_get(v@, k2) == kv_get(
                    s0,
                    k2,
                ) by {
                    lemma_kv_get_remove_other(s0, k2, i as int);
                }
            }
        },
        None => {
            proof {
                lemma_kv_get_absent(v@, k@);
            }
        },
    }
}

proof fn lemma_kv_get_remove_other<V>(s: Seq<(String, V)>, k: Seq<char>, i: int)
    requires
        0 <= i < s.len(),
        kv_unique(s),
        s[i].0@ != k,
    ensures
        kv_get(s.remove(i), k) == kv_get(s, k),
    decreases s.len(),
{
    if i == 0 {
        assert(s.remove(0) =~= s.drop_first());
    } else {
        assert(s.remove(i).drop_first() =~= s.drop_first().remove(i - 1));
        if s[0].0@ != k {
            assert(s.drop_first()[i - 1].0@ == s[i].0@);
            assert(kv_unique(s.drop_first()));
            lemma_kv_get_remove_other(s.drop_first(), k, i - 1);
            assert(s.remove(i)[0] == s[0]);
        } else {
            assert(s.remove(i)[0] == s[0]);
        }
    }
}

} // verus!
