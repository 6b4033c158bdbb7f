//! Sequences of key-value pairs in which no key occurs twice, read as maps.
//! The tables of the relay are vectors; what they hold is stated over the map
//! that such a vector stands for.

use vstd::prelude::*;

verus! {

/// Whether no key occurs twice in `s`.
pub open spec fn keys_distinct<K, V>(s: Seq<(K, V)>) -> bool {
    forall|i: int, j: int| 0 <= i < j < s.len() ==> (#[trigger] s[i]).0 != (#[trigger] s[j]).0
}

/// Whether `k` is the key of some pair of `s`.
pub open spec fn has_key<K, V>(s: Seq<(K, V)>, k: K) -> bool {
    exists|i: int| 0 <= i < s.len() && (#[trigger] s[i]).0 == k
}

/// A position at which `k` is the key, if there is one.
pub open spec fn index_of<K, V>(s: Seq<(K, V)>, k: K) -> int {
    choose|i: int| 0 <= i < s.len() && (#[trigger] s[i]).0 == k
}

/// The map from each key of `s` to the value that stands with it.
pub open spec fn as_map<K, V>(s: Seq<(K, V)>) -> Map<K, V> {
    Map::new(|k: K| has_key(s, k), |k: K| s[index_of(s, k)].1)
}

/// The pair at position `i` is in the map.
pub proof fn lemma_entry<K, V>(s: Seq<(K, V)>, i: int)
    requires
        keys_distinct(s),
        0 <= i < s.len(),
    ensures
        has_key(s, s[i].0),
        index_of(s, s[i].0) == i,
        as_map(s).contains_key(s[i].0),
        as_map(s)[s[i].0] == s[i].1,
{
    assert(s[i].0 == s[i].0);
    let j = index_of(s, s[i].0);
    assert(0 <= j < s.len() && s[j].0 == s[i].0);
    if j < i {
        assert(s[j].0 != s[i].0);
    } else if i < j {
        assert(s[i].0 != s[j].0);
    }
}

/// A key that is in the map stands at its position in the sequence.
pub proof fn lemma_lookup<K, V>(s: Seq<(K, V)>, k: K)
    requires
        as_map(s).contains_key(k),
    ensures
        0 <= index_of(s, k) < s.len(),
        s[index_of(s, k)].0 == k,
        as_map(s)[k] == s[index_of(s, k)].1,
{
}

/// The empty sequence is the empty map.
pub proof fn lemma_empty<K, V>()
    ensures
        keys_distinct(Seq::<(K, V)>::empty()),
        as_map(Seq::<(K, V)>::empty()) == Map::<K, V>::empty(),
{
    assert(as_map(Seq::<(K, V)>::empty()) =~= Map::<K, V>::empty());
}

/// Adding a pair with a new key at the end inserts it into the map.
pub proof fn lemma_push<K, V>(s: Seq<(K, V)>, k: K, v: V)
    requires
        keys_distinct(s),
        !has_key(s, k),
    ensures
        keys_distinct(s.push((k, v))),
        as_map(s.push((k, v))) == as_map(s).insert(k, v),
{
    let t = s.push((k, v));
    assert forall|i: int, j: int| 0 <= i < j < t.len() implies (#[trigger] t[i]).0 != (
    #[trigger] t[j]).0 by {
        if j < s.len() {
            assert(s[i].0 != s[j].0);
        } else {
            assert(t[i] == s[i]);
            if s[i].0 == k {
                assert(has_key(s, k));
            }
        }
    }
    assert forall|q: K| #[trigger] as_map(t).contains_key(q) == as_map(s).insert(k, v).contains_key(
        q,
    ) by {
        if has_key(t, q) {
            let i = index_of(t, q);
            if i < s.len() {
                assert(s[i].0 == q);
            }
        }
        if has_key(s, q) {
            let i = index_of(s, q);
            assert(t[i].0 == q);
        }
        if q == k {
            assert(t[s.len() as int].0 == k);
        }
    }
    assert forall|q: K| as_map(t).contains_key(q) implies #[trigger] as_map(t)[q] == as_map(
        s,
    ).insert(k, v)[q] by {
        let i = index_of(t, q);
        lemma_entry(t, i);
        if i < s.len() {
            assert(s[i] == t[i]);
            lemma_entry(s, i);
        }
    }
    assert(as_map(t) =~= as_map(s).insert(k, v));
}

/// The map has as many keys as the sequence has pairs.
pub proof fn lemma_len<K, V>(s: Seq<(K, V)>)
    requires
        keys_distinct(s),
    ensures
        as_map(s).dom().finite(),
        as_map(s).dom().len() == s.len(),
    decreases s.len(),
{
    if s.len() == 0 {
        assert(as_map(s).dom() =~= Set::<K>::empty());
    } else {
        let init = s.drop_last();
        let last = s.last();
        assert forall|i: int, j: int| 0 <= i < j < init.len() implies (#[trigger] init[i]).0 != (
        #[trigger] init[j]).0 by {
            assert(s[i].0 != s[j].0);
        }
        if has_key(init, last.0) {
            let i = index_of(init, last.0);
            assert(s[i].0 != s[s.len() - 1].0);
        }
        lemma_len(init);
        lemma_push(init, last.0, last.1);
        assert(init.push((last.0, last.1)) =~= s);
        assert(as_map(s).dom() =~= as_map(init).dom().insert(last.0));
    }
}

/// Taking the pair at position `i` out removes its key from the map.
pub proof fn lemma_remove<K, V>(s: Seq<(K, V)>, i: int)
    requires
        keys_distinct(s),
        0 <= i < s.len(),
    ensures
        keys_distinct(s.remove(i)),
        as_map(s.remove(i)) == as_map(s).remove(s[i].0),
{
    let t = s.remove(i);
    let k = s[i].0;
    assert forall|a: int, b: int| 0 <= a < b < t.len() implies (#[trigger] t[a]).0 != (
    #[trigger] t[b]).0 by {
        let a2 = if a < i { a } else { a + 1 };
        let b2 = if b < i { b } else { b + 1 };
        assert(t[a] == s[a2] && t[b] == s[b2]);
        assert(s[a2].0 != s[b2].0);
    }
    assert forall|q: K| #[trigger] as_map(t).contains_key(q) == as_map(s).remove(k).contains_key(
        q,
    ) by {
        if has_key(t, q) {
            let a = index_of(t, q);
            let a2 = if a < i { a } else { a + 1 };
            assert(t[a] == s[a2]);
            assert(s[a2].0 == q);
            if q == k {
                if a2 < i {
                    assert(s[a2].0 != s[i].0);
                } else {
                    assert(s[i].0 != s[a2].0);
                }
            }
        }
        if has_key(s, q) && q != k {
            let a = index_of(s, q);
            let a1 = if a < i { a } else { a - 1 };
            assert(t[a1] == s[a]);
            assert(t[a1].0 == q);
        }
    }
    assert forall|q: K| as_map(t).contains_key(q) implies #[trigger] as_map(t)[q] == as_map(
        s,
    ).remove(k)[q] by {
        let a = index_of(t, q);
        lemma_entry(t, a);
        let a2 = if a < i { a } else { a + 1 };
        assert(t[a] == s[a2]);
        lemma_entry(s, a2);
    }
    assert(as_map(t) =~= as_map(s).remove(k));
}

/// Replacing the value at position `i` replaces it in the map.
pub proof fn lemma_update<K, V>(s: Seq<(K, V)>, i: int, v: V)
    requires
        keys_distinct(s),
        0 <= i < s.len(),
    ensures
        keys_distinct(s.update(i, (s[i].0, v))),
        as_map(s.update(i, (s[i].0, v))) == as_map(s).insert(s[i].0, v),
{
    let k = s[i].0;
    let t = s.update(i, (k, v));
    assert forall|a: int, b: int| 0 <= a < b < t.len() implies (#[trigger] t[a]).0 != (
    #[trigger] t[b]).0 by {
        assert(t[a].0 == s[a].0 && t[b].0 == s[b].0);
        assert(s[a].0 != s[b].0);
    }
    assert forall|q: K| #[trigger] as_map(t).contains_key(q) == as_map(s).insert(k, v).contains_key(
        q,
    ) by {
        if has_key(t, q) {
            let a = index_of(t, q);
            assert(s[a].0 == q);
        }
        if has_key(s, q) {
            let a = index_of(s, q);
            assert(t[a].0 == q);
        }
        if q == k {
            assert(t[i].0 == k);
        }
    }
    assert forall|q: K| as_map(t).contains_key(q) implies #[trigger] as_map(t)[q] == as_map(
        s,
    ).insert(k, v)[q] by {
        let a = index_of(t, q);
        lemma_entry(t, a);
        if a != i {
            assert(t[a] == s[a]);
            lemma_entry(s, a);
        }
    }
    assert(as_map(t) =~= as_map(s).insert(k, v));
}

} // verus!
