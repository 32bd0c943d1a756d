//! Key-value pairs held in a vector with distinct keys, viewed as a map.
use vstd::prelude::*;

verus! {

/// No key occurs twice.
pub open spec fn keys_distinct<K, V>(s: Seq<(K, V)>) -> bool {
    forall|i: int, j: int| 0 <= i < s.len() && 0 <= j < s.len() && i != j ==> s[i].0 != s[j].0
}

/// Whether `k` occurs as a key.
pub open spec fn has_key<K, V>(s: Seq<(K, V)>, k: K) -> bool {
    exists|i: int| 0 <= i < s.len() && s[i].0 == k
}

/// The position of key `k` (meaningful where it occurs).
pub open spec fn key_index<K, V>(s: Seq<(K, V)>, k: K) -> int {
    choose|i: int| 0 <= i < s.len() && s[i].0 == k
}

/// The pairs as a map.
pub open spec fn as_map<K, V>(s: Seq<(K, V)>) -> Map<K, V> {
    Map::new(|k: K| has_key(s, k), |k: K| s[key_index(s, k)].1)
}

/// Where key `k` sits at `i`, the map gives the value at `i`.
pub proof fn lemma_at<K, V>(s: Seq<(K, V)>, i: int)
    requires
        keys_distinct(s),
        0 <= i < s.len(),
    ensures
        has_key(s, s[i].0),
        key_index(s, s[i].0) == i,
        as_map(s).contains_key(s[i].0),
        as_map(s)[s[i].0] == s[i].1,
{
    assert(has_key(s, s[i].0));
}

/// Appending a pair with a new key inserts it into the map.
pub proof fn lemma_push<K, V>(s: Seq<(K, V)>, k: K, v: V)
    requires
        keys_distinct(s),
        !has_key(s, k),
    ensures
        keys_distinct(s.push((k, v))),
        as_map(s.push((k, v))) == as_map(s).insert(k, v),
{
    let t = s.push((k, v));
    assert(keys_distinct(t)) by {
        assert forall|i: int, j: int|
            0 <= i < t.len() && 0 <= j < t.len() && i != j implies t[i].0 != t[j].0 by {
            if i == s.len() as int {
                assert(s[j].0 != k);
            } else if j == s.len() as int {
                assert(s[i].0 != k);
            }
        }
    }
    assert forall|key: K| #[trigger] as_map(t).contains_key(key) <==> as_map(s).insert(k, v).contains_key(key) by {
        if has_key(s, key) {
            let i = key_index(s, key);
            assert(t[i].0 == key);
        }
        if has_key(t, key) && key != k {
            let i = key_index(t, key);
            assert(i < s.len());
            assert(s[i].0 == key);
        }
        if key == k {
            assert(t[s.len() as int].0 == k);
        }
    }
    assert forall|key: K| #[trigger] as_map(t).contains_key(key) implies as_map(t)[key] == as_map(
        s,
    ).insert(k, v)[key] by {
        if key == k {
            lemma_at(t, s.len() as int);
        } else {
            let i = key_index(t, key);
            assert(i < s.len());
            lemma_at(t, i);
            lemma_at(s, i);
        }
    }
    assert(as_map(t) =~= as_map(s).insert(k, v));
}

/// Replacing the value at `i` updates the map at that key.
pub proof fn lemma_update<K, V>(s: Seq<(K, V)>, i: int, v: V)
    requires
        keys_distinct(s),
        0 <= i < s.len(),
    ensures
        keys_distinct(s.update(i, (s[i].0, v))),
        as_map(s.update(i, (s[i].0, v))) == as_map(s).insert(s[i].0, v),
{
    let k = s[i].0;
    let t = s.update(i, (k, v));
    assert forall|a: int| 0 <= a < s.len() implies #[trigger] t[a].0 == s[a].0 by {}
    assert(keys_distinct(t));
    assert forall|key: K| #[trigger] as_map(t).contains_key(key) <==> as_map(s).insert(k, v).contains_key(key) by {
        if has_key(s, key) {
            let j = key_index(s, key);
            assert(t[j].0 == key);
        }
        if has_key(t, key) {
            let j = key_index(t, key);
            assert(s[j].0 == key);
        }
    }
    assert forall|key: K| #[trigger] as_map(t).contains_key(key) implies as_map(t)[key] == as_map(
        s,
    ).insert(k, v)[key] by {
        let j = key_index(t, key);
        lemma_at(t, j);
        if j != i {
            lemma_at(s, j);
        }
    }
    assert(as_map(t) =~= as_map(s).insert(k, v));
}

/// Removing the pair at `i` removes its key from the map.
pub proof fn lemma_remove<K, V>(s: Seq<(K, V)>, i: int)
    requires
        keys_distinct(s),
        0 <= i < s.len(),
    ensures
        keys_distinct(s.remove(i)),
        as_map(s.remove(i)) == as_map(s).remove(s[i].0),
{
    let k = s[i].0;
    let t = s.remove(i);
    assert forall|a: int| 0 <= a < t.len() implies #[trigger] t[a] == (if a < i {
        s[a]
    } else {
        s[a + 1]
    }) by {}
    assert(keys_distinct(t)) by {
        assert forall|a: int, b: int|
            0 <= a < t.len() && 0 <= b < t.len() && a != b implies t[a].0 != t[b].0 by {
            let sa = if a < i { a } else { a + 1 };
            let sb = if b < i { b } else { b + 1 };
            assert(t[a] == s[sa]);
            assert(t[b] == s[sb]);
        }
    }
    assert forall|key: K| #[trigger] as_map(t).contains_key(key) <==> as_map(s).remove(k).contains_key(key) by {
        if has_key(t, key) {
            let j = key_index(t, key);
            let sj = if j < i { j } else { j + 1 };
            assert(s[sj].0 == key);
            assert(sj != i);
            assert(key != k);
        }
        if has_key(s, key) && key != k {
            let j = key_index(s, key);
            assert(j != i);
            let tj = if j < i { j } else { j - 1 };
            assert(t[tj].0 == key);
        }
    }
    assert forall|key: K| #[trigger] as_map(t).contains_key(key) implies as_map(t)[key] == as_map(
        s,
    ).remove(k)[key] by {
        let j = key_index(t, key);
        lemma_at(t, j);
        let sj = if j < i { j } else { j + 1 };
        assert(t[j] == s[sj]);
        lemma_at(s, sj);
    }
    assert(as_map(t) =~= as_map(s).remove(k));
}

/// The position of key `k`, if it occurs (keys of type `u64`).
pub fn find_u64<V>(s: &Vec<(u64, V)>, k: u64) -> (r: Option<usize>)
    requires
        keys_distinct(s@),
    ensures
        r is None <==> !has_key(s@, k),
        r matches Some(i) ==> i < s@.len() && s@[i as int].0 == k && key_index(s@, k) == i,
{
    let mut i: usize = 0;
    while i < s.len()
        invariant
            i <= s@.len(),
            keys_distinct(s@),
            forall|j: int| 0 <= j < i ==> #[trigger] s@[j].0 != k,
        decreases s@.len() - i,
    {
        if s[i].0 == k {
            proof {
                lemma_at(s@, i as int);
            }
            return Some(i);
        }
        i = i + 1;
    }
    None
}

/// The position of key `k`, if it occurs (keys of type `u32`).
pub fn find_u32<V>(s: &Vec<(u32, V)>, k: u32) -> (r: Option<usize>)
    requires
        keys_distinct(s@),
    ensures
        r is None <==> !has_key(s@, k),
        r matches Some(i) ==> i < s@.len() && s@[i as int].0 == k && key_index(s@, k) == i,
{
    let mut i: usize = 0;
    while i < s.len()
        invariant
            i <= s@.len(),
            keys_distinct(s@),
            forall|j: int| 0 <= j < i ==> #[trigger] s@[j].0 != k,
        decreases s@.len() - i,
    {
        if s[i].0 == k {
            proof {
                lemma_at(s@, i as int);
            }
            return Some(i);
        }
        i = i + 1;
    }
    None
}

} // verus!
