//! Vectors whose elements are told apart by a text key, read as maps from
//! key to element: the library's registries keep their entries this way.

use vstd::prelude::*;

verus! {

/// No two elements share a key.
pub open spec fn keys_distinct<T>(s: Seq<T>, key: spec_fn(T) -> Seq<char>) -> bool {
    forall|i: int, j: int| 0 <= i < s.len() && 0 <= j < s.len() && i != j
        ==> #[trigger] key(s[i]) != #[trigger] key(s[j])
}

/// Some element has key `k`.
pub open spec fn has_key<T>(s: Seq<T>, key: spec_fn(T) -> Seq<char>, k: Seq<char>) -> bool {
    exists|i: int| 0 <= i < s.len() && #[trigger] key(s[i]) == k
}

/// Position of an element with key `k`.
pub open spec fn key_index<T>(s: Seq<T>, key: spec_fn(T) -> Seq<char>, k: Seq<char>) -> int {
    choose|i: int| 0 <= i < s.len() && #[trigger] key(s[i]) == k
}

/// The elements by key.
pub open spec fn keyed_map<T>(s: Seq<T>, key: spec_fn(T) -> Seq<char>) -> Map<Seq<char>, T> {
    Map::new(|k: Seq<char>| has_key(s, key, k), |k: Seq<char>| s[key_index(s, key, k)])
}

/// With distinct keys, the element with key `key(s[i])` is `s[i]`.
pub proof fn lemma_key_index_unique<T>(s: Seq<T>, key: spec_fn(T) -> Seq<char>, i: int)
    requires
        keys_distinct(s, key),
        0 <= i < s.len(),
    ensures
        has_key(s, key, key(s[i])),
        key_index(s, key, key(s[i])) == i,
        keyed_map(s, key).dom().contains(key(s[i])),
        keyed_map(s, key)[key(s[i])] == s[i],
{
    let k = key(s[i]);
    assert(has_key(s, key, k));
    let j = key_index(s, key, k);
    if j != i {
        assert(key(s[j]) != key(s[i]));
    }
}

/// Replacing an element by one with the same key updates that key only.
pub proof fn lemma_keyed_update<T>(s: Seq<T>, key: spec_fn(T) -> Seq<char>, i: int, x: T)
    requires
        keys_distinct(s, key),
        0 <= i < s.len(),
        key(x) == key(s[i]),
    ensures
        keys_distinct(s.update(i, x), key),
        keyed_map(s.update(i, x), key) == keyed_map(s, key).insert(key(x), x),
{
    let t = s.update(i, x);
    assert forall|a: int, b: int| 0 <= a < t.len() && 0 <= b < t.len() && a != b
        implies #[trigger] key(t[a]) != #[trigger] key(t[b]) by {
        assert(key(t[a]) == key(s[a]));
        assert(key(t[b]) == key(s[b]));
    }
    let m1 = keyed_map(t, key);
    let m2 = keyed_map(s, key).insert(key(x), x);
    assert forall|k: Seq<char>| #[trigger] m1.dom().contains(k) <==> m2.dom().contains(k) by {
        if has_key(t, key, k) {
            let j = choose|j: int| 0 <= j < t.len() && #[trigger] key(t[j]) == k;
            assert(key(s[j]) == k);
        }
        if has_key(s, key, k) {
            let j = choose|j: int| 0 <= j < s.len() && #[trigger] key(s[j]) == k;
            assert(key(t[j]) == k);
        }
        if k == key(x) {
            assert(key(t[i]) == k);
        }
    }
    assert forall|k: Seq<char>| #[trigger] m1.dom().contains(k) implies m1[k] == m2[k] by {
        let j = choose|j: int| 0 <= j < t.len() && #[trigger] key(t[j]) == k;
        lemma_key_index_unique(t, key, j);
        if j != i {
            assert(key(s[j]) == k);
            lemma_key_index_unique(s, key, j);
        }
    }
    assert(m1 =~= m2);
}

/// Appending an element under a new key adds that key.
pub proof fn lemma_keyed_push<T>(s: Seq<T>, key: spec_fn(T) -> Seq<char>, x: T)
    requires
        keys_distinct(s, key),
        !has_key(s, key, key(x)),
    ensures
        keys_distinct(s.push(x), key),
        keyed_map(s.push(x), key) == keyed_map(s, key).insert(key(x), x),
{
    let t = s.push(x);
    assert forall|a: int, b: int| 0 <= a < t.len() && 0 <= b < t.len() && a != b
        implies #[trigger] key(t[a]) != #[trigger] key(t[b]) by {
        if a < s.len() {
            assert(t[a] == s[a]);
        }
        if b < s.len() {
            assert(t[b] == s[b]);
        }
    }
    let m1 = keyed_map(t, key);
    let m2 = keyed_map(s, key).insert(key(x), x);
    assert forall|k: Seq<char>| #[trigger] m1.dom().contains(k) <==> m2.dom().contains(k) by {
        if has_key(t, key, k) {
            let j = choose|j: int| 0 <= j < t.len() && #[trigger] key(t[j]) == k;
            if j < s.len() {
                assert(key(s[j]) == k);
            }
        }
        if has_key(s, key, k) {
            let j = choose|j: int| 0 <= j < s.len() && #[trigger] key(s[j]) == k;
            assert(key(t[j]) == k);
        }
        if k == key(x) {
            assert(key(t[s.len() as int]) == k);
        }
    }
    assert forall|k: Seq<char>| #[trigger] m1.dom().contains(k) implies m1[k] == m2[k] by {
        let j = choose|j: int| 0 <= j < t.len() && #[trigger] key(t[j]) == k;
        lemma_key_index_unique(t, key, j);
        if j < s.len() {
            assert(t[j] == s[j]);
            lemma_key_index_unique(s, key, j);
        }
    }
    assert(m1 =~= m2);
}

/// The empty vector is the empty map.
pub proof fn lemma_keyed_empty<T>(key: spec_fn(T) -> Seq<char>)
    ensures
        keys_distinct(Seq::<T>::empty(), key),
        keyed_map(Seq::<T>::empty(), key) == Map::<Seq<char>, T>::empty(),
{
    assert(keyed_map(Seq::<T>::empty(), key) =~= Map::<Seq<char>, T>::empty());
}

} // verus!
