//! Association lists with distinct keys, and the map each one stands for.
//! The library's tables keep their entries in vectors; these facts connect
//! vector edits to map edits.

use vstd::prelude::*;

verus! {

/// No key occurs twice.
pub open spec fn keys_distinct<K, V>(s: Seq<(K, V)>) -> bool {
    forall|i: int, j: int| 0 <= i < s.len() && 0 <= j < s.len() && i != j ==> s[i].0 != s[j].0
}

/// Some entry has key `k`.
pub open spec fn has_key<K, V>(s: Seq<(K, V)>, k: K) -> bool {
    exists|i: int| 0 <= i < s.len() && s[i].0 == k
}

/// The map from each key to the value of the entry holding it.
pub open spec fn assoc_map<K, V>(s: Seq<(K, V)>) -> Map<K, V> {
    Map::new(|k: K| has_key(s, k), |k: K| s[choose|i: int| 0 <= i < s.len() && s[i].0 == k].1)
}

/// The keys, in order.
pub open spec fn keys_of<K, V>(s: Seq<(K, V)>) -> Seq<K> {
    s.map_values(|e: (K, V)| e.0)
}

pub proof fn lemma_assoc_at<K, V>(s: Seq<(K, V)>, i: int)
    requires
        keys_distinct(s),
        0 <= i < s.len(),
    ensures
        assoc_map(s).contains_key(s[i].0),
        assoc_map(s)[s[i].0] == s[i].1,
{
    let k = s[i].0;
    assert(has_key(s, k));
    let j = choose|j: int| 0 <= j < s.len() && s[j].0 == k;
    assert(j == i);
}

/// Every key of the map is held by some entry, whose value it maps to.
pub proof fn lemma_assoc_key<K, V>(s: Seq<(K, V)>, k: K)
    requires
        keys_distinct(s),
        assoc_map(s).contains_key(k),
    ensures
        exists|i: int| 0 <= i < s.len() && s[i].0 == k && assoc_map(s)[k] == s[i].1,
{
    let i = choose|i: int| 0 <= i < s.len() && s[i].0 == k;
    lemma_assoc_at(s, i);
}

pub proof fn lemma_assoc_empty<K, V>(s: Seq<(K, V)>)
    requires
        s.len() == 0,
    ensures
        keys_distinct(s),
        assoc_map(s) == Map::<K, V>::empty(),
{
    assert(assoc_map(s) =~= Map::<K, V>::empty());
}

/// Appending an entry with a new key inserts it into the map.
pub proof fn lemma_assoc_push<K, V>(s: Seq<(K, V)>, k: K, v: V)
    requires
        keys_distinct(s),
        !has_key(s, k),
    ensures
        keys_distinct(s.push((k, v))),
        assoc_map(s.push((k, v))) == assoc_map(s).insert(k, v),
{
    let t = s.push((k, v));
    assert(keys_distinct(t));
    let m = assoc_map(s).insert(k, v);
    assert forall|x: K| #[trigger] assoc_map(t).contains_key(x) <==> m.contains_key(x) by {
        if has_key(t, x) {
            let i = choose|i: int| 0 <= i < t.len() && t[i].0 == x;
            if i < s.len() {
                assert(s[i].0 == x);
            }
        }
        if has_key(s, x) {
            let i = choose|i: int| 0 <= i < s.len() && s[i].0 == x;
            assert(t[i].0 == x);
        }
        if x == k {
            assert(t[s.len() as int].0 == x);
        }
    }
    assert forall|x: K| #[trigger] assoc_map(t).contains_key(x) implies assoc_map(t)[x] == m[x] by {
        let i = choose|i: int| 0 <= i < t.len() && t[i].0 == x;
        lemma_assoc_at(t, i);
        if i < s.len() {
            lemma_assoc_at(s, i);
        }
    }
    assert(assoc_map(t) =~= m);
}

/// Replacing the value of entry `i` updates its key in the map.
pub proof fn lemma_assoc_update<K, V>(s: Seq<(K, V)>, i: int, v: V)
    requires
        keys_distinct(s),
        0 <= i < s.len(),
    ensures
        keys_distinct(s.update(i, (s[i].0, v))),
        assoc_map(s.update(i, (s[i].0, v))) == assoc_map(s).insert(s[i].0, v),
{
    let k = s[i].0;
    let t = s.update(i, (k, v));
    assert(keys_distinct(t));
    let m = assoc_map(s).insert(k, v);
    assert forall|x: K| #[trigger] assoc_map(t).contains_key(x) <==> m.contains_key(x) by {
        if has_key(t, x) {
            let j = choose|j: int| 0 <= j < t.len() && t[j].0 == x;
            assert(s[j].0 == x);
        }
        if has_key(s, x) {
            let j = choose|j: int| 0 <= j < s.len() && s[j].0 == x;
            assert(t[j].0 == x);
        }
    }
    assert forall|x: K| #[trigger] assoc_map(t).contains_key(x) implies assoc_map(t)[x] == m[x] by {
        let j = choose|j: int| 0 <= j < t.len() && t[j].0 == x;
        lemma_assoc_at(t, j);
        if j != i {
            lemma_assoc_at(s, j);
        }
    }
    assert(assoc_map(t) =~= m);
}

/// Removing entry `i` removes its key from the map.
pub proof fn lemma_assoc_remove<K, V>(s: Seq<(K, V)>, i: int)
    requires
        keys_distinct(s),
        0 <= i < s.len(),
    ensures
        keys_distinct(s.remove(i)),
        assoc_map(s.remove(i)) == assoc_map(s).remove(s[i].0),
{
    let k = s[i].0;
    let t = s.remove(i);
    assert forall|a: int, b: int| 0 <= a < t.len() && 0 <= b < t.len() && a != b implies t[a].0
        != t[b].0 by {
        let a2 = if a < i {
            a
        } else {
            a + 1
        };
        let b2 = if b < i {
            b
        } else {
            b + 1
        };
        assert(t[a] == s[a2]);
        assert(t[b] == s[b2]);
    }
    let m = assoc_map(s).remove(k);
    assert forall|x: K| #[trigger] assoc_map(t).contains_key(x) <==> m.contains_key(x) by {
        if has_key(t, x) {
            let j = choose|j: int| 0 <= j < t.len() && t[j].0 == x;
            let j2 = if j < i {
                j
            } else {
                j + 1
            };
            assert(s[j2].0 == x);
            assert(j2 != i);
        }
        if has_key(s, x) && x != k {
            let j = choose|j: int| 0 <= j < s.len() && s[j].0 == x;
            assert(j != i);
            let j2 = if j < i {
                j
            } else {
                j - 1
            };
            assert(t[j2].0 == x);
        }
    }
    assert forall|x: K| #[trigger] assoc_map(t).contains_key(x) implies assoc_map(t)[x] == m[x] by {
        let j = choose|j: int| 0 <= j < t.len() && t[j].0 == x;
        lemma_assoc_at(t, j);
        let j2 = if j < i {
            j
        } else {
            j + 1
        };
        assert(t[j] == s[j2]);
        lemma_assoc_at(s, j2);
    }
    assert(assoc_map(t) =~= m);
}

/// The keys in order hold each key of the map exactly once.
pub proof fn lemma_keys_of<K, V>(s: Seq<(K, V)>)
    requires
        keys_distinct(s),
    ensures
        keys_of(s).to_set() == assoc_map(s).dom(),
        keys_of(s).no_duplicates(),
        keys_of(s).len() == s.len(),
{
    let ks = keys_of(s);
    assert forall|x: K| #[trigger] ks.to_set().contains(x) <==> assoc_map(s).dom().contains(x) by {
        if ks.contains(x) {
            let i = choose|i: int| 0 <= i < ks.len() && ks[i] == x;
            assert(s[i].0 == x);
        }
        if has_key(s, x) {
            let i = choose|i: int| 0 <= i < s.len() && s[i].0 == x;
            assert(ks[i] == x);
        }
    }
    assert(ks.to_set() =~= assoc_map(s).dom());
}

/// Inserting an entry with a new key at any position inserts it into the map.
pub proof fn lemma_assoc_insert_at<K, V>(s: Seq<(K, V)>, pos: int, k: K, v: V)
    requires
        keys_distinct(s),
        !has_key(s, k),
        0 <= pos <= s.len(),
    ensures
        keys_distinct(s.insert(pos, (k, v))),
        assoc_map(s.insert(pos, (k, v))) == assoc_map(s).insert(k, v),
{
    let t = s.insert(pos, (k, v));
    assert forall|a: int, b: int| 0 <= a < t.len() && 0 <= b < t.len() && a != b implies t[a].0
        != t[b].0 by {
        if a != pos && b != pos {
            let a2 = if a < pos {
                a
            } else {
                a - 1
            };
            let b2 = if b < pos {
                b
            } else {
                b - 1
            };
            assert(t[a] == s[a2]);
            assert(t[b] == s[b2]);
        } else if a == pos {
            let b2 = if b < pos {
                b
            } else {
                b - 1
            };
            assert(t[b] == s[b2]);
        } else {
            let a2 = if a < pos {
                a
            } else {
                a - 1
            };
            assert(t[a] == s[a2]);
        }
    }
    let m = assoc_map(s).insert(k, v);
    assert forall|x: K| #[trigger] assoc_map(t).contains_key(x) <==> m.contains_key(x) by {
        if has_key(t, x) {
            let j = choose|j: int| 0 <= j < t.len() && t[j].0 == x;
            if j != pos {
                let j2 = if j < pos {
                    j
                } else {
                    j - 1
                };
                assert(s[j2].0 == x);
            }
        }
        if has_key(s, x) {
            let j = choose|j: int| 0 <= j < s.len() && s[j].0 == x;
            let j2 = if j < pos {
                j
            } else {
                j + 1
            };
            assert(t[j2].0 == x);
        }
        if x == k {
            assert(t[pos].0 == x);
        }
    }
    assert forall|x: K| #[trigger] assoc_map(t).contains_key(x) implies assoc_map(t)[x] == m[x] by {
        let j = choose|j: int| 0 <= j < t.len() && t[j].0 == x;
        lemma_assoc_at(t, j);
        if j != pos {
            let j2 = if j < pos {
                j
            } else {
                j - 1
            };
            assert(t[j] == s[j2]);
            lemma_assoc_at(s, j2);
        }
    }
    assert(assoc_map(t) =~= m);
}

} // verus!
