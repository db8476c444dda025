//! Maps kept as a sequence of unique keys beside a sequence of values.
use vstd::prelude::*;

verus! {

/// No key occurs twice in `ks`.
pub open spec fn unique<K>(ks: Seq<K>) -> bool {
    forall|i: int, j: int| 0 <= i < ks.len() && 0 <= j < ks.len() && i != j ==> ks[i] != ks[j]
}

/// The map that pairs `ks[i]` with `vs[i]`.
pub open spec fn index_map<K, V>(ks: Seq<K>, vs: Seq<V>) -> Map<K, V> {
    Map::new(
        |k: K| exists|i: int| 0 <= i < ks.len() && ks[i] == k,
        |k: K| vs[choose|i: int| 0 <= i < ks.len() && ks[i] == k],
    )
}

/// With unique keys, position `i` gives the value of its key.
pub proof fn lemma_index_map_at<K, V>(ks: Seq<K>, vs: Seq<V>, i: int)
    requires
        unique(ks),
        0 <= i < ks.len(),
    ensures
        index_map(ks, vs).contains_key(ks[i]),
        index_map(ks, vs)[ks[i]] == vs[i],
{
    assert(index_map(ks, vs).contains_key(ks[i]));
    let j = choose|j: int| 0 <= j < ks.len() && ks[j] == ks[i];
    assert(j == i);
}

/// Replacing the value at position `i` replaces the value of its key.
pub proof fn lemma_index_map_update<K, V>(ks: Seq<K>, vs: Seq<V>, i: int, v: V)
    requires
        unique(ks),
        ks.len() == vs.len(),
        0 <= i < ks.len(),
    ensures
        index_map(ks, vs.update(i, v)) == index_map(ks, vs).insert(ks[i], v),
{
    let a = index_map(ks, vs.update(i, v));
    let b = index_map(ks, vs).insert(ks[i], v);
    assert forall|k: K| #[trigger] a.contains_key(k) implies a[k] == b[k] by {
        let j = choose|j: int| 0 <= j < ks.len() && ks[j] == k;
        lemma_index_map_at(ks, vs.update(i, v), j);
        if j != i {
            lemma_index_map_at(ks, vs, j);
        }
    }
    assert(a =~= b);
}

/// Appending a new key with its value adds it to the map.
pub proof fn lemma_index_map_push<K, V>(ks: Seq<K>, vs: Seq<V>, k: K, v: V)
    requires
        unique(ks),
        ks.len() == vs.len(),
        !index_map(ks, vs).contains_key(k),
    ensures
        unique(ks.push(k)),
        index_map(ks.push(k), vs.push(v)) == index_map(ks, vs).insert(k, v),
{
    let ks2 = ks.push(k);
    let vs2 = vs.push(v);
    assert forall|i: int, j: int| 0 <= i < ks2.len() && 0 <= j < ks2.len() && i != j implies ks2[i] != ks2[j] by {
        if i == ks.len() as int {
            assert(ks2[j] == ks[j]);
        } else if j == ks.len() as int {
            assert(ks2[i] == ks[i]);
        }
    }
    let a = index_map(ks2, vs2);
    let b = index_map(ks, vs).insert(k, v);
    assert forall|x: K| #[trigger] a.contains_key(x) == b.contains_key(x) by {
        if a.contains_key(x) && x != k {
            let j = choose|j: int| 0 <= j < ks2.len() && ks2[j] == x;
            assert(ks[j] == x);
        }
        if b.contains_key(x) && x != k {
            let j = choose|j: int| 0 <= j < ks.len() && ks[j] == x;
            assert(ks2[j] == x);
        }
        if x == k {
            assert(ks2[ks.len() as int] == k);
        }
    }
    assert forall|x: K| #[trigger] a.contains_key(x) implies a[x] == b[x] by {
        let j = choose|j: int| 0 <= j < ks2.len() && ks2[j] == x;
        lemma_index_map_at(ks2, vs2, j);
        if x != k {
            lemma_index_map_at(ks, vs, j);
        }
    }
    assert(a =~= b);
}

} // verus!
