use vstd::prelude::*;

verus! {

/// The map described by a list of entries, reading each entry's key and value
/// with `key` and `val`; later entries win.
pub open spec fn assoc_map<E, K, V>(s: Seq<E>, key: spec_fn(E) -> K, val: spec_fn(E) -> V) -> Map<K, V>
    decreases s.len(),
{
    if s.len() == 0 {
        Map::empty()
    } else {
        assoc_map(s.drop_last(), key, val).insert(key(s.last()), val(s.last()))
    }
}

/// No key occurs twice among the entries.
pub open spec fn unique_keys<E, K>(s: Seq<E>, key: spec_fn(E) -> K) -> bool {
    forall|i: int, j: int| 0 <= i < s.len() && 0 <= j < s.len() && i != j ==> key(s[i]) != key(
        s[j],
    )
}

pub proof fn lemma_assoc_lookup<E, K, V>(s: Seq<E>, key: spec_fn(E) -> K, val: spec_fn(E) -> V, i: int)
    requires
        unique_keys(s, key),
        0 <= i < s.len(),
    ensures
        assoc_map(s, key, val).contains_key(key(s[i])),
        assoc_map(s, key, val)[key(s[i])] == val(s[i]),
    decreases s.len(),
{
    if i < s.len() - 1 {
        lemma_assoc_lookup(s.drop_last(), key, val, i);
        assert(key(s[i]) != key(s.last()));
    }
}

pub proof fn lemma_assoc_absent<E, K, V>(s: Seq<E>, key: spec_fn(E) -> K, val: spec_fn(E) -> V, k: K)
    requires
        forall|i: int| 0 <= i < s.len() ==> key(s[i]) != k,
    ensures
        !assoc_map(s, key, val).contains_key(k),
    decreases s.len(),
{
    if s.len() > 0 {
        lemma_assoc_absent(s.drop_last(), key, val, k);
    }
}

/// Every key of the map is the key of some entry.
pub proof fn lemma_assoc_dom<E, K, V>(s: Seq<E>, key: spec_fn(E) -> K, val: spec_fn(E) -> V, k: K)
    requires
        assoc_map(s, key, val).contains_key(k),
    ensures
        exists|i: int| 0 <= i < s.len() && key(s[i]) == k,
    decreases s.len(),
{
    if key(s.last()) != k {
        lemma_assoc_dom(s.drop_last(), key, val, k);
        let i = choose|i: int| 0 <= i < s.drop_last().len() && key(s.drop_last()[i]) == k;
        assert(key(s[i]) == k);
    } else {
        assert(key(s[s.len() - 1]) == k);
    }
}

pub proof fn lemma_assoc_update<E, K, V>(
    s: Seq<E>,
    key: spec_fn(E) -> K,
    val: spec_fn(E) -> V,
    i: int,
    e: E,
)
    requires
        unique_keys(s, key),
        0 <= i < s.len(),
        key(s[i]) == key(e),
    ensures
        assoc_map(s.update(i, e), key, val) == assoc_map(s, key, val).insert(key(e), val(e)),
        unique_keys(s.update(i, e), key),
    decreases s.len(),
{
    let t = s.update(i, e);
    assert forall|a: int, b: int| 0 <= a < t.len() && 0 <= b < t.len() && a != b implies key(t[a])
        != key(t[b]) by {
        assert(key(s[a]) != key(s[b]));
    }
    if i == s.len() - 1 {
        assert(t.drop_last() =~= s.drop_last());
        assert forall|j: int| 0 <= j < s.drop_last().len() implies key(s.drop_last()[j]) != key(e) by {
            assert(key(s[j]) != key(s[i]));
        }
        lemma_assoc_absent(s.drop_last(), key, val, key(e));
        assert(assoc_map(t, key, val) =~= assoc_map(s, key, val).insert(key(e), val(e)));
    } else {
        assert(t.drop_last() =~= s.drop_last().update(i, e));
        lemma_assoc_update(s.drop_last(), key, val, i, e);
        assert(key(s.last()) != key(e));
        assert(assoc_map(t, key, val) =~= assoc_map(s, key, val).insert(key(e), val(e)));
    }
}

pub proof fn lemma_assoc_push<E, K, V>(s: Seq<E>, key: spec_fn(E) -> K, val: spec_fn(E) -> V, e: E)
    requires
        unique_keys(s, key),
        !assoc_map(s, key, val).contains_key(key(e)),
    ensures
        assoc_map(s.push(e), key, val) == assoc_map(s, key, val).insert(key(e), val(e)),
        unique_keys(s.push(e), key),
{
    let t = s.push(e);
    assert(t.drop_last() =~= s);
    assert forall|a: int, b: int| 0 <= a < t.len() && 0 <= b < t.len() && a != b implies key(t[a])
        != key(t[b]) by {
        if a == s.len() {
            lemma_assoc_lookup(s, key, val, b);
        } else if b == s.len() {
            lemma_assoc_lookup(s, key, val, a);
        }
    }
}

pub proof fn lemma_assoc_remove<E, K, V>(s: Seq<E>, key: spec_fn(E) -> K, val: spec_fn(E) -> V, i: int)
    requires
        unique_keys(s, key),
        0 <= i < s.len(),
    ensures
        assoc_map(s.remove(i), key, val) == assoc_map(s, key, val).remove(key(s[i])),
        unique_keys(s.remove(i), key),
    decreases s.len(),
{
    let t = s.remove(i);
    assert forall|a: int, b: int| 0 <= a < t.len() && 0 <= b < t.len() && a != b implies key(t[a])
        != key(t[b]) by {
        let a2 = if a < i {
            a
        } else {
            a + 1
        };
        let b2 = if b < i {
            b
        } else {
            b + 1
        };
        assert(t[a] == s[a2] && t[b] == s[b2]);
    }
    if i == s.len() - 1 {
        assert(t =~= s.drop_last());
        assert forall|j: int| 0 <= j < t.len() implies key(t[j]) != key(s[i]) by {
            assert(t[j] == s[j]);
        }
        lemma_assoc_absent(t, key, val, key(s[i]));
        assert(assoc_map(t, key, val) =~= assoc_map(s, key, val).remove(key(s[i])));
    } else {
        assert(t.drop_last() =~= s.drop_last().remove(i));
        assert(t.last() == s.last());
        lemma_assoc_remove(s.drop_last(), key, val, i);
        assert(key(s.last()) != key(s[i]));
        assert(assoc_map(t, key, val) =~= assoc_map(s, key, val).remove(key(s[i])));
    }
}

} // verus!
