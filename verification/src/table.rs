//! Tables kept as vectors and seen as maps: a later entry with the same key
//! stands in for an earlier one, as with repeated inserts into a map.
use vstd::prelude::*;

use crate::text::{chars_eq, chars_of};

verus! {

/// The map that inserting each value under its key, first to last, builds.
pub open spec fn keyed_map<V>(keys: Seq<Seq<char>>, vals: Seq<V>) -> Map<Seq<char>, V>
    recommends
        keys.len() == vals.len(),
    decreases keys.len(),
{
    if keys.len() == 0 || vals.len() == 0 {
        Map::empty()
    } else {
        keyed_map(keys.drop_last(), vals.drop_last()).insert(keys.last(), vals.last())
    }
}

/// The value under a key is the one of its last entry.
pub proof fn lemma_keyed_map_last<V>(keys: Seq<Seq<char>>, vals: Seq<V>, i: int)
    requires
        keys.len() == vals.len(),
        0 <= i < keys.len(),
        forall|j: int| i < j < keys.len() ==> keys[j] != keys[i],
    ensures
        keyed_map(keys, vals).contains_key(keys[i]),
        keyed_map(keys, vals)[keys[i]] == vals[i],
    decreases keys.len(),
{
    if i < keys.len() - 1 {
        lemma_keyed_map_last(keys.drop_last(), vals.drop_last(), i);
    }
}

/// A key that no entry has is not in the map.
pub proof fn lemma_keyed_map_absent<V>(keys: Seq<Seq<char>>, vals: Seq<V>, k: Seq<char>)
    requires
        keys.len() == vals.len(),
        forall|j: int| 0 <= j < keys.len() ==> keys[j] != k,
    ensures
        !keyed_map(keys, vals).contains_key(k),
    decreases keys.len(),
{
    if keys.len() > 0 {
        lemma_keyed_map_absent(keys.drop_last(), vals.drop_last(), k);
    }
}

/// Adding an entry at the end inserts it into the map.
pub proof fn lemma_keyed_map_push<V>(keys: Seq<Seq<char>>, vals: Seq<V>, k: Seq<char>, v: V)
    requires
        keys.len() == vals.len(),
    ensures
        keyed_map(keys.push(k), vals.push(v)) == keyed_map(keys, vals).insert(k, v),
{
    assert(keys.push(k).drop_last() =~= keys);
    assert(vals.push(v).drop_last() =~= vals);
}

/// Copies a vector of strings.
pub fn copy_strings(v: &Vec<String>) -> (r: Vec<String>)
    ensures
        r@.len() == v@.len(),
        forall|i: int| 0 <= i < v@.len() ==> #[trigger] r@[i]@ == v@[i]@,
{
    let mut r: Vec<String> = Vec::new();
    let mut i: usize = 0;
    while i < v.len()
        invariant
            0 <= i <= v@.len(),
            r@.len() == i,
            forall|j: int| 0 <= j < i ==> #[trigger] r@[j]@ == v@[j]@,
        decreases v@.len() - i,
    {
        r.push(v[i].clone());
        i = i + 1;
    }
    r
}

/// The characters of each string.
pub open spec fn string_views(v: Seq<String>) -> Seq<Seq<char>> {
    Seq::new(v.len(), |i: int| v[i]@)
}

/// The set of a sequence with one more item is the set with that item.
pub proof fn lemma_push_to_set<A>(s: Seq<A>, p: A)
    ensures
        s.push(p).to_set() == s.to_set().insert(p),
{
    assert forall|x: A| #[trigger] s.push(p).to_set().contains(x) <==> s.to_set().insert(p).contains(x) by {
        if s.push(p).contains(x) {
            let i = choose|i: int| 0 <= i < s.len() + 1 && s.push(p)[i] == x;
            if i < s.len() {
                assert(s[i] == x);
            }
        }
        if s.contains(x) {
            let i = choose|i: int| 0 <= i < s.len() && s[i] == x;
            assert(s.push(p)[i] == x);
        }
        if x == p {
            assert(s.push(p)[s.len() as int] == p);
        }
    }
    assert(s.push(p).to_set() =~= s.to_set().insert(p));
}

/// The keys of a table.
pub open spec fn entry_keys<V>(v: Seq<(String, V)>) -> Seq<Seq<char>> {
    Seq::new(v.len(), |i: int| v[i].0@)
}

/// The values of a table.
pub open spec fn entry_values<V>(v: Seq<(String, V)>) -> Seq<V> {
    Seq::new(v.len(), |i: int| v[i].1)
}

/// No key occurs twice.
pub open spec fn keys_unique<V>(v: Seq<(String, V)>) -> bool {
    forall|i: int, j: int| 0 <= i < v.len() && 0 <= j < v.len() && i != j ==> v[i].0@ != v[j].0@
}

/// The map that a table with unique keys stands for.
pub open spec fn table_map<V>(v: Seq<(String, V)>) -> Map<Seq<char>, V> {
    keyed_map(entry_keys(v), entry_values(v))
}

/// Where the key is in a table with unique keys.
pub fn find_key<V>(v: &Vec<(String, V)>, key: &[char]) -> (r: Option<usize>)
    requires
        keys_unique(v@),
    ensures
        match r {
            Some(i) => i < v@.len() && v@[i as int].0@ == key@ && table_map(v@).contains_key(key@)
                && table_map(v@)[key@] == v@[i as int].1,
            None => !table_map(v@).contains_key(key@),
        },
{
    let mut i: usize = 0;
    while i < v.len()
        invariant
            0 <= i <= v@.len(),
            keys_unique(v@),
            forall|j: int| 0 <= j < i ==> v@[j].0@ != key@,
        decreases v@.len() - i,
    {
        let k = chars_of(v[i].0.as_str());
        if chars_eq(&k, key) {
            proof {
                assert forall|j: int| i < j < entry_keys(v@).len() implies entry_keys(v@)[j]
                    != entry_keys(v@)[i as int] by {
                    assert(v@[j].0@ != v@[i as int].0@);
                }
                lemma_keyed_map_last(entry_keys(v@), entry_values(v@), i as int);
            }
            return Some(i);
        }
        i = i + 1;
    }
    proof {
        lemma_keyed_map_absent(entry_keys(v@), entry_values(v@), key@);
    }
    None
}

pub proof fn lemma_table_update<V>(v: Seq<(String, V)>, i: int, x: V)
    requires
        keys_unique(v),
        0 <= i < v.len(),
    ensures
        keys_unique(v.update(i, (v[i].0, x))),
        table_map(v.update(i, (v[i].0, x))) == table_map(v).insert(v[i].0@, x),
{
    let w = v.update(i, (v[i].0, x));
    assert(entry_keys(w) =~= entry_keys(v));
    assert forall|k: Seq<char>| #[trigger] table_map(w).contains_key(k) <==> table_map(v).insert(
        v[i].0@,
        x,
    ).contains_key(k) by {
        lemma_table_lookup(w, k);
        lemma_table_lookup(v, k);
        if exists|j: int| 0 <= j < w.len() && w[j].0@ == k {
            let j = choose|j: int| 0 <= j < w.len() && w[j].0@ == k;
            assert(v[j].0@ == k);
        }
        if exists|j: int| 0 <= j < v.len() && v[j].0@ == k {
            let j = choose|j: int| 0 <= j < v.len() && v[j].0@ == k;
            assert(w[j].0@ == k);
        }
        if k == v[i].0@ {
            assert(w[i].0@ == k);
        }
    }
    assert forall|k: Seq<char>| table_map(w).contains_key(k) implies #[trigger] table_map(w)[k]
        == table_map(v).insert(v[i].0@, x)[k] by {
        lemma_table_lookup(w, k);
        lemma_table_lookup(v, k);
        let j = choose|j: int| 0 <= j < w.len() && w[j].0@ == k;
        assert(v[j].0@ == k);
        if j != i {
            assert(w[j] == v[j]);
            assert(v[i].0@ != v[j].0@);
        }
    }
    assert(table_map(w) =~= table_map(v).insert(v[i].0@, x));
}

/// A key is in a table with unique keys exactly when one entry has it,
/// and then it maps to that entry's value.
pub proof fn lemma_table_lookup<V>(v: Seq<(String, V)>, k: Seq<char>)
    requires
        keys_unique(v),
    ensures
        table_map(v).contains_key(k) <==> exists|i: int| 0 <= i < v.len() && v[i].0@ == k,
        forall|i: int|
            0 <= i < v.len() && v[i].0@ == k ==> #[trigger] table_map(v)[k] == v[i].1,
{
    assert forall|i: int, j: int| 0 <= i < j < entry_keys(v).len() implies #[trigger] entry_keys(
        v,
    )[j] != #[trigger] entry_keys(v)[i] by {
        assert(v[j].0@ != v[i].0@);
    }
    if exists|i: int| 0 <= i < v.len() && v[i].0@ == k {
        let i = choose|i: int| 0 <= i < v.len() && v[i].0@ == k;
        lemma_keyed_map_last(entry_keys(v), entry_values(v), i);
    } else {
        lemma_keyed_map_absent(entry_keys(v), entry_values(v), k);
    }
    assert forall|i: int| 0 <= i < v.len() && v[i].0@ == k implies #[trigger] table_map(v)[k]
        == v[i].1 by {
        lemma_keyed_map_last(entry_keys(v), entry_values(v), i);
    }
}

pub proof fn lemma_table_push<V>(v: Seq<(String, V)>, key: String, x: V)
    requires
        keys_unique(v),
        !table_map(v).contains_key(key@),
    ensures
        keys_unique(v.push((key, x))),
        table_map(v.push((key, x))) == table_map(v).insert(key@, x),
{
    lemma_table_lookup(v, key@);
    assert(entry_keys(v.push((key, x))) =~= entry_keys(v).push(key@));
    assert(entry_values(v.push((key, x))) =~= entry_values(v).push(x));
    crate::table::lemma_keyed_map_push(entry_keys(v), entry_values(v), key@, x);
}

pub proof fn lemma_table_remove<V>(v: Seq<(String, V)>, i: int)
    requires
        keys_unique(v),
        0 <= i < v.len(),
    ensures
        keys_unique(v.remove(i)),
        table_map(v.remove(i)) == table_map(v).remove(v[i].0@),
{
    let w = v.remove(i);
    let k0 = v[i].0@;
    assert forall|a: int, b: int|
        0 <= a < w.len() && 0 <= b < w.len() && a != b implies w[a].0@ != w[b].0@ by {
        let a2 = if a < i {
            a
        } else {
            a + 1
        };
        let b2 = if b < i {
            b
        } else {
            b + 1
        };
        assert(w[a] == v[a2]);
        assert(w[b] == v[b2]);
    }
    assert forall|k: Seq<char>| #[trigger] table_map(w).contains_key(k) <==> table_map(v).remove(
        k0,
    ).contains_key(k) by {
        lemma_table_lookup(w, k);
        lemma_table_lookup(v, k);
        if exists|j: int| 0 <= j < w.len() && w[j].0@ == k {
            let j = choose|j: int| 0 <= j < w.len() && w[j].0@ == k;
            let j2 = if j < i {
                j
            } else {
                j + 1
            };
            assert(w[j] == v[j2]);
        }
        if k != k0 && exists|j: int| 0 <= j < v.len() && v[j].0@ == k {
            let j = choose|j: int| 0 <= j < v.len() && v[j].0@ == k;
            if j < i {
                assert(w[j] == v[j]);
            } else {
                assert(j != i);
                assert(w[j - 1] == v[j]);
            }
        }
    }
    assert forall|k: Seq<char>| table_map(w).contains_key(k) implies #[trigger] table_map(w)[k]
        == table_map(v).remove(k0)[k] by {
        lemma_table_lookup(w, k);
        lemma_table_lookup(v, k);
        let j = choose|j: int| 0 <= j < w.len() && w[j].0@ == k;
        let j2 = if j < i {
            j
        } else {
            j + 1
        };
        assert(w[j] == v[j2]);
    }
    assert(table_map(w) =~= table_map(v).remove(k0));
}


/// A table with unique keys has as many keys in its map as it has entries.
pub proof fn lemma_table_len<V>(v: Seq<(String, V)>)
    requires
        keys_unique(v),
    ensures
        table_map(v).dom().finite(),
        table_map(v).dom().len() == v.len(),
    decreases v.len(),
{
    if v.len() == 0 {
        assert(table_map(v).dom() =~= Set::<Seq<char>>::empty());
    } else {
        let w = v.drop_last();
        assert forall|i: int, j: int| 0 <= i < w.len() && 0 <= j < w.len() && i != j implies w[i].0@ != w[j].0@ by {
            assert(w[i] == v[i] && w[j] == v[j]);
        }
        lemma_table_len(w);
        assert(entry_keys(v).drop_last() =~= entry_keys(w));
        assert(entry_values(v).drop_last() =~= entry_values(w));
        let k = v.last().0@;
        assert forall|j: int| 0 <= j < entry_keys(w).len() implies entry_keys(w)[j] != k by {
            assert(w[j] == v[j]);
            assert(v[j].0@ != v[v.len() - 1].0@);
        }
        lemma_keyed_map_absent(entry_keys(w), entry_values(w), k);
        assert(table_map(v) == table_map(w).insert(k, v.last().1));
        assert(table_map(v).dom() == table_map(w).dom().insert(k));
    }
}

/// Sets `key` to `x` in a table with unique keys: the entry with that key
/// gets the value, or a new entry is added at the end.
pub fn table_insert<V>(v: &mut Vec<(String, V)>, key: String, x: V)
    requires
        keys_unique(old(v)@),
    ensures
        keys_unique(final(v)@),
        table_map(final(v)@) == table_map(old(v)@).insert(key@, x),
        final(v)@.len() == old(v)@.len() + if table_map(old(v)@).contains_key(key@) {
            0nat
        } else {
            1nat
        },
{
    let kc = chars_of(key.as_str());
    match find_key(v, &kc) {
        Some(i) => {
            let ghost w0 = v@.update(i as int, (v@[i as int].0, x));
            proof {
                lemma_table_update(v@, i as int, x);
            }
            v.set(i, (key, x));
            assert(entry_keys(v@) =~= entry_keys(w0));
            assert(entry_values(v@) =~= entry_values(w0));
        },
        None => {
            proof {
                lemma_table_push(v@, key, x);
            }
            v.push((key, x));
        },
    }
}

} // verus!
