//! Ordered tables: sequences of entries in which a key occurs once and
//! stays where it was first put.

use vstd::prelude::*;

verus! {

/// Whether some entry has the key.
pub open spec fn has_key<K, V>(entries: Seq<(K, V)>, key: K) -> bool {
    exists|i: int| 0 <= i < entries.len() && (#[trigger] entries[i]).0 == key
}

/// Whether `i` is the place of the first entry with the key.
pub open spec fn is_first_index<K, V>(entries: Seq<(K, V)>, key: K, i: int) -> bool {
    &&& 0 <= i < entries.len()
    &&& entries[i].0 == key
    &&& forall|j: int| 0 <= j < i ==> (#[trigger] entries[j]).0 != key
}

/// The place of the first entry with the key, where there is one.
pub open spec fn first_index<K, V>(entries: Seq<(K, V)>, key: K) -> int {
    choose|i: int| is_first_index(entries, key, i)
}

/// The table after `key` is set to `value`: an entry that has the key keeps
/// its place and takes the value, and a new key goes to the end.
pub open spec fn put<K, V>(entries: Seq<(K, V)>, key: K, value: V) -> Seq<(K, V)> {
    if has_key(entries, key) {
        entries.update(first_index(entries, key), (key, value))
    } else {
        entries.push((key, value))
    }
}

/// The table after the pairs are put into it one after another.
pub open spec fn put_all<K, V>(table: Seq<(K, V)>, pairs: Seq<(K, V)>) -> Seq<(K, V)>
    decreases pairs.len(),
{
    if pairs.len() == 0 {
        table
    } else {
        put(put_all(table, pairs.drop_last()), pairs.last().0, pairs.last().1)
    }
}

/// The table that comes of putting the pairs one after another, starting
/// from the empty table.
pub open spec fn collected<K, V>(pairs: Seq<(K, V)>) -> Seq<(K, V)> {
    put_all(Seq::empty(), pairs)
}

/// Whether no key occurs twice.
pub open spec fn distinct_keys<K, V>(entries: Seq<(K, V)>) -> bool {
    forall|i: int, j: int|
        0 <= i < j < entries.len() ==> (#[trigger] entries[i]).0 != (#[trigger] entries[j]).0
}

/// The value under the key, where there is one.
pub open spec fn lookup<K, V>(entries: Seq<(K, V)>, key: K) -> Option<V> {
    if has_key(entries, key) {
        Some(entries[first_index(entries, key)].1)
    } else {
        None
    }
}

/// The first place of a key is the only one that is the first.
pub proof fn lemma_first_index<K, V>(entries: Seq<(K, V)>, key: K, i: int)
    requires
        is_first_index(entries, key, i),
    ensures
        has_key(entries, key),
        first_index(entries, key) == i,
{
    let k = first_index(entries, key);
    assert(is_first_index(entries, key, k));
    if k < i {
        assert(entries[k].0 != key);
    }
    if i < k {
        assert(entries[i].0 != key);
    }
}

/// A key that is in the table has a first place.
pub proof fn lemma_has_first_index<K, V>(entries: Seq<(K, V)>, key: K)
    requires
        has_key(entries, key),
    ensures
        is_first_index(entries, key, first_index(entries, key)),
{
    let w = choose|i: int| 0 <= i < entries.len() && (#[trigger] entries[i]).0 == key;
    lemma_least_index(entries, key, w);
}

proof fn lemma_least_index<K, V>(entries: Seq<(K, V)>, key: K, w: int)
    requires
        0 <= w < entries.len(),
        entries[w].0 == key,
    ensures
        exists|i: int| is_first_index(entries, key, i),
    decreases w,
{
    if forall|j: int| 0 <= j < w ==> (#[trigger] entries[j]).0 != key {
        assert(is_first_index(entries, key, w));
    } else {
        let j = choose|j: int| 0 <= j < w && (#[trigger] entries[j]).0 == key;
        lemma_least_index(entries, key, j);
    }
}

/// Putting a key keeps the keys distinct, and the table holds the key
/// afterwards with the value.
pub proof fn lemma_put<K, V>(entries: Seq<(K, V)>, key: K, value: V)
    requires
        distinct_keys(entries),
    ensures
        distinct_keys(put(entries, key, value)),
        lookup(put(entries, key, value), key) == Some(value),
        forall|other: K| other != key ==> lookup(put(entries, key, value), other) == lookup(entries, other),
{
    let after = put(entries, key, value);
    if has_key(entries, key) {
        lemma_has_first_index(entries, key);
        let i = first_index(entries, key);
        assert forall|a: int, b: int| 0 <= a < b < after.len() implies (#[trigger] after[a]).0 != (
        #[trigger] after[b]).0 by {
            assert(entries[a].0 != entries[b].0);
            if a == i {
                assert(entries[i].0 != entries[b].0);
            }
            if b == i {
                assert(entries[a].0 != entries[i].0);
            }
        }
        assert(is_first_index(after, key, i)) by {
            assert forall|j: int| 0 <= j < i implies (#[trigger] after[j]).0 != key by {
                assert(entries[j].0 != key);
            }
        }
        lemma_first_index(after, key, i);
        assert forall|other: K| other != key implies lookup(after, other) == lookup(entries, other) by {
            lemma_put_other(entries, key, value, other);
        }
    } else {
        let n = entries.len() as int;
        assert forall|a: int, b: int| 0 <= a < b < after.len() implies (#[trigger] after[a]).0 != (
        #[trigger] after[b]).0 by {
            if b == n {
                assert(entries[a].0 != key);
            } else {
                assert(entries[a].0 != entries[b].0);
            }
        }
        assert(is_first_index(after, key, n)) by {
            assert forall|j: int| 0 <= j < n implies (#[trigger] after[j]).0 != key by {
                assert(entries[j].0 != key);
            }
        }
        lemma_first_index(after, key, n);
        assert forall|other: K| other != key implies lookup(after, other) == lookup(entries, other) by {
            lemma_put_other(entries, key, value, other);
        }
    }
}

proof fn lemma_put_other<K, V>(entries: Seq<(K, V)>, key: K, value: V, other: K)
    requires
        other != key,
    ensures
        lookup(put(entries, key, value), other) == lookup(entries, other),
{
    let after = put(entries, key, value);
    if has_key(entries, key) {
        lemma_has_first_index(entries, key);
    }
    if has_key(entries, other) {
        lemma_has_first_index(entries, other);
        let i = first_index(entries, other);
        assert(after[i] == entries[i]);
        assert(is_first_index(after, other, i)) by {
            assert forall|j: int| 0 <= j < i implies (#[trigger] after[j]).0 != other by {
                assert(entries[j].0 != other);
            }
        }
        lemma_first_index(after, other, i);
    } else {
        if has_key(after, other) {
            let w = choose|i: int| 0 <= i < after.len() && (#[trigger] after[i]).0 == other;
            if w < entries.len() {
                assert(entries[w].0 == other);
            }
        }
    }
}

/// Pairs whose keys are distinct already are the table that they make.
pub proof fn lemma_collected_distinct<K, V>(pairs: Seq<(K, V)>)
    requires
        distinct_keys(pairs),
    ensures
        collected(pairs) == pairs,
    decreases pairs.len(),
{
    if pairs.len() > 0 {
        let front = pairs.drop_last();
        assert(distinct_keys(front)) by {
            assert forall|i: int, j: int| 0 <= i < j < front.len() implies (#[trigger] front[i]).0 != (
            #[trigger] front[j]).0 by {
                assert(pairs[i].0 != pairs[j].0);
            }
        }
        lemma_collected_distinct(front);
        let key = pairs.last().0;
        if has_key(front, key) {
            let w = choose|i: int| 0 <= i < front.len() && (#[trigger] front[i]).0 == key;
            assert(pairs[w].0 != pairs[pairs.len() - 1].0);
        }
        assert(front.push(pairs.last()) =~= pairs);
    } else {
        assert(collected(pairs) =~= pairs);
    }
}

/// A table that was put together holds no key twice.
pub proof fn lemma_collected_keys<K, V>(pairs: Seq<(K, V)>)
    ensures
        distinct_keys(collected(pairs)),
    decreases pairs.len(),
{
    if pairs.len() > 0 {
        lemma_collected_keys(pairs.drop_last());
        lemma_put(collected(pairs.drop_last()), pairs.last().0, pairs.last().1);
    }
}

/// The place of the first entry whose key has the text of `key`. Whatever
/// the values are, only the keys are read.
pub fn position_of<V>(entries: &Vec<(String, V)>, key: &String) -> (r: Option<usize>)
    ensures
        match r {
            Some(i) => {
                &&& i < entries.len()
                &&& entries[i as int].0@ == key@
                &&& forall|j: int| 0 <= j < i ==> (#[trigger] entries[j]).0@ != key@
            },
            None => forall|j: int| 0 <= j < entries.len() ==> (#[trigger] entries[j]).0@ != key@,
        },
{
    let mut i: usize = 0;
    while i < entries.len()
        invariant
            i <= entries.len(),
            forall|j: int| 0 <= j < i ==> (#[trigger] entries[j]).0@ != key@,
        decreases entries.len() - i,
    {
        if entries[i].0 == *key {
            return Some(i);
        }
        i += 1;
    }
    None
}

} // verus!
