//! Association lists with unique keys, and exact lemmas about looking a
//! key up after an entry is appended or removed.  The tracker's maps and
//! the supervisor's handle table are built on these.

use vstd::prelude::*;

verus! {

/// No key occurs twice in an association list.
pub open spec fn keys_unique<K, V>(entries: Seq<(K, V)>) -> bool {
    forall|i: int, j: int|
        0 <= i < j < entries.len() ==> (#[trigger] entries[i]).0 != (#[trigger] entries[j]).0
}

/// The value stored under `key`, if any (first match).
pub open spec fn spec_lookup<K, V>(entries: Seq<(K, V)>, key: K) -> Option<V>
    decreases entries.len(),
{
    if entries.len() == 0 {
        None
    } else if entries[0].0 == key {
        Some(entries[0].1)
    } else {
        spec_lookup(entries.subrange(1, entries.len() as int), key)
    }
}

pub proof fn lemma_lookup_some_index<K, V>(entries: Seq<(K, V)>, key: K)
    requires
        spec_lookup(entries, key) is Some,
    ensures
        exists|i: int|
            0 <= i < entries.len() && (#[trigger] entries[i]).0 == key && entries[i].1
                == spec_lookup(entries, key)->Some_0,
    decreases entries.len(),
{
    if entries.len() > 0 && entries[0].0 != key {
        lemma_lookup_some_index(entries.subrange(1, entries.len() as int), key);
        let sub = entries.subrange(1, entries.len() as int);
        let i = choose|i: int|
            0 <= i < sub.len() && (#[trigger] sub[i]).0 == key && sub[i].1 == spec_lookup(
                sub,
                key,
            )->Some_0;
        assert(entries[i + 1] == sub[i]);
    }
}

pub proof fn lemma_lookup_none<K, V>(entries: Seq<(K, V)>, key: K)
    requires
        spec_lookup(entries, key) is None,
    ensures
        forall|i: int| 0 <= i < entries.len() ==> (#[trigger] entries[i]).0 != key,
    decreases entries.len(),
{
    if entries.len() > 0 {
        lemma_lookup_none(entries.subrange(1, entries.len() as int), key);
        let sub = entries.subrange(1, entries.len() as int);
        assert(forall|i: int| 1 <= i < entries.len() ==> entries[i] == sub[i - 1]);
    }
}

pub proof fn lemma_lookup_at_index<K, V>(entries: Seq<(K, V)>, key: K, i: int)
    requires
        keys_unique(entries),
        0 <= i < entries.len(),
        entries[i].0 == key,
    ensures
        spec_lookup(entries, key) == Some(entries[i].1),
    decreases entries.len(),
{
    if i > 0 {
        let sub = entries.subrange(1, entries.len() as int);
        assert(sub[i - 1] == entries[i]);
        lemma_lookup_at_index(sub, key, i - 1);
    }
}

/// Appending a fresh key leaves every other lookup unchanged.
pub proof fn lemma_lookup_push<K, V>(entries: Seq<(K, V)>, key: K, value: V)
    ensures
        forall|k: K| k != key ==> #[trigger] spec_lookup(entries.push((key, value)), k)
            == spec_lookup(entries, k),
        spec_lookup(entries, key) is None ==> spec_lookup(entries.push((key, value)), key)
            == Some(value),
    decreases entries.len(),
{
    let pushed = entries.push((key, value));
    if entries.len() == 0 {
        assert(pushed[0] == (key, value));
        assert(pushed.subrange(1, 1) =~= Seq::<(K, V)>::empty());
        assert forall|k: K| k != key implies #[trigger] spec_lookup(pushed, k) == spec_lookup(
            entries,
            k,
        ) by {
            assert(spec_lookup(pushed, k) == spec_lookup(pushed.subrange(1, 1), k));
            assert(spec_lookup(pushed.subrange(1, 1), k) is None);
        }
    } else {
        let sub = entries.subrange(1, entries.len() as int);
        lemma_lookup_push(sub, key, value);
        assert(pushed.subrange(1, pushed.len() as int) =~= sub.push((key, value)));
        assert(pushed[0] == entries[0]);
        assert forall|k: K| k != key implies #[trigger] spec_lookup(pushed, k) == spec_lookup(
            entries,
            k,
        ) by {
            if pushed[0].0 != k {
                assert(spec_lookup(pushed, k) == spec_lookup(sub.push((key, value)), k));
                assert(spec_lookup(entries, k) == spec_lookup(sub, k));
            }
        }
        if spec_lookup(entries, key) is None {
            assert(entries[0].0 != key);
            assert(spec_lookup(sub, key) is None);
            assert(spec_lookup(pushed, key) == spec_lookup(sub.push((key, value)), key));
        }
    }
}

/// Removing index `i` leaves the lookup of every key but `entries[i].0` unchanged,
/// and removes that one, when the keys are unique.
pub proof fn lemma_lookup_remove<K, V>(entries: Seq<(K, V)>, i: int)
    requires
        keys_unique(entries),
        0 <= i < entries.len(),
    ensures
        keys_unique(entries.remove(i)),
        spec_lookup(entries.remove(i), entries[i].0) is None,
        forall|k: K| k != entries[i].0 ==> #[trigger] spec_lookup(entries.remove(i), k)
            == spec_lookup(entries, k),
    decreases entries.len(),
{
    let removed = entries.remove(i);
    assert(forall|j: int| 0 <= j < i ==> removed[j] == entries[j]);
    assert(forall|j: int| i <= j < removed.len() ==> removed[j] == entries[j + 1]);
    assert(keys_unique(removed)) by {
        assert forall|a: int, b: int| 0 <= a < b < removed.len() implies (#[trigger] removed[a]).0
            != (#[trigger] removed[b]).0 by {
            let a0 = if a < i { a } else { a + 1 };
            let b0 = if b < i { b } else { b + 1 };
            assert(removed[a] == entries[a0]);
            assert(removed[b] == entries[b0]);
        }
    }
    if i == 0 {
        assert(removed =~= entries.subrange(1, entries.len() as int));
        lemma_lookup_none_of_unique(entries.subrange(1, entries.len() as int), entries[0].0);
    } else {
        let sub = entries.subrange(1, entries.len() as int);
        assert(keys_unique(sub)) by {
            assert forall|a: int, b: int| 0 <= a < b < sub.len() implies (#[trigger] sub[a]).0 != (
            #[trigger] sub[b]).0 by {
                assert(sub[a] == entries[a + 1]);
                assert(sub[b] == entries[b + 1]);
            }
        }
        assert(sub[i - 1] == entries[i]);
        lemma_lookup_remove(sub, i - 1);
        assert(removed[0] == entries[0]);
        assert(removed.subrange(1, removed.len() as int) =~= sub.remove(i - 1));
        assert forall|k: K| k != entries[i].0 implies #[trigger] spec_lookup(removed, k)
            == spec_lookup(entries, k) by {
            if removed[0].0 != k {
                assert(spec_lookup(removed, k) == spec_lookup(sub.remove(i - 1), k));
                assert(spec_lookup(entries, k) == spec_lookup(sub, k));
            }
        }
        assert(spec_lookup(removed, entries[i].0) is None) by {
            assert(removed[0].0 == entries[0].0);
            assert(entries[0].0 != entries[i].0);
            assert(spec_lookup(removed, entries[i].0) == spec_lookup(
                sub.remove(i - 1),
                entries[i].0,
            ));
        }
    }
}

pub proof fn lemma_lookup_none_of_unique<K, V>(entries: Seq<(K, V)>, key: K)
    requires
        forall|i: int| 0 <= i < entries.len() ==> (#[trigger] entries[i]).0 != key,
    ensures
        spec_lookup(entries, key) is None,
    decreases entries.len(),
{
    if entries.len() > 0 {
        let sub = entries.subrange(1, entries.len() as int);
        assert(forall|i: int| 0 <= i < sub.len() ==> (#[trigger] sub[i]).0 != key);
        lemma_lookup_none_of_unique(sub, key);
    }
}

/// A key not present in the list can be appended without breaking uniqueness.
pub proof fn lemma_unique_push<K, V>(entries: Seq<(K, V)>, key: K, value: V)
    requires
        keys_unique(entries),
        forall|i: int| 0 <= i < entries.len() ==> (#[trigger] entries[i]).0 != key,
    ensures
        keys_unique(entries.push((key, value))),
{
    let pushed = entries.push((key, value));
    assert forall|a: int, b: int| 0 <= a < b < pushed.len() implies (#[trigger] pushed[a]).0 != (
    #[trigger] pushed[b]).0 by {
        if b < entries.len() {
            assert(pushed[a] == entries[a]);
            assert(pushed[b] == entries[b]);
        } else {
            assert(pushed[a] == entries[a]);
            assert(pushed[b] == (key, value));
        }
    }
}

} // verus!
