use vstd::prelude::*;

verus! {

/// Value stored under `key` in a keyed list, going by the first matching entry.
pub open spec fn assoc_find<V>(entries: Seq<(String, V)>, key: Seq<char>) -> Option<V>
    decreases entries.len(),
{
    if entries.len() == 0 {
        None
    } else if entries[0].0@ == key {
        Some(entries[0].1)
    } else {
        assoc_find(entries.drop_first(), key)
    }
}

/// No two entries of the list share a key.
pub open spec fn unique_keys<V>(entries: Seq<(String, V)>) -> bool {
    forall|i: int, j: int|
        0 <= i < j < entries.len() ==> (#[trigger] entries[i]).0@ != (#[trigger] entries[j]).0@
}

/// `assoc_find` looks no further than the first index whose key matches.
pub proof fn lemma_assoc_find_at<V>(entries: Seq<(String, V)>, key: Seq<char>, i: int)
    requires
        0 <= i < entries.len(),
        entries[i].0@ == key,
        forall|j: int| 0 <= j < i ==> (#[trigger] entries[j]).0@ != key,
    ensures
        assoc_find(entries, key) == Some(entries[i].1),
    decreases entries.len(),
{
    if i > 0 {
        lemma_assoc_find_at(entries.drop_first(), key, i - 1);
    }
}

/// When no entry holds the key, `assoc_find` comes back empty.
pub proof fn lemma_assoc_find_absent<V>(entries: Seq<(String, V)>, key: Seq<char>)
    requires
        forall|j: int| 0 <= j < entries.len() ==> (#[trigger] entries[j]).0@ != key,
    ensures
        assoc_find(entries, key) is None,
    decreases entries.len(),
{
    if entries.len() > 0 {
        lemma_assoc_find_absent(entries.drop_first(), key);
    }
}

/// Replacing the entry at a first-match index updates that key and no other.
pub proof fn lemma_assoc_update<V>(
    entries: Seq<(String, V)>,
    i: int,
    e: (String, V),
    key: Seq<char>,
)
    requires
        0 <= i < entries.len(),
        entries[i].0@ == key,
        e.0@ == key,
        forall|j: int| 0 <= j < i ==> (#[trigger] entries[j]).0@ != key,
    ensures
        assoc_find(entries.update(i, e), key) == Some(e.1),
        forall|k: Seq<char>|
            k != key ==> #[trigger] assoc_find(entries.update(i, e), k) == assoc_find(entries, k),
    decreases entries.len(),
{
    let updated = entries.update(i, e);
    if i == 0 {
        assert(updated[0] == e);
        assert forall|k: Seq<char>| k != key implies #[trigger] assoc_find(updated, k)
            == assoc_find(entries, k) by {
            assert(updated.drop_first() =~= entries.drop_first());
            assert(assoc_find(updated, k) == assoc_find(updated.drop_first(), k));
            assert(assoc_find(entries, k) == assoc_find(entries.drop_first(), k));
        }
    } else {
        lemma_assoc_update(entries.drop_first(), i - 1, e, key);
        assert(updated.drop_first() =~= entries.drop_first().update(i - 1, e));
        assert(updated[0] == entries[0]);
        assert forall|k: Seq<char>| k != key implies #[trigger] assoc_find(updated, k)
            == assoc_find(entries, k) by {
            if entries[0].0@ == k {
                assert(assoc_find(updated, k) == Some(updated[0].1));
                assert(assoc_find(entries, k) == Some(entries[0].1));
            } else {
                assert(assoc_find(updated, k) == assoc_find(updated.drop_first(), k));
                assert(assoc_find(entries, k) == assoc_find(entries.drop_first(), k));
            }
        }
    }
}

/// Appending an entry for an absent key adds that key and leaves the rest alone.
pub proof fn lemma_assoc_push<V>(entries: Seq<(String, V)>, e: (String, V), key: Seq<char>)
    requires
        e.0@ == key,
        forall|j: int| 0 <= j < entries.len() ==> (#[trigger] entries[j]).0@ != key,
    ensures
        assoc_find(entries.push(e), key) == Some(e.1),
        forall|k: Seq<char>|
            k != key ==> #[trigger] assoc_find(entries.push(e), k) == assoc_find(entries, k),
    decreases entries.len(),
{
    let pushed = entries.push(e);
    if entries.len() == 0 {
        assert(pushed[0] == e);
        assert forall|k: Seq<char>| k != key implies #[trigger] assoc_find(pushed, k)
            == assoc_find(entries, k) by {
            assert(pushed.drop_first() =~= Seq::<(String, V)>::empty());
            assert(assoc_find(pushed, k) == assoc_find(pushed.drop_first(), k));
        }
    } else {
        lemma_assoc_push(entries.drop_first(), e, key);
        assert(pushed[0] == entries[0]);
        assert(pushed.drop_first() =~= entries.drop_first().push(e));
        assert forall|k: Seq<char>| k != key implies #[trigger] assoc_find(pushed, k)
            == assoc_find(entries, k) by {
            if entries[0].0@ == k {
                assert(assoc_find(pushed, k) == Some(pushed[0].1));
                assert(assoc_find(entries, k) == Some(entries[0].1));
            } else {
                assert(assoc_find(pushed, k) == assoc_find(pushed.drop_first(), k));
                assert(assoc_find(entries, k) == assoc_find(entries.drop_first(), k));
            }
        }
    }
}

/// Removing the entry at a first-match index drops that key and no other.
pub proof fn lemma_assoc_remove<V>(entries: Seq<(String, V)>, i: int, key: Seq<char>)
    requires
        0 <= i < entries.len(),
        entries[i].0@ == key,
        unique_keys(entries),
    ensures
        assoc_find(entries.remove(i), key) is None,
        forall|k: Seq<char>|
            k != key ==> #[trigger] assoc_find(entries.remove(i), k) == assoc_find(entries, k),
        unique_keys(entries.remove(i)),
    decreases entries.len(),
{
    let removed = entries.remove(i);
    assert forall|a: int, b: int| 0 <= a < b < removed.len() implies (#[trigger] removed[a]).0@ != (
    #[trigger] removed[b]).0@ by {
        if b < i {
            assert(removed[a] == entries[a] && removed[b] == entries[b]);
        } else if a < i {
            assert(removed[a] == entries[a] && removed[b] == entries[b + 1]);
        } else {
            assert(removed[a] == entries[a + 1] && removed[b] == entries[b + 1]);
        }
    }
    if i == 0 {
        assert(removed =~= entries.drop_first());
        assert forall|j: int| 0 <= j < removed.len() implies (#[trigger] removed[j]).0@ != key by {
            assert(removed[j] == entries[j + 1]);
        }
        lemma_assoc_find_absent(removed, key);
        assert forall|k: Seq<char>| k != key implies #[trigger] assoc_find(removed, k)
            == assoc_find(entries, k) by {
            assert(assoc_find(entries, k) == assoc_find(entries.drop_first(), k));
        }
    } else {
        lemma_assoc_remove(entries.drop_first(), i - 1, key);
        assert(removed[0] == entries[0]);
        assert(removed.drop_first() =~= entries.drop_first().remove(i - 1));
        assert(entries[0].0@ != key);
        assert forall|k: Seq<char>| k != key implies #[trigger] assoc_find(removed, k)
            == assoc_find(entries, k) by {
            if entries[0].0@ == k {
                assert(assoc_find(removed, k) == Some(removed[0].1));
                assert(assoc_find(entries, k) == Some(entries[0].1));
            } else {
                assert(assoc_find(removed, k) == assoc_find(removed.drop_first(), k));
                assert(assoc_find(entries, k) == assoc_find(entries.drop_first(), k));
            }
        }
        assert(assoc_find(removed, key) == assoc_find(removed.drop_first(), key));
    }
}

/// Index of the first entry whose key equals `key`, if any.
pub fn assoc_index_of<V>(entries: &Vec<(String, V)>, key: &String) -> (r: Option<usize>)
    ensures
        r matches Some(i) ==> {
            &&& i < entries@.len()
            &&& entries@[i as int].0@ == key@
            &&& forall|j: int| 0 <= j < i ==> (#[trigger] entries@[j]).0@ != key@
            &&& assoc_find(entries@, key@) == Some(entries@[i as int].1)
        },
        r is None ==> assoc_find(entries@, key@) is None && (forall|j: int|
            0 <= j < entries@.len() ==> (#[trigger] entries@[j]).0@ != key@),
{
    let n = entries.len();
    let mut i: usize = 0;
    while i < n
        invariant
            n == entries@.len(),
            0 <= i <= n,
            forall|j: int| 0 <= j < i ==> (#[trigger] entries@[j]).0@ != key@,
        decreases n - i,
    {
        if entries[i].0 == *key {
            proof {
                lemma_assoc_find_at(entries@, key@, i as int);
            }
            return Some(i);
        }
        i = i + 1;
    }
    proof {
        lemma_assoc_find_absent(entries@, key@);
    }
    None
}

} // verus!
