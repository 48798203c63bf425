//! Looking a key up in a list of keys: the first place it stands at and how
//! often it occurs.

use vstd::prelude::*;

verus! {

/// The first index at which `key` stands in `keys`, if it stands there at all.
pub open spec fn first_index(keys: Seq<Seq<char>>, key: Seq<char>) -> Option<int>
    decreases keys.len(),
{
    if keys.len() == 0 {
        None
    } else {
        match first_index(keys.drop_last(), key) {
            Some(i) => Some(i),
            None => if keys.last() == key {
                Some(keys.len() - 1)
            } else {
                None
            },
        }
    }
}

/// How often `key` stands in `keys`.
pub open spec fn count_key(keys: Seq<Seq<char>>, key: Seq<char>) -> nat
    decreases keys.len(),
{
    if keys.len() == 0 {
        0
    } else {
        count_key(keys.drop_last(), key) + if keys.last() == key {
            1nat
        } else {
            0nat
        }
    }
}

/// No key stands twice in `keys`.
pub open spec fn distinct(keys: Seq<Seq<char>>) -> bool {
    forall|i: int, j: int| 0 <= i < j < keys.len() ==> keys[i] != keys[j]
}

/// `first_index` finds the smallest index that holds the key, and finds none
/// only where no index holds it.
pub proof fn lemma_first_index(keys: Seq<Seq<char>>, key: Seq<char>)
    ensures
        match first_index(keys, key) {
            Some(i) => 0 <= i < keys.len() && keys[i] == key && forall|j: int|
                0 <= j < i ==> keys[j] != key,
            None => forall|j: int| 0 <= j < keys.len() ==> keys[j] != key,
        },
    decreases keys.len(),
{
    if keys.len() > 0 {
        let front = keys.drop_last();
        lemma_first_index(front, key);
        assert forall|j: int| 0 <= j < front.len() implies front[j] == keys[j] by {}
        match first_index(front, key) {
            Some(i) => {
                assert(keys[i] == front[i]);
            },
            None => {
                assert forall|j: int| 0 <= j < keys.len() - 1 implies keys[j] != key by {
                    assert(front[j] != key);
                }
            },
        }
    }
}

/// The smallest index that holds the key is what `first_index` finds.
pub proof fn lemma_first_index_is(keys: Seq<Seq<char>>, key: Seq<char>, i: int)
    requires
        0 <= i < keys.len(),
        keys[i] == key,
        forall|j: int| 0 <= j < i ==> keys[j] != key,
    ensures
        first_index(keys, key) == Some(i),
{
    lemma_first_index(keys, key);
}

/// Where no index holds the key, `first_index` finds none.
pub proof fn lemma_first_index_none(keys: Seq<Seq<char>>, key: Seq<char>)
    requires
        forall|j: int| 0 <= j < keys.len() ==> keys[j] != key,
    ensures
        first_index(keys, key) is None,
{
    lemma_first_index(keys, key);
}

/// A key is counted at most as often as there are keys, and not at all where
/// no index holds it.
pub proof fn lemma_count_bounds(keys: Seq<Seq<char>>, key: Seq<char>)
    ensures
        count_key(keys, key) <= keys.len(),
        (forall|j: int| 0 <= j < keys.len() ==> keys[j] != key) ==> count_key(keys, key) == 0,
        count_key(keys, key) > 0 ==> first_index(keys, key) is Some,
    decreases keys.len(),
{
    if keys.len() > 0 {
        let front = keys.drop_last();
        lemma_count_bounds(front, key);
        lemma_first_index(front, key);
        assert forall|j: int| 0 <= j < front.len() implies front[j] == keys[j] by {}
    }
}

/// Appending a key raises its own count by one and leaves every other count.
pub proof fn lemma_count_push(keys: Seq<Seq<char>>, added: Seq<char>, key: Seq<char>)
    ensures
        count_key(keys.push(added), key) == count_key(keys, key) + if added == key {
            1nat
        } else {
            0nat
        },
{
    assert(keys.push(added).drop_last() =~= keys);
}

/// Taking the key at `i` out lowers its own count by one and leaves every other count.
pub proof fn lemma_count_remove(keys: Seq<Seq<char>>, i: int, key: Seq<char>)
    requires
        0 <= i < keys.len(),
    ensures
        count_key(keys.remove(i), key) + (if keys[i] == key {
            1nat
        } else {
            0nat
        }) == count_key(keys, key),
    decreases keys.len(),
{
    if i == keys.len() - 1 {
        assert(keys.remove(i) =~= keys.drop_last());
    } else {
        lemma_count_remove(keys.drop_last(), i, key);
        assert(keys.remove(i).drop_last() =~= keys.drop_last().remove(i));
        assert(keys.remove(i).last() == keys.last());
    }
}

/// Counting over a prefix that grows by one key.
pub proof fn lemma_count_take(keys: Seq<Seq<char>>, i: int, key: Seq<char>)
    requires
        0 <= i < keys.len(),
    ensures
        count_key(keys.take(i + 1), key) == count_key(keys.take(i), key) + if keys[i] == key {
            1nat
        } else {
            0nat
        },
{
    assert(keys.take(i + 1).drop_last() =~= keys.take(i));
}

} // verus!
