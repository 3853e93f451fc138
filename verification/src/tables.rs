use vstd::prelude::*;

verus! {

/// A key that stands at `i`, and nowhere before, is first found at `i`.
pub proof fn lemma_found<K>(keys: Seq<K>, key: K, i: int)
    requires
        0 <= i < keys.len(),
        keys[i] == key,
        forall|j: int| 0 <= j < i ==> keys[j] != key,
    ensures
        keys.index_of_first(key) == Some(i),
{
    keys.index_of_first_ensures(key);
}

/// A key that stands nowhere is not found.
pub proof fn lemma_missing<K>(keys: Seq<K>, key: K)
    requires
        forall|j: int| 0 <= j < keys.len() ==> keys[j] != key,
    ensures
        keys.index_of_first(key) is None,
{
    keys.index_of_first_ensures(key);
}

/// Among keys without duplicates, a key is found where it stands.
pub proof fn lemma_found_unique<K>(keys: Seq<K>, i: int)
    requires
        0 <= i < keys.len(),
        keys.no_duplicates(),
    ensures
        keys.index_of_first(keys[i]) == Some(i),
{
    keys.index_of_first_ensures(keys[i]);
}

/// Keys without duplicates stay so when one is taken out, and the one taken
/// out is then not found.
pub proof fn lemma_remove_unique<K>(keys: Seq<K>, i: int)
    requires
        0 <= i < keys.len(),
        keys.no_duplicates(),
    ensures
        keys.remove(i).no_duplicates(),
        keys.remove(i).index_of_first(keys[i]) is None,
        forall|key: K|
            key != keys[i] ==> (#[trigger] keys.remove(i).index_of_first(key) is Some
                <==> keys.index_of_first(key) is Some),
{
    let rest = keys.remove(i);
    assert forall|a: int, b: int| 0 <= a < rest.len() && 0 <= b < rest.len() && a != b implies rest[a]
        != rest[b] by {
        let a2 = if a < i { a } else { a + 1 };
        let b2 = if b < i { b } else { b + 1 };
        assert(rest[a] == keys[a2]);
        assert(rest[b] == keys[b2]);
    }
    assert forall|j: int| 0 <= j < rest.len() implies rest[j] != keys[i] by {
        let j2 = if j < i { j } else { j + 1 };
        assert(rest[j] == keys[j2]);
    }
    lemma_missing(rest, keys[i]);
    assert forall|key: K| key != keys[i] implies (#[trigger] rest.index_of_first(key) is Some
        <==> keys.index_of_first(key) is Some) by {
        rest.index_of_first_ensures(key);
        keys.index_of_first_ensures(key);
        if rest.index_of_first(key) is Some {
            let j = rest.index_of_first(key)->Some_0;
            let j2 = if j < i { j } else { j + 1 };
            assert(keys[j2] == key);
        }
        if keys.index_of_first(key) is Some {
            let j = keys.index_of_first(key)->Some_0;
            let j2 = if j < i { j } else { j - 1 };
            assert(rest[j2] == key);
        }
    }
}

/// Keys without duplicates stay so when a key that is not among them joins.
pub proof fn lemma_push_unique<K>(keys: Seq<K>, key: K)
    requires
        keys.no_duplicates(),
        keys.index_of_first(key) is None,
    ensures
        keys.push(key).no_duplicates(),
        keys.push(key).index_of_first(key) == Some(keys.len() as int),
{
    keys.index_of_first_ensures(key);
    let all = keys.push(key);
    assert forall|a: int, b: int| 0 <= a < all.len() && 0 <= b < all.len() && a != b implies all[a]
        != all[b] by {
        if a < keys.len() {
            assert(keys.contains(keys[a]));
        }
        if b < keys.len() {
            assert(keys.contains(keys[b]));
        }
    }
    assert forall|j: int| 0 <= j < keys.len() implies all[j] != key by {
        assert(keys.contains(keys[j]));
    }
    lemma_found(all, key, keys.len() as int);
}

} // verus!
