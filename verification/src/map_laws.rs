//! What the calls on keys and maps come to.

use crate::key::CacheKey;
use crate::key_map::{ids, KeyMap};
use vstd::prelude::*;

verus! {

/// Two strings name the same entry exactly if they hold the same characters.
pub proof fn law_strings_are_told_apart_by_all_characters(a: String, b: String)
    ensures
        a.id() == b.id() <==> a@ == b@,
{
}

/// The comparison of two strings as keys is that of their characters, and a duplicate has the same
/// characters.
pub proof fn law_string_calls(a: String, b: String, same: bool, twin: String)
    requires
        call_ensures(<String as CacheKey>::same, (&a, &b), same),
        call_ensures(<String as CacheKey>::duplicate, (&a,), twin),
    ensures
        same <==> a@ == b@,
        twin@ == a@,
{
}

/// Two integers of one type name the same entry exactly if they are equal.
pub proof fn law_integers_are_told_apart_by_value(
    a: (u32, u64, usize, i64),
    b: (u32, u64, usize, i64),
)
    ensures
        a.0.id() == b.0.id() <==> a.0 == b.0,
        a.1.id() == b.1.id() <==> a.1 == b.1,
        a.2.id() == b.2.id() <==> a.2 == b.2,
        a.3.id() == b.3.id() <==> a.3 == b.3,
{
}

/// Two pairs name the same entry exactly if both their parts do.
pub proof fn law_pairs_are_told_apart_by_both_parts<A: CacheKey, B: CacheKey>(
    a: (A, B),
    b: (A, B),
    same: bool,
)
    requires
        call_ensures(<(A, B) as CacheKey>::same, (&a, &b), same),
    ensures
        a.id() == b.id() <==> a.0.id() == b.0.id() && a.1.id() == b.1.id(),
        same <==> a.0.id() == b.0.id() && a.1.id() == b.1.id(),
{
}

/// Whether two keys are the same is told by their identity, the digest follows from it, and a
/// duplicate keeps it.
pub proof fn law_identity_decides<K: CacheKey>(
    a: K,
    b: K,
    same: bool,
    digest_a: u64,
    digest_b: u64,
    twin: K,
)
    requires
        call_ensures(K::same, (&a, &b), same),
        call_ensures(K::digest, (&a,), digest_a),
        call_ensures(K::digest, (&b,), digest_b),
        call_ensures(K::duplicate, (&a,), twin),
    ensures
        same <==> a.id() == b.id(),
        same ==> digest_a == digest_b,
        twin.id() == a.id(),
{
}

/// The identities of a list of keys are those of its keys, in order.
pub proof fn law_ids_are_those_of_the_keys<K: CacheKey>(keys: Seq<K>, i: int)
    requires
        0 <= i < keys.len(),
    ensures
        ids(keys).len() == keys.len(),
        ids(keys)[i] == keys[i].id(),
{
}

/// A new map has no item under any key.
pub proof fn law_new_map_is_empty<K: CacheKey, T>(map: KeyMap<K, T>, key: K, got: Option<&T>)
    requires
        call_ensures(KeyMap::<K, T>::new, (), map),
        call_ensures(KeyMap::<K, T>::get, (&map, &key), got),
    ensures
        got is None,
{
}

/// What was put under a key is what is found under it; what is found under another key is what was
/// found there before.
pub proof fn law_inserted_item_is_found<K: CacheKey, T>(
    map: &mut KeyMap<K, T>,
    key: K,
    item: T,
    other: K,
    before: Option<&T>,
    after: Option<&T>,
)
    requires
        call_ensures(KeyMap::<K, T>::get, (&*map, &other), before),
        call_ensures(KeyMap::<K, T>::insert, (map, key, item), ()),
        call_ensures(KeyMap::<K, T>::get, (&*final(map), &other), after),
    ensures
        other.id() == key.id() ==> (after matches Some(found) && *found == item),
        other.id() != key.id() ==> (after is Some <==> before is Some),
        other.id() != key.id() && after is Some ==> *after->0 == *before->0,
{
}

/// Nothing is found under a key that was taken away; what is found under another key is what was
/// found there before.
pub proof fn law_removed_item_is_not_found<K: CacheKey, T>(
    map: &mut KeyMap<K, T>,
    key: K,
    other: K,
    before: Option<&T>,
    after: Option<&T>,
)
    requires
        call_ensures(KeyMap::<K, T>::get, (&*map, &other), before),
        call_ensures(KeyMap::<K, T>::remove, (map, &key), ()),
        call_ensures(KeyMap::<K, T>::get, (&*final(map), &other), after),
    ensures
        other.id() == key.id() ==> after is None,
        other.id() != key.id() ==> (after is Some <==> before is Some),
        other.id() != key.id() && after is Some ==> *after->0 == *before->0,
{
}

/// A key is contained exactly if an item is found under it, and then it is listed exactly once; the
/// list is as long as the map.
pub proof fn law_keys_are_those_with_items<K: CacheKey, T>(
    map: KeyMap<K, T>,
    key: K,
    got: Option<&T>,
    contained: bool,
    keys: Vec<K>,
    len: usize,
)
    requires
        call_ensures(KeyMap::<K, T>::get, (&map, &key), got),
        call_ensures(KeyMap::<K, T>::contains_key, (&map, &key), contained),
        call_ensures(KeyMap::<K, T>::keys, (&map,), keys),
        call_ensures(KeyMap::<K, T>::len, (&map,), len),
    ensures
        contained <==> got is Some,
        contained <==> exists|i: int| 0 <= i < keys@.len() && #[trigger] keys@[i].id() == key.id(),
        forall|i: int, j: int|
            0 <= i < j < keys@.len() ==> #[trigger] keys@[i].id() != #[trigger] keys@[j].id(),
        len == keys@.len(),
{
    let all = ids(keys@);
    if contained {
        assert(all.to_set().contains(key.id()));
        let i = choose|i: int| 0 <= i < all.len() && all[i] == key.id();
        assert(keys@[i].id() == key.id());
    }
    assert forall|i: int| 0 <= i < keys@.len() && #[trigger] keys@[i].id() == key.id() implies
        contained by {
        assert(all[i] == key.id());
        assert(all.to_set().contains(key.id()));
    }
    assert forall|i: int, j: int| 0 <= i < j < keys@.len() implies #[trigger] keys@[i].id()
        != #[trigger] keys@[j].id() by {
        assert(all[i] != all[j]);
    }
    all.unique_seq_to_set();
}

} // verus!
