//! A map from keys to items, hashed by the digests of the keys.

use crate::key::CacheKey;
use std::collections::HashMap;
use vstd::prelude::*;

verus! {

/// A map from keys to items. Keys of the same identity name the same item.
///
/// The items lie in buckets, one for each digest that occurs among the keys. The buckets are found
/// by an integer, so that a lookup is exact for every type of key whose digest is known to follow
/// from its identity.
#[verifier::reject_recursive_types(K)]
pub struct KeyMap<K: CacheKey, T> {
    buckets: HashMap<u64, Vec<(K, T)>>,
}

/// Whether a bucket has an item under a key of this identity.
spec fn listed<K: CacheKey, T>(bucket: Seq<(K, T)>, id: K::Id) -> bool {
    exists|i: int| 0 <= i < bucket.len() && (#[trigger] bucket[i]).0.id() == id
}

/// The place in a bucket of the item under a key of this identity.
spec fn place<K: CacheKey, T>(bucket: Seq<(K, T)>, id: K::Id) -> int {
    choose|i: int| 0 <= i < bucket.len() && (#[trigger] bucket[i]).0.id() == id
}

/// Every key in the bucket has the bucket's digest, and no identity occurs twice.
spec fn bucket_wf<K: CacheKey, T>(digest: u64, bucket: Seq<(K, T)>) -> bool {
    &&& forall|i: int|
        0 <= i < bucket.len() ==> K::digest_of((#[trigger] bucket[i]).0.id()) == digest
    &&& forall|i: int, j: int|
        0 <= i < j < bucket.len() ==> (#[trigger] bucket[i]).0.id() != (#[trigger] bucket[j]).0.id()
}

/// The place of an identity in a bucket is where its key lies.
proof fn lemma_place<K: CacheKey, T>(digest: u64, bucket: Seq<(K, T)>, i: int)
    requires
        bucket_wf(digest, bucket),
        0 <= i < bucket.len(),
    ensures
        listed(bucket, bucket[i].0.id()),
        place(bucket, bucket[i].0.id()) == i,
{
}

/// The identities of a list of keys.
pub open spec fn ids<K: CacheKey>(keys: Seq<K>) -> Seq<K::Id> {
    keys.map_values(|key: K| key.id())
}

impl<K: CacheKey, T> View for KeyMap<K, T> {
    type V = Map<K::Id, T>;

    closed spec fn view(&self) -> Map<K::Id, T> {
        Map::new(
            |id: K::Id| self.holds(id),
            |id: K::Id| {
                let bucket = self.buckets@[K::digest_of(id)]@;
                bucket[place(bucket, id)].1
            },
        )
    }
}

impl<K: CacheKey, T> KeyMap<K, T> {
    spec fn holds(self, id: K::Id) -> bool {
        &&& self.buckets@.contains_key(K::digest_of(id))
        &&& listed(self.buckets@[K::digest_of(id)]@, id)
    }

    /// Every bucket holds keys of its own digest only, each identity at most once.
    pub closed spec fn wf(self) -> bool {
        forall|digest: u64| #[trigger]
            self.buckets@.contains_key(digest) ==> bucket_wf(digest, self.buckets@[digest]@)
    }

    /// A list of the identities whose digests were seen grows by the bucket of another digest.
    proof fn lemma_keys_grow(
        &self,
        before: Seq<K>,
        after: Seq<K>,
        seen: Seq<&u64>,
        digest: u64,
    )
        requires
            self.wf(),
            self.buckets@.contains_key(digest),
            !seen.contains(&digest),
            ids(before).no_duplicates(),
            forall|id: K::Id| #[trigger]
                ids(before).contains(id) <==> self.holds(id) && seen.contains(&K::digest_of(id)),
            after.len() == before.len() + self.buckets@[digest]@.len(),
            forall|i: int| 0 <= i < before.len() ==> #[trigger] after[i] == before[i],
            forall|i: int|
                0 <= i < self.buckets@[digest]@.len() ==> after[before.len() + i].id() == (
                #[trigger] self.buckets@[digest]@[i]).0.id(),
        ensures
            ids(after).no_duplicates(),
            forall|id: K::Id| #[trigger]
                ids(after).contains(id) <==> self.holds(id) && seen.push(&digest).contains(
                    &K::digest_of(id),
                ),
    {
        let n = before.len() as int;
        let bucket = self.buckets@[digest]@;
        assert forall|i: int| 0 <= i < n implies ids(after)[i] == ids(before)[i] && seen.contains(
            &K::digest_of(#[trigger] ids(after)[i]),
        ) && self.holds(ids(after)[i]) by {
            assert(ids(before).contains(ids(before)[i]));
        }
        assert forall|i: int| n <= i < after.len() implies ids(after)[i] == bucket[i - n].0.id()
            && K::digest_of(#[trigger] ids(after)[i]) == digest && self.holds(ids(after)[i]) by {
            assert(after[n + (i - n)].id() == bucket[i - n].0.id());
        }
        assert forall|i: int, j: int|
            0 <= i < after.len() && 0 <= j < after.len() && i != j implies #[trigger] ids(after)[i]
            != #[trigger] ids(after)[j] by {
            if i < n && j < n {
                assert(ids(before)[i] != ids(before)[j]);
            }
        }
        assert forall|id: K::Id| #[trigger] ids(after).contains(id) <==> self.holds(id)
            && seen.push(&digest).contains(&K::digest_of(id)) by {
            if ids(after).contains(id) {
                let i = choose|i: int| 0 <= i < after.len() && ids(after)[i] == id;
                if i < n {
                    let k = choose|k: int| 0 <= k < seen.len() && seen[k] == &K::digest_of(id);
                    assert(seen.push(&digest)[k] == &K::digest_of(id));
                } else {
                    assert(seen.push(&digest)[seen.len() as int] == &digest);
                }
            }
            if self.holds(id) && seen.push(&digest).contains(&K::digest_of(id)) {
                if K::digest_of(id) == digest {
                    let i = place(bucket, id);
                    assert(ids(after)[n + i] == id);
                } else {
                    let k = choose|k: int|
                        0 <= k < seen.push(&digest).len() && seen.push(&digest)[k]
                            == &K::digest_of(id);
                    assert(seen[k] == &K::digest_of(id));
                    assert(ids(before).contains(id));
                    let i = choose|i: int| 0 <= i < n && ids(before)[i] == id;
                    assert(ids(after)[i] == id);
                }
            }
        }
    }

    /// A map without items.
    pub fn new() -> (r: Self)
        ensures
            r.wf(),
            r@ == Map::<K::Id, T>::empty(),
    {
        KeyMap { buckets: HashMap::new() }
    }

    /// Where the bucket has the item under this key.
    fn find(bucket: &Vec<(K, T)>, key: &K) -> (r: Option<usize>)
        ensures
            match r {
                Some(i) => i < bucket@.len() && bucket@[i as int].0.id() == key.id(),
                None => !listed(bucket@, key.id()),
            },
    {
        let mut i: usize = 0;
        while i < bucket.len()
            invariant
                i <= bucket@.len(),
                forall|j: int| 0 <= j < i ==> (#[trigger] bucket@[j]).0.id() != key.id(),
            decreases bucket@.len() - i,
        {
            if bucket[i].0.same(key) {
                return Some(i);
            }
            i += 1;
        }
        None
    }

    /// The item under this key.
    pub fn get(&self, key: &K) -> (r: Option<&T>)
        requires
            self.wf(),
        ensures
            r is Some <==> self@.contains_key(key.id()),
            r matches Some(item) ==> *item == self@[key.id()],
    {
        let digest: u64 = key.digest();
        match self.buckets.get(&digest) {
            None => None,
            Some(bucket) => {
                match Self::find(bucket, key) {
                    None => None,
                    Some(i) => {
                        assert(listed(bucket@, key.id()));
                        assert(place(bucket@, key.id()) == i);
                        Some(&bucket[i].1)
                    },
                }
            },
        }
    }

    /// Whether there is an item under this key.
    pub fn contains_key(&self, key: &K) -> (r: bool)
        requires
            self.wf(),
        ensures
            r == self@.contains_key(key.id()),
    {
        self.get(key).is_some()
    }

    /// Puts an item under a key, in place of the one that was there.
    pub fn insert(&mut self, key: K, item: T)
        requires
            old(self).wf(),
        ensures
            final(self).wf(),
            final(self)@ == old(self)@.insert(key.id(), item),
    {
        let ghost id = key.id();
        let digest: u64 = key.digest();
        let mut bucket: Vec<(K, T)> = match self.buckets.remove(&digest) {
            Some(bucket) => bucket,
            None => Vec::new(),
        };
        let ghost before = bucket@;
        match Self::find(&bucket, &key) {
            Some(i) => {
                bucket.set(i, (key, item));
            },
            None => {
                bucket.push((key, item));
            },
        }
        let ghost after = bucket@;
        self.buckets.insert(digest, bucket);
        proof {
            assert(bucket_wf(digest, after));
            assert(self.wf());
            assert forall|other: K::Id| other != id implies listed(before, other) == listed(
                after,
                other,
            ) && (listed(before, other) ==> before[place(before, other)].1 == after[place(
                after,
                other,
            )].1) by {
                if listed(before, other) {
                    let i = place(before, other);
                    assert(after[i] == before[i]);
                    lemma_place(digest, after, i);
                }
                if listed(after, other) {
                    let i = place(after, other);
                    assert(after[i] == before[i]);
                }
            }
            assert(listed(after, id) && after[place(after, id)].1 == item) by {
                let i = if listed(before, id) { place(before, id) } else { before.len() as int };
                assert(after[i].0.id() == id);
                lemma_place(digest, after, i);
            }
            assert(self@ =~= old(self)@.insert(id, item));
        }
    }

    /// Takes away the item under this key, if there is one.
    pub fn remove(&mut self, key: &K)
        requires
            old(self).wf(),
        ensures
            final(self).wf(),
            final(self)@ == old(self)@.remove(key.id()),
    {
        let ghost id = key.id();
        let digest: u64 = key.digest();
        let mut bucket: Vec<(K, T)> = match self.buckets.remove(&digest) {
            Some(bucket) => bucket,
            None => Vec::new(),
        };
        let ghost before = bucket@;
        let found: Option<usize> = Self::find(&bucket, key);
        if let Some(i) = found {
            bucket.remove(i);
        }
        let ghost after = bucket@;
        // An empty bucket is not kept.
        if bucket.len() > 0 {
            self.buckets.insert(digest, bucket);
        }
        proof {
            assert(bucket_wf(digest, after));
            assert(self.wf());
            assert forall|other: K::Id| other != id implies listed(before, other) == listed(
                after,
                other,
            ) && (listed(before, other) ==> before[place(before, other)].1 == after[place(
                after,
                other,
            )].1) by {
                if listed(before, other) {
                    let i = place(before, other);
                    let j = if found is Some && found->0 < i { i - 1 } else { i };
                    assert(after[j] == before[i]);
                    lemma_place(digest, after, j);
                }
                if listed(after, other) {
                    let i = place(after, other);
                    let j = if found is Some && found->0 <= i { i + 1 } else { i };
                    assert(before[j] == after[i]);
                }
            }
            assert(!listed(after, id));
            assert(self@ =~= old(self)@.remove(id));
        }
    }

    /// Adds duplicates of the keys in a bucket to a list.
    fn append_keys(bucket: &Vec<(K, T)>, keys: &mut Vec<K>)
        ensures
            final(keys)@.len() == old(keys)@.len() + bucket@.len(),
            forall|i: int| 0 <= i < old(keys)@.len() ==> #[trigger] final(keys)@[i] == old(keys)@[i],
            forall|i: int|
                0 <= i < bucket@.len() ==> final(keys)@[old(keys)@.len() + i].id() == (
                #[trigger] bucket@[i]).0.id(),
    {
        let mut i: usize = 0;
        while i < bucket.len()
            invariant
                i <= bucket@.len(),
                keys@.len() == old(keys)@.len() + i,
                forall|j: int| 0 <= j < old(keys)@.len() ==> #[trigger] keys@[j] == old(keys)@[j],
                forall|j: int|
                    0 <= j < i ==> keys@[old(keys)@.len() + j].id() == (
                    #[trigger] bucket@[j]).0.id(),
            decreases bucket@.len() - i,
        {
            keys.push(bucket[i].0.duplicate());
            i += 1;
        }
    }

    /// A duplicate of every key that has an item, each identity once.
    pub fn keys(&self) -> (r: Vec<K>)
        requires
            self.wf(),
        ensures
            ids(r@).no_duplicates(),
            ids(r@).to_set() == self@.dom(),
    {
        let mut keys: Vec<K> = Vec::new();
        let ghost mut seen: Seq<&u64> = Seq::empty();
        for digest in it: self.buckets.keys()
            invariant
                self.wf(),
                it.seq().no_duplicates(),
                it.seq().unref().to_set() == self.buckets@.dom(),
                seen == it.seq().take(it.index()),
                it.index() == it.seq().len() ==> seen.unref().to_set() == self.buckets@.dom(),
                ids(keys@).no_duplicates(),
                forall|id: K::Id| #[trigger]
                    ids(keys@).contains(id) <==> self.holds(id) && seen.contains(
                        &K::digest_of(id),
                    ),
        {
            let ghost before = keys@;
            match self.buckets.get(digest) {
                Some(bucket) => {
                    Self::append_keys(bucket, &mut keys);
                    proof {
                        self.lemma_keys_grow(before, keys@, seen, *digest);
                    }
                },
                None => {
                    assert(it.seq().unref()[it.index()] == *digest);
                    assert(false);
                },
            }
            proof {
                seen = seen.push(digest);
            }
            assert(seen =~= it.seq().take(it.index() + 1));
            assert(it.index() + 1 == it.seq().len() ==> seen =~= it.seq());
        }
        proof {
            assert forall|id: K::Id| #[trigger] ids(keys@).contains(id) <==> self@.contains_key(
                id,
            ) by {
                if self@.contains_key(id) {
                    assert(seen.unref().to_set().contains(K::digest_of(id)));
                    let i = choose|i: int|
                        0 <= i < seen.len() && seen.unref()[i] == K::digest_of(id);
                    assert(seen[i] == &K::digest_of(id));
                }
            }
            assert(ids(keys@).to_set() =~= self@.dom());
        }
        keys
    }

    /// How many items there are.
    pub fn len(&self) -> (r: usize)
        requires
            self.wf(),
        ensures
            self@.dom().finite(),
            r == self@.len(),
    {
        let keys: Vec<K> = self.keys();
        proof {
            ids(keys@).unique_seq_to_set();
            vstd::seq_lib::seq_to_set_is_finite(ids(keys@));
        }
        keys.len()
    }
}

} // verus!
