//! What a type must offer to name the entries of a cache.

use std::collections::hash_map::DefaultHasher;
use std::hash::Hasher;
use vstd::prelude::*;
use vstd::std_specs::hash::DefaultHasherAdditionalSpecFns;

verus! {

/// A key of the cache: a value that can be told apart from others, digested and duplicated.
///
/// Two keys name the same entry exactly if they have the same identity.
pub trait CacheKey: Sized {
    /// What a key stands for.
    type Id;

    /// The identity of the key.
    spec fn id(&self) -> Self::Id;

    /// The digest that goes with an identity.
    spec fn digest_of(id: Self::Id) -> u64;

    /// Whether both keys have the same identity.
    fn same(&self, other: &Self) -> (r: bool)
        ensures
            r == (self.id() == other.id()),
    ;

    /// The digest of the key. Keys of the same identity have the same digest.
    fn digest(&self) -> (r: u64)
        ensures
            r == Self::digest_of(self.id()),
    ;

    /// Another key of the same identity.
    fn duplicate(&self) -> (r: Self)
        ensures
            r.id() == self.id(),
    ;
}

impl CacheKey for String {
    type Id = Seq<char>;

    open spec fn id(&self) -> Seq<char> {
        self@
    }

    open spec fn digest_of(id: Seq<char>) -> u64 {
        DefaultHasher::spec_finish(seq![vstd::utf8::encode_utf8(id)])
    }

    fn same(&self, other: &Self) -> (r: bool) {
        *self == *other
    }

    fn digest(&self) -> (r: u64) {
        let mut hasher = DefaultHasher::new();
        hasher.write(self.as_str().as_bytes());
        proof {
            assert(hasher@ =~= seq![vstd::utf8::encode_utf8(self@)]);
        }
        hasher.finish()
    }

    fn duplicate(&self) -> (r: Self) {
        self.clone()
    }
}

impl CacheKey for u64 {
    type Id = u64;

    open spec fn id(&self) -> u64 {
        *self
    }

    open spec fn digest_of(id: u64) -> u64 {
        id
    }

    fn same(&self, other: &Self) -> (r: bool) {
        *self == *other
    }

    fn digest(&self) -> (r: u64) {
        *self
    }

    fn duplicate(&self) -> (r: Self) {
        *self
    }
}

impl CacheKey for u32 {
    type Id = u32;

    open spec fn id(&self) -> u32 {
        *self
    }

    open spec fn digest_of(id: u32) -> u64 {
        id as u64
    }

    fn same(&self, other: &Self) -> (r: bool) {
        *self == *other
    }

    fn digest(&self) -> (r: u64) {
        *self as u64
    }

    fn duplicate(&self) -> (r: Self) {
        *self
    }
}

impl CacheKey for usize {
    type Id = usize;

    open spec fn id(&self) -> usize {
        *self
    }

    open spec fn digest_of(id: usize) -> u64 {
        id as u64
    }

    fn same(&self, other: &Self) -> (r: bool) {
        *self == *other
    }

    fn digest(&self) -> (r: u64) {
        *self as u64
    }

    fn duplicate(&self) -> (r: Self) {
        *self
    }
}

impl CacheKey for i64 {
    type Id = i64;

    open spec fn id(&self) -> i64 {
        *self
    }

    open spec fn digest_of(id: i64) -> u64 {
        id as u64
    }

    fn same(&self, other: &Self) -> (r: bool) {
        *self == *other
    }

    fn digest(&self) -> (r: u64) {
        *self as u64
    }

    fn duplicate(&self) -> (r: Self) {
        *self
    }
}

impl<A: CacheKey, B: CacheKey> CacheKey for (A, B) {
    type Id = (A::Id, B::Id);

    open spec fn id(&self) -> (A::Id, B::Id) {
        (self.0.id(), self.1.id())
    }

    open spec fn digest_of(id: (A::Id, B::Id)) -> u64 {
        (A::digest_of(id.0) << 1) ^ B::digest_of(id.1)
    }

    fn same(&self, other: &Self) -> (r: bool) {
        self.0.same(&other.0) && self.1.same(&other.1)
    }

    fn digest(&self) -> (r: u64) {
        (self.0.digest() << 1) ^ self.1.digest()
    }

    fn duplicate(&self) -> (r: Self) {
        (self.0.duplicate(), self.1.duplicate())
    }
}

} // verus!
