//! The page map's storage: a hash map from guest page to host address,
//! hashed with FNV.

use std::collections::HashMap;
use std::hash::BuildHasherDefault;

use fnv::FnvHasher;
use vstd::prelude::*;

verus! {

/// Map from page-aligned guest physical address to host address.
#[verifier::external_body]
pub struct FastMap64 {
    map: HashMap<u64, usize, BuildHasherDefault<FnvHasher>>,
}

/// The entries held by a `FastMap64`.
pub uninterp spec fn fastmap_contents(m: FastMap64) -> Map<u64, usize>;

impl FastMap64 {
    /// Relies on `HashMap::default`: a new map holds no entry.
    #[verifier::external_body]
    pub(crate) fn new() -> (r: FastMap64)
        ensures
            fastmap_contents(r) =~= Map::empty(),
    {
        FastMap64 { map: HashMap::default() }
    }

    /// Relies on `HashMap::get`: the value stored under `k`, if any.
    #[verifier::external_body]
    pub(crate) fn get(&self, k: u64) -> (r: Option<usize>)
        ensures
            match r {
                Some(v) => fastmap_contents(*self).contains_key(k) && fastmap_contents(*self)[k] == v,
                None => !fastmap_contents(*self).contains_key(k),
            },
    {
        self.map.get(&k).copied()
    }

    /// Relies on `HashMap::insert`: `k` maps to `v` afterwards, the other
    /// entries are kept.
    #[verifier::external_body]
    pub(crate) fn insert(&mut self, k: u64, v: usize)
        ensures
            fastmap_contents(*final(self)) == fastmap_contents(*old(self)).insert(k, v),
    {
        self.map.insert(k, v);
    }

    /// Relies on `HashMap::remove`: `k` is absent afterwards, the other
    /// entries are kept.
    #[verifier::external_body]
    pub(crate) fn remove(&mut self, k: u64)
        ensures
            fastmap_contents(*final(self)) == fastmap_contents(*old(self)).remove(k),
    {
        self.map.remove(&k);
    }
}

} // verus!
