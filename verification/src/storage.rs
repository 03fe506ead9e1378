//! Durable storage: a monotonic identifier counter and an ordered byte map,
//! backed by two regions of one `ic_stable_structures` memory pool.
//!
//! Region 0 holds the counter, region 1 the record map. These region ids are
//! fixed for the lifetime of the stored data and must never be reassigned.
//! The pool is created inside `DurableStore::init` and never escapes, so the
//! two regions can only ever be reached through the wrappers below.
//!
//! The store is opaque to the verifier. What it holds is named by the
//! uninterpreted functions `counter_value` and `store_contents`, and every
//! operation goes through a trusted wrapper whose contract states, in terms
//! of those names, what the `ic_stable_structures` source shows. The counter
//! wrappers touch only region 0 and the map wrappers only region 1, which is
//! why each states that the other component is unchanged.

use vstd::prelude::*;

verus! {

/// The durable storage component: an `ic_stable_structures::Cell` holding a
/// single `u64`, and an `ic_stable_structures::BTreeMap` from a `u64` key to
/// the stored value's bytes, each over its own virtual memory region.
#[verifier::external_body]
pub struct DurableStore {
    cell: ic_stable_structures::Cell<
        u64,
        ic_stable_structures::memory_manager::VirtualMemory<ic_stable_structures::DefaultMemoryImpl>,
    >,
    map: ic_stable_structures::BTreeMap<
        u64,
        Vec<u8>,
        ic_stable_structures::memory_manager::VirtualMemory<ic_stable_structures::DefaultMemoryImpl>,
    >,
}

/// The value held by the durable counter.
pub uninterp spec fn counter_value(s: DurableStore) -> u64;

/// The key-to-bytes contents of the durable record map.
pub uninterp spec fn store_contents(s: DurableStore) -> Map<u64, Seq<u8>>;

/// The contents of a record map with nothing in it.
pub open spec fn empty_contents() -> Map<u64, Seq<u8>> {
    Map::empty()
}

impl DurableStore {
    /// Lays out a fresh in-heap memory pool and initializes both durable
    /// structures over it.
    ///
    /// Relies on `MemoryManager::init` over `DefaultMemoryImpl::default()`
    /// (a fresh, empty vector memory), on `Cell::init` (over an empty region
    /// the cell takes the given default, here 0) and on `BTreeMap::init`
    /// (over an empty region the map starts empty).
    #[verifier::external_body]
    pub fn init() -> (r: DurableStore)
        ensures
            counter_value(r) == 0,
            store_contents(r) == empty_contents(),
    {
        let manager = ic_stable_structures::memory_manager::MemoryManager::init(
            ic_stable_structures::DefaultMemoryImpl::default(),
        );
        let cell = ic_stable_structures::Cell::init(
            manager.get(ic_stable_structures::memory_manager::MemoryId::new(0)),
            0u64,
        );
        let map = ic_stable_structures::BTreeMap::init(
            manager.get(ic_stable_structures::memory_manager::MemoryId::new(1)),
        );
        DurableStore { cell, map }
    }

    /// Relies on `Cell::get`: returns the held value.
    #[verifier::external_body]
    pub fn counter_read(&self) -> (r: u64)
        ensures
            r == counter_value(*self),
    {
        *self.cell.get()
    }

    /// Relies on `Cell::set`: replaces the held value, persisting it to
    /// region 0 first; region 1 is untouched. A write that cannot complete
    /// is a fatal storage fault and panics inside `Cell::set` rather than
    /// returning.
    #[verifier::external_body]
    pub fn counter_write(&mut self, v: u64)
        ensures
            counter_value(*final(self)) == v,
            store_contents(*final(self)) == store_contents(*old(self)),
    {
        self.cell.set(v);
    }

    /// Relies on `BTreeMap::get`: a point lookup returning an owned copy of
    /// the bytes stored under the key, or absence; nothing is mutated.
    #[verifier::external_body]
    pub fn get_bytes(&self, id: u64) -> (r: Option<Vec<u8>>)
        ensures
            match r {
                Some(v) => store_contents(*self).contains_key(id) && v@ == store_contents(*self)[id],
                None => !store_contents(*self).contains_key(id),
            },
    {
        self.map.get(&id)
    }

    /// Relies on `BTreeMap::insert`: an upsert of the bytes under the key,
    /// touching only region 1; the value stored for the key before the call,
    /// if any, is discarded.
    #[verifier::external_body]
    pub fn insert_bytes(&mut self, id: u64, bytes: Vec<u8>)
        ensures
            store_contents(*final(self)) == store_contents(*old(self)).insert(id, bytes@),
            counter_value(*final(self)) == counter_value(*old(self)),
    {
        self.map.insert(id, bytes);
    }

    /// Relies on `BTreeMap::remove`: removes the key, touching only region 1,
    /// and returns the bytes stored under it before the call, or absence.
    #[verifier::external_body]
    pub fn remove_bytes(&mut self, id: u64) -> (r: Option<Vec<u8>>)
        ensures
            store_contents(*final(self)) == store_contents(*old(self)).remove(id),
            counter_value(*final(self)) == counter_value(*old(self)),
            match r {
                Some(v) => store_contents(*old(self)).contains_key(id) && v@ == store_contents(
                    *old(self),
                )[id],
                None => !store_contents(*old(self)).contains_key(id),
            },
    {
        self.map.remove(&id)
    }
}

} // verus!
