//! The embedded, in-program hash of maps.

use core::marker::PhantomData;
use vstd::prelude::*;

use crate::defs::{
    MapDescriptor, BPF_MAP_TYPE_HASH_OF_MAPS, OUTER_KV_SIZE, PINNING_BY_NAME, PINNING_NONE,
};
use crate::kernel::{lookup_entries, Kernel};
use crate::pod::Pod;

verus! {

/// A hash of maps as a compiled program carries it: a descriptor record
/// embedded in the program image, keyed by the fixed-layout type `K`, and
/// one read-only lookup performed through a single verifier-checked helper
/// call.
///
/// No mutation operation exists on this side, by design: a compiled-in
/// program cannot alter which inner maps an outer map references. Populating
/// a map of maps is exclusively a userspace act, through the dynamic wrapper.
pub struct HashOfMaps<K> {
    def: MapDescriptor,
    _k: PhantomData<K>,
}

impl<K: Pod> HashOfMaps<K> {
    /// The embedded descriptor record.
    pub closed spec fn descriptor(self) -> MapDescriptor {
        self.def
    }

    /// Reads the embedded descriptor record.
    pub fn map_descriptor(&self) -> (r: MapDescriptor)
        ensures
            r == self.descriptor(),
    {
        self.def
    }

    /// A fresh hash-of-maps descriptor: keys as wide as `K`, 4-byte values,
    /// the given capacity and flags, no pinning, and `id` zero until the map
    /// is loaded.
    pub fn with_max_entries(max_entries: u32, flags: u32) -> (r: HashOfMaps<K>)
        ensures
            r.descriptor() == (MapDescriptor {
                map_type: BPF_MAP_TYPE_HASH_OF_MAPS,
                key_size: K::spec_key_size(),
                value_size: OUTER_KV_SIZE,
                max_entries,
                map_flags: flags,
                id: 0,
                pinning: PINNING_NONE,
            }),
    {
        HashOfMaps {
            def: MapDescriptor {
                map_type: BPF_MAP_TYPE_HASH_OF_MAPS,
                key_size: K::key_size(),
                value_size: OUTER_KV_SIZE,
                max_entries,
                map_flags: flags,
                id: 0,
                pinning: PINNING_NONE,
            },
            _k: PhantomData,
        }
    }

    /// Like `with_max_entries`, but asks the loader to attach to a map
    /// pinned under a name instead of creating a fresh one.
    pub fn pinned(max_entries: u32, flags: u32) -> (r: HashOfMaps<K>)
        ensures
            r.descriptor() == (MapDescriptor {
                map_type: BPF_MAP_TYPE_HASH_OF_MAPS,
                key_size: K::spec_key_size(),
                value_size: OUTER_KV_SIZE,
                max_entries,
                map_flags: flags,
                id: 0,
                pinning: PINNING_BY_NAME,
            }),
    {
        HashOfMaps {
            def: MapDescriptor {
                map_type: BPF_MAP_TYPE_HASH_OF_MAPS,
                key_size: K::key_size(),
                value_size: OUTER_KV_SIZE,
                max_entries,
                map_flags: flags,
                id: 0,
                pinning: PINNING_BY_NAME,
            },
            _k: PhantomData,
        }
    }

    /// The descriptor as it stands once the loader has installed the
    /// kernel-assigned identifier: `id` is the one field the kernel may
    /// populate after construction.
    pub fn loaded(self, id: u32) -> (r: HashOfMaps<K>)
        ensures
            r.descriptor() == (MapDescriptor { id, ..self.descriptor() }),
    {
        let def = self.def;
        HashOfMaps { def: MapDescriptor { id, ..def }, _k: PhantomData }
    }

    /// What the lookup helper returns: the raw 4-byte value stored under
    /// `key` — the inner map's identifier as the program sees it — or
    /// nothing, on a miss or when the descriptor references no loaded map.
    pub open spec fn spec_get(self, k: Kernel, key: K) -> Option<u32> {
        if !k.has_object(self.descriptor().id) {
            None
        } else {
            lookup_entries(k.entries_of(self.descriptor().id), key.as_bytes())
        }
    }

    /// Resolves `key` through one verifier-checked helper call: the raw
    /// value of the entry, or nothing on a miss. No descriptor is created
    /// and no error surfaces; this is the whole embedded-side surface.
    pub fn get(&self, kernel: &Kernel, key: &K) -> (r: Option<u32>)
        requires
            kernel.wf(),
        ensures
            r == self.spec_get(*kernel, *key),
    {
        let kb = key.to_bytes();
        match kernel.helper_lookup(self.def.id, &kb) {
            Some(v) => Some(v),
            None => None,
        }
    }
}

} // verus!
