//! The embedded, in-program array of maps.

use vstd::prelude::*;

use crate::defs::{
    MapDescriptor, BPF_MAP_TYPE_ARRAY_OF_MAPS, OUTER_KV_SIZE, PINNING_BY_NAME, PINNING_NONE,
};
use crate::kernel::{lookup_entries, Kernel};
use crate::pod::u32_le_bytes;

verus! {

/// An array of maps as a compiled program carries it: a descriptor record
/// embedded in the program image, and one read-only lookup performed through
/// a single verifier-checked helper call.
///
/// No mutation operation exists on this side, by design: a compiled-in
/// program cannot alter which inner maps an outer map references. Populating
/// a map of maps is exclusively a userspace act, through the dynamic wrapper.
pub struct ArrayOfMaps {
    def: MapDescriptor,
}

impl ArrayOfMaps {
    /// The embedded descriptor record.
    pub closed spec fn descriptor(self) -> MapDescriptor {
        self.def
    }

    /// Reads the embedded descriptor record.
    pub fn map_descriptor(&self) -> (r: MapDescriptor)
        ensures
            r == self.descriptor(),
    {
        self.def
    }

    /// A fresh array-of-maps descriptor: 4-byte keys and values, the given
    /// capacity and flags, no pinning, and `id` zero until the map is loaded.
    pub fn with_max_entries(max_entries: u32, flags: u32) -> (r: ArrayOfMaps)
        ensures
            r.descriptor() == (MapDescriptor {
                map_type: BPF_MAP_TYPE_ARRAY_OF_MAPS,
                key_size: OUTER_KV_SIZE,
                value_size: OUTER_KV_SIZE,
                max_entries,
                map_flags: flags,
                id: 0,
                pinning: PINNING_NONE,
            }),
    {
        ArrayOfMaps {
            def: MapDescriptor {
                map_type: BPF_MAP_TYPE_ARRAY_OF_MAPS,
                key_size: OUTER_KV_SIZE,
                value_size: OUTER_KV_SIZE,
                max_entries,
                map_flags: flags,
                id: 0,
                pinning: PINNING_NONE,
            },
        }
    }

    /// Like `with_max_entries`, but asks the loader to attach to a map
    /// pinned under a name instead of creating a fresh one.
    pub fn pinned(max_entries: u32, flags: u32) -> (r: ArrayOfMaps)
        ensures
            r.descriptor() == (MapDescriptor {
                map_type: BPF_MAP_TYPE_ARRAY_OF_MAPS,
                key_size: OUTER_KV_SIZE,
                value_size: OUTER_KV_SIZE,
                max_entries,
                map_flags: flags,
                id: 0,
                pinning: PINNING_BY_NAME,
            }),
    {
        ArrayOfMaps {
            def: MapDescriptor {
                map_type: BPF_MAP_TYPE_ARRAY_OF_MAPS,
                key_size: OUTER_KV_SIZE,
                value_size: OUTER_KV_SIZE,
                max_entries,
                map_flags: flags,
                id: 0,
                pinning: PINNING_BY_NAME,
            },
        }
    }

    /// The descriptor as it stands once the loader has installed the
    /// kernel-assigned identifier: `id` is the one field the kernel may
    /// populate after construction.
    pub fn loaded(self, id: u32) -> (r: ArrayOfMaps)
        ensures
            r.descriptor() == (MapDescriptor { id, ..self.descriptor() }),
    {
        let def = self.def;
        ArrayOfMaps { def: MapDescriptor { id, ..def } }
    }

    /// What the lookup helper returns: the raw 4-byte value stored at
    /// `index` — the inner map's identifier as the program sees it — or
    /// nothing, on a miss or when the descriptor references no loaded map.
    pub open spec fn spec_get(self, k: Kernel, index: u32) -> Option<u32> {
        if !k.has_object(self.descriptor().id) {
            None
        } else {
            lookup_entries(k.entries_of(self.descriptor().id), u32_le_bytes(index))
        }
    }

    /// Resolves `index` through one verifier-checked helper call: the raw
    /// value of the entry, or nothing on a miss. No descriptor is created
    /// and no error surfaces; this is the whole embedded-side surface.
    pub fn get(&self, kernel: &Kernel, index: u32) -> (r: Option<u32>)
        requires
            kernel.wf(),
        ensures
            r == self.spec_get(*kernel, index),
    {
        let kb = u32_key_bytes(index);
        match kernel.helper_lookup(self.def.id, &kb) {
            Some(v) => Some(v),
            None => None,
        }
    }
}

/// The little-endian bytes of a `u32` key, as the helper call reads them.
fn u32_key_bytes(x: u32) -> (r: Vec<u8>)
    ensures
        r@ == u32_le_bytes(x),
{
    let mut r: Vec<u8> = Vec::new();
    r.push((x & 0xff) as u8);
    r.push(((x >> 8) & 0xff) as u8);
    r.push(((x >> 16) & 0xff) as u8);
    r.push(((x >> 24) & 0xff) as u8);
    proof {
        assert(r@ =~= u32_le_bytes(x));
    }
    r
}

} // verus!
