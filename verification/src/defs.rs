//! The kernel-facing map-definition record and the ABI constants it uses.
//!
//! The binary layout of [`MapDescriptor`] is a kernel ABI contract: seven
//! 32-bit fields, in this order, each the width the kernel prescribes.

use vstd::prelude::*;

verus! {

/// Kernel tag for an array whose values are references to other maps.
pub const BPF_MAP_TYPE_ARRAY_OF_MAPS: u32 = 12;

/// Kernel tag for a hash map whose values are references to other maps.
pub const BPF_MAP_TYPE_HASH_OF_MAPS: u32 = 13;

/// Pinning field value: the map is not pinned.
pub const PINNING_NONE: u32 = 0;

/// Pinning field value: attach to a map pinned under a name.
pub const PINNING_BY_NAME: u32 = 1;

/// Key and value width, in bytes, of every outer map: one `u32`.
pub const OUTER_KV_SIZE: u32 = 4;

/// The fixed-layout record describing a map to the kernel: its type tag,
/// key/value widths, capacity, flags, kernel-assigned id and pinning mode.
///
/// All fields are fixed at construction; `id` is the one field the kernel
/// populates when the map is loaded.
#[derive(Clone, Copy, Debug, PartialEq, Eq, Structural)]
pub struct MapDescriptor {
    pub map_type: u32,
    pub key_size: u32,
    pub value_size: u32,
    pub max_entries: u32,
    pub map_flags: u32,
    pub id: u32,
    pub pinning: u32,
}

} // verus!
