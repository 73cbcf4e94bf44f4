//! The dynamic, userspace array of maps.

use vstd::prelude::*;

use crate::defs::{BPF_MAP_TYPE_ARRAY_OF_MAPS, OUTER_KV_SIZE};
use crate::errors::{MapError, SyscallName, EBADF, EINVAL};
use crate::kernel::{
    entries_remove, entries_update, fds_except, objects_except_entries, same_fds, same_objects,
    lemma_wf_entry_values_live, Kernel, MapFd,
};
use crate::pod::{u32_le_bytes, u32_of_le_bytes, Pod};
use crate::{MapHandle, MapOfMaps};

verus! {

/// An array of maps: an outer map whose dense `u32` indices reference other
/// kernel maps.
///
/// Construction validates an existing generic handle against the kernel ABI;
/// a constructed value is always loaded. Reads resolve an entry into a fresh
/// descriptor; writes transfer descriptor ownership into the kernel.
///
/// The minimum kernel version for this map type is 4.14.
pub struct Array {
    inner: MapHandle,
}

impl Array {
    /// The wrapper holds a loaded handle whose declared ABI record carries
    /// the array-of-maps tag and 4-byte keys and values.
    pub closed spec fn wf(self) -> bool {
        &&& self.inner.loaded()
        &&& self.inner.def.map_type == BPF_MAP_TYPE_ARRAY_OF_MAPS
        &&& self.inner.def.key_size == OUTER_KV_SIZE
        &&& self.inner.def.value_size == OUTER_KV_SIZE
    }

    /// The live descriptor of the outer map.
    pub closed spec fn fd(self) -> i32 {
        self.inner.fd_val()
    }

    /// The declared capacity of the outer map.
    pub closed spec fn max_entries(self) -> u32 {
        self.inner.def.max_entries
    }

    /// Whether a dense index is within the declared capacity.
    pub open spec fn in_bounds(self, index: u32) -> bool {
        index < self.max_entries()
    }

    /// Validates a generic handle as an array of maps. The three ABI checks
    /// are independent and each failure carries the actual field value: the
    /// declared type tag must be the array-of-maps tag, and the declared key
    /// and value widths must each be 4 bytes; the handle must already be
    /// loaded. A constructed wrapper is therefore always loaded.
    pub fn new(map: MapHandle) -> (r: Result<Array, MapError>)
        ensures
            map.def.map_type != BPF_MAP_TYPE_ARRAY_OF_MAPS ==> r == Err::<Array, MapError>(
                MapError::InvalidMapType { map_type: map.def.map_type },
            ),
            map.def.map_type == BPF_MAP_TYPE_ARRAY_OF_MAPS && map.def.key_size != OUTER_KV_SIZE
                ==> r == Err::<Array, MapError>(
                MapError::InvalidKeySize { size: map.def.key_size, expected: OUTER_KV_SIZE },
            ),
            map.def.map_type == BPF_MAP_TYPE_ARRAY_OF_MAPS && map.def.key_size == OUTER_KV_SIZE
                && map.def.value_size != OUTER_KV_SIZE ==> r == Err::<Array, MapError>(
                MapError::InvalidValueSize { size: map.def.value_size, expected: OUTER_KV_SIZE },
            ),
            map.def.map_type == BPF_MAP_TYPE_ARRAY_OF_MAPS && map.def.key_size == OUTER_KV_SIZE
                && map.def.value_size == OUTER_KV_SIZE && !map.loaded() ==> r == Err::<
                Array,
                MapError,
            >(MapError::NotLoaded),
            map.def.map_type == BPF_MAP_TYPE_ARRAY_OF_MAPS && map.def.key_size == OUTER_KV_SIZE
                && map.def.value_size == OUTER_KV_SIZE && map.loaded() ==> (r matches Ok(a) && a.wf()
                && a.fd() == map.fd_val() && a.max_entries() == map.def.max_entries
                && a.handle_loaded() && a.handle_fd() == map.fd_val()),
    {
        let map_type = map.def.map_type;
        if map_type != BPF_MAP_TYPE_ARRAY_OF_MAPS {
            return Err(MapError::InvalidMapType { map_type });
        }
        if map.def.key_size != OUTER_KV_SIZE {
            return Err(MapError::InvalidKeySize { size: map.def.key_size, expected: OUTER_KV_SIZE });
        }
        if map.def.value_size != OUTER_KV_SIZE {
            return Err(
                MapError::InvalidValueSize { size: map.def.value_size, expected: OUTER_KV_SIZE },
            );
        }
        match map.fd_or_err() {
            Ok(_) => Ok(Array { inner: map }),
            Err(e) => Err(e),
        }
    }

    /// Checks a dense index against the declared capacity.
    pub fn check_bounds(&self, index: u32) -> (r: Result<(), MapError>)
        ensures
            self.in_bounds(index) ==> r == Ok::<(), MapError>(()),
            !self.in_bounds(index) ==> r == Err::<(), MapError>(
                MapError::OutOfBounds { index, max_entries: self.max_entries() },
            ),
    {
        let max_entries = self.inner.def.max_entries;
        if index >= max_entries {
            Err(MapError::OutOfBounds { index, max_entries })
        } else {
            Ok(())
        }
    }

    /// What `get` decides, given the state it runs in: the resolved inner
    /// map identifier, or the exact error. Out-of-bounds indices are
    /// rejected before any call; an absent entry is `KeyNotFound`, never a
    /// raw system-call error.
    pub open spec fn spec_get(self, k: Kernel, index: u32, flags: u64) -> Result<u32, MapError> {
        if !self.in_bounds(index) {
            Err(MapError::OutOfBounds { index, max_entries: self.max_entries() })
        } else {
            match k.spec_lookup_elem(self.fd(), u32_le_bytes(index), flags) {
                Err(code) => Err(
                    MapError::SyscallError { call: SyscallName::MapLookupElem, errno: code },
                ),
                Ok(None) => Err(MapError::KeyNotFound),
                Ok(Some(id)) => match k.spec_get_fd_by_id(id) {
                    Err(code) => Err(
                        MapError::SyscallError { call: SyscallName::MapGetFdById, errno: code },
                    ),
                    Ok(u) => Ok(id),
                },
            }
        }
    }

    /// Resolves the inner map stored at `index` into a fresh descriptor
    /// owned by the calling process. The returned descriptor is a real OS
    /// resource: the caller must release it.
    pub fn get(&self, kernel: &mut Kernel, index: &u32, flags: u64) -> (r: Result<i32, MapError>)
        requires
            self.wf(),
            old(kernel).wf(),
        ensures
            final(kernel).wf(),
            same_objects(*old(kernel), *final(kernel)),
            match self.spec_get(*old(kernel), *index, flags) {
                Err(e) => r == Err::<i32, MapError>(e) && *final(kernel) == *old(kernel),
                Ok(id) => (r matches Ok(f) && !old(kernel).fd_open(f) && final(kernel).fd_open(f)
                    && final(kernel).fd_id(f) == id && fds_except(*old(kernel), *final(kernel), f)),
            },
    {
        let idx = *index;
        if let Err(e) = self.check_bounds(idx) {
            return Err(e);
        }
        let fd = match self.inner.fd_or_err() {
            Ok(f) => f,
            Err(e) => {
                return Err(e);
            },
        };
        let key = idx.to_bytes();
        let id = match kernel.lookup_elem(fd, &key, flags) {
            Err(code) => {
                return Err(MapError::SyscallError { call: SyscallName::MapLookupElem, errno: code });
            },
            Ok(None) => {
                return Err(MapError::KeyNotFound);
            },
            Ok(Some(id)) => id,
        };
        proof {
            lemma_wf_entry_values_live(*kernel, kernel.fd_id(fd), u32_le_bytes(idx), id);
        }
        match kernel.get_fd_by_id(id) {
            Err(code) => Err(MapError::SyscallError { call: SyscallName::MapGetFdById, errno: code }),
            Ok(f) => Ok(f),
        }
    }

    /// What `set` decides, given the state it runs in: the inner map
    /// identifier that gets installed, or the exact error.
    pub open spec fn spec_set(self, k: Kernel, index: u32, value_fd: i32, flags: u64) -> Result<
        u32,
        MapError,
    > {
        if !self.in_bounds(index) {
            Err(MapError::OutOfBounds { index, max_entries: self.max_entries() })
        } else {
            match k.spec_update_elem(self.fd(), u32_le_bytes(index), value_fd, flags) {
                Err(code) => Err(
                    MapError::SyscallError { call: SyscallName::MapUpdateElem, errno: code },
                ),
                Ok(vid) => Ok(vid),
            }
        }
    }

    /// Installs the inner map owned as `map` at `index`. Whatever the
    /// outcome, the caller-supplied descriptor is consumed and closed: on
    /// return it is no longer open in this process. On success the kernel
    /// holds its own reference to the inner map, so closing the duplicate
    /// does not release the map.
    pub fn set(&mut self, kernel: &mut Kernel, index: u32, map: MapFd, flags: u64) -> (r: Result<
        (),
        MapError,
    >)
        requires
            old(self).wf(),
            old(kernel).wf(),
        ensures
            *final(self) == *old(self),
            final(kernel).wf(),
            final(kernel).fd_headroom() == old(kernel).fd_headroom(),
            !final(kernel).fd_open(map@),
            fds_except(*old(kernel), *final(kernel), map@),
            match old(self).spec_set(*old(kernel), index, map@, flags) {
                Err(e) => r == Err::<(), MapError>(e) && same_objects(*old(kernel), *final(kernel)),
                Ok(vid) => {
                    &&& r == Ok::<(), MapError>(())
                    &&& final(kernel).entries_of(old(kernel).fd_id(old(self).fd()))
                        == entries_update(
                        old(kernel).entries_of(old(kernel).fd_id(old(self).fd())),
                        u32_le_bytes(index),
                        vid,
                    )
                    &&& objects_except_entries(
                        *old(kernel),
                        *final(kernel),
                        old(kernel).fd_id(old(self).fd()),
                    )
                },
            },
    {
        let fd = match self.inner.fd_or_err() {
            Ok(f) => f,
            Err(e) => {
                let raw = map.into_raw();
                let _ = kernel.close(raw);
                return Err(e);
            },
        };
        let raw = map.into_raw();
        let res: Result<(), MapError> = match self.check_bounds(index) {
            Err(e) => Err(e),
            Ok(_) => {
                let key = index.to_bytes();
                match kernel.update_elem(fd, &key, raw, flags) {
                    Ok(_) => Ok(()),
                    Err(code) => Err(
                        MapError::SyscallError { call: SyscallName::MapUpdateElem, errno: code },
                    ),
                }
            },
        };
        let _ = kernel.close(raw);
        res
    }

    /// What `delete` decides, given the state it runs in.
    pub open spec fn spec_delete(self, k: Kernel, index: u32) -> Result<(), MapError> {
        if !self.in_bounds(index) {
            Err(MapError::OutOfBounds { index, max_entries: self.max_entries() })
        } else {
            match k.spec_delete_elem(self.fd(), u32_le_bytes(index)) {
                Err(code) => Err(
                    MapError::SyscallError { call: SyscallName::MapDeleteElem, errno: code },
                ),
                Ok(u) => Ok(u),
            }
        }
    }

    /// Removes the entry at `index`; the kernel drops its reference to the
    /// inner map, releasing it once no references remain.
    pub fn delete(&mut self, kernel: &mut Kernel, index: &u32) -> (r: Result<(), MapError>)
        requires
            old(self).wf(),
            old(kernel).wf(),
        ensures
            *final(self) == *old(self),
            final(kernel).wf(),
            final(kernel).fd_headroom() == old(kernel).fd_headroom(),
            same_fds(*old(kernel), *final(kernel)),
            match old(self).spec_delete(*old(kernel), *index) {
                Err(e) => r == Err::<(), MapError>(e) && *final(kernel) == *old(kernel),
                Ok(u) => {
                    &&& r == Ok::<(), MapError>(u)
                    &&& final(kernel).entries_of(old(kernel).fd_id(old(self).fd()))
                        == entries_remove(
                        old(kernel).entries_of(old(kernel).fd_id(old(self).fd())),
                        u32_le_bytes(*index),
                    )
                    &&& objects_except_entries(
                        *old(kernel),
                        *final(kernel),
                        old(kernel).fd_id(old(self).fd()),
                    )
                },
            },
    {
        let fd = match self.inner.fd_or_err() {
            Ok(f) => f,
            Err(e) => {
                return Err(e);
            },
        };
        if let Err(e) = self.check_bounds(*index) {
            return Err(e);
        }
        let key = (*index).to_bytes();
        match kernel.delete_elem(fd, &key) {
            Ok(_) => Ok(()),
            Err(code) => Err(MapError::SyscallError { call: SyscallName::MapDeleteElem, errno: code }),
        }
    }

    /// The populated indices of the array, from one key-iteration pass.
    /// Against a live kernel, concurrent structural mutation has no defined
    /// completeness guarantee: entries may be skipped or repeated.
    pub fn indices(&self, kernel: &Kernel) -> (r: Result<Vec<u32>, MapError>)
        requires
            self.wf(),
            kernel.wf(),
        ensures
            !kernel.fd_open(self.fd()) ==> r == Err::<Vec<u32>, MapError>(
                MapError::SyscallError { call: SyscallName::MapGetNextKey, errno: EBADF },
            ),
            kernel.fd_open(self.fd()) && kernel.object_def(kernel.fd_id(self.fd())).key_size
                != OUTER_KV_SIZE ==> r == Err::<Vec<u32>, MapError>(
                MapError::SyscallError { call: SyscallName::MapGetNextKey, errno: EINVAL },
            ),
            kernel.fd_open(self.fd()) && kernel.object_def(kernel.fd_id(self.fd())).key_size
                == OUTER_KV_SIZE ==> (r matches Ok(ix) && ix@.len() == kernel.entries_of(
                kernel.fd_id(self.fd()),
            ).len() && (forall|j: int|
                0 <= j < ix@.len() ==> #[trigger] ix@[j] == u32_of_le_bytes(
                    kernel.entries_of(kernel.fd_id(self.fd()))[j].key,
                )) && (kernel.object_def(kernel.fd_id(self.fd())).map_type
                == BPF_MAP_TYPE_ARRAY_OF_MAPS ==> forall|j: int|
                0 <= j < ix@.len() ==> #[trigger] ix@[j] < kernel.object_def(
                    kernel.fd_id(self.fd()),
                ).max_entries)),
    {
        let fd = match self.inner.fd_or_err() {
            Ok(f) => f,
            Err(e) => {
                return Err(e);
            },
        };
        let def = match kernel.map_def(fd) {
            Ok(d) => d,
            Err(code) => {
                return Err(
                    MapError::SyscallError { call: SyscallName::MapGetNextKey, errno: code },
                );
            },
        };
        if def.key_size != OUTER_KV_SIZE {
            return Err(MapError::SyscallError { call: SyscallName::MapGetNextKey, errno: EINVAL });
        }
        let ks = match kernel.element_keys(fd) {
            Ok(ks) => ks,
            Err(code) => {
                return Err(
                    MapError::SyscallError { call: SyscallName::MapGetNextKey, errno: code },
                );
            },
        };
        proof {
            kernel.lemma_fd_target_live(fd);
            kernel.lemma_wf_entries(kernel.fd_id(fd));
        }
        let n = ks.len();
        let mut ix: Vec<u32> = Vec::new();
        let mut i: usize = 0;
        while i < n
            invariant
                n == ks@.len(),
                0 <= i <= n,
                ix@.len() == i,
                forall|j: int| 0 <= j < n ==> (#[trigger] ks@[j])@.len() == 4,
                forall|j: int|
                    0 <= j < i ==> #[trigger] ix@[j] == u32_of_le_bytes((ks@[j])@),
            decreases n - i,
        {
            let v: u32 = Pod::of_bytes(&ks[i]);
            ix.push(v);
            i = i + 1;
        }
        Ok(ix)
    }
}

impl MapOfMaps for Array {
    closed spec fn handle_fd(&self) -> i32 {
        self.inner.fd_val()
    }

    closed spec fn handle_loaded(&self) -> bool {
        self.inner.loaded()
    }

    fn fd_or_err(&self) -> (r: Result<i32, MapError>) {
        self.inner.fd_or_err()
    }
}

} // verus!
