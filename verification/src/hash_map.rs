//! The dynamic, userspace hash of maps.

use core::marker::PhantomData;
use vstd::prelude::*;

use crate::defs::{BPF_MAP_TYPE_HASH_OF_MAPS, OUTER_KV_SIZE};
use crate::errors::{MapError, SyscallName, EBADF, EINVAL};
use crate::kernel::{
    entries_remove, entries_update, entries_unique, entry_index, fds_except, fds_preserved,
    lemma_entry_index, lemma_wf_entry_values_live, objects_except_entries, same_fds, same_objects,
    Kernel, MapFd,
};
use crate::pod::Pod;
use crate::{MapHandle, MapOfMaps};

verus! {

/// A hash of maps: an outer map whose fixed-layout keys of type `K`
/// reference other kernel maps.
///
/// Construction validates an existing generic handle against the kernel ABI;
/// a constructed value is always loaded. Reads resolve an entry into a fresh
/// descriptor; writes transfer descriptor ownership into the kernel.
///
/// The minimum kernel version for this map type is 4.18.
pub struct HashMap<K> {
    inner: MapHandle,
    _k: PhantomData<K>,
}

impl<K: Pod> HashMap<K> {
    /// The wrapper holds a loaded handle whose declared ABI record carries
    /// the hash-of-maps tag, keys as wide as `K`, and 4-byte values.
    pub closed spec fn wf(self) -> bool {
        &&& self.inner.loaded()
        &&& self.inner.def.map_type == BPF_MAP_TYPE_HASH_OF_MAPS
        &&& self.inner.def.key_size == K::spec_key_size()
        &&& self.inner.def.value_size == OUTER_KV_SIZE
    }

    /// The live descriptor of the outer map.
    pub closed spec fn fd(self) -> i32 {
        self.inner.fd_val()
    }

    /// The declared capacity of the outer map.
    pub closed spec fn max_entries(self) -> u32 {
        self.inner.def.max_entries
    }

    /// Validates a generic handle as a hash of maps. The three ABI checks
    /// are independent and each failure carries the actual field value: the
    /// declared type tag must be the hash-of-maps tag, the declared key
    /// width must be `K`'s, and the declared value width 4 bytes; the handle
    /// must already be loaded. A constructed wrapper is therefore always
    /// loaded.
    pub fn new(map: MapHandle) -> (r: Result<HashMap<K>, MapError>)
        ensures
            map.def.map_type != BPF_MAP_TYPE_HASH_OF_MAPS ==> r == Err::<HashMap<K>, MapError>(
                MapError::InvalidMapType { map_type: map.def.map_type },
            ),
            map.def.map_type == BPF_MAP_TYPE_HASH_OF_MAPS && map.def.key_size != K::spec_key_size()
                ==> r == Err::<HashMap<K>, MapError>(
                MapError::InvalidKeySize { size: map.def.key_size, expected: K::spec_key_size() },
            ),
            map.def.map_type == BPF_MAP_TYPE_HASH_OF_MAPS && map.def.key_size == K::spec_key_size()
                && map.def.value_size != OUTER_KV_SIZE ==> r == Err::<HashMap<K>, MapError>(
                MapError::InvalidValueSize { size: map.def.value_size, expected: OUTER_KV_SIZE },
            ),
            map.def.map_type == BPF_MAP_TYPE_HASH_OF_MAPS && map.def.key_size == K::spec_key_size()
                && map.def.value_size == OUTER_KV_SIZE && !map.loaded() ==> r == Err::<
                HashMap<K>,
                MapError,
            >(MapError::NotLoaded),
            map.def.map_type == BPF_MAP_TYPE_HASH_OF_MAPS && map.def.key_size == K::spec_key_size()
                && map.def.value_size == OUTER_KV_SIZE && map.loaded() ==> (r matches Ok(m)
                && m.wf() && m.fd() == map.fd_val() && m.max_entries() == map.def.max_entries
                && m.handle_loaded() && m.handle_fd() == map.fd_val()),
    {
        let map_type = map.def.map_type;
        if map_type != BPF_MAP_TYPE_HASH_OF_MAPS {
            return Err(MapError::InvalidMapType { map_type });
        }
        let expected = K::key_size();
        if map.def.key_size != expected {
            return Err(MapError::InvalidKeySize { size: map.def.key_size, expected });
        }
        if map.def.value_size != OUTER_KV_SIZE {
            return Err(
                MapError::InvalidValueSize { size: map.def.value_size, expected: OUTER_KV_SIZE },
            );
        }
        match map.fd_or_err() {
            Ok(_) => Ok(HashMap { inner: map, _k: PhantomData }),
            Err(e) => Err(e),
        }
    }

    /// What `get` decides, given the state it runs in: the resolved inner
    /// map identifier, or the exact error. An absent key is `KeyNotFound`,
    /// never a raw system-call error.
    pub open spec fn spec_get(self, k: Kernel, key: K, flags: u64) -> Result<u32, MapError> {
        match k.spec_lookup_elem(self.fd(), key.as_bytes(), flags) {
            Err(code) => Err(MapError::SyscallError { call: SyscallName::MapLookupElem, errno: code }),
            Ok(None) => Err(MapError::KeyNotFound),
            Ok(Some(id)) => match k.spec_get_fd_by_id(id) {
                Err(code) => Err(
                    MapError::SyscallError { call: SyscallName::MapGetFdById, errno: code },
                ),
                Ok(u) => Ok(id),
            },
        }
    }

    /// Resolves the inner map stored under `key` into a fresh descriptor
    /// owned by the calling process. The returned descriptor is a real OS
    /// resource: the caller must release it.
    pub fn get(&self, kernel: &mut Kernel, key: &K, flags: u64) -> (r: Result<i32, MapError>)
        requires
            self.wf(),
            old(kernel).wf(),
        ensures
            final(kernel).wf(),
            same_objects(*old(kernel), *final(kernel)),
            match self.spec_get(*old(kernel), *key, flags) {
                Err(e) => r == Err::<i32, MapError>(e) && *final(kernel) == *old(kernel),
                Ok(id) => (r matches Ok(f) && !old(kernel).fd_open(f) && final(kernel).fd_open(f)
                    && final(kernel).fd_id(f) == id && fds_except(*old(kernel), *final(kernel), f)),
            },
    {
        let fd = match self.inner.fd_or_err() {
            Ok(f) => f,
            Err(e) => {
                return Err(e);
            },
        };
        let kb = key.to_bytes();
        let id = match kernel.lookup_elem(fd, &kb, flags) {
            Err(code) => {
                return Err(MapError::SyscallError { call: SyscallName::MapLookupElem, errno: code });
            },
            Ok(None) => {
                return Err(MapError::KeyNotFound);
            },
            Ok(Some(id)) => id,
        };
        proof {
            lemma_wf_entry_values_live(*kernel, kernel.fd_id(fd), key.as_bytes(), id);
        }
        match kernel.get_fd_by_id(id) {
            Err(code) => Err(MapError::SyscallError { call: SyscallName::MapGetFdById, errno: code }),
            Ok(f) => Ok(f),
        }
    }

    /// What `insert` decides, given the state it runs in: the inner map
    /// identifier that gets installed, or the exact error.
    pub open spec fn spec_insert(self, k: Kernel, key: K, value_fd: i32, flags: u64) -> Result<
        u32,
        MapError,
    > {
        match k.spec_update_elem(self.fd(), key.as_bytes(), value_fd, flags) {
            Err(code) => Err(MapError::SyscallError { call: SyscallName::MapUpdateElem, errno: code }),
            Ok(vid) => Ok(vid),
        }
    }

    /// Installs the inner map owned as `value` under `key`. Whatever the
    /// outcome, the caller-supplied descriptor is consumed and closed: on
    /// return it is no longer open in this process. On success the kernel
    /// holds its own reference to the inner map, so closing the duplicate
    /// does not release the map.
    pub fn insert(&mut self, kernel: &mut Kernel, key: K, value: MapFd, flags: u64) -> (r: Result<
        (),
        MapError,
    >)
        requires
            old(self).wf(),
            old(kernel).wf(),
        ensures
            *final(self) == *old(self),
            final(kernel).wf(),
            final(kernel).fd_headroom() == old(kernel).fd_headroom(),
            !final(kernel).fd_open(value@),
            fds_except(*old(kernel), *final(kernel), value@),
            match old(self).spec_insert(*old(kernel), key, value@, flags) {
                Err(e) => r == Err::<(), MapError>(e) && same_objects(*old(kernel), *final(kernel)),
                Ok(vid) => {
                    &&& r == Ok::<(), MapError>(())
                    &&& final(kernel).entries_of(old(kernel).fd_id(old(self).fd()))
                        == entries_update(
                        old(kernel).entries_of(old(kernel).fd_id(old(self).fd())),
                        key.as_bytes(),
                        vid,
                    )
                    &&& objects_except_entries(
                        *old(kernel),
                        *final(kernel),
                        old(kernel).fd_id(old(self).fd()),
                    )
                },
            },
    {
        let fd = match self.inner.fd_or_err() {
            Ok(f) => f,
            Err(e) => {
                let raw = value.into_raw();
                let _ = kernel.close(raw);
                return Err(e);
            },
        };
        let raw = value.into_raw();
        let kb = key.to_bytes();
        let res: Result<(), MapError> = match kernel.update_elem(fd, &kb, raw, flags) {
            Ok(_) => Ok(()),
            Err(code) => Err(MapError::SyscallError { call: SyscallName::MapUpdateElem, errno: code }),
        };
        let _ = kernel.close(raw);
        res
    }

    /// What `remove` decides, given the state it runs in.
    pub open spec fn spec_remove(self, k: Kernel, key: K) -> Result<(), MapError> {
        match k.spec_delete_elem(self.fd(), key.as_bytes()) {
            Err(code) => Err(MapError::SyscallError { call: SyscallName::MapDeleteElem, errno: code }),
            Ok(u) => Ok(u),
        }
    }

    /// Removes the entry under `key`; the kernel drops its reference to the
    /// inner map, releasing it once no references remain.
    pub fn remove(&mut self, kernel: &mut Kernel, key: &K) -> (r: Result<(), MapError>)
        requires
            old(self).wf(),
            old(kernel).wf(),
        ensures
            *final(self) == *old(self),
            final(kernel).wf(),
            final(kernel).fd_headroom() == old(kernel).fd_headroom(),
            same_fds(*old(kernel), *final(kernel)),
            match old(self).spec_remove(*old(kernel), *key) {
                Err(e) => r == Err::<(), MapError>(e) && *final(kernel) == *old(kernel),
                Ok(u) => {
                    &&& r == Ok::<(), MapError>(u)
                    &&& final(kernel).entries_of(old(kernel).fd_id(old(self).fd()))
                        == entries_remove(
                        old(kernel).entries_of(old(kernel).fd_id(old(self).fd())),
                        key.as_bytes(),
                    )
                    &&& objects_except_entries(
                        *old(kernel),
                        *final(kernel),
                        old(kernel).fd_id(old(self).fd()),
                    )
                },
            },
    {
        let fd = match self.inner.fd_or_err() {
            Ok(f) => f,
            Err(e) => {
                return Err(e);
            },
        };
        let kb = key.to_bytes();
        match kernel.delete_elem(fd, &kb) {
            Ok(_) => Ok(()),
            Err(code) => Err(MapError::SyscallError { call: SyscallName::MapDeleteElem, errno: code }),
        }
    }

    /// The keys currently installed, decoded from one key-iteration pass.
    /// Against a live kernel, concurrent structural mutation has no defined
    /// completeness guarantee: entries may be skipped or repeated.
    pub fn keys(&self, kernel: &Kernel) -> (r: Result<Vec<K>, MapError>)
        requires
            self.wf(),
            kernel.wf(),
        ensures
            !kernel.fd_open(self.fd()) ==> r == Err::<Vec<K>, MapError>(
                MapError::SyscallError { call: SyscallName::MapGetNextKey, errno: EBADF },
            ),
            kernel.fd_open(self.fd()) && kernel.object_def(kernel.fd_id(self.fd())).key_size
                != K::spec_key_size() ==> r == Err::<Vec<K>, MapError>(
                MapError::SyscallError { call: SyscallName::MapGetNextKey, errno: EINVAL },
            ),
            kernel.fd_open(self.fd()) && kernel.object_def(kernel.fd_id(self.fd())).key_size
                == K::spec_key_size() ==> (r matches Ok(ks) && ks@.len() == kernel.entries_of(
                kernel.fd_id(self.fd()),
            ).len() && forall|j: int|
                0 <= j < ks@.len() ==> #[trigger] ks@[j] == K::of_bytes_spec(
                    kernel.entries_of(kernel.fd_id(self.fd()))[j].key,
                )),
    {
        let fd = match self.inner.fd_or_err() {
            Ok(f) => f,
            Err(e) => {
                return Err(e);
            },
        };
        let def = match kernel.map_def(fd) {
            Ok(d) => d,
            Err(code) => {
                return Err(
                    MapError::SyscallError { call: SyscallName::MapGetNextKey, errno: code },
                );
            },
        };
        let expected = K::key_size();
        if def.key_size != expected {
            return Err(MapError::SyscallError { call: SyscallName::MapGetNextKey, errno: EINVAL });
        }
        let kbs = match kernel.element_keys(fd) {
            Ok(ks) => ks,
            Err(code) => {
                return Err(
                    MapError::SyscallError { call: SyscallName::MapGetNextKey, errno: code },
                );
            },
        };
        proof {
            kernel.lemma_fd_target_live(fd);
            kernel.lemma_wf_entries(kernel.fd_id(fd));
        }
        let n = kbs.len();
        let mut ks: Vec<K> = Vec::new();
        let mut i: usize = 0;
        while i < n
            invariant
                n == kbs@.len(),
                0 <= i <= n,
                ks@.len() == i,
                forall|j: int|
                    0 <= j < n ==> (#[trigger] kbs@[j])@.len() == K::spec_key_size(),
                forall|j: int| 0 <= j < i ==> #[trigger] ks@[j] == K::of_bytes_spec((kbs@[j])@),
            decreases n - i,
        {
            let k: K = Pod::of_bytes(&kbs[i]);
            ks.push(k);
            i = i + 1;
        }
        Ok(ks)
    }

    /// One key-iteration pass, with each key's inner map resolved into a
    /// fresh descriptor owned by the calling process: the pairs of key and
    /// descriptor, in slot order. Every returned descriptor is a real OS
    /// resource the caller must release. Against a live kernel, concurrent
    /// structural mutation has no defined completeness guarantee.
    pub fn iter(&self, kernel: &mut Kernel) -> (r: Result<Vec<(K, i32)>, MapError>)
        requires
            self.wf(),
            old(kernel).wf(),
        ensures
            final(kernel).wf(),
            same_objects(*old(kernel), *final(kernel)),
            fds_preserved(*old(kernel), *final(kernel)),
            !old(kernel).fd_open(self.fd()) ==> r == Err::<Vec<(K, i32)>, MapError>(
                MapError::SyscallError { call: SyscallName::MapGetNextKey, errno: EBADF },
            ),
            old(kernel).fd_open(self.fd()) && old(kernel).object_def(
                old(kernel).fd_id(self.fd()),
            ).key_size != K::spec_key_size() ==> r == Err::<Vec<(K, i32)>, MapError>(
                MapError::SyscallError { call: SyscallName::MapGetNextKey, errno: EINVAL },
            ),
            old(kernel).fd_open(self.fd()) && old(kernel).object_def(
                old(kernel).fd_id(self.fd()),
            ).key_size == K::spec_key_size() && old(kernel).fd_headroom() >= old(kernel).entries_of(
                old(kernel).fd_id(self.fd()),
            ).len() ==> (r matches Ok(ps) && {
                let es = old(kernel).entries_of(old(kernel).fd_id(self.fd()));
                &&& ps@.len() == es.len()
                &&& forall|j: int|
                    0 <= j < ps@.len() ==> (#[trigger] ps@[j]).0 == K::of_bytes_spec(es[j].key)
                &&& forall|j: int|
                    0 <= j < ps@.len() ==> final(kernel).fd_open((#[trigger] ps@[j]).1)
                        && final(kernel).fd_id(ps@[j].1) == es[j].value && !old(kernel).fd_open(
                        ps@[j].1,
                    )
            }),
    {
        let fd = match self.inner.fd_or_err() {
            Ok(f) => f,
            Err(e) => {
                return Err(e);
            },
        };
        let def = match kernel.map_def(fd) {
            Ok(d) => d,
            Err(code) => {
                return Err(
                    MapError::SyscallError { call: SyscallName::MapGetNextKey, errno: code },
                );
            },
        };
        let expected = K::key_size();
        if def.key_size != expected {
            return Err(MapError::SyscallError { call: SyscallName::MapGetNextKey, errno: EINVAL });
        }
        let kbs = match kernel.element_keys(fd) {
            Ok(ks) => ks,
            Err(code) => {
                return Err(
                    MapError::SyscallError { call: SyscallName::MapGetNextKey, errno: code },
                );
            },
        };
        let ghost pre = *kernel;
        let ghost oid = pre.fd_id(fd);
        let ghost es = pre.entries_of(oid);
        proof {
            kernel.lemma_fd_target_live(fd);
            kernel.lemma_wf_entries(oid);
        }
        let n = kbs.len();
        let mut ps: Vec<(K, i32)> = Vec::new();
        let mut i: usize = 0;
        while i < n
            invariant
                self.wf(),
                fd == self.fd(),
                kernel.wf(),
                n == kbs@.len(),
                0 <= i <= n,
                ps@.len() == i,
                es == pre.entries_of(oid),
                n == es.len(),
                oid == pre.fd_id(fd),
                pre == *old(kernel),
                pre.wf(),
                pre.fd_open(fd),
                pre.has_object(oid),
                pre.object_def(oid).key_size == K::spec_key_size(),
                entries_unique(es),
                forall|j: int| 0 <= j < n ==> (#[trigger] kbs@[j])@ == es[j].key,
                forall|j: int| 0 <= j < n ==> (#[trigger] es[j]).key.len() == K::spec_key_size(),
                forall|j: int| 0 <= j < n ==> pre.has_object((#[trigger] es[j]).value),
                same_objects(pre, *kernel),
                fds_preserved(pre, *kernel),
                kernel.fd_headroom() >= pre.fd_headroom() - i,
                forall|j: int|
                    0 <= j < i ==> #[trigger] ps@[j].0 == K::of_bytes_spec(es[j].key),
                forall|j: int|
                    0 <= j < i ==> kernel.fd_open(#[trigger] ps@[j].1) && kernel.fd_id(ps@[j].1)
                        == es[j].value && !pre.fd_open(ps@[j].1),
            decreases n - i,
        {
            proof {
                assert(kernel.fd_open(fd) && kernel.fd_id(fd) == oid);
                assert(kernel.entries_of(oid) == es);
                assert(kernel.object_def(oid) == pre.object_def(oid));
                lemma_entry_index(es, es[i as int].key);
                assert(entry_index(es, es[i as int].key) == i as int);
                kernel.lemma_fd_headroom();
            }
            let k: K = Pod::of_bytes(&kbs[i]);
            let id = match kernel.lookup_elem(fd, &kbs[i], 0) {
                Err(code) => {
                    return Err(
                        MapError::SyscallError { call: SyscallName::MapLookupElem, errno: code },
                    );
                },
                Ok(None) => {
                    return Err(MapError::KeyNotFound);
                },
                Ok(Some(id)) => id,
            };
            proof {
                assert(id == es[i as int].value);
                assert(kernel.has_object(id));
            }
            let f = match kernel.get_fd_by_id(id) {
                Err(code) => {
                    return Err(
                        MapError::SyscallError { call: SyscallName::MapGetFdById, errno: code },
                    );
                },
                Ok(f) => f,
            };
            ps.push((k, f));
            i = i + 1;
        }
        Ok(ps)
    }
}

impl<K: Pod> MapOfMaps for HashMap<K> {
    closed spec fn handle_fd(&self) -> i32 {
        self.inner.fd_val()
    }

    closed spec fn handle_loaded(&self) -> bool {
        self.inner.loaded()
    }

    fn fd_or_err(&self) -> (r: Result<i32, MapError>) {
        self.inner.fd_or_err()
    }
}

} // verus!
