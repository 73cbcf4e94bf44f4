use of_maps::defs::{
    MapDescriptor, BPF_MAP_TYPE_ARRAY_OF_MAPS, BPF_MAP_TYPE_HASH_OF_MAPS, OUTER_KV_SIZE,
    PINNING_BY_NAME, PINNING_NONE,
};
use of_maps::errors::{MapError, SyscallName, E2BIG, EBADF, EEXIST, EINVAL, ENOENT};
use of_maps::kernel::{Kernel, MapFd};
use of_maps::pod::Pod;
use of_maps::{Array, ArrayOfMaps, HashMap, HashOfMaps, MapHandle, MapOfMaps};

fn outer_array_def(max_entries: u32) -> MapDescriptor {
    MapDescriptor {
        map_type: BPF_MAP_TYPE_ARRAY_OF_MAPS,
        key_size: OUTER_KV_SIZE,
        value_size: OUTER_KV_SIZE,
        max_entries,
        map_flags: 0,
        id: 0,
        pinning: PINNING_NONE,
    }
}

fn outer_hash_def(key_size: u32, max_entries: u32) -> MapDescriptor {
    MapDescriptor {
        map_type: BPF_MAP_TYPE_HASH_OF_MAPS,
        key_size,
        value_size: OUTER_KV_SIZE,
        max_entries,
        map_flags: 0,
        id: 0,
        pinning: PINNING_NONE,
    }
}

fn inner_def() -> MapDescriptor {
    MapDescriptor {
        map_type: 2,
        key_size: 4,
        value_size: 8,
        max_entries: 16,
        map_flags: 0,
        id: 0,
        pinning: PINNING_NONE,
    }
}

/// Creates an outer map in the kernel model and hands back a validated
/// array wrapper plus the raw outer descriptor.
fn loaded_array(kernel: &mut Kernel, max_entries: u32) -> (Array, i32) {
    let def = outer_array_def(max_entries);
    let fd = kernel.create_map(def).unwrap().into_raw();
    let stored = kernel.map_def(fd).unwrap();
    let arr = Array::new(MapHandle { def: stored, fd: Some(fd) }).unwrap();
    (arr, fd)
}

fn loaded_hash_u64(kernel: &mut Kernel, max_entries: u32) -> (HashMap<u64>, i32) {
    let def = outer_hash_def(8, max_entries);
    let fd = kernel.create_map(def).unwrap().into_raw();
    let stored = kernel.map_def(fd).unwrap();
    let map = HashMap::<u64>::new(MapHandle { def: stored, fd: Some(fd) }).unwrap();
    (map, fd)
}

fn new_inner(kernel: &mut Kernel) -> (MapFd, u32) {
    let fd = kernel.create_map(inner_def()).unwrap();
    let id = kernel.map_def(fd.raw()).unwrap().id;
    (fd, id)
}

#[test]
fn array_construction_rejects_wrong_type_tag() {
    let mut def = outer_array_def(8);
    def.map_type = 7;
    let r = Array::new(MapHandle { def, fd: Some(10) });
    assert_eq!(r.err().unwrap(), MapError::InvalidMapType { map_type: 7 });
}

#[test]
fn array_construction_rejects_wrong_key_size() {
    let mut def = outer_array_def(8);
    def.key_size = 8;
    let r = Array::new(MapHandle { def, fd: Some(10) });
    assert_eq!(r.err().unwrap(), MapError::InvalidKeySize { size: 8, expected: 4 });
}

#[test]
fn array_construction_rejects_wrong_value_size() {
    let mut def = outer_array_def(8);
    def.value_size = 1;
    let r = Array::new(MapHandle { def, fd: Some(10) });
    assert_eq!(r.err().unwrap(), MapError::InvalidValueSize { size: 1, expected: 4 });
}

#[test]
fn array_construction_rejects_unloaded_handle() {
    let r = Array::new(MapHandle { def: outer_array_def(8), fd: None });
    assert_eq!(r.err().unwrap(), MapError::NotLoaded);
}

#[test]
fn hash_construction_rejects_each_abi_field_independently() {
    let mut def = outer_hash_def(8, 8);
    def.map_type = BPF_MAP_TYPE_ARRAY_OF_MAPS;
    let r = HashMap::<u64>::new(MapHandle { def, fd: Some(10) });
    assert_eq!(
        r.err().unwrap(),
        MapError::InvalidMapType { map_type: BPF_MAP_TYPE_ARRAY_OF_MAPS }
    );

    let r = HashMap::<u64>::new(MapHandle { def: outer_hash_def(4, 8), fd: Some(10) });
    assert_eq!(r.err().unwrap(), MapError::InvalidKeySize { size: 4, expected: 8 });

    let mut def = outer_hash_def(8, 8);
    def.value_size = 8;
    let r = HashMap::<u64>::new(MapHandle { def, fd: Some(10) });
    assert_eq!(r.err().unwrap(), MapError::InvalidValueSize { size: 8, expected: 4 });

    let r = HashMap::<u64>::new(MapHandle { def: outer_hash_def(8, 8), fd: None });
    assert_eq!(r.err().unwrap(), MapError::NotLoaded);
}

#[test]
fn array_bounds_law_at_and_past_capacity() {
    let mut kernel = Kernel::new();
    let (mut arr, _) = loaded_array(&mut kernel, 8);
    let (inner_a, _) = new_inner(&mut kernel);

    // get, set and delete all reject index == N and N + 1.
    assert_eq!(
        arr.get(&mut kernel, &8, 0).err().unwrap(),
        MapError::OutOfBounds { index: 8, max_entries: 8 }
    );
    assert_eq!(
        arr.get(&mut kernel, &9, 0).err().unwrap(),
        MapError::OutOfBounds { index: 9, max_entries: 8 }
    );
    assert_eq!(
        arr.set(&mut kernel, 8, inner_a, 0).err().unwrap(),
        MapError::OutOfBounds { index: 8, max_entries: 8 }
    );
    assert_eq!(
        arr.delete(&mut kernel, &9).err().unwrap(),
        MapError::OutOfBounds { index: 9, max_entries: 8 }
    );

    // every index in [0, N) is accepted by set, then get and delete.
    for i in 0..8u32 {
        let (inner, _) = new_inner(&mut kernel);
        assert!(arr.set(&mut kernel, i, inner, 0).is_ok());
        let fd = arr.get(&mut kernel, &i, 0).unwrap();
        let _ = kernel.close(fd);
        assert!(arr.delete(&mut kernel, &i).is_ok());
    }
}

#[test]
fn check_bounds_splits_exactly_at_capacity() {
    let mut kernel = Kernel::new();
    let (arr, _) = loaded_array(&mut kernel, 3);
    assert!(arr.check_bounds(0).is_ok());
    assert!(arr.check_bounds(2).is_ok());
    assert_eq!(
        arr.check_bounds(3).err().unwrap(),
        MapError::OutOfBounds { index: 3, max_entries: 3 }
    );
}

#[test]
fn hash_round_trip_resolves_same_map_identity() {
    let mut kernel = Kernel::new();
    let (mut map, _) = loaded_hash_u64(&mut kernel, 8);
    let (inner_b, b_id) = new_inner(&mut kernel);
    let b_raw = inner_b.raw();

    map.insert(&mut kernel, 42u64, inner_b, 0).unwrap();
    let got = map.get(&mut kernel, &42u64, 0).unwrap();

    // the resolved descriptor references the same kernel map object,
    // through a different raw descriptor integer.
    assert_eq!(kernel.map_def(got).unwrap().id, b_id);
    assert_ne!(got, b_raw);
}

#[test]
fn unwritten_index_is_key_not_found() {
    let mut kernel = Kernel::new();
    let (arr, _) = loaded_array(&mut kernel, 8);
    assert_eq!(arr.get(&mut kernel, &5, 0).err().unwrap(), MapError::KeyNotFound);
}

#[test]
fn unwritten_key_is_key_not_found() {
    let mut kernel = Kernel::new();
    let (map, _) = loaded_hash_u64(&mut kernel, 8);
    assert_eq!(map.get(&mut kernel, &7u64, 0).err().unwrap(), MapError::KeyNotFound);
}

#[test]
fn set_consumes_and_closes_descriptor_on_success() {
    let mut kernel = Kernel::new();
    let (mut arr, _) = loaded_array(&mut kernel, 8);
    let (inner, _) = new_inner(&mut kernel);
    let raw = inner.raw();

    arr.set(&mut kernel, 1, inner, 0).unwrap();

    // the caller-supplied descriptor is gone: a close of it now is the
    // second close, and the kernel rejects it.
    assert_eq!(kernel.close(raw).err().unwrap(), EBADF);

    // the kernel's own reference is unaffected: the entry still resolves.
    let fd = arr.get(&mut kernel, &1, 0).unwrap();
    assert!(kernel.map_def(fd).is_ok());
}

#[test]
fn set_consumes_and_closes_descriptor_on_failure() {
    let mut kernel = Kernel::new();
    let (mut arr, _) = loaded_array(&mut kernel, 8);
    let (inner, _) = new_inner(&mut kernel);
    let raw = inner.raw();

    // out of bounds: the call fails, the descriptor is still consumed.
    assert!(arr.set(&mut kernel, 100, inner, 0).is_err());
    assert_eq!(kernel.close(raw).err().unwrap(), EBADF);
}

#[test]
fn insert_consumes_and_closes_descriptor_on_failure() {
    let mut kernel = Kernel::new();
    let (mut map, _) = loaded_hash_u64(&mut kernel, 8);
    let (inner, _) = new_inner(&mut kernel);
    let raw = inner.raw();

    // invalid update flags: the call fails, the descriptor is still consumed.
    let r = map.insert(&mut kernel, 1u64, inner, 9);
    assert_eq!(
        r.err().unwrap(),
        MapError::SyscallError { call: SyscallName::MapUpdateElem, errno: EINVAL }
    );
    assert_eq!(kernel.close(raw).err().unwrap(), EBADF);
}

#[test]
fn scenario_array_of_maps_install_resolve_delete() {
    let mut kernel = Kernel::new();
    let (mut arr, _) = loaded_array(&mut kernel, 8);
    let (inner_a, a_id) = new_inner(&mut kernel);

    arr.set(&mut kernel, 3, inner_a, 0).unwrap();
    let fd = arr.get(&mut kernel, &3, 0).unwrap();
    assert_eq!(kernel.map_def(fd).unwrap().id, a_id);

    arr.delete(&mut kernel, &3).unwrap();
    assert_eq!(arr.get(&mut kernel, &3, 0).err().unwrap(), MapError::KeyNotFound);
}

#[test]
fn scenario_hash_of_maps_iter_and_remove() {
    let mut kernel = Kernel::new();
    let (mut map, _) = loaded_hash_u64(&mut kernel, 8);
    let (inner_b, b_id) = new_inner(&mut kernel);

    map.insert(&mut kernel, 42u64, inner_b, 0).unwrap();

    let pairs = map.iter(&mut kernel).unwrap();
    assert_eq!(pairs.len(), 1);
    assert_eq!(pairs[0].0, 42u64);
    assert_eq!(kernel.map_def(pairs[0].1).unwrap().id, b_id);

    map.remove(&mut kernel, &42u64).unwrap();
    let pairs = map.iter(&mut kernel).unwrap();
    assert!(pairs.is_empty());
}

#[test]
fn keys_and_indices_report_installed_slots() {
    let mut kernel = Kernel::new();
    let (mut map, _) = loaded_hash_u64(&mut kernel, 8);
    let (b1, _) = new_inner(&mut kernel);
    let (b2, _) = new_inner(&mut kernel);
    map.insert(&mut kernel, 5u64, b1, 0).unwrap();
    map.insert(&mut kernel, 6u64, b2, 0).unwrap();
    let ks = map.keys(&kernel).unwrap();
    assert_eq!(ks, vec![5u64, 6u64]);

    let (mut arr, _) = loaded_array(&mut kernel, 8);
    let (a1, _) = new_inner(&mut kernel);
    arr.set(&mut kernel, 2, a1, 0).unwrap();
    let ix = arr.indices(&kernel).unwrap();
    assert_eq!(ix, vec![2u32]);
}

#[test]
fn update_flag_semantics_create_only_and_replace_only() {
    let mut kernel = Kernel::new();
    let (mut map, _) = loaded_hash_u64(&mut kernel, 8);

    // replace-only on an absent key fails with ENOENT.
    let (b, _) = new_inner(&mut kernel);
    let r = map.insert(&mut kernel, 1u64, b, 2);
    assert_eq!(
        r.err().unwrap(),
        MapError::SyscallError { call: SyscallName::MapUpdateElem, errno: ENOENT }
    );

    // create-only succeeds once, then fails with EEXIST.
    let (b, _) = new_inner(&mut kernel);
    map.insert(&mut kernel, 1u64, b, 1).unwrap();
    let (b, _) = new_inner(&mut kernel);
    let r = map.insert(&mut kernel, 1u64, b, 1);
    assert_eq!(
        r.err().unwrap(),
        MapError::SyscallError { call: SyscallName::MapUpdateElem, errno: EEXIST }
    );
}

#[test]
fn lookup_with_nonzero_flags_is_a_syscall_error() {
    let mut kernel = Kernel::new();
    let (arr, _) = loaded_array(&mut kernel, 8);
    let r = arr.get(&mut kernel, &0, 1);
    assert_eq!(
        r.err().unwrap(),
        MapError::SyscallError { call: SyscallName::MapLookupElem, errno: EINVAL }
    );
}

#[test]
fn delete_of_absent_entry_reports_the_syscall_error() {
    let mut kernel = Kernel::new();
    let (mut arr, _) = loaded_array(&mut kernel, 8);
    let r = arr.delete(&mut kernel, &4);
    assert_eq!(
        r.err().unwrap(),
        MapError::SyscallError { call: SyscallName::MapDeleteElem, errno: ENOENT }
    );
}

#[test]
fn fd_or_err_reports_the_live_descriptor() {
    let mut kernel = Kernel::new();
    let (arr, fd) = loaded_array(&mut kernel, 8);
    assert_eq!(arr.fd_or_err().unwrap(), fd);
    let (map, hfd) = loaded_hash_u64(&mut kernel, 8);
    assert_eq!(map.fd_or_err().unwrap(), hfd);
    let handle = MapHandle { def: outer_array_def(8), fd: None };
    assert_eq!(handle.fd_or_err().err().unwrap(), MapError::NotLoaded);
}

#[test]
fn embedded_array_descriptor_fields() {
    let a = ArrayOfMaps::with_max_entries(8, 3);
    let d = a.map_descriptor();
    assert_eq!(d.map_type, BPF_MAP_TYPE_ARRAY_OF_MAPS);
    assert_eq!(d.key_size, 4);
    assert_eq!(d.value_size, 4);
    assert_eq!(d.max_entries, 8);
    assert_eq!(d.map_flags, 3);
    assert_eq!(d.id, 0);
    assert_eq!(d.pinning, PINNING_NONE);

    let p = ArrayOfMaps::pinned(16, 0);
    let d = p.map_descriptor();
    assert_eq!(d.pinning, PINNING_BY_NAME);
    assert_eq!(d.max_entries, 16);
}

#[test]
fn embedded_hash_descriptor_fields() {
    let h = HashOfMaps::<u64>::with_max_entries(32, 1);
    let d = h.map_descriptor();
    assert_eq!(d.map_type, BPF_MAP_TYPE_HASH_OF_MAPS);
    assert_eq!(d.key_size, 8);
    assert_eq!(d.value_size, 4);
    assert_eq!(d.max_entries, 32);
    assert_eq!(d.map_flags, 1);
    assert_eq!(d.pinning, PINNING_NONE);

    let p = HashOfMaps::<u32>::pinned(32, 0);
    let d = p.map_descriptor();
    assert_eq!(d.key_size, 4);
    assert_eq!(d.pinning, PINNING_BY_NAME);
}

#[test]
fn embedded_lookup_resolves_userspace_installed_entry() {
    let mut kernel = Kernel::new();
    let (mut arr, outer_fd) = loaded_array(&mut kernel, 8);
    let outer_id = kernel.map_def(outer_fd).unwrap().id;
    let (inner_a, a_id) = new_inner(&mut kernel);
    arr.set(&mut kernel, 3, inner_a, 0).unwrap();

    // the program-side wrapper, once loaded against the same outer map,
    // resolves the entry userspace installed — read-only, no descriptor.
    let prog = ArrayOfMaps::with_max_entries(8, 0).loaded(outer_id);
    assert_eq!(prog.get(&kernel, 3), Some(a_id));
    assert_eq!(prog.get(&kernel, 4), None);

    // an unloaded embedded descriptor resolves nothing.
    let unloaded = ArrayOfMaps::with_max_entries(8, 0);
    assert_eq!(unloaded.get(&kernel, 3), None);
}

#[test]
fn embedded_hash_lookup_resolves_userspace_installed_entry() {
    let mut kernel = Kernel::new();
    let (mut map, outer_fd) = loaded_hash_u64(&mut kernel, 8);
    let outer_id = kernel.map_def(outer_fd).unwrap().id;
    let (inner_b, b_id) = new_inner(&mut kernel);
    map.insert(&mut kernel, 42u64, inner_b, 0).unwrap();

    let prog = HashOfMaps::<u64>::with_max_entries(8, 0).loaded(outer_id);
    assert_eq!(prog.get(&kernel, &42u64), Some(b_id));
    assert_eq!(prog.get(&kernel, &41u64), None);
}

#[test]
fn pod_encodings_are_little_endian_and_round_trip() {
    let x: u32 = 0x0403_0201;
    assert_eq!(x.to_bytes(), vec![1, 2, 3, 4]);
    assert_eq!(u32::of_bytes(&vec![1, 2, 3, 4]), x);
    assert_eq!(u32::key_size(), 4);

    let y: u64 = 0x0807_0605_0403_0201;
    assert_eq!(y.to_bytes(), vec![1, 2, 3, 4, 5, 6, 7, 8]);
    assert_eq!(u64::of_bytes(&vec![1, 2, 3, 4, 5, 6, 7, 8]), y);
    assert_eq!(u64::key_size(), 8);
}

#[test]
fn last_write_wins_on_the_same_slot() {
    let mut kernel = Kernel::new();
    let (mut arr, _) = loaded_array(&mut kernel, 8);
    let (a1, _) = new_inner(&mut kernel);
    let (a2, id2) = new_inner(&mut kernel);
    arr.set(&mut kernel, 0, a1, 0).unwrap();
    arr.set(&mut kernel, 0, a2, 0).unwrap();
    let fd = arr.get(&mut kernel, &0, 0).unwrap();
    assert_eq!(kernel.map_def(fd).unwrap().id, id2);
}

#[test]
fn installing_a_closed_descriptor_is_a_syscall_error() {
    let mut kernel = Kernel::new();
    let (mut arr, _) = loaded_array(&mut kernel, 8);
    let (inner, _) = new_inner(&mut kernel);
    let raw = inner.raw();
    kernel.close(raw).unwrap();

    let r = arr.set(&mut kernel, 0, inner, 0);
    assert_eq!(
        r.err().unwrap(),
        MapError::SyscallError { call: SyscallName::MapUpdateElem, errno: EBADF }
    );
    // nothing was installed
    assert_eq!(arr.get(&mut kernel, &0, 0).err().unwrap(), MapError::KeyNotFound);
}

#[test]
fn kernel_rejects_array_update_at_or_past_capacity() {
    let mut kernel = Kernel::new();
    let (_, outer_fd) = loaded_array(&mut kernel, 8);
    let (inner, _) = new_inner(&mut kernel);
    let raw = inner.into_raw();

    // even through the raw update call, an array entry cannot be installed
    // at or past the declared capacity: the kernel's bound error comes back
    // and no index at or past the capacity is ever reported.
    let key9 = 9u32.to_bytes();
    assert_eq!(kernel.update_elem(outer_fd, &key9, raw, 0).err().unwrap(), E2BIG);
    let key8 = 8u32.to_bytes();
    assert_eq!(kernel.update_elem(outer_fd, &key8, raw, 0).err().unwrap(), E2BIG);
    let key7 = 7u32.to_bytes();
    assert!(kernel.update_elem(outer_fd, &key7, raw, 0).is_ok());

    let stored = kernel.map_def(outer_fd).unwrap();
    let arr = Array::new(MapHandle { def: stored, fd: Some(outer_fd) }).unwrap();
    let ix = arr.indices(&kernel).unwrap();
    assert_eq!(ix, vec![7u32]);
    assert!(ix.iter().all(|i| *i < 8));
}

#[test]
fn full_hash_of_maps_rejects_a_new_key() {
    let mut kernel = Kernel::new();
    let (mut map, _) = loaded_hash_u64(&mut kernel, 2);
    let (b1, _) = new_inner(&mut kernel);
    let (b2, id2) = new_inner(&mut kernel);
    let (b3, _) = new_inner(&mut kernel);
    let (b4, id4) = new_inner(&mut kernel);

    map.insert(&mut kernel, 1u64, b1, 0).unwrap();
    map.insert(&mut kernel, 2u64, b2, 0).unwrap();

    // a third key exceeds the declared capacity; replacing an existing key
    // still succeeds.
    let r = map.insert(&mut kernel, 3u64, b3, 0);
    assert_eq!(
        r.err().unwrap(),
        MapError::SyscallError { call: SyscallName::MapUpdateElem, errno: E2BIG }
    );
    map.insert(&mut kernel, 2u64, b4, 0).unwrap();
    let got = map.get(&mut kernel, &2u64, 0).unwrap();
    assert_eq!(kernel.map_def(got).unwrap().id, id4);
    assert_ne!(id2, id4);
}
