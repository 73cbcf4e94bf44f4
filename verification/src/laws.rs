//! The laws the outer maps obey, stated over the spec functions the
//! wrappers' contracts use and proved once for all inputs.

use vstd::prelude::*;

use crate::array::Array;
use crate::defs::OUTER_KV_SIZE;
use crate::errors::MapError;
use crate::hash_map::HashMap;
use crate::kernel::{
    entries_remove, entries_unique, entries_update, entry_index, lemma_entry_index,
    lemma_entry_index_is, lookup_entries, EntryView, Kernel,
};
use crate::pod::{u32_le_bytes, Pod};

verus! {

/// Round trip: installing `v` under `k` makes a lookup of `k` resolve to
/// exactly `v`, keeps every other key's entry untouched, and keeps the keys
/// unique.
pub proof fn lemma_install_then_lookup(s: Seq<EntryView>, k: Seq<u8>, v: u32)
    requires
        entries_unique(s),
    ensures
        lookup_entries(entries_update(s, k, v), k) == Some(v),
        entries_unique(entries_update(s, k, v)),
        forall|k2: Seq<u8>|
            k2 != k ==> #[trigger] lookup_entries(entries_update(s, k, v), k2) == lookup_entries(
                s,
                k2,
            ),
{
    let t = entries_update(s, k, v);
    let fm = entry_index(s, k);
    lemma_entry_index(s, k);
    if fm >= 0 {
        lemma_entry_index_is(t, k, fm);
    } else {
        lemma_entry_index_is(t, k, s.len() as int);
    }
    assert forall|k2: Seq<u8>| k2 != k implies #[trigger] lookup_entries(t, k2) == lookup_entries(
        s,
        k2,
    ) by {
        let w = entry_index(s, k2);
        lemma_entry_index(s, k2);
        if w >= 0 {
            lemma_entry_index_is(t, k2, w);
        } else {
            lemma_entry_index(t, k2);
            if entry_index(t, k2) >= 0 {
                assert(t[entry_index(t, k2)].key == k2);
                assert(false);
            }
        }
    }
}

/// Deleting `k` makes a lookup of `k` miss, keeps every other key's entry
/// untouched, and keeps the keys unique.
pub proof fn lemma_remove_then_lookup(s: Seq<EntryView>, k: Seq<u8>)
    requires
        entries_unique(s),
    ensures
        lookup_entries(entries_remove(s, k), k) == None::<u32>,
        entries_unique(entries_remove(s, k)),
        forall|k2: Seq<u8>|
            k2 != k ==> #[trigger] lookup_entries(entries_remove(s, k), k2) == lookup_entries(
                s,
                k2,
            ),
{
    let fm = entry_index(s, k);
    lemma_entry_index(s, k);
    if fm < 0 {
    } else {
        let t = s.remove(fm);
        assert forall|a: int, b: int| 0 <= a < b < t.len() implies t[a].key != t[b].key by {
            let a2: int = if a < fm {
                a
            } else {
                a + 1
            };
            let b2: int = if b < fm {
                b
            } else {
                b + 1
            };
            assert(t[a] == s[a2] && t[b] == s[b2]);
        }
        assert forall|j: int| 0 <= j < t.len() implies t[j].key != k by {
            let j2: int = if j < fm {
                j
            } else {
                j + 1
            };
            assert(t[j] == s[j2]);
        }
        lemma_entry_index(t, k);
        if entry_index(t, k) >= 0 {
            assert(false);
        }
        assert forall|k2: Seq<u8>| k2 != k implies #[trigger] lookup_entries(t, k2)
            == lookup_entries(s, k2) by {
            let w = entry_index(s, k2);
            lemma_entry_index(s, k2);
            if w >= 0 {
                let w2: int = if w < fm {
                    w
                } else {
                    w - 1
                };
                assert(t[w2] == s[w]);
                assert forall|j: int| 0 <= j < w2 implies t[j].key != k2 by {
                    let j2: int = if j < fm {
                        j
                    } else {
                        j + 1
                    };
                    assert(t[j] == s[j2]);
                }
                lemma_entry_index_is(t, k2, w2);
            } else {
                assert forall|j: int| 0 <= j < t.len() implies t[j].key != k2 by {
                    let j2: int = if j < fm {
                        j
                    } else {
                        j + 1
                    };
                    assert(t[j] == s[j2]);
                }
                lemma_entry_index(t, k2);
                if entry_index(t, k2) >= 0 {
                    assert(false);
                }
            }
        }
    }
}

/// Round trip at the wrapper level: in any well-formed state reached by
/// installing the inner map `vid` under `key` — exactly what a successful
/// `insert` leaves behind — a `get` of `key` resolves to `vid`, the
/// installed map's kernel identifier, provided a descriptor is left to
/// materialize it with.
pub proof fn lemma_hash_insert_then_get<K: Pod>(
    m: HashMap<K>,
    pre: Kernel,
    post: Kernel,
    key: K,
    vid: u32,
)
    requires
        m.wf(),
        pre.wf(),
        post.wf(),
        pre.fd_open(m.fd()),
        pre.object_def(pre.fd_id(m.fd())).key_size == K::spec_key_size(),
        post.fd_open(m.fd()),
        post.fd_id(m.fd()) == pre.fd_id(m.fd()),
        post.object_def(post.fd_id(m.fd())) == pre.object_def(pre.fd_id(m.fd())),
        post.entries_of(post.fd_id(m.fd())) == entries_update(
            pre.entries_of(pre.fd_id(m.fd())),
            key.as_bytes(),
            vid,
        ),
        post.fd_space_left(),
    ensures
        m.spec_get(post, key, 0) == Ok::<u32, MapError>(vid),
{
    let oid = pre.fd_id(m.fd());
    key.lemma_bytes_roundtrip();
    pre.lemma_wf_entries(oid);
    lemma_install_then_lookup(pre.entries_of(oid), key.as_bytes(), vid);
    post.lemma_wf_entries(oid);
    crate::kernel::lemma_wf_entry_values_live(post, oid, key.as_bytes(), vid);
}

/// Round trip at the wrapper level for the dense array: in any well-formed
/// state reached by installing the inner map `vid` at an in-bounds `index`,
/// a `get` of `index` resolves to `vid`.
pub proof fn lemma_array_set_then_get(a: Array, pre: Kernel, post: Kernel, index: u32, vid: u32)
    requires
        a.wf(),
        pre.wf(),
        post.wf(),
        a.in_bounds(index),
        pre.fd_open(a.fd()),
        pre.object_def(pre.fd_id(a.fd())).key_size == OUTER_KV_SIZE,
        post.fd_open(a.fd()),
        post.fd_id(a.fd()) == pre.fd_id(a.fd()),
        post.object_def(post.fd_id(a.fd())) == pre.object_def(pre.fd_id(a.fd())),
        post.entries_of(post.fd_id(a.fd())) == entries_update(
            pre.entries_of(pre.fd_id(a.fd())),
            u32_le_bytes(index),
            vid,
        ),
        post.fd_space_left(),
    ensures
        a.spec_get(post, index, 0) == Ok::<u32, MapError>(vid),
{
    let oid = pre.fd_id(a.fd());
    pre.lemma_wf_entries(oid);
    lemma_install_then_lookup(pre.entries_of(oid), u32_le_bytes(index), vid);
    post.lemma_wf_entries(oid);
    crate::kernel::lemma_wf_entry_values_live(post, oid, u32_le_bytes(index), vid);
}

/// Deletion law for the dense array: in any well-formed state reached by
/// deleting an in-bounds `index` — exactly what a successful `delete` leaves
/// behind — a `get` of `index` reports `KeyNotFound`.
pub proof fn lemma_array_delete_then_get(a: Array, pre: Kernel, post: Kernel, index: u32)
    requires
        a.wf(),
        pre.wf(),
        a.in_bounds(index),
        pre.fd_open(a.fd()),
        pre.object_def(pre.fd_id(a.fd())).key_size == OUTER_KV_SIZE,
        post.fd_open(a.fd()),
        post.fd_id(a.fd()) == pre.fd_id(a.fd()),
        post.object_def(post.fd_id(a.fd())) == pre.object_def(pre.fd_id(a.fd())),
        post.entries_of(post.fd_id(a.fd())) == entries_remove(
            pre.entries_of(pre.fd_id(a.fd())),
            u32_le_bytes(index),
        ),
    ensures
        a.spec_get(post, index, 0) == Err::<u32, MapError>(MapError::KeyNotFound),
{
    let oid = pre.fd_id(a.fd());
    pre.lemma_wf_entries(oid);
    lemma_remove_then_lookup(pre.entries_of(oid), u32_le_bytes(index));
}

/// Bounds law for the dense array: with a declared capacity, `get`, `set`
/// and `delete` decide `OutOfBounds` — carrying the index and the capacity —
/// exactly for the indices at or beyond it, whatever the kernel state.
pub proof fn lemma_array_bounds(a: Array, k: Kernel, index: u32, value_fd: i32, flags: u64)
    requires
        a.wf(),
    ensures
        (a.spec_get(k, index, flags) == Err::<u32, MapError>(
            MapError::OutOfBounds { index, max_entries: a.max_entries() },
        )) <==> index >= a.max_entries(),
        (a.spec_set(k, index, value_fd, flags) == Err::<u32, MapError>(
            MapError::OutOfBounds { index, max_entries: a.max_entries() },
        )) <==> index >= a.max_entries(),
        (a.spec_delete(k, index) == Err::<(), MapError>(
            MapError::OutOfBounds { index, max_entries: a.max_entries() },
        )) <==> index >= a.max_entries(),
{
}

/// A miss on an in-bounds array index is reported as `KeyNotFound`, never as
/// a raw system-call error: the lookup call itself succeeded.
pub proof fn lemma_array_miss_is_key_not_found(a: Array, k: Kernel, index: u32)
    requires
        a.wf(),
        a.in_bounds(index),
        k.fd_open(a.fd()),
        k.object_def(k.fd_id(a.fd())).key_size == OUTER_KV_SIZE,
        lookup_entries(k.entries_of(k.fd_id(a.fd())), u32_le_bytes(index)) == None::<u32>,
    ensures
        a.spec_get(k, index, 0) == Err::<u32, MapError>(MapError::KeyNotFound),
{
}

/// A miss on a hash key is reported as `KeyNotFound`, never as a raw
/// system-call error: the lookup call itself succeeded.
pub proof fn lemma_hash_miss_is_key_not_found<K: Pod>(m: HashMap<K>, k: Kernel, key: K)
    requires
        m.wf(),
        k.fd_open(m.fd()),
        k.object_def(k.fd_id(m.fd())).key_size == key.as_bytes().len(),
        lookup_entries(k.entries_of(k.fd_id(m.fd())), key.as_bytes()) == None::<u32>,
    ensures
        m.spec_get(k, key, 0) == Err::<u32, MapError>(MapError::KeyNotFound),
{
}

} // verus!
