//! A model of the kernel's map subsystem as one process observes it through
//! the map-of-maps system-call surface.
//!
//! [`Kernel`] holds the loaded map objects (each with its descriptor and its
//! outer-map entries), the process's open file descriptors, and the counters
//! the kernel draws fresh descriptors and identifiers from. Every operation
//! the outer-map wrappers perform — element lookup, update, delete, id-to-fd
//! resolution, key iteration, closing a descriptor — is specified here
//! exactly, so the wrappers' own contracts can be proved against it.
//!
//! The model is deliberately scoped to this subsystem: map objects stay live
//! while the model runs (an installed entry holds the kernel's own reference
//! to its inner map), and descriptor numbers grow monotonically, so a
//! descriptor is never reused within one model run.

use vstd::prelude::*;

use crate::defs::{MapDescriptor, BPF_MAP_TYPE_ARRAY_OF_MAPS, OUTER_KV_SIZE};
use crate::errors::{E2BIG, EBADF, EEXIST, EINVAL, EMFILE, ENOENT, ENOMEM};
use crate::pod::{u32_of_le_bytes, Pod};

verus! {

/// One outer-map slot as contracts see it: the key's bytes and the inner
/// map's kernel-assigned identifier.
pub ghost struct EntryView {
    pub key: Seq<u8>,
    pub value: u32,
}

/// The index of the first entry with key `k`, or `-1` if none has it.
pub open spec fn entry_index(s: Seq<EntryView>, k: Seq<u8>) -> int
    decreases s.len(),
{
    if s.len() == 0 {
        -1
    } else if s[0].key == k {
        0
    } else if entry_index(s.drop_first(), k) < 0 {
        -1
    } else {
        entry_index(s.drop_first(), k) + 1
    }
}

/// What `entry_index` finds: either no entry has the key, or the returned
/// index is the first that does.
pub proof fn lemma_entry_index(s: Seq<EntryView>, k: Seq<u8>)
    ensures
        entry_index(s, k) < 0 ==> forall|i: int| 0 <= i < s.len() ==> s[i].key != k,
        entry_index(s, k) >= 0 ==> entry_index(s, k) < s.len() && s[entry_index(s, k)].key == k
            && forall|i: int| 0 <= i < entry_index(s, k) ==> s[i].key != k,
    decreases s.len(),
{
    if s.len() == 0 {
    } else if s[0].key == k {
    } else {
        lemma_entry_index(s.drop_first(), k);
        assert forall|i: int| 1 <= i < s.len() implies s.drop_first()[i - 1] == s[i] by {}
    }
}

/// `entry_index` is exactly the position of the first match.
pub proof fn lemma_entry_index_is(s: Seq<EntryView>, k: Seq<u8>, i: int)
    requires
        0 <= i < s.len(),
        s[i].key == k,
        forall|j: int| 0 <= j < i ==> s[j].key != k,
    ensures
        entry_index(s, k) == i,
{
    lemma_entry_index(s, k);
}

/// The inner map identifier stored under `k`, if any entry holds it.
pub open spec fn lookup_entries(s: Seq<EntryView>, k: Seq<u8>) -> Option<u32> {
    if entry_index(s, k) >= 0 {
        Some(s[entry_index(s, k)].value)
    } else {
        None
    }
}

/// The entries after installing `v` under `k`: the existing slot is
/// replaced, or a new slot is appended.
pub open spec fn entries_update(s: Seq<EntryView>, k: Seq<u8>, v: u32) -> Seq<EntryView> {
    if entry_index(s, k) >= 0 {
        s.update(entry_index(s, k), EntryView { key: k, value: v })
    } else {
        s.push(EntryView { key: k, value: v })
    }
}

/// The entries after deleting the slot under `k`, if one holds it.
pub open spec fn entries_remove(s: Seq<EntryView>, k: Seq<u8>) -> Seq<EntryView> {
    if entry_index(s, k) >= 0 {
        s.remove(entry_index(s, k))
    } else {
        s
    }
}

/// No two entries share a key.
pub open spec fn entries_unique(s: Seq<EntryView>) -> bool {
    forall|i: int, j: int| 0 <= i < j < s.len() ==> s[i].key != s[j].key
}

/// One outer-map slot: the key's bytes and the inner map's identifier.
pub struct MapEntry {
    pub key: Vec<u8>,
    pub value: u32,
}

impl View for MapEntry {
    type V = EntryView;

    open spec fn view(&self) -> EntryView {
        EntryView { key: self.key@, value: self.value }
    }
}

/// The views of a run of entries, in slot order.
pub open spec fn entries_view(s: Seq<MapEntry>) -> Seq<EntryView> {
    s.map_values(|e: MapEntry| e@)
}

/// Viewing entries is index-by-index.
pub proof fn lemma_entries_view_index(s: Seq<MapEntry>)
    ensures
        entries_view(s).len() == s.len(),
        forall|j: int| 0 <= j < s.len() ==> entries_view(s)[j] == s[j]@,
{
}

/// A loaded kernel map object: its assigned identifier, its descriptor, and
/// its outer-map entries.
pub struct MapObject {
    pub id: u32,
    pub def: MapDescriptor,
    pub entries: Vec<MapEntry>,
}

/// One open file descriptor of the process, and the map object it references.
pub struct FdEntry {
    pub fd: i32,
    pub id: u32,
}

/// The index of the first object with identifier `id`, or `-1`.
pub open spec fn obj_index_in(s: Seq<MapObject>, id: u32) -> int
    decreases s.len(),
{
    if s.len() == 0 {
        -1
    } else if s[0].id == id {
        0
    } else if obj_index_in(s.drop_first(), id) < 0 {
        -1
    } else {
        obj_index_in(s.drop_first(), id) + 1
    }
}

proof fn lemma_obj_index(s: Seq<MapObject>, id: u32)
    ensures
        obj_index_in(s, id) < 0 ==> forall|i: int| 0 <= i < s.len() ==> s[i].id != id,
        obj_index_in(s, id) >= 0 ==> obj_index_in(s, id) < s.len() && s[obj_index_in(s, id)].id
            == id && forall|i: int| 0 <= i < obj_index_in(s, id) ==> s[i].id != id,
    decreases s.len(),
{
    if s.len() == 0 {
    } else if s[0].id == id {
    } else {
        lemma_obj_index(s.drop_first(), id);
        assert forall|i: int| 1 <= i < s.len() implies s.drop_first()[i - 1] == s[i] by {}
    }
}

/// The index of the first descriptor-table row for `fd`, or `-1`.
pub open spec fn fd_index_in(s: Seq<FdEntry>, fd: i32) -> int
    decreases s.len(),
{
    if s.len() == 0 {
        -1
    } else if s[0].fd == fd {
        0
    } else if fd_index_in(s.drop_first(), fd) < 0 {
        -1
    } else {
        fd_index_in(s.drop_first(), fd) + 1
    }
}

proof fn lemma_fd_index(s: Seq<FdEntry>, fd: i32)
    ensures
        fd_index_in(s, fd) < 0 ==> forall|i: int| 0 <= i < s.len() ==> s[i].fd != fd,
        fd_index_in(s, fd) >= 0 ==> fd_index_in(s, fd) < s.len() && s[fd_index_in(s, fd)].fd == fd
            && forall|i: int| 0 <= i < fd_index_in(s, fd) ==> s[i].fd != fd,
    decreases s.len(),
{
    if s.len() == 0 {
    } else if s[0].fd == fd {
    } else {
        lemma_fd_index(s.drop_first(), fd);
        assert forall|i: int| 1 <= i < s.len() implies s.drop_first()[i - 1] == s[i] by {}
    }
}

/// A file descriptor owned by the caller: moving it into `set`/`insert`
/// consumes it, so the one local duplicate can only be released once.
pub struct MapFd {
    raw: i32,
}

impl View for MapFd {
    type V = i32;

    closed spec fn view(&self) -> i32 {
        self.raw
    }
}

impl MapFd {
    /// Takes ownership of a raw descriptor number.
    pub fn from_raw(raw: i32) -> (r: MapFd)
        ensures
            r@ == raw,
    {
        MapFd { raw }
    }

    /// The descriptor number; consumes the owner.
    pub fn into_raw(self) -> (r: i32)
        ensures
            r == self@,
    {
        self.raw
    }

    /// The descriptor number, read without giving up ownership.
    pub fn raw(&self) -> (r: i32)
        ensures
            r == self@,
    {
        self.raw
    }
}

/// The kernel's map subsystem as this process observes it.
pub struct Kernel {
    objects: Vec<MapObject>,
    fds: Vec<FdEntry>,
    next_fd: i32,
    next_id: u32,
}

impl Kernel {
    /// A loaded object with identifier `id` exists.
    pub closed spec fn has_object(self, id: u32) -> bool {
        obj_index_in(self.objects@, id) >= 0
    }

    /// The descriptor record of the object with identifier `id`.
    pub closed spec fn object_def(self, id: u32) -> MapDescriptor {
        self.objects@[obj_index_in(self.objects@, id)].def
    }

    /// The outer-map entries of the object with identifier `id`.
    pub closed spec fn entries_of(self, id: u32) -> Seq<EntryView> {
        if self.has_object(id) {
            entries_view(self.objects@[obj_index_in(self.objects@, id)].entries@)
        } else {
            Seq::empty()
        }
    }

    /// The file descriptor `fd` is open in this process.
    pub closed spec fn fd_open(self, fd: i32) -> bool {
        fd_index_in(self.fds@, fd) >= 0
    }

    /// The identifier of the map object that open descriptor `fd` references.
    pub closed spec fn fd_id(self, fd: i32) -> u32 {
        self.fds@[fd_index_in(self.fds@, fd)].id
    }

    /// Room is left to hand out one more file descriptor.
    pub closed spec fn fd_space_left(self) -> bool {
        self.next_fd < i32::MAX
    }

    /// How many more file descriptors can be handed out.
    pub closed spec fn fd_headroom(self) -> int {
        i32::MAX - self.next_fd
    }

    /// Room is left to assign one more map identifier.
    pub closed spec fn id_space_left(self) -> bool {
        self.next_id < u32::MAX
    }

    /// The internal consistency of the model.
    pub closed spec fn wf(self) -> bool {
        &&& forall|i: int, j: int|
            0 <= i < j < self.objects@.len() ==> self.objects@[i].id != self.objects@[j].id
        &&& forall|i: int, j: int|
            0 <= i < j < self.fds@.len() ==> self.fds@[i].fd != self.fds@[j].fd
        &&& forall|i: int|
            0 <= i < self.fds@.len() ==> obj_index_in(self.objects@, #[trigger] self.fds@[i].id)
                >= 0
        &&& forall|i: int|
            0 <= i < self.fds@.len() ==> 0 <= #[trigger] self.fds@[i].fd < self.next_fd
        &&& forall|i: int|
            0 <= i < self.objects@.len() ==> 1 <= #[trigger] self.objects@[i].id < self.next_id
        &&& forall|i: int|
            0 <= i < self.objects@.len() ==> (#[trigger] self.objects@[i]).def.id
                == self.objects@[i].id
        &&& forall|i: int|
            0 <= i < self.objects@.len() ==> entries_unique(
                entries_view(#[trigger] self.objects@[i].entries@),
            )
        &&& forall|i: int, j: int|
            0 <= i < self.objects@.len() && 0 <= j < self.objects@[i].entries@.len()
                ==> (#[trigger] self.objects@[i].entries@[j]).key@.len()
                == self.objects@[i].def.key_size
        &&& forall|i: int, j: int|
            0 <= i < self.objects@.len() && 0 <= j < self.objects@[i].entries@.len()
                ==> obj_index_in(self.objects@, (#[trigger] self.objects@[i].entries@[j]).value)
                >= 0
        &&& forall|i: int, j: int|
            0 <= i < self.objects@.len() && 0 <= j < self.objects@[i].entries@.len()
                && self.objects@[i].def.map_type == BPF_MAP_TYPE_ARRAY_OF_MAPS
                && self.objects@[i].def.key_size == OUTER_KV_SIZE ==> u32_of_le_bytes(
                (#[trigger] self.objects@[i].entries@[j]).key@,
            ) < self.objects@[i].def.max_entries
        &&& forall|i: int|
            0 <= i < self.objects@.len() ==> (#[trigger] self.objects@[i]).entries@.len()
                <= self.objects@[i].def.max_entries
        &&& 0 <= self.next_fd
        &&& 1 <= self.next_id
    }

    /// An empty subsystem: no objects, no open descriptors.
    pub fn new() -> (r: Kernel)
        ensures
            r.wf(),
            forall|id: u32| !r.has_object(id),
            forall|fd: i32| !r.fd_open(fd),
    {
        let r = Kernel { objects: Vec::new(), fds: Vec::new(), next_fd: 3, next_id: 1 };
        proof {
            assert forall|id: u32| !r.has_object(id) by {
                lemma_obj_index(r.objects@, id);
            }
            assert forall|fd: i32| !r.fd_open(fd) by {
                lemma_fd_index(r.fds@, fd);
            }
        }
        r
    }
}

/// In a well-formed model, an identifier stored in any object's entries
/// names a live object.
pub proof fn lemma_wf_entry_values_live(k: Kernel, id: u32, key: Seq<u8>, v: u32)
    requires
        k.wf(),
        lookup_entries(k.entries_of(id), key) == Some(v),
    ensures
        k.has_object(v),
{
    k.lemma_wf_entries(id);
    lemma_entry_index(k.entries_of(id), key);
}

/// The two states hold the same objects, with the same descriptors and the
/// same entries.
pub open spec fn same_objects(pre: Kernel, post: Kernel) -> bool {
    &&& forall|id: u32| #[trigger] post.has_object(id) == pre.has_object(id)
    &&& forall|id: u32| pre.has_object(id) ==> #[trigger] post.object_def(id) == pre.object_def(id)
    &&& forall|id: u32| #[trigger] post.entries_of(id) == pre.entries_of(id)
}

/// The objects agree, except that the entries of `id0` may differ.
pub open spec fn objects_except_entries(pre: Kernel, post: Kernel, id0: u32) -> bool {
    &&& forall|id: u32| #[trigger] post.has_object(id) == pre.has_object(id)
    &&& forall|id: u32| pre.has_object(id) ==> #[trigger] post.object_def(id) == pre.object_def(id)
    &&& forall|id: u32| id != id0 ==> #[trigger] post.entries_of(id) == pre.entries_of(id)
}

/// The objects agree, except that `id0` may have been added.
pub open spec fn objects_added(pre: Kernel, post: Kernel, id0: u32) -> bool {
    &&& forall|id: u32| id != id0 ==> #[trigger] post.has_object(id) == pre.has_object(id)
    &&& forall|id: u32|
        id != id0 && pre.has_object(id) ==> #[trigger] post.object_def(id) == pre.object_def(id)
    &&& forall|id: u32| id != id0 ==> #[trigger] post.entries_of(id) == pre.entries_of(id)
}

/// The open descriptors and their targets agree.
pub open spec fn same_fds(pre: Kernel, post: Kernel) -> bool {
    &&& forall|fd: i32| #[trigger] post.fd_open(fd) == pre.fd_open(fd)
    &&& forall|fd: i32| pre.fd_open(fd) ==> #[trigger] post.fd_id(fd) == pre.fd_id(fd)
}

/// The open descriptors and their targets agree, except possibly at `fd0`.
pub open spec fn fds_except(pre: Kernel, post: Kernel, fd0: i32) -> bool {
    &&& forall|fd: i32| fd != fd0 ==> #[trigger] post.fd_open(fd) == pre.fd_open(fd)
    &&& forall|fd: i32|
        fd != fd0 && pre.fd_open(fd) ==> #[trigger] post.fd_id(fd) == pre.fd_id(fd)
}

/// Every descriptor open before is still open, with the same target.
pub open spec fn fds_preserved(pre: Kernel, post: Kernel) -> bool {
    &&& forall|fd: i32| pre.fd_open(fd) ==> #[trigger] post.fd_open(fd)
    &&& forall|fd: i32| pre.fd_open(fd) ==> #[trigger] post.fd_id(fd) == pre.fd_id(fd)
}

proof fn lemma_fd_index_is(s: Seq<FdEntry>, fd: i32, i: int)
    requires
        0 <= i < s.len(),
        s[i].fd == fd,
        forall|j: int| 0 <= j < i ==> s[j].fd != fd,
    ensures
        fd_index_in(s, fd) == i,
{
    lemma_fd_index(s, fd);
}

proof fn lemma_fd_index_none(s: Seq<FdEntry>, fd: i32)
    requires
        forall|j: int| 0 <= j < s.len() ==> s[j].fd != fd,
    ensures
        fd_index_in(s, fd) < 0,
{
    lemma_fd_index(s, fd);
}

proof fn lemma_obj_index_is(s: Seq<MapObject>, id: u32, i: int)
    requires
        0 <= i < s.len(),
        s[i].id == id,
        forall|j: int| 0 <= j < i ==> s[j].id != id,
    ensures
        obj_index_in(s, id) == i,
{
    lemma_obj_index(s, id);
}

proof fn lemma_obj_index_none(s: Seq<MapObject>, id: u32)
    requires
        forall|j: int| 0 <= j < s.len() ==> s[j].id != id,
    ensures
        obj_index_in(s, id) < 0,
{
    lemma_obj_index(s, id);
}

/// Appending a row for a descriptor no row holds leaves every other
/// descriptor's row where it was.
proof fn lemma_fd_push(s: Seq<FdEntry>, e: FdEntry)
    requires
        forall|j: int| 0 <= j < s.len() ==> s[j].fd != e.fd,
    ensures
        fd_index_in(s.push(e), e.fd) == s.len(),
        forall|fd: i32| fd != e.fd ==> fd_index_in(s.push(e), fd) == fd_index_in(s, fd),
{
    lemma_fd_index_is(s.push(e), e.fd, s.len() as int);
    assert forall|fd: i32| fd != e.fd implies fd_index_in(s.push(e), fd) == fd_index_in(s, fd) by {
        lemma_fd_index(s, fd);
        if fd_index_in(s, fd) >= 0 {
            lemma_fd_index_is(s.push(e), fd, fd_index_in(s, fd));
        } else {
            lemma_fd_index_none(s.push(e), fd);
        }
    }
}

/// Removing one descriptor's row leaves every other descriptor open exactly
/// as before, with the same target.
proof fn lemma_fd_remove(s: Seq<FdEntry>, i: int)
    requires
        0 <= i < s.len(),
        forall|a: int, b: int| 0 <= a < b < s.len() ==> s[a].fd != s[b].fd,
    ensures
        fd_index_in(s.remove(i), s[i].fd) < 0,
        forall|fd: i32|
            fd != s[i].fd ==> ((fd_index_in(s.remove(i), fd) >= 0) == (fd_index_in(s, fd) >= 0)),
        forall|fd: i32|
            fd != s[i].fd && fd_index_in(s, fd) >= 0 ==> s.remove(i)[fd_index_in(s.remove(i), fd)].id
                == s[fd_index_in(s, fd)].id,
{
    let t = s.remove(i);
    assert forall|j: int| 0 <= j < t.len() implies t[j].fd != s[i].fd by {}
    lemma_fd_index_none(t, s[i].fd);
    assert forall|fd: i32| fd != s[i].fd implies ((fd_index_in(t, fd) >= 0) == (fd_index_in(s, fd)
        >= 0)) && (fd_index_in(s, fd) >= 0 ==> t[fd_index_in(t, fd)].id == s[fd_index_in(s, fd)].id)
        by {
        lemma_fd_index(s, fd);
        if fd_index_in(s, fd) >= 0 {
            let w = fd_index_in(s, fd);
            if w < i {
                lemma_fd_index_is(t, fd, w);
            } else {
                lemma_fd_index_is(t, fd, w - 1);
            }
        } else {
            lemma_fd_index_none(t, fd);
        }
    }
}

/// Replacing one object with one of the same identifier moves no object's
/// position.
proof fn lemma_obj_update(s: Seq<MapObject>, i: int, o: MapObject)
    requires
        0 <= i < s.len(),
        o.id == s[i].id,
    ensures
        forall|id: u32| obj_index_in(s.update(i, o), id) == obj_index_in(s, id),
{
    let t = s.update(i, o);
    assert forall|id: u32| obj_index_in(t, id) == obj_index_in(s, id) by {
        lemma_obj_index(s, id);
        if obj_index_in(s, id) >= 0 {
            lemma_obj_index_is(t, id, obj_index_in(s, id));
        } else {
            lemma_obj_index_none(t, id);
        }
    }
}

/// Appending an object with a fresh identifier leaves every other
/// identifier's position where it was.
proof fn lemma_obj_push(s: Seq<MapObject>, o: MapObject)
    requires
        forall|j: int| 0 <= j < s.len() ==> s[j].id != o.id,
    ensures
        obj_index_in(s.push(o), o.id) == s.len(),
        forall|id: u32| id != o.id ==> obj_index_in(s.push(o), id) == obj_index_in(s, id),
{
    lemma_obj_index_is(s.push(o), o.id, s.len() as int);
    assert forall|id: u32| id != o.id implies obj_index_in(s.push(o), id) == obj_index_in(s, id)
        by {
        lemma_obj_index(s, id);
        if obj_index_in(s, id) >= 0 {
            lemma_obj_index_is(s.push(o), id, obj_index_in(s, id));
        } else {
            lemma_obj_index_none(s.push(o), id);
        }
    }
}

/// Compares two byte blocks.
fn bytes_eq(a: &Vec<u8>, b: &Vec<u8>) -> (r: bool)
    ensures
        r == (a@ == b@),
{
    if a.len() != b.len() {
        assert(a@ !~= b@);
        return false;
    }
    let n = a.len();
    let mut i: usize = 0;
    while i < n
        invariant
            n == a@.len() == b@.len(),
            0 <= i <= n,
            forall|j: int| 0 <= j < i ==> a@[j] == b@[j],
        decreases n - i,
    {
        if a[i] != b[i] {
            return false;
        }
        i = i + 1;
    }
    proof {
        assert(a@ =~= b@);
    }
    true
}

/// Copies a byte block.
fn copy_bytes(a: &Vec<u8>) -> (r: Vec<u8>)
    ensures
        r@ == a@,
{
    let n = a.len();
    let mut r: Vec<u8> = Vec::new();
    let mut i: usize = 0;
    while i < n
        invariant
            n == a@.len(),
            0 <= i <= n,
            r@ == a@.take(i as int),
        decreases n - i,
    {
        r.push(a[i]);
        proof {
            assert(r@ =~= a@.take(i as int + 1));
        }
        i = i + 1;
    }
    proof {
        assert(a@.take(n as int) =~= a@);
    }
    r
}

impl Kernel {
    fn find_fd(&self, fd: i32) -> (r: Option<usize>)
        ensures
            match r {
                Some(i) => fd_index_in(self.fds@, fd) == i as int && i < self.fds@.len(),
                None => fd_index_in(self.fds@, fd) < 0,
            },
    {
        let n = self.fds.len();
        let mut i: usize = 0;
        while i < n
            invariant
                n == self.fds@.len(),
                0 <= i <= n,
                forall|j: int| 0 <= j < i ==> self.fds@[j].fd != fd,
            decreases n - i,
        {
            if self.fds[i].fd == fd {
                proof {
                    lemma_fd_index_is(self.fds@, fd, i as int);
                }
                return Some(i);
            }
            i = i + 1;
        }
        proof {
            lemma_fd_index_none(self.fds@, fd);
        }
        None
    }

    fn find_obj(&self, id: u32) -> (r: Option<usize>)
        ensures
            match r {
                Some(i) => obj_index_in(self.objects@, id) == i as int && i < self.objects@.len(),
                None => obj_index_in(self.objects@, id) < 0,
            },
    {
        let n = self.objects.len();
        let mut i: usize = 0;
        while i < n
            invariant
                n == self.objects@.len(),
                0 <= i <= n,
                forall|j: int| 0 <= j < i ==> self.objects@[j].id != id,
            decreases n - i,
        {
            if self.objects[i].id == id {
                proof {
                    lemma_obj_index_is(self.objects@, id, i as int);
                }
                return Some(i);
            }
            i = i + 1;
        }
        proof {
            lemma_obj_index_none(self.objects@, id);
        }
        None
    }
}

fn find_entry(es: &Vec<MapEntry>, key: &Vec<u8>) -> (r: Option<usize>)
    ensures
        match r {
            Some(i) => entry_index(entries_view(es@), key@) == i as int && i < es@.len(),
            None => entry_index(entries_view(es@), key@) < 0,
        },
{
    let n = es.len();
    let mut i: usize = 0;
    while i < n
        invariant
            n == es@.len(),
            0 <= i <= n,
            forall|j: int| 0 <= j < i ==> (#[trigger] es@[j])@.key != key@,
        decreases n - i,
    {
        if bytes_eq(&es[i].key, key) {
            proof {
                lemma_entry_index_is(entries_view(es@), key@, i as int);
            }
            return Some(i);
        }
        i = i + 1;
    }
    proof {
        assert forall|j: int| 0 <= j < entries_view(es@).len() implies entries_view(es@)[j].key
            != key@ by {
            assert(entries_view(es@)[j] == es@[j]@);
        }
        lemma_entry_index(entries_view(es@), key@);
    }
    None
}

impl Kernel {
    /// In a well-formed model, every object's entries have unique keys of
    /// the object's declared key width, and reference live objects.
    pub proof fn lemma_wf_entries(self, id: u32)
        requires
            self.wf(),
        ensures
            entries_unique(self.entries_of(id)),
            forall|j: int|
                0 <= j < self.entries_of(id).len() ==> (#[trigger] self.entries_of(id)[j]).key.len()
                    == (if self.has_object(id) {
                    self.object_def(id).key_size as nat
                } else {
                    0
                }),
            forall|j: int|
                0 <= j < self.entries_of(id).len() ==> self.has_object(
                    (#[trigger] self.entries_of(id)[j]).value,
                ),
            self.has_object(id) && self.object_def(id).map_type == BPF_MAP_TYPE_ARRAY_OF_MAPS
                && self.object_def(id).key_size == OUTER_KV_SIZE ==> forall|j: int|
                0 <= j < self.entries_of(id).len() ==> u32_of_le_bytes(
                    (#[trigger] self.entries_of(id)[j]).key,
                ) < self.object_def(id).max_entries,
    {
        lemma_obj_index(self.objects@, id);
        if self.has_object(id) {
            let oi = obj_index_in(self.objects@, id);
            let es = self.objects@[oi].entries@;
            assert forall|j: int| 0 <= j < self.entries_of(id).len() implies self.has_object(
                (#[trigger] self.entries_of(id)[j]).value,
            ) && (self.entries_of(id)[j]).key.len() == self.object_def(id).key_size as nat && (
            self.object_def(id).map_type == BPF_MAP_TYPE_ARRAY_OF_MAPS && self.object_def(
                id,
            ).key_size == OUTER_KV_SIZE ==> u32_of_le_bytes((self.entries_of(id)[j]).key)
                < self.object_def(id).max_entries) by {
                assert(self.entries_of(id)[j] == es[j]@);
                assert(self.objects@[oi].entries@[j] == es[j]);
            }
        }
    }

    /// What `lookup_elem` returns, given the state it runs in.
    pub open spec fn spec_lookup_elem(self, fd: i32, key: Seq<u8>, flags: u64) -> Result<
        Option<u32>,
        i32,
    > {
        if !self.fd_open(fd) {
            Err(EBADF)
        } else if flags != 0 {
            Err(EINVAL)
        } else if key.len() != self.object_def(self.fd_id(fd)).key_size {
            Err(EINVAL)
        } else {
            Ok(lookup_entries(self.entries_of(self.fd_id(fd)), key))
        }
    }

    /// Looks up the inner map identifier stored under `key` in the outer map
    /// that `fd` references.
    pub fn lookup_elem(&self, fd: i32, key: &Vec<u8>, flags: u64) -> (r: Result<Option<u32>, i32>)
        requires
            self.wf(),
        ensures
            r == self.spec_lookup_elem(fd, key@, flags),
    {
        let fi = match self.find_fd(fd) {
            Some(i) => i,
            None => {
                return Err(EBADF);
            },
        };
        if flags != 0 {
            return Err(EINVAL);
        }
        let id = self.fds[fi].id;
        let oi = match self.find_obj(id) {
            Some(i) => i,
            None => {
                proof {
                    assert(obj_index_in(self.objects@, self.fds@[fi as int].id) >= 0);
                }
                return Err(EBADF);
            },
        };
        let obj = &self.objects[oi];
        if key.len() != obj.def.key_size as usize {
            return Err(EINVAL);
        }
        match find_entry(&obj.entries, key) {
            Some(ei) => {
                proof {
                    assert(self.entries_of(id)[ei as int] == obj.entries@[ei as int]@);
                }
                Ok(Some(obj.entries[ei].value))
            },
            None => Ok(None),
        }
    }

    /// The in-program lookup helper: resolves the map object an embedded
    /// descriptor was relocated to, by its identifier, and reads the raw
    /// value stored under the key. No descriptor is created and no error
    /// surfaces: a miss, an unloaded descriptor, or a key of the wrong
    /// width all read as nothing.
    pub fn helper_lookup(&self, id: u32, key: &Vec<u8>) -> (r: Option<u32>)
        requires
            self.wf(),
        ensures
            r == (if self.has_object(id) {
                lookup_entries(self.entries_of(id), key@)
            } else {
                None::<u32>
            }),
    {
        let oi = match self.find_obj(id) {
            Some(i) => i,
            None => {
                return None;
            },
        };
        let obj = &self.objects[oi];
        match find_entry(&obj.entries, key) {
            Some(ei) => {
                proof {
                    assert(self.entries_of(id)[ei as int] == obj.entries@[ei as int]@);
                }
                Some(obj.entries[ei].value)
            },
            None => None,
        }
    }

    /// What `update_elem` decides, given the state it runs in: the resolved
    /// inner map identifier on success, or the OS error number.
    pub open spec fn spec_update_elem(self, fd: i32, key: Seq<u8>, value_fd: i32, flags: u64)
        -> Result<u32, i32> {
        if !self.fd_open(fd) {
            Err(EBADF)
        } else if key.len() != self.object_def(self.fd_id(fd)).key_size {
            Err(EINVAL)
        } else if !self.fd_open(value_fd) {
            Err(EBADF)
        } else if flags > 2 {
            Err(EINVAL)
        } else if self.object_def(self.fd_id(fd)).map_type == BPF_MAP_TYPE_ARRAY_OF_MAPS
            && self.object_def(self.fd_id(fd)).key_size == OUTER_KV_SIZE && u32_of_le_bytes(key)
            >= self.object_def(self.fd_id(fd)).max_entries {
            Err(E2BIG)
        } else if flags == 1 && entry_index(self.entries_of(self.fd_id(fd)), key) >= 0 {
            Err(EEXIST)
        } else if flags == 2 && entry_index(self.entries_of(self.fd_id(fd)), key) < 0 {
            Err(ENOENT)
        } else if entry_index(self.entries_of(self.fd_id(fd)), key) < 0 && self.entries_of(
            self.fd_id(fd),
        ).len() >= self.object_def(self.fd_id(fd)).max_entries {
            Err(E2BIG)
        } else {
            Ok(self.fd_id(value_fd))
        }
    }

    /// Installs, in the outer map that `fd` references, the inner map that
    /// `value_fd` references: the kernel resolves the descriptor to the map's
    /// identifier and takes its own reference. `flags` selects create-or-
    /// replace (0), create-only (1) or replace-only (2). An array-form outer
    /// map rejects an index at or past its capacity, and a full map rejects
    /// a new key, each with the kernel's bound error.
    pub fn update_elem(&mut self, fd: i32, key: &Vec<u8>, value_fd: i32, flags: u64) -> (r: Result<
        (),
        i32,
    >)
        requires
            old(self).wf(),
        ensures
            final(self).wf(),
            final(self).fd_headroom() == old(self).fd_headroom(),
            match old(self).spec_update_elem(fd, key@, value_fd, flags) {
                Err(e) => r == Err::<(), i32>(e) && *final(self) == *old(self),
                Ok(vid) => {
                    &&& r == Ok::<(), i32>(())
                    &&& final(self).entries_of(old(self).fd_id(fd)) == entries_update(
                        old(self).entries_of(old(self).fd_id(fd)),
                        key@,
                        vid,
                    )
                    &&& objects_except_entries(*old(self), *final(self), old(self).fd_id(fd))
                    &&& same_fds(*old(self), *final(self))
                },
            },
    {
        let fi = match self.find_fd(fd) {
            Some(i) => i,
            None => {
                return Err(EBADF);
            },
        };
        let id = self.fds[fi].id;
        let oi = match self.find_obj(id) {
            Some(i) => i,
            None => {
                proof {
                    assert(obj_index_in(self.objects@, self.fds@[fi as int].id) >= 0);
                }
                return Err(EBADF);
            },
        };
        if key.len() != self.objects[oi].def.key_size as usize {
            return Err(EINVAL);
        }
        let vi = match self.find_fd(value_fd) {
            Some(i) => i,
            None => {
                return Err(EBADF);
            },
        };
        if flags > 2 {
            return Err(EINVAL);
        }
        if self.objects[oi].def.map_type == BPF_MAP_TYPE_ARRAY_OF_MAPS
            && self.objects[oi].def.key_size == OUTER_KV_SIZE {
            let idx: u32 = Pod::of_bytes(key);
            if idx >= self.objects[oi].def.max_entries {
                return Err(E2BIG);
            }
        }
        let vid = self.fds[vi].id;
        let ghost pre = *self;
        let ghost es0 = pre.entries_of(id);
        let found = find_entry(&self.objects[oi].entries, key);
        if flags == 1 && found.is_some() {
            return Err(EEXIST);
        }
        if flags == 2 && found.is_none() {
            return Err(ENOENT);
        }
        if found.is_none() && self.objects[oi].entries.len() >= self.objects[oi].def.max_entries
            as usize {
            return Err(E2BIG);
        }
        let mut obj = self.objects.remove(oi);
        let entry = MapEntry { key: copy_bytes(key), value: vid };
        match found {
            Some(ei) => {
                obj.entries.remove(ei);
                obj.entries.insert(ei, entry);
                proof {
                    assert(obj.entries@ =~= pre.objects@[oi as int].entries@.update(
                        ei as int,
                        obj.entries@[ei as int],
                    ));
                }
            },
            None => {
                obj.entries.push(entry);
            },
        }
        self.objects.insert(oi, obj);
        proof {
            let oij = oi as int;
            let o0 = pre.objects@[oij];
            let e_new = EntryView { key: key@, value: vid };
            assert(self.objects@ =~= pre.objects@.update(oij, obj));
            lemma_obj_index(pre.objects@, id);
            lemma_obj_update(pre.objects@, oij, obj);
            lemma_entries_view_index(o0.entries@);
            lemma_entries_view_index(obj.entries@);
            lemma_entry_index(es0, key@);
            match found {
                Some(ei) => {
                    assert(entries_view(obj.entries@) =~= es0.update(ei as int, e_new));
                    assert(es0[ei as int].key == key@);
                    assert forall|j: int| 0 <= j < es0.len() implies (#[trigger] entries_view(
                        obj.entries@,
                    )[j]).key == es0[j].key by {}
                    assert(entries_unique(entries_view(obj.entries@)));
                },
                None => {
                    assert(entries_view(obj.entries@) =~= es0.push(e_new));
                    assert forall|j: int| 0 <= j < es0.len() implies es0[j].key != key@ by {}
                    assert(entries_unique(entries_view(obj.entries@)));
                },
            }
            assert(entries_view(obj.entries@) == entries_update(es0, key@, vid));
            assert forall|j: int|
                0 <= j < obj.entries@.len() implies (#[trigger] obj.entries@[j]).key@.len()
                == obj.def.key_size && (obj.entries@[j].value == vid || obj_index_in(
                pre.objects@,
                obj.entries@[j].value,
            ) >= 0) && (obj.def.map_type == BPF_MAP_TYPE_ARRAY_OF_MAPS && obj.def.key_size
                == OUTER_KV_SIZE ==> u32_of_le_bytes(obj.entries@[j].key@)
                < obj.def.max_entries) by {
                assert(entries_view(obj.entries@)[j] == obj.entries@[j]@);
                if match found {
                    Some(ei) => j != ei as int,
                    None => j < es0.len(),
                } {
                    assert(o0.entries@[j] == obj.entries@[j]);
                    assert(obj_index_in(pre.objects@, o0.entries@[j].value) >= 0);
                } else {
                    assert(obj.entries@[j].key@ == key@);
                }
            }
            assert(o0.entries@.len() <= o0.def.max_entries);
            assert(obj_index_in(pre.objects@, vid) >= 0);
            self.lemma_one_object_changed(pre, oij, obj, id, vid, key@);
        }
        Ok(())
    }

    /// After replacing the object at `oij` with `obj` — same identifier and
    /// descriptor, entries that stay unique, keep the declared key width and
    /// reference `vid` or previously live objects — the model is still
    /// well-formed, every other object is untouched, and the descriptor
    /// table still reads the same.
    proof fn lemma_one_object_changed(
        self,
        pre: Kernel,
        oij: int,
        obj: MapObject,
        id: u32,
        vid: u32,
        key: Seq<u8>,
    )
        requires
            pre.wf(),
            0 <= oij < pre.objects@.len(),
            obj_index_in(pre.objects@, id) == oij,
            pre.objects@[oij].id == id,
            obj.id == id,
            obj.def == pre.objects@[oij].def,
            self.objects@ == pre.objects@.update(oij, obj),
            self.fds@ == pre.fds@,
            self.next_fd == pre.next_fd,
            self.next_id == pre.next_id,
            obj_index_in(pre.objects@, vid) >= 0,
            key.len() == obj.def.key_size,
            entries_unique(entries_view(obj.entries@)),
            forall|j: int|
                0 <= j < obj.entries@.len() ==> (#[trigger] obj.entries@[j]).key@.len()
                    == obj.def.key_size,
            forall|j: int|
                0 <= j < obj.entries@.len() ==> ((#[trigger] obj.entries@[j]).value == vid
                    || obj_index_in(pre.objects@, obj.entries@[j].value) >= 0),
            obj.entries@.len() <= obj.def.max_entries,
            forall|j: int|
                0 <= j < obj.entries@.len() && obj.def.map_type == BPF_MAP_TYPE_ARRAY_OF_MAPS
                    && obj.def.key_size == OUTER_KV_SIZE ==> u32_of_le_bytes(
                    (#[trigger] obj.entries@[j]).key@,
                ) < obj.def.max_entries,
        ensures
            self.wf(),
            self.entries_of(id) == entries_view(obj.entries@),
            objects_except_entries(pre, self, id),
            same_fds(pre, self),
    {
        lemma_obj_update(pre.objects@, oij, obj);
        assert forall|id2: u32| #[trigger] self.has_object(id2) == pre.has_object(id2) by {}
        assert forall|id2: u32| pre.has_object(id2) implies #[trigger] self.object_def(id2)
            == pre.object_def(id2) by {
            let w = obj_index_in(pre.objects@, id2);
            lemma_obj_index(pre.objects@, id2);
            if w != oij {
                assert(self.objects@[w] == pre.objects@[w]);
            }
        }
        assert forall|id2: u32| id2 != id implies #[trigger] self.entries_of(id2)
            == pre.entries_of(id2) by {
            if pre.has_object(id2) {
                let w = obj_index_in(pre.objects@, id2);
                lemma_obj_index(pre.objects@, id2);
                assert(w != oij);
                assert(self.objects@[w] == pre.objects@[w]);
            }
        }
        assert(self.entries_of(id) == entries_view(obj.entries@));
        assert(self.wf()) by {
            assert forall|i: int|
                0 <= i < self.objects@.len() implies (#[trigger] self.objects@[i]).id
                == pre.objects@[i].id && self.objects@[i].def == pre.objects@[i].def by {}
            assert forall|i: int|
                0 <= i < self.fds@.len() implies obj_index_in(
                self.objects@,
                #[trigger] self.fds@[i].id,
            ) >= 0 by {
                assert(obj_index_in(pre.objects@, self.fds@[i].id) >= 0);
            }
            assert forall|i: int|
                0 <= i < self.objects@.len() implies entries_unique(
                entries_view(#[trigger] self.objects@[i].entries@),
            ) by {
                if i != oij {
                    assert(self.objects@[i] == pre.objects@[i]);
                }
            }
            assert forall|i: int, j: int|
                0 <= i < self.objects@.len() && 0 <= j
                    < self.objects@[i].entries@.len() implies (#[trigger] self.objects@[i].entries@[j]).key@.len()
                == self.objects@[i].def.key_size && obj_index_in(
                self.objects@,
                self.objects@[i].entries@[j].value,
            ) >= 0 && (self.objects@[i].def.map_type == BPF_MAP_TYPE_ARRAY_OF_MAPS
                && self.objects@[i].def.key_size == OUTER_KV_SIZE ==> u32_of_le_bytes(
                self.objects@[i].entries@[j].key@,
            ) < self.objects@[i].def.max_entries) by {
                if i != oij {
                    assert(self.objects@[i] == pre.objects@[i]);
                    assert(obj_index_in(pre.objects@, pre.objects@[i].entries@[j].value) >= 0);
                } else {
                    assert(obj_index_in(pre.objects@, vid) >= 0);
                }
            }
            assert forall|i: int|
                0 <= i < self.objects@.len() implies (#[trigger] self.objects@[i]).entries@.len()
                <= self.objects@[i].def.max_entries by {
                if i != oij {
                    assert(self.objects@[i] == pre.objects@[i]);
                }
            }
        }
    }

    /// Whether the kernel can create one more map: a descriptor and an
    /// identifier must both be left.
    pub open spec fn spec_create_map(self) -> Result<(), i32> {
        if !self.fd_space_left() {
            Err(EMFILE)
        } else if !self.id_space_left() {
            Err(ENOMEM)
        } else {
            Ok(())
        }
    }

    /// Loads a fresh map object described by `def` and hands back an owned
    /// descriptor for it. The kernel assigns the identifier: the stored
    /// record is `def` with `id` populated.
    pub fn create_map(&mut self, def: MapDescriptor) -> (r: Result<MapFd, i32>)
        requires
            old(self).wf(),
        ensures
            final(self).wf(),
            match r {
                Err(e) => Err::<(), i32>(e) == old(self).spec_create_map() && *final(self) == *old(
                    self,
                ),
                Ok(f) => {
                    &&& old(self).spec_create_map() == Ok::<(), i32>(())
                    &&& !old(self).fd_open(f@)
                    &&& final(self).fd_open(f@)
                    &&& !old(self).has_object(final(self).fd_id(f@))
                    &&& final(self).has_object(final(self).fd_id(f@))
                    &&& final(self).object_def(final(self).fd_id(f@)) == (MapDescriptor {
                        id: final(self).fd_id(f@),
                        ..def
                    })
                    &&& final(self).entries_of(final(self).fd_id(f@)) == Seq::<EntryView>::empty()
                    &&& objects_added(*old(self), *final(self), final(self).fd_id(f@))
                    &&& fds_except(*old(self), *final(self), f@)
                },
            },
    {
        if self.next_fd == i32::MAX {
            return Err(EMFILE);
        }
        if self.next_id == u32::MAX {
            return Err(ENOMEM);
        }
        let id = self.next_id;
        let fd = self.next_fd;
        let stored = MapDescriptor { id, ..def };
        let ghost pre = *self;
        self.objects.push(MapObject { id, def: stored, entries: Vec::new() });
        self.fds.push(FdEntry { fd, id });
        self.next_id = id + 1;
        self.next_fd = fd + 1;
        proof {
            let o = self.objects@[pre.objects@.len() as int];
            let fe = self.fds@[pre.fds@.len() as int];
            assert forall|j: int| 0 <= j < pre.objects@.len() implies pre.objects@[j].id != id by {}
            assert forall|j: int| 0 <= j < pre.fds@.len() implies pre.fds@[j].fd != fd by {}
            lemma_obj_push(pre.objects@, o);
            lemma_fd_push(pre.fds@, fe);
            lemma_obj_index_none(pre.objects@, id);
            lemma_fd_index_none(pre.fds@, fd);
            assert(entries_view(o.entries@) =~= Seq::<EntryView>::empty());
            assert forall|id2: u32| id2 != id implies #[trigger] self.entries_of(id2)
                == pre.entries_of(id2) by {
                if pre.has_object(id2) {
                    lemma_obj_index(pre.objects@, id2);
                    assert(self.objects@[obj_index_in(pre.objects@, id2)] == pre.objects@[
                        obj_index_in(pre.objects@, id2)]);
                }
            }
            assert(self.wf()) by {
                assert forall|a: int|
                    0 <= a < self.fds@.len() implies obj_index_in(
                    self.objects@,
                    #[trigger] self.fds@[a].id,
                ) >= 0 by {
                    if a < pre.fds@.len() {
                        assert(self.fds@[a] == pre.fds@[a]);
                        assert(obj_index_in(pre.objects@, pre.fds@[a].id) >= 0);
                        lemma_obj_index(pre.objects@, pre.fds@[a].id);
                    }
                }
                assert forall|a: int, b: int|
                    0 <= a < self.objects@.len() && 0 <= b
                        < self.objects@[a].entries@.len() implies (#[trigger] self.objects@[a].entries@[b]).key@.len()
                    == self.objects@[a].def.key_size && obj_index_in(
                    self.objects@,
                    self.objects@[a].entries@[b].value,
                ) >= 0 && (self.objects@[a].def.map_type == BPF_MAP_TYPE_ARRAY_OF_MAPS
                    && self.objects@[a].def.key_size == OUTER_KV_SIZE ==> u32_of_le_bytes(
                    self.objects@[a].entries@[b].key@,
                ) < self.objects@[a].def.max_entries) by {
                    assert(a < pre.objects@.len());
                    assert(self.objects@[a] == pre.objects@[a]);
                    assert(obj_index_in(pre.objects@, pre.objects@[a].entries@[b].value) >= 0);
                    lemma_obj_index(pre.objects@, pre.objects@[a].entries@[b].value);
                }
                assert forall|a: int|
                    0 <= a < self.objects@.len() implies (#[trigger] self.objects@[a]).entries@.len()
                    <= self.objects@[a].def.max_entries by {
                    if a < pre.objects@.len() {
                        assert(self.objects@[a] == pre.objects@[a]);
                    }
                }
            }
            assert(self.objects@ == pre.objects@.push(o));
            assert(self.fds@ == pre.fds@.push(fe));
            assert forall|id2: u32| id2 != id implies #[trigger] self.has_object(id2)
                == pre.has_object(id2) by {
                assert(obj_index_in(pre.objects@.push(o), id2) == obj_index_in(pre.objects@, id2));
            }
            assert forall|id2: u32| id2 != id && pre.has_object(id2) implies #[trigger] self.object_def(
                id2,
            ) == pre.object_def(id2) by {
                assert(obj_index_in(pre.objects@.push(o), id2) == obj_index_in(pre.objects@, id2));
                lemma_obj_index(pre.objects@, id2);
                assert(self.objects@[obj_index_in(pre.objects@, id2)] == pre.objects@[obj_index_in(
                    pre.objects@,
                    id2,
                )]);
            }
            assert forall|fd2: i32| fd2 != fd implies #[trigger] self.fd_open(fd2) == pre.fd_open(
                fd2,
            ) by {
                assert(fd_index_in(pre.fds@.push(fe), fd2) == fd_index_in(pre.fds@, fd2));
            }
            assert forall|fd2: i32| fd2 != fd && pre.fd_open(fd2) implies #[trigger] self.fd_id(fd2)
                == pre.fd_id(fd2) by {
                assert(fd_index_in(pre.fds@.push(fe), fd2) == fd_index_in(pre.fds@, fd2));
                lemma_fd_index(pre.fds@, fd2);
                assert(self.fds@[fd_index_in(pre.fds@, fd2)] == pre.fds@[fd_index_in(
                    pre.fds@,
                    fd2,
                )]);
            }
        }
        Ok(MapFd { raw: fd })
    }

    /// Whether a fresh descriptor can be opened for the object `id`.
    pub open spec fn spec_get_fd_by_id(self, id: u32) -> Result<(), i32> {
        if !self.has_object(id) {
            Err(ENOENT)
        } else if !self.fd_space_left() {
            Err(EMFILE)
        } else {
            Ok(())
        }
    }

    /// Opens a fresh descriptor in this process for the live map object with
    /// the given identifier.
    pub fn get_fd_by_id(&mut self, id: u32) -> (r: Result<i32, i32>)
        requires
            old(self).wf(),
        ensures
            final(self).wf(),
            match r {
                Err(e) => Err::<(), i32>(e) == old(self).spec_get_fd_by_id(id) && *final(self)
                    == *old(self),
                Ok(f) => {
                    &&& old(self).spec_get_fd_by_id(id) == Ok::<(), i32>(())
                    &&& !old(self).fd_open(f)
                    &&& final(self).fd_open(f)
                    &&& final(self).fd_id(f) == id
                    &&& same_objects(*old(self), *final(self))
                    &&& fds_except(*old(self), *final(self), f)
                    &&& final(self).fd_headroom() == old(self).fd_headroom() - 1
                },
            },
    {
        if self.find_obj(id).is_none() {
            return Err(ENOENT);
        }
        if self.next_fd == i32::MAX {
            return Err(EMFILE);
        }
        let fd = self.next_fd;
        let ghost pre = *self;
        self.fds.push(FdEntry { fd, id });
        self.next_fd = fd + 1;
        proof {
            let fe = self.fds@[pre.fds@.len() as int];
            assert forall|j: int| 0 <= j < pre.fds@.len() implies pre.fds@[j].fd != fd by {}
            lemma_fd_push(pre.fds@, fe);
            lemma_fd_index_none(pre.fds@, fd);
            assert(self.wf()) by {
                assert forall|a: int|
                    0 <= a < self.fds@.len() implies obj_index_in(
                    self.objects@,
                    #[trigger] self.fds@[a].id,
                ) >= 0 by {
                    if a < pre.fds@.len() {
                        assert(self.fds@[a] == pre.fds@[a]);
                        assert(obj_index_in(pre.objects@, pre.fds@[a].id) >= 0);
                    }
                }
            }
            assert(self.fds@ == pre.fds@.push(fe));
            assert forall|fd2: i32| fd2 != fd implies #[trigger] self.fd_open(fd2) == pre.fd_open(
                fd2,
            ) by {
                assert(fd_index_in(pre.fds@.push(fe), fd2) == fd_index_in(pre.fds@, fd2));
            }
            assert forall|fd2: i32| fd2 != fd && pre.fd_open(fd2) implies #[trigger] self.fd_id(fd2)
                == pre.fd_id(fd2) by {
                assert(fd_index_in(pre.fds@.push(fe), fd2) == fd_index_in(pre.fds@, fd2));
                lemma_fd_index(pre.fds@, fd2);
                assert(self.fds@[fd_index_in(pre.fds@, fd2)] == pre.fds@[fd_index_in(
                    pre.fds@,
                    fd2,
                )]);
            }
        }
        Ok(fd)
    }

    /// Closes this process's descriptor `fd`. The kernel-side object, and
    /// any reference an outer-map entry holds to its inner map, are
    /// unaffected: only the local duplicate is released.
    pub fn close(&mut self, fd: i32) -> (r: Result<(), i32>)
        requires
            old(self).wf(),
        ensures
            final(self).wf(),
            final(self).fd_headroom() == old(self).fd_headroom(),
            !final(self).fd_open(fd),
            same_objects(*old(self), *final(self)),
            fds_except(*old(self), *final(self), fd),
            old(self).fd_open(fd) ==> r == Ok::<(), i32>(()),
            !old(self).fd_open(fd) ==> r == Err::<(), i32>(EBADF) && *final(self) == *old(self),
    {
        match self.find_fd(fd) {
            Some(i) => {
                let ghost pre = *self;
                self.fds.remove(i);
                proof {
                    let ij = i as int;
                    lemma_fd_index(pre.fds@, fd);
                    lemma_fd_remove(pre.fds@, ij);
                    assert forall|a: int, b: int|
                        0 <= a < b < self.fds@.len() implies self.fds@[a].fd != self.fds@[b].fd by {
                        let a2: int = if a < ij {
                            a
                        } else {
                            a + 1
                        };
                        let b2: int = if b < ij {
                            b
                        } else {
                            b + 1
                        };
                        assert(self.fds@[a] == pre.fds@[a2] && self.fds@[b] == pre.fds@[b2]);
                    }
                    assert forall|a: int|
                        0 <= a < self.fds@.len() implies obj_index_in(
                        self.objects@,
                        #[trigger] self.fds@[a].id,
                    ) >= 0 && 0 <= self.fds@[a].fd < self.next_fd by {
                        let a2: int = if a < ij {
                            a
                        } else {
                            a + 1
                        };
                        assert(self.fds@[a] == pre.fds@[a2]);
                        assert(obj_index_in(pre.objects@, pre.fds@[a2].id) >= 0);
                    }
                }
                Ok(())
            },
            None => Err(EBADF),
        }
    }

    /// In a well-formed model, an open descriptor references a live object.
    pub proof fn lemma_fd_target_live(self, fd: i32)
        requires
            self.wf(),
            self.fd_open(fd),
        ensures
            self.has_object(self.fd_id(fd)),
    {
        lemma_fd_index(self.fds@, fd);
        lemma_obj_index(self.objects@, self.fds@[fd_index_in(self.fds@, fd)].id);
    }

    /// Descriptor room and headroom agree, and headroom is never negative.
    pub proof fn lemma_fd_headroom(self)
        ensures
            self.fd_space_left() <==> self.fd_headroom() > 0,
            self.fd_headroom() >= 0,
    {
    }

    /// Reads the descriptor record of the object that `fd` references, as
    /// the kernel's map-info call reports it.
    pub fn map_def(&self, fd: i32) -> (r: Result<MapDescriptor, i32>)
        requires
            self.wf(),
        ensures
            !self.fd_open(fd) ==> r == Err::<MapDescriptor, i32>(EBADF),
            self.fd_open(fd) ==> r == Ok::<MapDescriptor, i32>(self.object_def(self.fd_id(fd))),
    {
        let fi = match self.find_fd(fd) {
            Some(i) => i,
            None => {
                return Err(EBADF);
            },
        };
        let id = self.fds[fi].id;
        match self.find_obj(id) {
            Some(oi) => Ok(self.objects[oi].def),
            None => {
                proof {
                    assert(obj_index_in(self.objects@, self.fds@[fi as int].id) >= 0);
                }
                Err(EBADF)
            },
        }
    }

    /// The keys currently installed in the outer map that `fd` references,
    /// in slot order: the result of a full key-iteration pass. Held
    /// exclusively, the model gives a snapshot; against a live kernel,
    /// concurrent structural mutation can skip or repeat entries.
    pub fn element_keys(&self, fd: i32) -> (r: Result<Vec<Vec<u8>>, i32>)
        requires
            self.wf(),
        ensures
            !self.fd_open(fd) ==> r == Err::<Vec<Vec<u8>>, i32>(EBADF),
            self.fd_open(fd) ==> (r matches Ok(ks) && ks@.len() == self.entries_of(
                self.fd_id(fd),
            ).len() && forall|j: int|
                0 <= j < ks@.len() ==> (#[trigger] ks@[j])@ == self.entries_of(self.fd_id(fd))[j].key),
    {
        let fi = match self.find_fd(fd) {
            Some(i) => i,
            None => {
                return Err(EBADF);
            },
        };
        let id = self.fds[fi].id;
        let oi = match self.find_obj(id) {
            Some(i) => i,
            None => {
                proof {
                    assert(obj_index_in(self.objects@, self.fds@[fi as int].id) >= 0);
                }
                return Err(EBADF);
            },
        };
        let obj = &self.objects[oi];
        let n = obj.entries.len();
        let mut ks: Vec<Vec<u8>> = Vec::new();
        let mut i: usize = 0;
        while i < n
            invariant
                n == obj.entries@.len(),
                0 <= i <= n,
                ks@.len() == i,
                forall|j: int| 0 <= j < i ==> (#[trigger] ks@[j])@ == obj.entries@[j]@.key,
            decreases n - i,
        {
            ks.push(copy_bytes(&obj.entries[i].key));
            i = i + 1;
        }
        proof {
            lemma_entries_view_index(obj.entries@);
            assert(self.entries_of(id) == entries_view(obj.entries@));
        }
        Ok(ks)
    }

    /// What `delete_elem` decides, given the state it runs in.
    pub open spec fn spec_delete_elem(self, fd: i32, key: Seq<u8>) -> Result<(), i32> {
        if !self.fd_open(fd) {
            Err(EBADF)
        } else if key.len() != self.object_def(self.fd_id(fd)).key_size {
            Err(EINVAL)
        } else if entry_index(self.entries_of(self.fd_id(fd)), key) < 0 {
            Err(ENOENT)
        } else {
            Ok(())
        }
    }

    /// Removes the entry stored under `key` in the outer map that `fd`
    /// references; the kernel drops its reference to the inner map.
    pub fn delete_elem(&mut self, fd: i32, key: &Vec<u8>) -> (r: Result<(), i32>)
        requires
            old(self).wf(),
        ensures
            final(self).wf(),
            final(self).fd_headroom() == old(self).fd_headroom(),
            match old(self).spec_delete_elem(fd, key@) {
                Err(e) => r == Err::<(), i32>(e) && *final(self) == *old(self),
                Ok(u) => {
                    &&& r == Ok::<(), i32>(u)
                    &&& final(self).entries_of(old(self).fd_id(fd)) == entries_remove(
                        old(self).entries_of(old(self).fd_id(fd)),
                        key@,
                    )
                    &&& objects_except_entries(*old(self), *final(self), old(self).fd_id(fd))
                    &&& same_fds(*old(self), *final(self))
                },
            },
    {
        let fi = match self.find_fd(fd) {
            Some(i) => i,
            None => {
                return Err(EBADF);
            },
        };
        let id = self.fds[fi].id;
        let oi = match self.find_obj(id) {
            Some(i) => i,
            None => {
                proof {
                    assert(obj_index_in(self.objects@, self.fds@[fi as int].id) >= 0);
                }
                return Err(EBADF);
            },
        };
        if key.len() != self.objects[oi].def.key_size as usize {
            return Err(EINVAL);
        }
        let ghost pre = *self;
        let ghost es0 = pre.entries_of(id);
        let ei = match find_entry(&self.objects[oi].entries, key) {
            Some(i) => i,
            None => {
                return Err(ENOENT);
            },
        };
        let mut obj = self.objects.remove(oi);
        obj.entries.remove(ei);
        self.objects.insert(oi, obj);
        proof {
            let oij = oi as int;
            let eij = ei as int;
            let o0 = pre.objects@[oij];
            assert(self.objects@ =~= pre.objects@.update(oij, obj));
            lemma_obj_index(pre.objects@, id);
            lemma_entries_view_index(o0.entries@);
            lemma_entries_view_index(obj.entries@);
            lemma_entry_index(es0, key@);
            assert(entries_view(obj.entries@) =~= es0.remove(eij));
            assert(entries_view(obj.entries@) == entries_remove(es0, key@));
            let nv = entries_view(obj.entries@);
            assert forall|a: int, b: int| 0 <= a < b < nv.len() implies nv[a].key != nv[b].key by {
                let a2: int = if a < eij {
                    a
                } else {
                    a + 1
                };
                let b2: int = if b < eij {
                    b
                } else {
                    b + 1
                };
                assert(nv[a] == es0[a2] && nv[b] == es0[b2]);
            }
            assert forall|j: int|
                0 <= j < obj.entries@.len() implies (#[trigger] obj.entries@[j]).key@.len()
                == obj.def.key_size && (obj.entries@[j].value == id || obj_index_in(
                pre.objects@,
                obj.entries@[j].value,
            ) >= 0) && (obj.def.map_type == BPF_MAP_TYPE_ARRAY_OF_MAPS && obj.def.key_size
                == OUTER_KV_SIZE ==> u32_of_le_bytes(obj.entries@[j].key@)
                < obj.def.max_entries) by {
                let j2: int = if j < eij {
                    j
                } else {
                    j + 1
                };
                assert(obj.entries@[j] == o0.entries@[j2]);
                assert(obj_index_in(pre.objects@, o0.entries@[j2].value) >= 0);
            }
            assert(o0.entries@.len() <= o0.def.max_entries);
            self.lemma_one_object_changed(pre, oij, obj, id, id, key@);
        }
        Ok(())
    }
}

} // verus!
