//! Errors surfaced by the outer-map wrappers.

use vstd::prelude::*;

verus! {

/// The system call a failure originated from.
#[derive(Clone, Copy, Debug, PartialEq, Eq, Structural)]
pub enum SyscallName {
    MapLookupElem,
    MapUpdateElem,
    MapDeleteElem,
    MapGetFdById,
    MapGetNextKey,
    MapCreate,
}

/// Why an outer-map operation failed.
///
/// The three ABI-validation errors are raised eagerly, at construction, and
/// each carries the field that diverged from the kernel's expectation.
/// Runtime failures carry the originating call name and the raw OS error
/// number; they are never retried internally.
#[derive(Clone, Copy, Debug, PartialEq, Eq, Structural)]
pub enum MapError {
    /// The handle's declared type tag is not the expected map-of-maps tag.
    InvalidMapType { map_type: u32 },
    /// The handle's declared key width differs from the expected width.
    InvalidKeySize { size: u32, expected: u32 },
    /// The handle's declared value width differs from the expected width.
    InvalidValueSize { size: u32, expected: u32 },
    /// A dense index at or beyond the map's capacity.
    OutOfBounds { index: u32, max_entries: u32 },
    /// No entry is installed under the requested key or index.
    KeyNotFound,
    /// The underlying map has not been loaded into the kernel yet.
    NotLoaded,
    /// The kernel rejected a call; `errno` is the raw OS error number.
    SyscallError { call: SyscallName, errno: i32 },
}

/// OS error number: bad file descriptor.
pub const EBADF: i32 = 9;

/// OS error number: no such entry.
pub const ENOENT: i32 = 2;

/// OS error number: the kernel's bound error — a dense index at or past the
/// map's capacity, or a map that is full.
pub const E2BIG: i32 = 7;

/// OS error number: entry already exists.
pub const EEXIST: i32 = 17;

/// OS error number: invalid argument.
pub const EINVAL: i32 = 22;

/// OS error number: file-descriptor table exhausted.
pub const EMFILE: i32 = 24;

/// OS error number: out of identifiers or memory.
pub const ENOMEM: i32 = 12;

} // verus!
