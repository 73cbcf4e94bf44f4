//! Typed outer maps ("maps of maps") for eBPF: a two-level kernel map whose
//! outer slots reference other kernel map objects.
//!
//! The crate has two halves that share one ABI descriptor but never
//! interoperate in one process image:
//! - the dynamic, userspace half ([`Array`], [`HashMap`]) validates an
//!   existing generic map handle and mutates the outer map through system
//!   calls, transferring file-descriptor ownership into the kernel;
//! - the embedded, in-program half ([`ArrayOfMaps`], [`HashOfMaps`]) is
//!   built at compile time and offers read-only lookup. No mutation path
//!   exists on this side: populating an outer map is a userspace act.
//!
//! The kernel's map subsystem, as a process observes it through the system
//! call surface, is modelled by [`kernel::Kernel`]; every wrapper operation
//! is specified and verified against that model.

use vstd::prelude::*;

pub mod defs;
pub mod errors;
pub mod pod;
pub mod kernel;
pub mod array;
pub mod hash_map;
pub mod array_of_maps;
pub mod hash_of_maps;
pub mod laws;

pub use defs::MapDescriptor;
pub use errors::MapError;
pub use array::Array;
pub use hash_map::HashMap;
pub use array_of_maps::ArrayOfMaps;
pub use hash_of_maps::HashOfMaps;

verus! {

/// A generic handle to a kernel map: the declared descriptor record, and the
/// process-local file descriptor once the map has been loaded.
///
/// A handle says nothing about the map's type: the outer-map wrappers
/// validate it at construction before allowing typed access.
pub struct MapHandle {
    pub def: defs::MapDescriptor,
    pub fd: Option<i32>,
}

impl MapHandle {
    /// The underlying map has been loaded into the kernel.
    pub open spec fn loaded(self) -> bool {
        self.fd is Some
    }

    /// The live descriptor, for a loaded handle.
    pub open spec fn fd_val(self) -> i32 {
        match self.fd {
            Some(f) => f,
            None => 0,
        }
    }

    /// The live descriptor, or `NotLoaded` if the map has not been loaded.
    pub fn fd_or_err(&self) -> (r: Result<i32, errors::MapError>)
        ensures
            self.loaded() ==> r == Ok::<i32, errors::MapError>(self.fd_val()),
            !self.loaded() ==> r == Err::<i32, errors::MapError>(errors::MapError::NotLoaded),
    {
        match self.fd {
            Some(f) => Ok(f),
            None => Err(errors::MapError::NotLoaded),
        }
    }
}

/// The one capability every outer-map wrapper offers: yield the live file
/// descriptor of the underlying loaded map, or fail.
pub trait MapOfMaps {
    /// The descriptor the wrapper holds, as the contract sees it.
    spec fn handle_fd(&self) -> i32;

    /// Whether the wrapper's underlying map is loaded.
    spec fn handle_loaded(&self) -> bool;

    /// Returns the wrapper's live file descriptor, or `NotLoaded`.
    fn fd_or_err(&self) -> (r: Result<i32, errors::MapError>)
        ensures
            self.handle_loaded() ==> r == Ok::<i32, errors::MapError>(self.handle_fd()),
            !self.handle_loaded() ==> r == Err::<i32, errors::MapError>(errors::MapError::NotLoaded),
    ;
}

} // verus!
