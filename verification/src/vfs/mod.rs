//! The virtual file system interface: what a backing file system supports,
//! and the permission checks made on its behalf.

pub mod permissions;

use vstd::prelude::*;

verus! {

/// What a file system supports.
#[derive(Clone, Copy, Debug, PartialEq, Eq, Structural)]
pub enum Capabilities {
    /// Only reads are supported.
    ReadOnly,
    /// Reads and writes are supported.
    ReadWrite,
}

} // verus!
