//! A user-space NFSv3 server library: XDR helpers, RPC retransmission
//! tracking, MOUNT path resolution and UNIX permission checks.

pub mod cli;
pub mod fs_entry;
pub mod protocol;
pub mod vfs;

pub use protocol::xdr;
