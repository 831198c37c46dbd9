//! XDR (RFC 4506) data types of the NFSv3, MOUNT and RPC protocols, and
//! helpers shared by their encoders.

pub mod mount;
pub mod codec;
pub mod nfs3;
pub mod rpc;
pub mod utils;
