pub mod nfs;
pub mod rpc;
pub mod xdr;
