//! RPC authentication data (RFC 5531).

#![allow(non_camel_case_types)]

use super::codec::{encode_u32, spec_u32_bytes};
use vstd::prelude::*;

verus! {

/// The credentials of an `AUTH_UNIX` (`AUTH_SYS`) call.
#[derive(Clone, Debug)]
pub struct auth_unix {
    pub stamp: u32,
    pub machinename: Vec<u8>,
    pub uid: u32,
    pub gid: u32,
    pub gids: Vec<u32>,
}

/// Authentication flavors.
#[derive(Clone, Copy, Debug, PartialEq, Eq, Structural)]
pub enum auth_flavor {
    AUTH_NULL,
    AUTH_UNIX,
    AUTH_SHORT,
    AUTH_DES,
}

impl auth_flavor {
    /// The flavor's number on the wire.
    pub open spec fn spec_code(self) -> u32 {
        match self {
            auth_flavor::AUTH_NULL => 0,
            auth_flavor::AUTH_UNIX => 1,
            auth_flavor::AUTH_SHORT => 2,
            auth_flavor::AUTH_DES => 3,
        }
    }

    /// The flavor's number on the wire.
    pub fn code(&self) -> (c: u32)
        ensures
            c == self.spec_code(),
    {
        match self {
            auth_flavor::AUTH_NULL => 0,
            auth_flavor::AUTH_UNIX => 1,
            auth_flavor::AUTH_SHORT => 2,
            auth_flavor::AUTH_DES => 3,
        }
    }
}

/// The XDR encoding of the header of an RPC reply to the call `xid` that was
/// accepted and executed successfully (RFC 5531): the XID, the message type
/// REPLY (1), the reply status MSG_ACCEPTED (0), a verifier of flavor
/// AUTH_NULL (0) with an empty body, and the accept status SUCCESS (0). The
/// procedure's results follow it.
pub open spec fn spec_success_reply_bytes(xid: u32) -> Seq<u8> {
    spec_u32_bytes(xid) + spec_u32_bytes(1) + spec_u32_bytes(0) + spec_u32_bytes(
        auth_flavor::AUTH_NULL.spec_code(),
    ) + spec_u32_bytes(0) + spec_u32_bytes(0)
}

/// Appends the header of a successful reply to the call `xid` to `out`.
pub fn make_success_reply(xid: u32, out: &mut Vec<u8>)
    ensures
        final(out)@ == old(out)@ + spec_success_reply_bytes(xid),
{
    encode_u32(xid, out);
    encode_u32(1, out);
    encode_u32(0, out);
    encode_u32(auth_flavor::AUTH_NULL.code(), out);
    encode_u32(0, out);
    encode_u32(0, out);
    assert(out@ =~= old(out)@ + spec_success_reply_bytes(xid));
}

} // verus!
