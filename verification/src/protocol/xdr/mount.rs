//! MOUNT version 3 data types (RFC 1813, appendix I).

#![allow(non_camel_case_types)]

use super::codec::{encode_opaque, encode_u32, encode_u32_array, spec_opaque_bytes, spec_u32_array_bytes, spec_u32_bytes};
use vstd::prelude::*;

verus! {

/// The status of a MOUNT procedure.
#[derive(Clone, Copy, Debug, PartialEq, Eq, Structural)]
pub enum mountstat3 {
    MNT3_OK,
    MNT3ERR_PERM,
    MNT3ERR_NOENT,
    MNT3ERR_IO,
    MNT3ERR_ACCES,
    MNT3ERR_NOTDIR,
    MNT3ERR_INVAL,
    MNT3ERR_NAMETOOLONG,
    MNT3ERR_NOTSUPP,
    MNT3ERR_SERVERFAULT,
}

impl mountstat3 {
    /// The status's number on the wire.
    pub open spec fn spec_code(self) -> u32 {
        match self {
            mountstat3::MNT3_OK => 0,
            mountstat3::MNT3ERR_PERM => 1,
            mountstat3::MNT3ERR_NOENT => 2,
            mountstat3::MNT3ERR_IO => 5,
            mountstat3::MNT3ERR_ACCES => 13,
            mountstat3::MNT3ERR_NOTDIR => 20,
            mountstat3::MNT3ERR_INVAL => 22,
            mountstat3::MNT3ERR_NAMETOOLONG => 63,
            mountstat3::MNT3ERR_NOTSUPP => 10004,
            mountstat3::MNT3ERR_SERVERFAULT => 10006,
        }
    }

    /// The status's number on the wire.
    pub fn code(&self) -> (c: u32)
        ensures
            c == self.spec_code(),
    {
        match self {
            mountstat3::MNT3_OK => 0,
            mountstat3::MNT3ERR_PERM => 1,
            mountstat3::MNT3ERR_NOENT => 2,
            mountstat3::MNT3ERR_IO => 5,
            mountstat3::MNT3ERR_ACCES => 13,
            mountstat3::MNT3ERR_NOTDIR => 20,
            mountstat3::MNT3ERR_INVAL => 22,
            mountstat3::MNT3ERR_NAMETOOLONG => 63,
            mountstat3::MNT3ERR_NOTSUPP => 10004,
            mountstat3::MNT3ERR_SERVERFAULT => 10006,
        }
    }

    /// Appends the XDR encoding of the status to `out`.
    pub fn serialize(&self, out: &mut Vec<u8>)
        ensures
            final(out)@ == old(out)@ + spec_u32_bytes(self.spec_code()),
    {
        encode_u32(self.code(), out);
    }
}

/// The result of a successful MNT: the file handle of the mounted directory
/// and the authentication flavors that the server accepts.
#[derive(Clone, Debug)]
pub struct mountres3_ok {
    pub fhandle: Vec<u8>,
    pub auth_flavors: Vec<u32>,
}

/// The XDR encoding of a successful MNT result.
pub open spec fn spec_mountres3_ok_bytes(fhandle: Seq<u8>, auth_flavors: Seq<u32>) -> Seq<u8> {
    spec_opaque_bytes(fhandle) + spec_u32_array_bytes(auth_flavors)
}

impl mountres3_ok {
    /// Appends the XDR encoding of the result to `out`.
    pub fn serialize(&self, out: &mut Vec<u8>)
        requires
            self.fhandle@.len() <= u32::MAX,
            self.auth_flavors@.len() <= u32::MAX,
        ensures
            final(out)@ == old(out)@ + spec_mountres3_ok_bytes(self.fhandle@, self.auth_flavors@),
    {
        encode_opaque(self.fhandle.as_slice(), out);
        encode_u32_array(self.auth_flavors.as_slice(), out);
        assert(out@ =~= old(out)@ + spec_mountres3_ok_bytes(self.fhandle@, self.auth_flavors@));
    }
}

} // verus!
