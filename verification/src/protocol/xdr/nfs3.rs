//! NFSv3 data types (RFC 1813) used by the permission checks.

#![allow(non_camel_case_types)]

use vstd::prelude::*;

verus! {

pub type uid3 = u32;

pub type gid3 = u32;

pub type mode3 = u32;

pub type fileid3 = u64;

pub type size3 = u64;

/// The verifier of an exclusive CREATE.
pub type createverf3 = [u8; 8];

/// The type of a file system object.
#[derive(Clone, Copy, Debug, PartialEq, Eq, Structural)]
pub enum ftype3 {
    NF3REG,
    NF3DIR,
    NF3BLK,
    NF3CHR,
    NF3LNK,
    NF3SOCK,
    NF3FIFO,
}

/// Device numbers of a block or character special file.
#[derive(Clone, Copy, Debug, PartialEq, Eq, Structural)]
pub struct specdata3 {
    pub specdata1: u32,
    pub specdata2: u32,
}

/// A time stamp: seconds and nanoseconds since the epoch.
#[derive(Clone, Copy, Debug, PartialEq, Eq, Structural)]
pub struct nfstime3 {
    pub seconds: u32,
    pub nseconds: u32,
}

/// The attributes of a file system object.
#[derive(Clone, Copy, Debug, PartialEq, Eq, Structural)]
pub struct fattr3 {
    pub ftype: ftype3,
    pub mode: mode3,
    pub nlink: u32,
    pub uid: uid3,
    pub gid: gid3,
    pub size: size3,
    pub used: size3,
    pub rdev: specdata3,
    pub fsid: u64,
    pub fileid: fileid3,
    pub atime: nfstime3,
    pub mtime: nfstime3,
    pub ctime: nfstime3,
}

/// ACCESS: read data from a file or read a directory.
pub const ACCESS3_READ: u32 = 0x0001;

/// ACCESS: look up a name in a directory.
pub const ACCESS3_LOOKUP: u32 = 0x0002;

/// ACCESS: rewrite existing file data or modify existing directory entries.
pub const ACCESS3_MODIFY: u32 = 0x0004;

/// ACCESS: write new data or add directory entries.
pub const ACCESS3_EXTEND: u32 = 0x0008;

/// ACCESS: delete an existing directory entry.
pub const ACCESS3_DELETE: u32 = 0x0010;

/// ACCESS: execute a file.
pub const ACCESS3_EXECUTE: u32 = 0x0020;

} // verus!
