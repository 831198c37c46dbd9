//! UNIX permission checks: the permissions that a caller's `AUTH_UNIX`
//! credentials give on a file, and the answer to an NFSv3 ACCESS request.

use crate::protocol::xdr::nfs3::{
    fattr3,
    ftype3,
    gid3,
    ACCESS3_DELETE,
    ACCESS3_EXECUTE,
    ACCESS3_EXTEND,
    ACCESS3_LOOKUP,
    ACCESS3_MODIFY,
    ACCESS3_READ,
};
use crate::protocol::xdr::rpc::auth_unix;
use crate::vfs::Capabilities;
use vstd::prelude::*;

verus! {

/// The read, write and execute permissions of a caller on a file.
#[derive(Clone, Copy, Debug)]
pub struct UnixPerms {
    pub read: bool,
    pub write: bool,
    pub execute: bool,
}

/// The caller's primary group or one of its supplementary groups is `gid`.
pub open spec fn spec_auth_matches_gid(auth: auth_unix, gid: gid3) -> bool {
    auth.gid == gid || auth.gids@.contains(gid)
}

/// The permissions given by the three bits `read_bit`, `write_bit` and
/// `execute_bit` of `mode`.
pub open spec fn perms_of_bits(mode: u32, read_bit: u32, write_bit: u32, execute_bit: u32) -> UnixPerms {
    UnixPerms {
        read: mode & read_bit != 0,
        write: mode & write_bit != 0,
        execute: mode & execute_bit != 0,
    }
}

/// The permissions that `auth` gives on a file with attributes `attr`: all of
/// them for root (uid 0); otherwise the owner's bits of the mode for the
/// owner, the group's bits for a member of the file's group, and the others'
/// bits for anyone else.
pub open spec fn spec_unix_mode_perms(attr: fattr3, auth: auth_unix) -> UnixPerms {
    let mode = attr.mode & 0o777;
    if auth.uid == 0 {
        UnixPerms { read: true, write: true, execute: true }
    } else if auth.uid == attr.uid {
        perms_of_bits(mode, 0o400, 0o200, 0o100)
    } else if spec_auth_matches_gid(auth, attr.gid) {
        perms_of_bits(mode, 0o040, 0o020, 0o010)
    } else {
        perms_of_bits(mode, 0o004, 0o002, 0o001)
    }
}

/// `bits` when `cond` holds, no bits otherwise.
pub open spec fn grant(cond: bool, bits: u32) -> u32 {
    if cond {
        bits
    } else {
        0
    }
}

/// The ACCESS bits that modify a file or directory's contents.
pub open spec fn write_mask() -> u32 {
    ACCESS3_MODIFY | ACCESS3_EXTEND
}

/// The access that an ACCESS request for the bits `requested` is granted on a
/// file with attributes `attr`, for the caller `auth`, on a file system with
/// `capabilities`.
///
/// Each requested bit is granted on its own condition: READ with read
/// permission; EXECUTE with execute permission; on a regular file, MODIFY and
/// EXTEND with write permission on a writable file system; on a directory
/// also LOOKUP with execute (search) permission, and MODIFY, EXTEND and
/// DELETE with write and search permission on a writable file system.
/// Symbolic links and other objects can only be granted READ and EXECUTE.
pub open spec fn spec_access_mask(
    attr: fattr3,
    auth: auth_unix,
    capabilities: Capabilities,
    requested: u32,
) -> u32 {
    let perms = spec_unix_mode_perms(attr, auth);
    let allow_write = capabilities == Capabilities::ReadWrite && perms.write;
    let read = grant(requested & ACCESS3_READ != 0 && perms.read, ACCESS3_READ);
    let execute = grant(requested & ACCESS3_EXECUTE != 0 && perms.execute, ACCESS3_EXECUTE);
    match attr.ftype {
        ftype3::NF3REG => read | execute | grant(
            requested & write_mask() != 0 && allow_write,
            requested & write_mask(),
        ),
        ftype3::NF3DIR => read | grant(requested & ACCESS3_LOOKUP != 0 && perms.execute, ACCESS3_LOOKUP)
            | execute | grant(
            requested & (write_mask() | ACCESS3_DELETE) != 0 && allow_write && perms.execute,
            requested & (write_mask() | ACCESS3_DELETE),
        ),
        _ => read | execute,
    }
}

/// Which mode bit gives which permission: root has every permission; the
/// owner gets read, write and execute from the bits 0o400, 0o200 and 0o100;
/// a caller in the file's group (as primary or supplementary group) from
/// 0o040, 0o020 and 0o010; anyone else from 0o004, 0o002 and 0o001.
pub proof fn law_unix_mode_perms_bits(attr: fattr3, auth: auth_unix)
    ensures
        ({
            let p = spec_unix_mode_perms(attr, auth);
            let m = attr.mode;
            let in_group = auth.gid == attr.gid || auth.gids@.contains(attr.gid);
            &&& auth.uid == 0 ==> p.read && p.write && p.execute
            &&& auth.uid != 0 && auth.uid == attr.uid ==> (p.read == (m & 0o400 != 0) && p.write == (m
                & 0o200 != 0) && p.execute == (m & 0o100 != 0))
            &&& auth.uid != 0 && auth.uid != attr.uid && in_group ==> (p.read == (m & 0o040 != 0)
                && p.write == (m & 0o020 != 0) && p.execute == (m & 0o010 != 0))
            &&& auth.uid != 0 && auth.uid != attr.uid && !in_group ==> (p.read == (m & 0o004 != 0)
                && p.write == (m & 0o002 != 0) && p.execute == (m & 0o001 != 0))
        }),
{
    let m = attr.mode;
    assert({
        &&& (m & 0o777) & 0o400 == m & 0o400
        &&& (m & 0o777) & 0o200 == m & 0o200
        &&& (m & 0o777) & 0o100 == m & 0o100
        &&& (m & 0o777) & 0o040 == m & 0o040
        &&& (m & 0o777) & 0o020 == m & 0o020
        &&& (m & 0o777) & 0o010 == m & 0o010
        &&& (m & 0o777) & 0o004 == m & 0o004
        &&& (m & 0o777) & 0o002 == m & 0o002
        &&& (m & 0o777) & 0o001 == m & 0o001
    }) by (bit_vector);
}

/// Each bit of an ACCESS answer on its own: READ is granted when requested
/// and readable; EXECUTE when requested and executable; LOOKUP only on a
/// directory, when requested and searchable (executable), whatever the read
/// permission; MODIFY and EXTEND when requested on a writable file system
/// with write permission, on a regular file or on a searchable directory;
/// DELETE only on a searchable directory, when requested on a writable file
/// system with write permission.
pub proof fn law_access_bit_by_bit(
    attr: fattr3,
    auth: auth_unix,
    capabilities: Capabilities,
    requested: u32,
)
    ensures
        ({
            let g = spec_access_mask(attr, auth, capabilities, requested);
            let p = spec_unix_mode_perms(attr, auth);
            let dir = attr.ftype == ftype3::NF3DIR;
            let reg = attr.ftype == ftype3::NF3REG;
            let rw = capabilities == Capabilities::ReadWrite;
            &&& (g & ACCESS3_READ != 0) == (requested & ACCESS3_READ != 0 && p.read)
            &&& (g & ACCESS3_LOOKUP != 0) == (dir && requested & ACCESS3_LOOKUP != 0 && p.execute)
            &&& (g & ACCESS3_EXECUTE != 0) == (requested & ACCESS3_EXECUTE != 0 && p.execute)
            &&& (g & ACCESS3_MODIFY != 0) == (requested & ACCESS3_MODIFY != 0 && rw && p.write && (reg
                || (dir && p.execute)))
            &&& (g & ACCESS3_EXTEND != 0) == (requested & ACCESS3_EXTEND != 0 && rw && p.write && (reg
                || (dir && p.execute)))
            &&& (g & ACCESS3_DELETE != 0) == (requested & ACCESS3_DELETE != 0 && dir && rw && p.write
                && p.execute)
        }),
{
    let p = spec_unix_mode_perms(attr, auth);
    let pr = p.read;
    let px = p.execute;
    let aw = capabilities == Capabilities::ReadWrite && p.write;
    let req = requested;
    assert((0x04u32 | 0x08u32) == 0x0cu32) by (bit_vector);
    assert((0x0cu32 | 0x10u32) == 0x1cu32) by (bit_vector);
    let r = req & 0x01 != 0 && pr;
    let l = req & 0x02 != 0 && px;
    let x = req & 0x20 != 0 && px;
    let w = req & 0x0c != 0 && aw;
    let d = req & 0x1c != 0 && aw && px;
    match attr.ftype {
        ftype3::NF3REG => {
            let g = (if r { 0x01u32 } else { 0u32 }) | (if x { 0x20u32 } else { 0u32 }) | (if w { req & 0x0c } else { 0u32 });
            assert({
                &&& (g & 0x01 != 0) == (req & 0x01 != 0 && pr)
                &&& g & 0x02 == 0
                &&& (g & 0x20 != 0) == (req & 0x20 != 0 && px)
                &&& (g & 0x04 != 0) == (req & 0x04 != 0 && aw)
                &&& (g & 0x08 != 0) == (req & 0x08 != 0 && aw)
                &&& g & 0x10 == 0
            }) by (bit_vector)
                requires
                    r == (req & 0x01 != 0 && pr),
                    x == (req & 0x20 != 0 && px),
                    w == (req & 0x0c != 0 && aw),
                    g == (if r { 0x01u32 } else { 0u32 }) | (if x { 0x20u32 } else { 0u32 }) | (if w { req & 0x0c } else { 0u32 }),
            ;
        },
        ftype3::NF3DIR => {
            let g = (if r { 0x01u32 } else { 0u32 }) | (if l { 0x02u32 } else { 0u32 }) | (if x { 0x20u32 } else { 0u32 }) | (if d { req & 0x1c } else { 0u32 });
            assert({
                &&& (g & 0x01 != 0) == (req & 0x01 != 0 && pr)
                &&& (g & 0x02 != 0) == (req & 0x02 != 0 && px)
                &&& (g & 0x20 != 0) == (req & 0x20 != 0 && px)
                &&& (g & 0x04 != 0) == (req & 0x04 != 0 && aw && px)
                &&& (g & 0x08 != 0) == (req & 0x08 != 0 && aw && px)
                &&& (g & 0x10 != 0) == (req & 0x10 != 0 && aw && px)
            }) by (bit_vector)
                requires
                    r == (req & 0x01 != 0 && pr),
                    l == (req & 0x02 != 0 && px),
                    x == (req & 0x20 != 0 && px),
                    d == (req & 0x1c != 0 && aw && px),
                    g == (if r { 0x01u32 } else { 0u32 }) | (if l { 0x02u32 } else { 0u32 }) | (if x { 0x20u32 } else { 0u32 }) | (if d { req & 0x1c } else { 0u32 }),
            ;
        },
        _ => {
            let g = (if r { 0x01u32 } else { 0u32 }) | (if x { 0x20u32 } else { 0u32 });
            assert({
                &&& (g & 0x01 != 0) == (req & 0x01 != 0 && pr)
                &&& g & 0x02 == 0
                &&& (g & 0x20 != 0) == (req & 0x20 != 0 && px)
                &&& g & 0x04 == 0
                &&& g & 0x08 == 0
                &&& g & 0x10 == 0
            }) by (bit_vector)
                requires
                    r == (req & 0x01 != 0 && pr),
                    x == (req & 0x20 != 0 && px),
                    g == (if r { 0x01u32 } else { 0u32 }) | (if x { 0x20u32 } else { 0u32 }),
            ;
        },
    }
}

/// An ACCESS request is never granted a bit that it did not ask for.
pub proof fn law_access_grants_only_requested(
    attr: fattr3,
    auth: auth_unix,
    capabilities: Capabilities,
    requested: u32,
)
    ensures
        spec_access_mask(attr, auth, capabilities, requested) & !requested == 0,
{
    let perms = spec_unix_mode_perms(attr, auth);
    let allow_write = capabilities == Capabilities::ReadWrite && perms.write;
    let r = requested & 0x01 != 0 && perms.read;
    let l = requested & 0x02 != 0 && perms.execute;
    let x = requested & 0x20 != 0 && perms.execute;
    let w = requested & 0x0c != 0 && allow_write;
    let d = requested & 0x1c != 0 && allow_write && perms.execute;
    assert((0x04u32 | 0x08u32) == 0x0cu32) by (bit_vector);
    assert((0x0cu32 | 0x10u32) == 0x1cu32) by (bit_vector);
    assert(((if r { 0x01u32 } else { 0u32 }) | (if x { 0x20u32 } else { 0u32 }) | (if w { requested & 0x0c } else { 0u32 })) & !requested == 0) by (bit_vector)
        requires
            r ==> requested & 0x01 != 0,
            x ==> requested & 0x20 != 0,
    ;
    assert(((if r { 0x01u32 } else { 0u32 }) | (if l { 0x02u32 } else { 0u32 }) | (if x { 0x20u32 } else { 0u32 }) | (if d { requested & 0x1c } else { 0u32 })) & !requested == 0) by (bit_vector)
        requires
            r ==> requested & 0x01 != 0,
            l ==> requested & 0x02 != 0,
            x ==> requested & 0x20 != 0,
    ;
    assert(((if r { 0x01u32 } else { 0u32 }) | (if x { 0x20u32 } else { 0u32 })) & !requested == 0) by (bit_vector)
        requires
            r ==> requested & 0x01 != 0,
            x ==> requested & 0x20 != 0,
    ;
}

/// On a read-only file system no ACCESS request is granted MODIFY, EXTEND or
/// DELETE.
pub proof fn law_read_only_grants_no_writes(attr: fattr3, auth: auth_unix, requested: u32)
    ensures
        spec_access_mask(attr, auth, Capabilities::ReadOnly, requested) & (ACCESS3_MODIFY
            | ACCESS3_EXTEND | ACCESS3_DELETE) == 0,
{
    let perms = spec_unix_mode_perms(attr, auth);
    let r = requested & 0x01 != 0 && perms.read;
    let l = requested & 0x02 != 0 && perms.execute;
    let x = requested & 0x20 != 0 && perms.execute;
    assert((0x04u32 | 0x08u32) == 0x0cu32) by (bit_vector);
    assert((0x0cu32 | 0x10u32) == 0x1cu32) by (bit_vector);
    assert(((if r { 0x01u32 } else { 0u32 }) | (if x { 0x20u32 } else { 0u32 }) | 0u32) & 0x1c == 0) by (bit_vector);
    assert(((if r { 0x01u32 } else { 0u32 }) | (if l { 0x02u32 } else { 0u32 }) | (if x { 0x20u32 } else { 0u32 }) | 0u32) & 0x1c == 0) by (bit_vector);
    assert(((if r { 0x01u32 } else { 0u32 }) | (if x { 0x20u32 } else { 0u32 })) & 0x1c == 0) by (bit_vector);
}

/// Only directories are granted LOOKUP or DELETE.
pub proof fn law_lookup_and_delete_only_on_directories(
    attr: fattr3,
    auth: auth_unix,
    capabilities: Capabilities,
    requested: u32,
)
    requires
        attr.ftype != ftype3::NF3DIR,
    ensures
        spec_access_mask(attr, auth, capabilities, requested) & (ACCESS3_LOOKUP | ACCESS3_DELETE) == 0,
{
    let perms = spec_unix_mode_perms(attr, auth);
    let allow_write = capabilities == Capabilities::ReadWrite && perms.write;
    let r = requested & 0x01 != 0 && perms.read;
    let x = requested & 0x20 != 0 && perms.execute;
    let w = requested & 0x0c != 0 && allow_write;
    assert((0x04u32 | 0x08u32) == 0x0cu32) by (bit_vector);
    assert((0x02u32 | 0x10u32) == 0x12u32) by (bit_vector);
    assert(((if r { 0x01u32 } else { 0u32 }) | (if x { 0x20u32 } else { 0u32 }) | (if w { requested & 0x0c } else { 0u32 })) & 0x12 == 0) by (bit_vector);
    assert(((if r { 0x01u32 } else { 0u32 }) | (if x { 0x20u32 } else { 0u32 })) & 0x12 == 0) by (bit_vector);
}

/// Root on a writable file system is granted every requested bit that
/// applies to the object: READ, EXECUTE, MODIFY and EXTEND on a regular
/// file, and LOOKUP and DELETE besides on a directory.
pub proof fn law_root_is_granted_what_applies(attr: fattr3, auth: auth_unix, requested: u32)
    requires
        auth.uid == 0,
    ensures
        attr.ftype == ftype3::NF3REG ==> spec_access_mask(attr, auth, Capabilities::ReadWrite, requested)
            == requested & (ACCESS3_READ | ACCESS3_EXECUTE | ACCESS3_MODIFY | ACCESS3_EXTEND),
        attr.ftype == ftype3::NF3DIR ==> spec_access_mask(attr, auth, Capabilities::ReadWrite, requested)
            == requested & (ACCESS3_READ | ACCESS3_LOOKUP | ACCESS3_EXECUTE | ACCESS3_MODIFY
            | ACCESS3_EXTEND | ACCESS3_DELETE),
{
    assert((0x04u32 | 0x08u32) == 0x0cu32) by (bit_vector);
    assert((0x0cu32 | 0x10u32) == 0x1cu32) by (bit_vector);
    assert(((if requested & 0x01 != 0 { 0x01u32 } else { 0u32 }) | (if requested & 0x20 != 0 { 0x20u32 } else { 0u32 }) | (if requested & 0x0c != 0 { requested & 0x0c } else { 0u32 })) == requested & (0x01u32 | 0x20u32 | 0x04u32 | 0x08u32)) by (bit_vector);
    assert(((if requested & 0x01 != 0 { 0x01u32 } else { 0u32 }) | (if requested & 0x02 != 0 { 0x02u32 } else { 0u32 }) | (if requested & 0x20 != 0 { 0x20u32 } else { 0u32 }) | (if requested & 0x1c != 0 { requested & 0x1c } else { 0u32 })) == requested & (0x01u32 | 0x02u32 | 0x20u32 | 0x04u32 | 0x08u32 | 0x10u32)) by (bit_vector);
}

/// Without search (execute) permission on a directory, nothing in it can be
/// looked up, added, changed or deleted.
pub proof fn law_directory_changes_need_search(
    attr: fattr3,
    auth: auth_unix,
    capabilities: Capabilities,
    requested: u32,
)
    requires
        attr.ftype == ftype3::NF3DIR,
        !spec_unix_mode_perms(attr, auth).execute,
    ensures
        spec_access_mask(attr, auth, capabilities, requested) & (ACCESS3_LOOKUP | ACCESS3_MODIFY
            | ACCESS3_EXTEND | ACCESS3_DELETE) == 0,
{
    let perms = spec_unix_mode_perms(attr, auth);
    let r = requested & 0x01 != 0 && perms.read;
    assert((0x04u32 | 0x08u32) == 0x0cu32) by (bit_vector);
    assert((0x0cu32 | 0x10u32) == 0x1cu32) by (bit_vector);
    assert((0x02u32 | 0x04u32 | 0x08u32 | 0x10u32) == 0x1eu32) by (bit_vector);
    assert(((if r { 0x01u32 } else { 0u32 }) | 0u32 | 0u32 | 0u32) & 0x1e == 0) by (bit_vector);
}

/// Whether the caller's primary or a supplementary group is `gid`.
fn auth_matches_gid(auth: &auth_unix, gid: gid3) -> (matches: bool)
    ensures
        matches == spec_auth_matches_gid(*auth, gid),
{
    if auth.gid == gid {
        return true;
    }
    let mut i: usize = 0;
    while i < auth.gids.len()
        invariant
            i <= auth.gids@.len(),
            forall|j: int| 0 <= j < i ==> auth.gids@[j] != gid,
        decreases auth.gids@.len() - i,
    {
        if auth.gids[i] == gid {
            assert(auth.gids@[i as int] == gid);
            return true;
        }
        i = i + 1;
    }
    assert(!auth.gids@.contains(gid));
    false
}

/// The permissions that the credentials `auth` give on a file with
/// attributes `attr`.
pub fn unix_mode_perms(attr: &fattr3, auth: &auth_unix) -> (perms: UnixPerms)
    ensures
        perms == spec_unix_mode_perms(*attr, *auth),
{
    if auth.uid == 0 {
        return UnixPerms { read: true, write: true, execute: true };
    }
    let mode = attr.mode & 0o777;
    if auth.uid == attr.uid {
        UnixPerms { read: mode & 0o400 != 0, write: mode & 0o200 != 0, execute: mode & 0o100 != 0 }
    } else if auth_matches_gid(auth, attr.gid) {
        UnixPerms { read: mode & 0o040 != 0, write: mode & 0o020 != 0, execute: mode & 0o010 != 0 }
    } else {
        UnixPerms { read: mode & 0o004 != 0, write: mode & 0o002 != 0, execute: mode & 0o001 != 0 }
    }
}

/// Or-ing in no bits changes nothing, and or-ing bits into none gives them.
proof fn lemma_or_zero(x: u32)
    ensures
        x | 0 == x,
        0 | x == x,
{
    assert(x | 0 == x) by (bit_vector);
    assert(0 | x == x) by (bit_vector);
}

/// The access granted to an NFSv3 ACCESS request for the bits `requested`.
pub fn access_mask(attr: &fattr3, auth: &auth_unix, capabilities: Capabilities, requested: u32) -> (granted: u32)
    ensures
        granted == spec_access_mask(*attr, *auth, capabilities, requested),
{
    let perms = unix_mode_perms(attr, auth);
    let supports_write = match capabilities {
        Capabilities::ReadWrite => true,
        Capabilities::ReadOnly => false,
    };
    let allow_write = supports_write && perms.write;
    let write_mask = ACCESS3_MODIFY | ACCESS3_EXTEND;
    let delete_mask = ACCESS3_DELETE;
    let mut granted_access: u32 = 0;
    let ghost read = grant(requested & ACCESS3_READ != 0 && perms.read, ACCESS3_READ);
    let ghost execute = grant(requested & ACCESS3_EXECUTE != 0 && perms.execute, ACCESS3_EXECUTE);
    proof {
        lemma_or_zero(0);
        lemma_or_zero(ACCESS3_READ);
        lemma_or_zero(read);
    }
    match attr.ftype {
        ftype3::NF3REG => {
            if requested & ACCESS3_READ != 0 && perms.read {
                granted_access = granted_access | ACCESS3_READ;
            }
            assert(granted_access == read);
            if requested & ACCESS3_EXECUTE != 0 && perms.execute {
                granted_access = granted_access | ACCESS3_EXECUTE;
            }
            proof {
                lemma_or_zero(read | execute);
            }
            assert(granted_access == read | execute);
            if requested & write_mask != 0 && allow_write {
                granted_access = granted_access | (requested & write_mask);
            }
        },
        ftype3::NF3DIR => {
            let ghost lookup = grant(requested & ACCESS3_LOOKUP != 0 && perms.execute, ACCESS3_LOOKUP);
            if requested & ACCESS3_READ != 0 && perms.read {
                granted_access = granted_access | ACCESS3_READ;
            }
            assert(granted_access == read);
            if requested & ACCESS3_LOOKUP != 0 && perms.execute {
                granted_access = granted_access | ACCESS3_LOOKUP;
            }
            proof {
                lemma_or_zero(read | lookup);
                lemma_or_zero(read | lookup | execute);
            }
            assert(granted_access == read | lookup);
            if requested & ACCESS3_EXECUTE != 0 && perms.execute {
                granted_access = granted_access | ACCESS3_EXECUTE;
            }
            assert(granted_access == read | lookup | execute);
            if requested & (write_mask | delete_mask) != 0 && allow_write && perms.execute {
                granted_access = granted_access | (requested & (write_mask | delete_mask));
            }
        },
        ftype3::NF3LNK => {
            if requested & ACCESS3_READ != 0 && perms.read {
                granted_access = granted_access | ACCESS3_READ;
            }
            assert(granted_access == read);
            if requested & ACCESS3_EXECUTE != 0 && perms.execute {
                granted_access = granted_access | ACCESS3_EXECUTE;
            }
            proof {
                lemma_or_zero(read | execute);
            }
        },
        _ => {
            if requested & ACCESS3_READ != 0 && perms.read {
                granted_access = granted_access | ACCESS3_READ;
            }
            assert(granted_access == read);
            if requested & ACCESS3_EXECUTE != 0 && perms.execute {
                granted_access = granted_access | ACCESS3_EXECUTE;
            }
            proof {
                lemma_or_zero(read | execute);
            }
        },
    }
    granted_access
}

} // verus!
