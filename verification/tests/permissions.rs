use fernfs::protocol::xdr::nfs3::{
    fattr3, ftype3, nfstime3, specdata3, ACCESS3_DELETE, ACCESS3_EXECUTE, ACCESS3_EXTEND,
    ACCESS3_LOOKUP, ACCESS3_MODIFY, ACCESS3_READ,
};
use fernfs::protocol::xdr::rpc::auth_unix;
use fernfs::vfs::permissions::{access_mask, unix_mode_perms};
use fernfs::vfs::Capabilities;

fn attr(ftype: ftype3, mode: u32, uid: u32, gid: u32) -> fattr3 {
    let t = nfstime3 { seconds: 0, nseconds: 0 };
    fattr3 {
        ftype,
        mode,
        nlink: 1,
        uid,
        gid,
        size: 0,
        used: 0,
        rdev: specdata3 { specdata1: 0, specdata2: 0 },
        fsid: 0,
        fileid: 1,
        atime: t,
        mtime: t,
        ctime: t,
    }
}

fn auth(uid: u32, gid: u32, gids: Vec<u32>) -> auth_unix {
    auth_unix { stamp: 0, machinename: b"client".to_vec(), uid, gid, gids }
}

const ALL: u32 = ACCESS3_READ | ACCESS3_LOOKUP | ACCESS3_MODIFY | ACCESS3_EXTEND | ACCESS3_DELETE | ACCESS3_EXECUTE;

#[test]
fn root_has_every_permission() {
    let p = unix_mode_perms(&attr(ftype3::NF3REG, 0o000, 5, 5), &auth(0, 0, vec![]));
    assert!(p.read && p.write && p.execute);
}

#[test]
fn owner_group_and_other_bits() {
    let a = attr(ftype3::NF3REG, 0o754, 100, 200);
    let owner = unix_mode_perms(&a, &auth(100, 1, vec![]));
    assert!(owner.read && owner.write && owner.execute);
    let group = unix_mode_perms(&a, &auth(101, 200, vec![]));
    assert!(group.read && !group.write && group.execute);
    let supplementary = unix_mode_perms(&a, &auth(101, 1, vec![3, 200]));
    assert!(supplementary.read && !supplementary.write && supplementary.execute);
    let other = unix_mode_perms(&a, &auth(101, 1, vec![3, 4]));
    assert!(other.read && !other.write && !other.execute);
}

#[test]
fn owner_bits_win_over_group_bits() {
    let a = attr(ftype3::NF3REG, 0o077, 100, 200);
    let owner = unix_mode_perms(&a, &auth(100, 200, vec![]));
    assert!(!owner.read && !owner.write && !owner.execute);
}

#[test]
fn mode_bits_above_permissions_are_ignored() {
    let a = attr(ftype3::NF3REG, 0o4000, 100, 200);
    let owner = unix_mode_perms(&a, &auth(100, 200, vec![]));
    assert!(!owner.read && !owner.write && !owner.execute);
}

#[test]
fn regular_file_access() {
    let a = attr(ftype3::NF3REG, 0o644, 100, 200);
    let owner = auth(100, 200, vec![]);
    assert_eq!(
        access_mask(&a, &owner, Capabilities::ReadWrite, ALL),
        ACCESS3_READ | ACCESS3_MODIFY | ACCESS3_EXTEND
    );
    assert_eq!(access_mask(&a, &owner, Capabilities::ReadOnly, ALL), ACCESS3_READ);
    assert_eq!(access_mask(&a, &owner, Capabilities::ReadWrite, ACCESS3_EXTEND), ACCESS3_EXTEND);
    let other = auth(7, 7, vec![]);
    assert_eq!(access_mask(&a, &other, Capabilities::ReadWrite, ALL), ACCESS3_READ);
    assert_eq!(access_mask(&a, &other, Capabilities::ReadWrite, ACCESS3_EXECUTE), 0);
}

#[test]
fn directory_access() {
    let a = attr(ftype3::NF3DIR, 0o750, 100, 200);
    let owner = auth(100, 200, vec![]);
    assert_eq!(access_mask(&a, &owner, Capabilities::ReadWrite, ALL), ALL);
    assert_eq!(
        access_mask(&a, &owner, Capabilities::ReadOnly, ALL),
        ACCESS3_READ | ACCESS3_LOOKUP | ACCESS3_EXECUTE
    );
    let member = auth(101, 200, vec![]);
    assert_eq!(
        access_mask(&a, &member, Capabilities::ReadWrite, ALL),
        ACCESS3_READ | ACCESS3_LOOKUP | ACCESS3_EXECUTE
    );
    let other = auth(102, 300, vec![]);
    assert_eq!(access_mask(&a, &other, Capabilities::ReadWrite, ALL), 0);
}

#[test]
fn directory_writes_need_search_permission() {
    let a = attr(ftype3::NF3DIR, 0o600, 100, 200);
    let owner = auth(100, 200, vec![]);
    assert_eq!(access_mask(&a, &owner, Capabilities::ReadWrite, ALL), ACCESS3_READ);
}

#[test]
fn symlink_and_other_objects_access() {
    let owner = auth(100, 200, vec![]);
    let link = attr(ftype3::NF3LNK, 0o777, 100, 200);
    assert_eq!(
        access_mask(&link, &owner, Capabilities::ReadWrite, ALL),
        ACCESS3_READ | ACCESS3_EXECUTE
    );
    let fifo = attr(ftype3::NF3FIFO, 0o777, 100, 200);
    assert_eq!(
        access_mask(&fifo, &owner, Capabilities::ReadWrite, ALL),
        ACCESS3_READ | ACCESS3_EXECUTE
    );
}

#[test]
fn root_is_granted_only_what_it_requests() {
    let a = attr(ftype3::NF3REG, 0, 5, 5);
    let root = auth(0, 0, vec![]);
    assert_eq!(access_mask(&a, &root, Capabilities::ReadWrite, ACCESS3_READ), ACCESS3_READ);
    assert_eq!(
        access_mask(&a, &root, Capabilities::ReadWrite, ALL | 0x4000),
        ACCESS3_READ | ACCESS3_EXECUTE | ACCESS3_MODIFY | ACCESS3_EXTEND
    );
}
