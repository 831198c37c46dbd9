use fernfs::fs_entry::FSEntry;
use fernfs::protocol::xdr::nfs3::{fattr3, ftype3, nfstime3, specdata3};

fn meta(ftype: ftype3) -> fattr3 {
    let t = nfstime3 { seconds: 1, nseconds: 2 };
    fattr3 {
        ftype,
        mode: 0o755,
        nlink: 2,
        uid: 1,
        gid: 1,
        size: 4096,
        used: 4096,
        rdev: specdata3 { specdata1: 0, specdata2: 0 },
        fsid: 3,
        fileid: 4,
        atime: t,
        mtime: t,
        ctime: t,
    }
}

#[test]
fn new_entry_has_its_name_as_only_alias() {
    let e = FSEntry::new(vec![3, 1], meta(ftype3::NF3DIR));
    assert_eq!(e.name, vec![3, 1]);
    assert_eq!(e.aliases, vec![vec![3, 1]]);
    assert_eq!(e.children_meta, e.fsmeta);
    assert!(e.is_directory());
    assert!(!e.has_children());
    assert!(e.exclusive_verifier.is_none());
    assert!(!FSEntry::new(vec![], meta(ftype3::NF3REG)).is_directory());
}

#[test]
fn children_are_added_and_removed() {
    let mut e = FSEntry::new(vec![], meta(ftype3::NF3DIR));
    e.remove_child(5);
    assert!(!e.has_children());
    e.add_child(5, 50);
    e.add_child(6, 60);
    e.add_child(5, 51);
    assert!(e.has_children());
    let children = e.children.clone().unwrap();
    assert_eq!(children.len(), 2);
    assert_eq!(children.get(&5), Some(&51));
    e.remove_child(5);
    e.remove_child(7);
    let children = e.children.clone().unwrap();
    assert_eq!(children.into_iter().collect::<Vec<_>>(), vec![(6, 60)]);
}
