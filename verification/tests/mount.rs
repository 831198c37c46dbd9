use fernfs::protocol::nfs::mount::mnt::{
    export_subpath, mount_path, mountproc3_mnt_reply, mountproc3_mnt_start, trim_end_slashes,
    trim_slashes, trim_start_slashes, MntStep,
};
use fernfs::protocol::xdr::codec::encode_opaque;

#[test]
fn trims_slashes() {
    assert_eq!(trim_start_slashes(b"//a/b//"), b"a/b//");
    assert_eq!(trim_end_slashes(b"//a/b//"), b"//a/b");
    assert_eq!(trim_slashes(b"//a/b//"), b"a/b");
    assert_eq!(trim_slashes(b"///"), b"");
    assert_eq!(trim_slashes(b""), b"");
    assert_eq!(trim_slashes(b"a"), b"a");
}

#[test]
fn export_root_takes_absolute_paths() {
    assert_eq!(export_subpath(b"/data/x", b"/"), Some(&b"data/x"[..]));
    assert_eq!(export_subpath(b"/", b"/"), Some(&b""[..]));
    assert_eq!(export_subpath(b"data", b"/"), None);
    assert_eq!(export_subpath(b"", b"/"), None);
}

#[test]
fn named_export_takes_itself_and_paths_below() {
    assert_eq!(export_subpath(b"/srv", b"/srv"), Some(&b""[..]));
    assert_eq!(export_subpath(b"/srv/a/b", b"/srv"), Some(&b"a/b"[..]));
    assert_eq!(export_subpath(b"/srv/", b"/srv"), Some(&b""[..]));
    assert_eq!(export_subpath(b"/srvx", b"/srv"), None);
    assert_eq!(export_subpath(b"/sr", b"/srv"), None);
    assert_eq!(export_subpath(b"/other", b"/srv"), None);
}

#[test]
fn mount_paths_are_normalized() {
    assert_eq!(mount_path(b"/srv", b"/srv"), Some(b"/".to_vec()));
    assert_eq!(mount_path(b"/srv//a/b//", b"/srv"), Some(b"/a/b".to_vec()));
    assert_eq!(mount_path(b"//a//", b"/"), Some(b"/a".to_vec()));
    assert_eq!(mount_path(b"/nope", b"/srv"), None);
}

fn args_for(path: &[u8]) -> Vec<u8> {
    let mut args = Vec::new();
    encode_opaque(path, &mut args);
    args
}

const HEADER_7: [u8; 24] = [0, 0, 0, 7, 0, 0, 0, 1, 0, 0, 0, 0, 0, 0, 0, 0, 0, 0, 0, 0, 0, 0, 0, 0];

#[test]
fn mnt_outside_export_is_refused() {
    match mountproc3_mnt_start(7, &args_for(b"/other"), b"/srv") {
        Some(MntStep::Reply(reply)) => {
            let mut expected = HEADER_7.to_vec();
            expected.extend_from_slice(&[0, 0, 0, 2]);
            assert_eq!(reply, expected);
        }
        _ => panic!("expected an immediate reply"),
    }
}

#[test]
fn mnt_inside_export_is_looked_up() {
    match mountproc3_mnt_start(7, &args_for(b"/srv/dir/"), b"/srv") {
        Some(MntStep::Lookup(path)) => assert_eq!(path, b"/dir".to_vec()),
        _ => panic!("expected a lookup"),
    }
}

#[test]
fn mnt_with_malformed_arguments_fails() {
    assert!(mountproc3_mnt_start(7, &[0, 0, 0], b"/srv").is_none());
    assert!(mountproc3_mnt_start(7, &[0, 0, 0, 9, 1, 2], b"/srv").is_none());
}

#[test]
fn mnt_replies() {
    let ok = mountproc3_mnt_reply(7, Some(&[0xaa, 0xbb, 0xcc]));
    let mut expected = HEADER_7.to_vec();
    expected.extend_from_slice(&[0, 0, 0, 0]);
    expected.extend_from_slice(&[0, 0, 0, 3, 0xaa, 0xbb, 0xcc, 0]);
    expected.extend_from_slice(&[0, 0, 0, 2, 0, 0, 0, 0, 0, 0, 0, 1]);
    assert_eq!(ok, expected);

    let noent = mountproc3_mnt_reply(7, None);
    let mut expected = HEADER_7.to_vec();
    expected.extend_from_slice(&[0, 0, 0, 2]);
    assert_eq!(noent, expected);
}

#[test]
fn mnt_of_export_itself_is_root() {
    let mut args = args_for(b"/srv");
    args.extend_from_slice(&[1, 2, 3]);
    match mountproc3_mnt_start(1, &args, b"/srv") {
        Some(MntStep::Lookup(path)) => assert_eq!(path, b"/".to_vec()),
        _ => panic!("expected a lookup of the root"),
    }
}
