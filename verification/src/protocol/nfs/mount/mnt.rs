//! The MNT procedure (procedure 1) of the `MOUNT` version 3 protocol, as
//! defined in RFC 1813 section 5.2.1
//! <https://datatracker.ietf.org/doc/html/rfc1813#section-5.2.1>.
//!
//! A client asks to mount a directory path; the server accepts paths that lie
//! under its export and resolves them to a path in its virtual file system,
//! starting with exactly one `/` and with no trailing `/`.

use crate::protocol::xdr::codec::{decode_opaque, law_opaque_roundtrip, spec_decode_opaque, spec_opaque_bytes, spec_u32_bytes};
use crate::protocol::xdr::mount::{mountres3_ok, mountstat3, spec_mountres3_ok_bytes};
use crate::protocol::xdr::rpc::{auth_flavor, make_success_reply, spec_success_reply_bytes};
use vstd::prelude::*;

verus! {

/// The byte `/`, which separates the components of a path.
pub const SLASH: u8 = 0x2f;

/// `s` with every leading `/` removed.
pub open spec fn spec_trim_start_slashes(s: Seq<u8>) -> Seq<u8>
    decreases s.len(),
{
    if s.len() > 0 && s[0] == SLASH {
        spec_trim_start_slashes(s.drop_first())
    } else {
        s
    }
}

/// `s` with every trailing `/` removed.
pub open spec fn spec_trim_end_slashes(s: Seq<u8>) -> Seq<u8>
    decreases s.len(),
{
    if s.len() > 0 && s.last() == SLASH {
        spec_trim_end_slashes(s.drop_last())
    } else {
        s
    }
}

/// `s` with every leading and trailing `/` removed.
pub open spec fn spec_trim_slashes(s: Seq<u8>) -> Seq<u8> {
    spec_trim_end_slashes(spec_trim_start_slashes(s))
}

/// `prefix` is a prefix of `s`.
pub open spec fn has_prefix(s: Seq<u8>, prefix: Seq<u8>) -> bool {
    prefix.len() <= s.len() && s.subrange(0, prefix.len() as int) == prefix
}

/// The part of the requested path that lies under the export, if it does.
///
/// The export `/` takes every absolute path, less its first `/`. Any other
/// export takes itself (giving the empty path) and the paths that continue it
/// with a `/` (giving what follows that `/`).
pub open spec fn spec_export_subpath(requested: Seq<u8>, export: Seq<u8>) -> Option<Seq<u8>> {
    if export == seq![SLASH] {
        if requested.len() > 0 && requested[0] == SLASH {
            Some(requested.drop_first())
        } else {
            None
        }
    } else if has_prefix(requested, export) {
        let rest = requested.subrange(export.len() as int, requested.len() as int);
        if rest.len() == 0 {
            Some(rest)
        } else if rest[0] == SLASH {
            Some(rest.drop_first())
        } else {
            None
        }
    } else {
        None
    }
}

/// The path that a MNT request for `requested` resolves to under `export`:
/// a `/` followed by the part of the request under the export, trimmed of
/// slashes; none when the request does not lie under the export.
pub open spec fn spec_mount_path(requested: Seq<u8>, export: Seq<u8>) -> Option<Seq<u8>> {
    match spec_export_subpath(requested, export) {
        Some(sub) => Some(seq![SLASH] + spec_trim_slashes(sub)),
        None => None,
    }
}

/// Trimming leading slashes leaves a suffix that does not start with `/`,
/// having removed only slashes.
pub proof fn lemma_trim_start(s: Seq<u8>)
    ensures
        spec_trim_start_slashes(s).len() <= s.len(),
        spec_trim_start_slashes(s) == s.subrange(s.len() - spec_trim_start_slashes(s).len(), s.len() as int),
        spec_trim_start_slashes(s).len() == 0 || spec_trim_start_slashes(s)[0] != SLASH,
        forall|i: int| 0 <= i < s.len() - spec_trim_start_slashes(s).len() ==> s[i] == SLASH,
    decreases s.len(),
{
    if s.len() > 0 && s[0] == SLASH {
        let t = s.drop_first();
        lemma_trim_start(t);
        assert forall|i: int| 0 <= i < s.len() - spec_trim_start_slashes(s).len() implies s[i] == SLASH by {
            if i > 0 {
                assert(s[i] == t[i - 1]);
            }
        }
        assert(t.subrange(t.len() - spec_trim_start_slashes(t).len(), t.len() as int) =~= s.subrange(
            s.len() - spec_trim_start_slashes(s).len(),
            s.len() as int,
        ));
    } else {
        assert(s.subrange(0, s.len() as int) =~= s);
    }
}

/// Trimming trailing slashes leaves a prefix that does not end with `/`,
/// having removed only slashes.
pub proof fn lemma_trim_end(s: Seq<u8>)
    ensures
        spec_trim_end_slashes(s).len() <= s.len(),
        spec_trim_end_slashes(s) == s.subrange(0, spec_trim_end_slashes(s).len() as int),
        spec_trim_end_slashes(s).len() == 0 || spec_trim_end_slashes(s).last() != SLASH,
        forall|i: int| spec_trim_end_slashes(s).len() <= i < s.len() ==> s[i] == SLASH,
    decreases s.len(),
{
    if s.len() > 0 && s.last() == SLASH {
        let t = s.drop_last();
        lemma_trim_end(t);
        assert forall|i: int| spec_trim_end_slashes(s).len() <= i < s.len() implies s[i] == SLASH by {
            if i < s.len() - 1 {
                assert(s[i] == t[i]);
            }
        }
        assert(t.subrange(0, spec_trim_end_slashes(t).len() as int) =~= s.subrange(
            0,
            spec_trim_end_slashes(s).len() as int,
        ));
    } else {
        assert(s.subrange(0, s.len() as int) =~= s);
    }
}

/// Trimming slashes leaves a path that neither starts nor ends with `/`.
pub proof fn lemma_trim_slashes(s: Seq<u8>)
    ensures
        spec_trim_slashes(s).len() == 0 || (spec_trim_slashes(s)[0] != SLASH && spec_trim_slashes(
            s,
        ).last() != SLASH),
{
    let t = spec_trim_start_slashes(s);
    lemma_trim_start(s);
    lemma_trim_end(t);
    let u = spec_trim_end_slashes(t);
    if u.len() > 0 {
        assert(u[0] == t.subrange(0, u.len() as int)[0]);
    }
}

/// Trimming slashes twice trims no more than trimming once.
pub proof fn law_trim_slashes_idempotent(s: Seq<u8>)
    ensures
        spec_trim_slashes(spec_trim_slashes(s)) == spec_trim_slashes(s),
{
    let u = spec_trim_slashes(s);
    lemma_trim_slashes(s);
    assert(spec_trim_start_slashes(u) == u);
    assert(spec_trim_end_slashes(u) == u);
}

/// A path that a MNT request resolves to starts with exactly one `/`, and
/// ends with `/` only when it is `/` itself.
pub proof fn law_mount_path_is_normalized(requested: Seq<u8>, export: Seq<u8>)
    ensures
        spec_mount_path(requested, export) matches Some(p) ==> {
            &&& p.len() >= 1
            &&& p[0] == SLASH
            &&& p.len() > 1 ==> p[1] != SLASH && p.last() != SLASH
        },
{
    if let Some(sub) = spec_export_subpath(requested, export) {
        lemma_trim_slashes(sub);
        let t = spec_trim_slashes(sub);
        let p = seq![SLASH] + t;
        if p.len() > 1 {
            assert(p[1] == t[0]);
            assert(p.last() == t.last());
        }
    }
}

/// Which MNT requests are accepted: under the export `/`, every absolute
/// path; under any other export, the export itself and the paths that
/// continue it with a `/`, and no others (not, for instance, a sibling whose
/// name merely starts with the export's).
pub proof fn law_mount_accepts_exactly_paths_under_export(requested: Seq<u8>, export: Seq<u8>)
    ensures
        export == seq![SLASH] ==> ((spec_mount_path(requested, export) is Some) <==> (requested.len()
            > 0 && requested[0] == SLASH)),
        export != seq![SLASH] ==> ((spec_mount_path(requested, export) is Some) <==> (requested
            == export || (requested.len() > export.len() && requested.subrange(0, export.len() as int)
            == export && requested[export.len() as int] == SLASH))),
{
    if export != seq![SLASH] {
        if requested == export {
            assert(requested.subrange(0, export.len() as int) =~= export);
        }
        if has_prefix(requested, export) {
            let rest = requested.subrange(export.len() as int, requested.len() as int);
            if rest.len() == 0 {
                assert(requested =~= requested.subrange(0, export.len() as int));
            } else {
                assert(rest[0] == requested[export.len() as int]);
            }
        }
    }
}

/// Mounting the export itself resolves to the root `/`.
pub proof fn law_export_mounts_root(export: Seq<u8>)
    ensures
        spec_mount_path(export, export) == Some(seq![SLASH]),
{
    assert(export.subrange(0, export.len() as int) =~= export);
    if export == seq![SLASH] {
        assert(export.drop_first() =~= Seq::<u8>::empty());
    } else {
        assert(export.subrange(export.len() as int, export.len() as int) =~= Seq::<u8>::empty());
    }
    assert(seq![SLASH] + Seq::<u8>::empty() =~= seq![SLASH]);
}

/// A request for a path below the export resolves to `/` followed by the
/// part below the export, trimmed of slashes.
pub proof fn law_path_below_export(export: Seq<u8>, below: Seq<u8>)
    requires
        export != seq![SLASH],
    ensures
        spec_mount_path(export + seq![SLASH] + below, export) == Some(seq![SLASH] + spec_trim_slashes(below)),
{
    let r = export + seq![SLASH] + below;
    assert(r.subrange(0, export.len() as int) =~= export);
    let rest = r.subrange(export.len() as int, r.len() as int);
    assert(rest =~= seq![SLASH] + below);
    assert(rest.drop_first() =~= below);
}

/// `path` with every leading `/` removed.
pub fn trim_start_slashes(path: &[u8]) -> (trimmed: &[u8])
    ensures
        trimmed@ == spec_trim_start_slashes(path@),
{
    let mut rest = path;
    while rest.len() > 0 && rest[0] == SLASH
        invariant
            spec_trim_start_slashes(rest@) == spec_trim_start_slashes(path@),
        decreases rest@.len(),
    {
        let (_, tail) = rest.split_at(1);
        assert(tail@ == rest@.drop_first());
        rest = tail;
    }
    rest
}

/// `path` with every trailing `/` removed.
pub fn trim_end_slashes(path: &[u8]) -> (trimmed: &[u8])
    ensures
        trimmed@ == spec_trim_end_slashes(path@),
{
    let mut rest = path;
    while rest.len() > 0 && rest[rest.len() - 1] == SLASH
        invariant
            spec_trim_end_slashes(rest@) == spec_trim_end_slashes(path@),
        decreases rest@.len(),
    {
        let (head, _) = rest.split_at(rest.len() - 1);
        assert(head@ == rest@.drop_last());
        rest = head;
    }
    rest
}

/// `path` with every leading and trailing `/` removed.
pub fn trim_slashes(path: &[u8]) -> (trimmed: &[u8])
    ensures
        trimmed@ == spec_trim_slashes(path@),
{
    trim_end_slashes(trim_start_slashes(path))
}

/// Whether `prefix` is a prefix of `s`.
fn starts_with(s: &[u8], prefix: &[u8]) -> (starts: bool)
    ensures
        starts == has_prefix(s@, prefix@),
{
    if prefix.len() > s.len() {
        return false;
    }
    let mut i: usize = 0;
    while i < prefix.len()
        invariant
            prefix@.len() <= s@.len(),
            i <= prefix@.len(),
            forall|j: int| 0 <= j < i ==> s@[j] == prefix@[j],
        decreases prefix@.len() - i,
    {
        if s[i] != prefix[i] {
            assert(s@.subrange(0, prefix@.len() as int)[i as int] != prefix@[i as int]);
            return false;
        }
        i = i + 1;
    }
    assert(s@.subrange(0, prefix@.len() as int) =~= prefix@);
    true
}

/// The part of `requested` that lies under `export`, if it does.
pub fn export_subpath<'a>(requested: &'a [u8], export: &[u8]) -> (sub: Option<&'a [u8]>)
    ensures
        match sub {
            Some(s) => spec_export_subpath(requested@, export@) == Some(s@),
            None => spec_export_subpath(requested@, export@) is None,
        },
{
    if export.len() == 1 && export[0] == SLASH {
        assert(export@ =~= seq![SLASH]);
        if !(requested.len() > 0 && requested[0] == SLASH) {
            return None;
        }
        let (_, rest) = requested.split_at(1);
        assert(rest@ =~= requested@.drop_first());
        return Some(rest);
    }
    assert(export@ != seq![SLASH]) by {
        if export@ == seq![SLASH] {
            assert(export@.len() == 1 && export@[0] == SLASH);
        }
    }
    if !starts_with(requested, export) {
        return None;
    }
    let (_, rest) = requested.split_at(export.len());
    if rest.len() == 0 {
        return Some(rest);
    }
    if rest[0] == SLASH {
        let (_, after) = rest.split_at(1);
        assert(after@ =~= rest@.drop_first());
        return Some(after);
    }
    None
}

/// The path in the virtual file system that a MNT request for `requested`
/// resolves to under the export `export`, or none when the request does not
/// lie under the export (the reply is then `MNT3ERR_NOENT`).
pub fn mount_path(requested: &[u8], export: &[u8]) -> (path: Option<Vec<u8>>)
    ensures
        match path {
            Some(p) => spec_mount_path(requested@, export@) == Some(p@),
            None => spec_mount_path(requested@, export@) is None,
        },
{
    match export_subpath(requested, export) {
        Some(sub) => {
            let trimmed = trim_slashes(sub);
            let mut new_path: Vec<u8> = Vec::new();
            new_path.push(SLASH);
            let mut i: usize = 0;
            while i < trimmed.len()
                invariant
                    i <= trimmed@.len(),
                    new_path@ == seq![SLASH] + trimmed@.subrange(0, i as int),
                decreases trimmed@.len() - i,
            {
                new_path.push(trimmed[i]);
                assert(trimmed@.subrange(0, i + 1) =~= trimmed@.subrange(0, i as int).push(trimmed@[i as int]));
                i = i + 1;
            }
            assert(trimmed@.subrange(0, trimmed@.len() as int) =~= trimmed@);
            Some(new_path)
        },
        None => None,
    }
}

/// What the MNT procedure does once it has read its argument.
pub enum MntStep {
    /// Send this reply: the request does not lie under the export.
    Reply(Vec<u8>),
    /// Look this path up in the virtual file system, then reply with
    /// [`mountproc3_mnt_reply`].
    Lookup(Vec<u8>),
}

/// The reply to the call `xid` that refuses a mount with `MNT3ERR_NOENT`.
pub open spec fn spec_mnt_noent_reply(xid: u32) -> Seq<u8> {
    spec_success_reply_bytes(xid) + spec_u32_bytes(mountstat3::MNT3ERR_NOENT.spec_code())
}

/// The reply to the call `xid` that grants a mount of the directory with
/// file handle `fhandle`, accepting the flavors `AUTH_NULL` and `AUTH_UNIX`.
pub open spec fn spec_mnt_ok_reply(xid: u32, fhandle: Seq<u8>) -> Seq<u8> {
    spec_success_reply_bytes(xid) + spec_u32_bytes(mountstat3::MNT3_OK.spec_code())
        + spec_mountres3_ok_bytes(
        fhandle,
        seq![auth_flavor::AUTH_NULL.spec_code(), auth_flavor::AUTH_UNIX.spec_code()],
    )
}

/// A MNT call that asks for the export itself, whatever follows its argument,
/// is looked up as the root `/` of the virtual file system.
pub proof fn law_mnt_of_export_is_root(export: Seq<u8>, rest: Seq<u8>)
    requires
        export.len() <= u32::MAX,
    ensures
        spec_decode_opaque(spec_opaque_bytes(export) + rest) matches Some((path, _)) && spec_mount_path(
            path,
            export,
        ) == Some(seq![SLASH]),
{
    law_opaque_roundtrip(export, rest);
    law_export_mounts_root(export);
}

/// Handles `MOUNTPROC3_MNT` up to the file system lookup: decodes the
/// directory path from the call's arguments `args` (none when they are not a
/// valid XDR path) and resolves it under the export `export`. A path that does
/// not lie under the export is answered at once with `MNT3ERR_NOENT`; any
/// other is to be looked up.
pub fn mountproc3_mnt_start(xid: u32, args: &[u8], export: &[u8]) -> (step: Option<MntStep>)
    ensures
        match spec_decode_opaque(args@) {
            None => step is None,
            Some((path, _)) => match spec_mount_path(path, export@) {
                None => step matches Some(MntStep::Reply(reply)) && reply@ == spec_mnt_noent_reply(xid),
                Some(p) => step matches Some(MntStep::Lookup(q)) && q@ == p,
            },
        },
{
    let (path, _) = match decode_opaque(args) {
        Some(decoded) => decoded,
        None => return None,
    };
    match mount_path(path.as_slice(), export) {
        Some(resolved) => Some(MntStep::Lookup(resolved)),
        None => {
            let mut reply: Vec<u8> = Vec::new();
            make_success_reply(xid, &mut reply);
            mountstat3::MNT3ERR_NOENT.serialize(&mut reply);
            assert(reply@ =~= spec_mnt_noent_reply(xid));
            Some(MntStep::Reply(reply))
        },
    }
}

/// Handles `MOUNTPROC3_MNT` after the lookup: the reply to the call `xid`
/// given the file handle of the looked-up directory, or none when the lookup
/// failed (`MNT3ERR_NOENT`).
pub fn mountproc3_mnt_reply(xid: u32, fhandle: Option<&[u8]>) -> (reply: Vec<u8>)
    requires
        fhandle matches Some(fh) ==> fh@.len() <= u32::MAX,
    ensures
        match fhandle {
            Some(fh) => reply@ == spec_mnt_ok_reply(xid, fh@),
            None => reply@ == spec_mnt_noent_reply(xid),
        },
{
    let mut reply: Vec<u8> = Vec::new();
    make_success_reply(xid, &mut reply);
    match fhandle {
        Some(fh) => {
            let mut data: Vec<u8> = Vec::new();
            let mut i: usize = 0;
            while i < fh.len()
                invariant
                    i <= fh@.len(),
                    data@ == fh@.subrange(0, i as int),
                decreases fh@.len() - i,
            {
                data.push(fh[i]);
                assert(fh@.subrange(0, i + 1) =~= fh@.subrange(0, i as int).push(fh@[i as int]));
                i = i + 1;
            }
            assert(fh@.subrange(0, fh@.len() as int) =~= fh@);
            let response = mountres3_ok {
                fhandle: data,
                auth_flavors: vec![auth_flavor::AUTH_NULL.code(), auth_flavor::AUTH_UNIX.code()],
            };
            assert(response.auth_flavors@ =~= seq![auth_flavor::AUTH_NULL.spec_code(), auth_flavor::AUTH_UNIX.spec_code()]);
            mountstat3::MNT3_OK.serialize(&mut reply);
            response.serialize(&mut reply);
            assert(reply@ =~= spec_mnt_ok_reply(xid, fh@));
        },
        None => {
            mountstat3::MNT3ERR_NOENT.serialize(&mut reply);
            assert(reply@ =~= spec_mnt_noent_reply(xid));
        },
    }
    reply
}

} // verus!
