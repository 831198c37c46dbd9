//! Encoding and decoding of the basic XDR items (RFC 4506): unsigned
//! integers, as four big-endian bytes, and variable-length opaque data, as
//! its length, its bytes and zero padding to a multiple of four bytes.

use super::utils::{padding_len, spec_padding_len, ALIGNMENT};
use vstd::prelude::*;

verus! {

/// The XDR encoding of an unsigned integer: its four bytes, most significant first.
pub open spec fn spec_u32_bytes(v: u32) -> Seq<u8> {
    seq![(v >> 24u32) as u8, (v >> 16u32) as u8, (v >> 8u32) as u8, v as u8]
}

/// The integer whose XDR encoding is `b[0..4]`.
pub open spec fn spec_u32_from_bytes(b: Seq<u8>) -> u32 {
    ((b[0] as u32) << 24u32) | ((b[1] as u32) << 16u32) | ((b[2] as u32) << 8u32) | (b[3] as u32)
}

/// `n` zero bytes.
pub open spec fn zeros(n: int) -> Seq<u8> {
    Seq::new(n as nat, |i: int| 0u8)
}

/// The XDR encoding of variable-length opaque data: its length, its bytes,
/// and zero bytes up to a multiple of four.
pub open spec fn spec_opaque_bytes(data: Seq<u8>) -> Seq<u8> {
    spec_u32_bytes(data.len() as u32) + data + zeros(spec_padding_len(data.len() as int))
}

/// The XDR encoding of a variable-length array of unsigned integers: its
/// length, then each integer.
pub open spec fn spec_u32_array_bytes(items: Seq<u32>) -> Seq<u8> {
    spec_u32_bytes(items.len() as u32) + spec_u32_items_bytes(items)
}

/// The encodings of `items`, one after the other.
pub open spec fn spec_u32_items_bytes(items: Seq<u32>) -> Seq<u8>
    decreases items.len(),
{
    if items.len() == 0 {
        Seq::empty()
    } else {
        spec_u32_items_bytes(items.drop_last()) + spec_u32_bytes(items.last())
    }
}

/// Decoding the encoding of an integer gives the integer back.
pub proof fn law_u32_roundtrip(v: u32)
    ensures
        spec_u32_from_bytes(spec_u32_bytes(v)) == v,
{
    let b = spec_u32_bytes(v);
    let (b0, b1, b2, b3) = (b[0], b[1], b[2], b[3]);
    assert(b0 == (v >> 24u32) as u8 && b1 == (v >> 16u32) as u8 && b2 == (v >> 8u32) as u8 && b3 == v as u8);
    assert(((b0 as u32) << 24u32) | ((b1 as u32) << 16u32) | ((b2 as u32) << 8u32) | (b3 as u32) == v) by (bit_vector)
        requires
            b0 == (v >> 24u32) as u8,
            b1 == (v >> 16u32) as u8,
            b2 == (v >> 8u32) as u8,
            b3 == v as u8,
    ;
}

/// Appends the XDR encoding of `v` to `out`.
pub fn encode_u32(v: u32, out: &mut Vec<u8>)
    ensures
        final(out)@ == old(out)@ + spec_u32_bytes(v),
{
    out.push((v >> 24u32) as u8);
    out.push((v >> 16u32) as u8);
    out.push((v >> 8u32) as u8);
    out.push(v as u8);
    assert(out@ =~= old(out)@ + spec_u32_bytes(v));
}

/// Appends the XDR encoding of the opaque data `data` to `out`.
pub fn encode_opaque(data: &[u8], out: &mut Vec<u8>)
    requires
        data@.len() <= u32::MAX,
    ensures
        final(out)@ == old(out)@ + spec_opaque_bytes(data@),
{
    encode_u32(data.len() as u32, out);
    let ghost with_len = out@;
    let mut i: usize = 0;
    while i < data.len()
        invariant
            i <= data@.len(),
            out@ == with_len + data@.subrange(0, i as int),
        decreases data@.len() - i,
    {
        out.push(data[i]);
        assert(data@.subrange(0, i + 1) =~= data@.subrange(0, i as int).push(data@[i as int]));
        i = i + 1;
    }
    assert(data@.subrange(0, data@.len() as int) =~= data@);
    let ghost with_data = out@;
    let pad = padding_len(data.len());
    let mut j: usize = 0;
    while j < pad
        invariant
            j <= pad,
            out@ == with_data + zeros(j as int),
        decreases pad - j,
    {
        out.push(0);
        assert(zeros(j + 1) =~= zeros(j as int).push(0u8));
        j = j + 1;
    }
    assert(out@ =~= old(out)@ + spec_opaque_bytes(data@));
}

/// Appends the XDR encoding of the array of integers `items` to `out`.
pub fn encode_u32_array(items: &[u32], out: &mut Vec<u8>)
    requires
        items@.len() <= u32::MAX,
    ensures
        final(out)@ == old(out)@ + spec_u32_array_bytes(items@),
{
    encode_u32(items.len() as u32, out);
    let ghost with_len = out@;
    let mut i: usize = 0;
    while i < items.len()
        invariant
            i <= items@.len(),
            out@ == with_len + spec_u32_items_bytes(items@.subrange(0, i as int)),
        decreases items@.len() - i,
    {
        encode_u32(items[i], out);
        assert(items@.subrange(0, i + 1).drop_last() =~= items@.subrange(0, i as int));
        i = i + 1;
    }
    assert(items@.subrange(0, items@.len() as int) =~= items@);
    assert(out@ =~= old(out)@ + spec_u32_array_bytes(items@));
}

/// The integer encoded at `pos` in `buf`, when four bytes are there.
pub fn decode_u32(buf: &[u8], pos: usize) -> (v: Option<u32>)
    ensures
        match v {
            Some(x) => pos + 4 <= buf@.len() && x == spec_u32_from_bytes(buf@.subrange(pos as int, pos + 4)),
            None => pos + 4 > buf@.len(),
        },
{
    if pos > buf.len() || buf.len() - pos < 4 {
        return None;
    }
    let ghost b = buf@.subrange(pos as int, pos + 4);
    assert(b[0] == buf@[pos as int] && b[1] == buf@[pos + 1] && b[2] == buf@[pos + 2] && b[3] == buf@[pos + 3]);
    Some(((buf[pos] as u32) << 24u32) | ((buf[pos + 1] as u32) << 16u32) | ((buf[pos + 2] as u32) << 8u32) | (buf[pos + 3] as u32))
}

/// What decoding opaque data from the start of `buf` gives: the data and the
/// number of bytes its encoding takes, when `buf` holds all of them. As the
/// XDR readers do, the padding bytes are skipped without being inspected.
pub open spec fn spec_decode_opaque(buf: Seq<u8>) -> Option<(Seq<u8>, int)> {
    if buf.len() < 4 {
        None
    } else {
        let len = spec_u32_from_bytes(buf) as int;
        let total = 4 + len + spec_padding_len(len);
        if total <= buf.len() {
            Some((buf.subrange(4, 4 + len), total))
        } else {
            None
        }
    }
}

/// Decodes opaque data from the start of `buf`: the data and the number of
/// bytes that its encoding takes.
pub fn decode_opaque(buf: &[u8]) -> (decoded: Option<(Vec<u8>, usize)>)
    ensures
        match decoded {
            Some((data, used)) => spec_decode_opaque(buf@) == Some((data@, used as int)),
            None => spec_decode_opaque(buf@) is None,
        },
{
    let len = match decode_u32(buf, 0) {
        Some(len) => len,
        None => return None,
    };
    assert(buf@.subrange(0, 4)[0] == buf@[0] && buf@.subrange(0, 4)[1] == buf@[1]);
    assert(buf@.subrange(0, 4)[2] == buf@[2] && buf@.subrange(0, 4)[3] == buf@[3]);
    assert(spec_u32_from_bytes(buf@.subrange(0, 4)) == spec_u32_from_bytes(buf@));
    let len = len as usize;
    let rest = buf.len() - 4;
    if len > rest {
        return None;
    }
    let pad = padding_len(len);
    if pad > rest - len {
        return None;
    }
    let mut data: Vec<u8> = Vec::new();
    let mut i: usize = 0;
    let total = buf.len();
    while i < len
        invariant
            total == buf@.len(),
            len + 4 <= buf@.len(),
            i <= len,
            data@ == buf@.subrange(4, 4 + i),
        decreases len - i,
    {
        data.push(buf[4 + i]);
        assert(buf@.subrange(4, 4 + i + 1) =~= buf@.subrange(4, 4 + i).push(buf@[4 + i]));
        i = i + 1;
    }
    Some((data, 4 + len + pad))
}

/// Decoding the encoding of opaque data, followed by anything, gives the
/// data back and the length of its encoding.
pub proof fn law_opaque_roundtrip(data: Seq<u8>, rest: Seq<u8>)
    requires
        data.len() <= u32::MAX,
    ensures
        spec_decode_opaque(spec_opaque_bytes(data) + rest) == Some((data, spec_opaque_bytes(data).len() as int)),
{
    let buf = spec_opaque_bytes(data) + rest;
    let n = data.len() as u32;
    law_u32_roundtrip(n);
    assert(buf.subrange(0, 4) =~= spec_u32_bytes(n));
    assert(spec_u32_from_bytes(buf) == spec_u32_from_bytes(spec_u32_bytes(n)));
    assert(buf.subrange(4, 4 + data.len() as int) =~= data);
}

} // verus!
