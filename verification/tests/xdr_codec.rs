use fernfs::protocol::xdr::codec::{decode_opaque, decode_u32, encode_opaque, encode_u32, encode_u32_array};

#[test]
fn u32_is_big_endian() {
    let mut out = vec![9];
    encode_u32(0x0102_0304, &mut out);
    assert_eq!(out, vec![9, 1, 2, 3, 4]);
    assert_eq!(decode_u32(&out, 1), Some(0x0102_0304));
    assert_eq!(decode_u32(&out, 2), None);
    assert_eq!(decode_u32(&out, 7), None);
}

#[test]
fn opaque_is_padded() {
    let mut out = Vec::new();
    encode_opaque(&[1, 2, 3, 4, 5], &mut out);
    assert_eq!(out, vec![0, 0, 0, 5, 1, 2, 3, 4, 5, 0, 0, 0]);
    out.push(77);
    assert_eq!(decode_opaque(&out), Some((vec![1, 2, 3, 4, 5], 12)));
    assert_eq!(decode_opaque(&out[..11]), None);
}

#[test]
fn empty_opaque_and_array() {
    let mut out = Vec::new();
    encode_opaque(&[], &mut out);
    encode_u32_array(&[1, 65536], &mut out);
    assert_eq!(out, vec![0, 0, 0, 0, 0, 0, 0, 2, 0, 0, 0, 1, 0, 1, 0, 0]);
    assert_eq!(decode_opaque(&out), Some((vec![], 4)));
}
