//! Helpers shared by the XDR encoders and decoders.

use vstd::prelude::*;

verus! {

/// XDR items are padded to a multiple of this many bytes.
pub const ALIGNMENT: usize = 4;

/// The number of zero bytes that follow an item of `src_len` bytes in an XDR
/// stream: the fewest that bring its length to a multiple of [`ALIGNMENT`].
pub open spec fn spec_padding_len(src_len: int) -> int {
    (ALIGNMENT - src_len % (ALIGNMENT as int)) % (ALIGNMENT as int)
}

/// The number of padding bytes after an item of `src_len` bytes.
pub fn padding_len(src_len: usize) -> (pad: usize)
    ensures
        pad == spec_padding_len(src_len as int),
        pad < ALIGNMENT,
        (src_len + pad) % (ALIGNMENT as int) == 0,
        forall|fewer: int| 0 <= fewer < pad ==> #[trigger] ((src_len + fewer) % (ALIGNMENT as int)) != 0,
{
    (ALIGNMENT - (src_len % ALIGNMENT)) % ALIGNMENT
}

#[verifier::external_type_specification]
#[verifier::external_body]
pub struct ExIoError(std::io::Error);

/// `std::io::Error::new` with kind `InvalidData` and the message `m`.
/// `std::io::Error` is opaque here: nothing is stated of the error's kind or
/// message.
#[verifier::external_body]
pub fn invalid_data(m: &str) -> std::io::Error {
    std::io::Error::new(std::io::ErrorKind::InvalidData, m)
}

} // verus!
