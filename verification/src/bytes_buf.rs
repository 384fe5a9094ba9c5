//! The boundary to the `bytes` crate: its shared byte buffer declared for
//! the verifier, with a name for its contents and the two conversions the
//! message API needs.

use vstd::prelude::*;

verus! {

#[verifier::external_type_specification]
#[verifier::external_body]
pub struct ExBytes(bytes::Bytes);

/// The byte contents of a `bytes::Bytes` buffer.
pub uninterp spec fn bytes_content(b: bytes::Bytes) -> Seq<u8>;

/// Relies on `bytes::Bytes::copy_from_slice`: the new buffer holds exactly
/// the bytes of the slice.
#[verifier::external_body]
pub fn bytes_from_slice(v: &[u8]) -> (r: bytes::Bytes)
    ensures
        bytes_content(r) == v@,
{
    bytes::Bytes::copy_from_slice(v)
}

/// Relies on `<bytes::Bytes as AsRef<[u8]>>::as_ref`: the slice of the
/// buffer's bytes.
#[verifier::external_body]
pub fn bytes_as_slice(b: &bytes::Bytes) -> (r: &[u8])
    ensures
        r@ == bytes_content(*b),
{
    b.as_ref()
}

} // verus!
