//! The shared byte buffer in which a compressed image travels.

use bytes::Bytes;
use vstd::prelude::*;

verus! {

/// `bytes::Bytes`, a cheaply cloneable, immutable run of bytes.
#[verifier::external_type_specification]
#[verifier::external_body]
pub struct ExBytes(bytes::Bytes);

/// The bytes that a `Bytes` buffer holds, first to last.
pub uninterp spec fn bytes_view(buffer: Bytes) -> Seq<u8>;

/// `<Bytes as Clone>::clone`: the copy shares the storage of the buffer, so
/// it holds the same bytes.
pub assume_specification[ <Bytes as Clone>::clone ](buffer: &Bytes) -> (copy: Bytes)
    ensures
        bytes_view(copy) == bytes_view(*buffer),
;

/// `<Bytes as From<Vec<u8>>>::from`: the buffer takes the vector's storage
/// over, so it holds the vector's bytes in the same order.
#[verifier::external_body]
pub(crate) fn bytes_from_vec(bytes: Vec<u8>) -> (buffer: Bytes)
    ensures
        bytes_view(buffer) == bytes@,
{
    Bytes::from(bytes)
}

/// `<Bytes as AsRef<[u8]>>::as_ref`: the buffer's contents as a slice.
#[verifier::external_body]
pub(crate) fn bytes_as_slice(buffer: &Bytes) -> (bytes: &[u8])
    ensures
        bytes@ == bytes_view(*buffer),
{
    buffer.as_ref()
}

} // verus!
