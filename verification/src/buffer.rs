//! The byte buffers of the `bytes` crate, in which file contents change hands.

use bytes::Bytes;
use vstd::prelude::*;

verus! {

/// The buffer type of the `bytes` crate, opaque here: what it holds is `content`.
#[verifier::external_type_specification]
#[verifier::external_body]
pub struct ExBytes(bytes::Bytes);

/// The bytes that a buffer holds, in order.
pub uninterp spec fn content(buffer: Bytes) -> Seq<u8>;

/// Calls `<Bytes as From<Vec<u8>>>::from`, which takes over the vector's memory: the buffer holds
/// the bytes of `data`, in the same order.
#[verifier::external_body]
pub(crate) fn buffer_from(data: Vec<u8>) -> (buffer: Bytes)
    ensures
        content(buffer) == data@,
{
    Bytes::from(data)
}

/// Calls `Bytes::len`, which returns the number of bytes that the buffer holds.
#[verifier::external_body]
pub(crate) fn buffer_len(buffer: &Bytes) -> (len: usize)
    ensures
        len == content(*buffer).len(),
{
    buffer.len()
}

} // verus!
