//! Specifications of the byte buffers of the `bytes` crate.

use bytes::{Bytes, BytesMut};
use vstd::prelude::*;

verus! {

/// A cheaply cloneable, immutable byte buffer.
#[verifier::external_type_specification]
#[verifier::external_body]
pub struct ExBytes(Bytes);

/// A growable byte buffer.
#[verifier::external_type_specification]
#[verifier::external_body]
pub struct ExBytesMut(BytesMut);

/// The bytes that a [`Bytes`] holds.
pub uninterp spec fn bytes_content(bytes: Bytes) -> Seq<u8>;

/// The bytes that a [`BytesMut`] holds.
pub uninterp spec fn bytes_mut_content(bytes: BytesMut) -> Seq<u8>;

/// `Bytes::len` returns the number of bytes held.
pub assume_specification[ Bytes::len ](bytes: &Bytes) -> (len: usize)
    ensures
        len == bytes_content(*bytes).len(),
;

/// `Bytes::split_to` takes the first `at` bytes off the front and returns them;
/// it panics if there are fewer.
pub assume_specification[ Bytes::split_to ](bytes: &mut Bytes, at: usize) -> (head: Bytes)
    requires
        at <= bytes_content(*old(bytes)).len(),
    ensures
        bytes_content(head) == bytes_content(*old(bytes)).take(at as int),
        bytes_content(*final(bytes)) == bytes_content(*old(bytes)).skip(at as int),
;

/// `Bytes::copy_from_slice` returns a buffer that holds a copy of the slice.
pub assume_specification[ Bytes::copy_from_slice ](data: &[u8]) -> (bytes: Bytes)
    ensures
        bytes_content(bytes) == data@,
;

/// `BytesMut::new` returns an empty buffer.
pub assume_specification[ BytesMut::new ]() -> (bytes: BytesMut)
    ensures
        bytes_mut_content(bytes) == Seq::<u8>::empty(),
;

/// `BytesMut::len` returns the number of bytes held.
pub assume_specification[ BytesMut::len ](bytes: &BytesMut) -> (len: usize)
    ensures
        len == bytes_mut_content(*bytes).len(),
;

/// `BytesMut::clear` removes all bytes.
pub assume_specification[ BytesMut::clear ](bytes: &mut BytesMut)
    ensures
        bytes_mut_content(*final(bytes)) == Seq::<u8>::empty(),
;

/// `BytesMut::unsplit` appends the bytes of `other`; it panics if the result
/// does not fit into one allocation.
pub assume_specification[ BytesMut::unsplit ](bytes: &mut BytesMut, other: BytesMut)
    requires
        bytes_mut_content(*old(bytes)).len() + bytes_mut_content(other).len() <= isize::MAX,
    ensures
        bytes_mut_content(*final(bytes)) == bytes_mut_content(*old(bytes)) + bytes_mut_content(other),
;

/// `BytesMut::freeze` turns the buffer into an immutable one that holds the
/// same bytes.
pub assume_specification[ BytesMut::freeze ](bytes: BytesMut) -> (frozen: Bytes)
    ensures
        bytes_content(frozen) == bytes_mut_content(bytes),
;

/// `BytesMut::from(Bytes)` returns a growable buffer that holds the same bytes.
#[verifier::external_body]
pub(crate) fn thaw(bytes: Bytes) -> (thawed: BytesMut)
    ensures
        bytes_mut_content(thawed) == bytes_content(bytes),
{
    BytesMut::from(bytes)
}

/// `Bytes::from(Vec<u8>)` returns a buffer that holds the bytes of the vector.
#[verifier::external_body]
pub(crate) fn bytes_from_vec(data: Vec<u8>) -> (bytes: Bytes)
    ensures
        bytes_content(bytes) == data@,
{
    Bytes::from(data)
}

} // verus!
