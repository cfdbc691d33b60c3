use bytes::{Buf, Bytes, BytesMut};
use vstd::prelude::*;

verus! {

/// The type `bytes::Bytes`, opaque here.
#[verifier::external_type_specification]
#[verifier::external_body]
pub struct ExBytes(bytes::Bytes);

/// The type `bytes::BytesMut`, opaque here.
#[verifier::external_type_specification]
#[verifier::external_body]
pub struct ExBytesMut(bytes::BytesMut);

/// The bytes of a chunk.
pub uninterp spec fn payload(chunk: Bytes) -> Seq<u8>;

/// The bytes that a buffer holds, from the next one to be read on.
pub uninterp spec fn buffered(buffer: BytesMut) -> Seq<u8>;

/// `Bytes::len` counts the bytes of the chunk.
pub assume_specification[ bytes::Bytes::len ](this: &Bytes) -> (n: usize)
    ensures
        n == payload(*this).len(),
;

/// `BytesMut::new` makes a buffer that holds nothing.
pub assume_specification[ bytes::BytesMut::new ]() -> (fresh: BytesMut)
    ensures
        buffered(fresh) == Seq::<u8>::empty(),
;

/// `BytesMut::is_empty` tells whether the buffer holds nothing.
pub assume_specification[ bytes::BytesMut::is_empty ](this: &BytesMut) -> (r: bool)
    ensures
        r == (buffered(*this).len() == 0),
;

/// `BytesMut::clear` drops all that the buffer holds.
pub assume_specification[ bytes::BytesMut::clear ](this: &mut BytesMut)
    ensures
        buffered(*final(this)) == Seq::<u8>::empty(),
;

/// `BytesMut::extend_from_slice` puts a copy of the slice behind what the buffer holds. It
/// panics where the two together are more than an allocation can hold; an empty buffer takes any
/// slice that there is memory for.
pub assume_specification[ bytes::BytesMut::extend_from_slice ](this: &mut BytesMut, extend: &[u8])
    requires
        buffered(*old(this)).len() == 0,
    ensures
        buffered(*final(this)) == buffered(*old(this)) + extend@,
;

/// `Buf::advance` on a `BytesMut` drops the first `n` bytes that the buffer holds. It panics
/// where the buffer holds fewer.
#[verifier::external_body]
pub(crate) fn drop_front(buffer: &mut BytesMut, n: usize)
    requires
        n <= buffered(*old(buffer)).len(),
    ensures
        buffered(*final(buffer)) == buffered(*old(buffer)).skip(n as int),
{
    buffer.advance(n)
}

/// `Buf::chunk` on a `BytesMut` shows all that the buffer holds.
#[verifier::external_body]
pub(crate) fn held_bytes(buffer: &BytesMut) -> (held: &[u8])
    ensures
        held@ == buffered(*buffer),
{
    buffer.chunk()
}

} // verus!
