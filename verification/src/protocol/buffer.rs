//! The growable byte buffer (`bytes::BytesMut`) that the message framer
//! accumulates socket data in, with the contracts its operations are used under.

use vstd::prelude::*;
use bytes::Buf;
use bytes::BytesMut;

verus! {

#[verifier::external_type_specification]
#[verifier::external_body]
pub struct ExBytesMut(bytes::BytesMut);

/// The bytes a `BytesMut` currently holds, from its read position to its end.
pub uninterp spec fn buffer_contents(b: BytesMut) -> Seq<u8>;

/// `BytesMut::with_capacity`: a new buffer that holds no bytes (the capacity is
/// only an allocation hint and is not described here).
#[verifier::external_body]
pub(crate) fn buffer_with_capacity(capacity: usize) -> (b: BytesMut)
    ensures
        buffer_contents(b) == Seq::<u8>::empty(),
{
    BytesMut::with_capacity(capacity)
}

/// `BytesMut::extend_from_slice`: appends `data` after the bytes already held.
/// It reserves space first, which panics when the new length overflows the
/// allocator's `isize::MAX` limit; that input is excluded.
#[verifier::external_body]
pub(crate) fn buffer_extend(b: &mut BytesMut, data: &[u8])
    requires
        buffer_contents(*old(b)).len() + data@.len() <= isize::MAX,
    ensures
        buffer_contents(*final(b)) == buffer_contents(*old(b)) + data@,
{
    b.extend_from_slice(data)
}

/// `<BytesMut as Deref>::deref`: the held bytes as a slice.
#[verifier::external_body]
pub(crate) fn buffer_as_slice(b: &BytesMut) -> (s: &[u8])
    ensures
        s@ == buffer_contents(*b),
{
    &b[..]
}

/// `<BytesMut as Buf>::advance`: discards the first `count` bytes; it panics
/// when `count` exceeds the length, which is excluded.
#[verifier::external_body]
pub(crate) fn buffer_advance(b: &mut BytesMut, count: usize)
    requires
        count <= buffer_contents(*old(b)).len(),
    ensures
        buffer_contents(*final(b)) == buffer_contents(*old(b)).skip(count as int),
{
    b.advance(count)
}

/// `BytesMut::split_to`: removes the first `at` bytes and returns them as a new
/// buffer; it panics when `at` exceeds the length, which is excluded.
#[verifier::external_body]
pub(crate) fn buffer_split_to(b: &mut BytesMut, at: usize) -> (head: BytesMut)
    requires
        at <= buffer_contents(*old(b)).len(),
    ensures
        buffer_contents(head) == buffer_contents(*old(b)).take(at as int),
        buffer_contents(*final(b)) == buffer_contents(*old(b)).skip(at as int),
{
    b.split_to(at)
}

} // verus!
