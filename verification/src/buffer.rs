//! The byte buffer that accumulates what a connection receives.
//!
//! The buffer is a `bytes::BytesMut`. Its contents are named by
//! [`buffered`], and each operation the connection uses is stated over that
//! name.

use bytes::{Buf, BytesMut};
use vstd::prelude::*;

verus! {

#[verifier::external_type_specification]
#[verifier::external_body]
pub struct ExBytesMut(BytesMut);

/// The bytes a buffer holds, oldest first.
pub uninterp spec fn buffered(buf: BytesMut) -> Seq<u8>;

/// `BytesMut::new`: a buffer that holds nothing.
#[verifier::external_body]
pub(crate) fn buffer_new() -> (buf: BytesMut)
    ensures
        buffered(buf) == Seq::<u8>::empty(),
{
    BytesMut::new()
}

/// The buffer's `Deref` to a byte slice: all it holds, in order.
#[verifier::external_body]
pub(crate) fn buffer_bytes(buf: &BytesMut) -> (bytes: &[u8])
    ensures
        bytes@ == buffered(*buf),
{
    &buf[..]
}

/// `BytesMut::extend_from_slice`: appends `data` behind what is held. The
/// method panics when the new length overflows, which the precondition
/// leaves out.
#[verifier::external_body]
pub(crate) fn buffer_extend(buf: &mut BytesMut, data: &[u8])
    requires
        buffered(*old(buf)).len() + data@.len() <= isize::MAX,
    ensures
        buffered(*final(buf)) == buffered(*old(buf)) + data@,
{
    buf.extend_from_slice(data)
}

/// `Buf::advance` on the buffer: drops its first `count` bytes. The method
/// panics when `count` exceeds what is held, which the precondition leaves
/// out.
#[verifier::external_body]
pub(crate) fn buffer_advance(buf: &mut BytesMut, count: usize)
    requires
        count <= buffered(*old(buf)).len(),
    ensures
        buffered(*final(buf)) == buffered(*old(buf)).skip(count as int),
{
    buf.advance(count)
}

} // verus!
