//! The byte buffers that travel between the sockets, the connection and its streams.

use bytes::{Buf, BytesMut};
use vstd::prelude::*;

verus! {

/// `bytes::BytesMut`.
#[verifier::external_type_specification]
#[verifier::external_body]
pub struct ExBytesMut(BytesMut);

/// `tokio::io::ReadBuf`.
#[verifier::external_type_specification]
#[verifier::external_body]
pub struct ExReadBuf<'a>(tokio::io::ReadBuf<'a>);

/// The bytes that a `BytesMut` holds.
pub uninterp spec fn content(buf: BytesMut) -> Seq<u8>;

/// The bytes that a `ReadBuf` has been filled with.
pub uninterp spec fn filled(buf: tokio::io::ReadBuf<'_>) -> Seq<u8>;

/// How many more bytes a `ReadBuf` has room for.
pub uninterp spec fn room(buf: tokio::io::ReadBuf<'_>) -> nat;

/// `BytesMut::new` makes a buffer that holds no bytes.
pub assume_specification[ BytesMut::new ]() -> (buf: BytesMut)
    ensures
        content(buf) == Seq::<u8>::empty(),
;

/// `BytesMut::len` is the number of bytes in the buffer.
pub assume_specification[ BytesMut::len ](buf: &BytesMut) -> (len: usize)
    ensures
        len == content(*buf).len(),
;

/// `BytesMut::is_empty` tells whether there are none.
pub assume_specification[ BytesMut::is_empty ](buf: &BytesMut) -> (empty: bool)
    ensures
        empty == (content(*buf).len() == 0),
;

/// `BytesMut::from` on a slice makes a buffer with a copy of the slice's bytes.
#[verifier::external_body]
pub(crate) fn from_slice(bytes: &[u8]) -> (buf: BytesMut)
    ensures
        content(buf) == bytes@,
{
    BytesMut::from(bytes)
}

/// `BytesMut`'s `deref` gives all its bytes as a slice.
#[verifier::external_body]
pub(crate) fn as_slice(buf: &BytesMut) -> (bytes: &[u8])
    ensures
        bytes@ == content(*buf),
{
    buf
}

/// `Buf::advance` on a `BytesMut` drops that many bytes from its front. It panics past the
/// end of the buffer.
#[verifier::external_body]
pub(crate) fn advance(buf: &mut BytesMut, count: usize)
    requires
        count <= content(*old(buf)).len(),
    ensures
        content(*final(buf)) == content(*old(buf)).skip(count as int),
{
    buf.advance(count)
}

/// `ReadBuf::remaining` is the number of bytes that still fit.
#[verifier::external_body]
pub(crate) fn remaining(buf: &tokio::io::ReadBuf<'_>) -> (count: usize)
    ensures
        count == room(*buf),
{
    buf.remaining()
}

/// `ReadBuf::put_slice` appends the bytes to what is filled already. It panics where they do
/// not fit.
#[verifier::external_body]
pub(crate) fn put_slice(buf: &mut tokio::io::ReadBuf<'_>, bytes: &[u8])
    requires
        bytes@.len() <= room(*old(buf)),
    ensures
        filled(*final(buf)) == filled(*old(buf)) + bytes@,
        room(*final(buf)) == room(*old(buf)) - bytes@.len(),
{
    buf.put_slice(bytes)
}

} // verus!
