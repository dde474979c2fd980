//! The byte buffer of the `bytes` crate, as the codec uses it.
//!
//! Nothing in this file is proved. Each function makes one call into `bytes`
//! and states, over the bytes that the buffer holds, what the crate's source
//! shows of that call.

use bytes::{Buf, BufMut, BytesMut};
use vstd::prelude::*;
use crate::wire::{u16_from_be, u16_to_be};

verus! {

/// `bytes::BytesMut`, a growable byte buffer. Verified code sees nothing
/// inside it but what [`buf_bytes`] names.
#[verifier::external_type_specification]
#[verifier::external_body]
pub struct ExBytesMut(bytes::BytesMut);

/// The bytes that a buffer holds, first to last.
pub uninterp spec fn buf_bytes(buf: BytesMut) -> Seq<u8>;

/// `BytesMut::len`: the number of bytes in the buffer.
#[verifier::external_body]
pub(crate) fn buf_len(buf: &BytesMut) -> (len: usize)
    ensures
        len == buf_bytes(*buf).len(),
{
    buf.len()
}

/// Indexing a `BytesMut`, which reads through to its bytes as a slice: the
/// byte at `index`. The index must be in bounds, as the slice would panic
/// otherwise.
#[verifier::external_body]
pub(crate) fn buf_byte(buf: &BytesMut, index: usize) -> (byte: u8)
    requires
        index < buf_bytes(*buf).len(),
    ensures
        byte == buf_bytes(*buf)[index as int],
{
    buf[index]
}

/// `BytesMut::reserve`: room is made for `additional` more bytes and the
/// contents stay as they are. The call panics when the new capacity
/// overflows, which the bound rules out.
#[verifier::external_body]
pub(crate) fn buf_reserve(buf: &mut BytesMut, additional: usize)
    requires
        buf_bytes(*old(buf)).len() + additional <= isize::MAX,
    ensures
        buf_bytes(*final(buf)) == buf_bytes(*old(buf)),
{
    buf.reserve(additional)
}

/// `BytesMut::split_to`: the first `at` bytes leave the buffer and the rest
/// stay. The bytes that left are handed out as a vector. The call panics
/// when `at` is past the end.
#[verifier::external_body]
pub(crate) fn buf_split_to(buf: &mut BytesMut, at: usize) -> (front: Vec<u8>)
    requires
        at <= buf_bytes(*old(buf)).len(),
    ensures
        front@ == buf_bytes(*old(buf)).subrange(0, at as int),
        buf_bytes(*final(buf)) == buf_bytes(*old(buf)).subrange(
            at as int,
            buf_bytes(*old(buf)).len() as int,
        ),
{
    buf.split_to(at).freeze().to_vec()
}

/// `BufMut::put_u8` on a `BytesMut`: one byte is appended. The call panics
/// when the buffer has no room left, which for a `BytesMut` is at
/// `isize::MAX` bytes.
#[verifier::external_body]
pub(crate) fn buf_put_u8(buf: &mut BytesMut, byte: u8)
    requires
        buf_bytes(*old(buf)).len() + 1 <= isize::MAX,
    ensures
        buf_bytes(*final(buf)) == buf_bytes(*old(buf)).push(byte),
{
    buf.put_u8(byte)
}

/// `BufMut::put_u16` on a `BytesMut`: the two bytes of `value` are appended,
/// most significant first. The call panics when the buffer has no room
/// left.
#[verifier::external_body]
pub(crate) fn buf_put_u16(buf: &mut BytesMut, value: u16)
    requires
        buf_bytes(*old(buf)).len() + 2 <= isize::MAX,
    ensures
        buf_bytes(*final(buf)) == buf_bytes(*old(buf)) + u16_to_be(value),
{
    buf.put_u16(value)
}

/// `BufMut::put_slice` on a `BytesMut`: the bytes of `src` are appended in
/// order. The call panics when the buffer has no room left.
#[verifier::external_body]
pub(crate) fn buf_put_slice(buf: &mut BytesMut, src: &[u8])
    requires
        buf_bytes(*old(buf)).len() + src@.len() <= isize::MAX,
    ensures
        buf_bytes(*final(buf)) == buf_bytes(*old(buf)) + src@,
{
    buf.put_slice(src)
}

/// `Buf::get_u16` on a slice: the number that the first two bytes spell,
/// most significant first. The call panics on fewer than two bytes.
#[verifier::external_body]
pub(crate) fn get_u16(data: &[u8]) -> (value: u16)
    requires
        data@.len() >= 2,
    ensures
        value == u16_from_be(data@[0], data@[1]),
{
    let mut cursor = data;
    cursor.get_u16()
}

} // verus!
