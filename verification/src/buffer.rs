//! The growable byte buffer that the encoders write into.
//!
//! The buffer is `bytes::BytesMut`. Verus does not look inside it: what it
//! holds is named by [`contents`], and each operation below states, without
//! proof, what the buffer's own source shows it to do to those contents.
//! As with `Vec`, an append that the allocator cannot serve ends the process
//! and is outside these statements.

use bytes::{BufMut, BytesMut};
use vstd::prelude::*;
use crate::wire::{u16_bytes, u32_bytes};

verus! {

/// `bytes::BytesMut`, carried as it is; the contracts speak of it only
/// through [`contents`].
#[verifier::external_type_specification]
#[verifier::external_body]
pub struct ExBytesMut(BytesMut);

/// The bytes that a buffer holds, first written first.
pub uninterp spec fn contents(buf: BytesMut) -> Seq<u8>;

/// `BytesMut::with_capacity`: a buffer that holds no bytes yet, whatever
/// room was asked for.
#[verifier::external_body]
pub(crate) fn with_capacity(capacity: usize) -> (buf: BytesMut)
    requires
        capacity <= isize::MAX,
    ensures
        contents(buf) == Seq::<u8>::empty(),
{
    BytesMut::with_capacity(capacity)
}

/// `BufMut::put_u8` on a `BytesMut`: appends the byte.
#[verifier::external_body]
pub(crate) fn put_u8(buf: &mut BytesMut, n: u8)
    ensures
        contents(*final(buf)) == contents(*old(buf)).push(n),
{
    buf.put_u8(n)
}

/// `BufMut::put_u16` on a `BytesMut`: appends the two bytes of `n`, most
/// significant first.
#[verifier::external_body]
pub(crate) fn put_u16(buf: &mut BytesMut, n: u16)
    ensures
        contents(*final(buf)) == contents(*old(buf)) + u16_bytes(n),
{
    buf.put_u16(n)
}

/// `BufMut::put_u32` on a `BytesMut`: appends the four bytes of `n`, most
/// significant first.
#[verifier::external_body]
pub(crate) fn put_u32(buf: &mut BytesMut, n: u32)
    ensures
        contents(*final(buf)) == contents(*old(buf)) + u32_bytes(n),
{
    buf.put_u32(n)
}

/// `BufMut::put_slice` on a `BytesMut`: appends the bytes of `src` in order.
#[verifier::external_body]
pub(crate) fn put_slice(buf: &mut BytesMut, src: &[u8])
    ensures
        contents(*final(buf)) == contents(*old(buf)) + src@,
{
    buf.put_slice(src)
}

/// `to_vec` on the buffer seen as a slice: a vector of the bytes it holds.
#[verifier::external_body]
pub(crate) fn to_vec(buf: &BytesMut) -> (v: Vec<u8>)
    ensures
        v@ == contents(*buf),
{
    buf.to_vec()
}

} // verus!
