//! The growable byte buffer of the `bytes` crate, as the encoders use it.
//!
//! `BytesMut` is opaque to Verus: what it holds is named by
//! [`bytes_mut_contents`], and each method that the encoders call has a wrapper
//! whose contract says what the method does to those contents.

use bytes::{Buf, BufMut, BytesMut};
use vstd::prelude::*;

use crate::wire::{be16, be32};

verus! {

#[verifier::external_type_specification]
#[verifier::external_body]
pub struct ExBytesMut(bytes::BytesMut);

/// The bytes that a `BytesMut` holds, from its start to its length.
pub uninterp spec fn bytes_mut_contents(b: BytesMut) -> Seq<u8>;

/// `BytesMut::with_capacity`: a buffer that holds nothing (the capacity is only
/// a hint for the allocation and is left unsaid).
#[verifier::external_body]
pub(crate) fn bytes_mut_with_capacity(capacity: usize) -> (b: BytesMut)
    ensures
        bytes_mut_contents(b) == Seq::<u8>::empty(),
{
    BytesMut::with_capacity(capacity)
}

/// `BytesMut::new`: a buffer that holds nothing.
#[verifier::external_body]
pub(crate) fn bytes_mut_new() -> (b: BytesMut)
    ensures
        bytes_mut_contents(b) == Seq::<u8>::empty(),
{
    BytesMut::new()
}

/// `BytesMut::len`: the number of bytes held.
#[verifier::external_body]
pub(crate) fn bytes_mut_len(b: &BytesMut) -> (n: usize)
    ensures
        n == bytes_mut_contents(*b).len(),
{
    b.len()
}

/// `BufMut::put_u8` on a `BytesMut`: appends the byte. The buffer grows through
/// `reserve`, which panics when the new length does not fit an allocation, so
/// the new length is required to stay within `isize::MAX`.
#[verifier::external_body]
pub(crate) fn put_u8(b: &mut BytesMut, n: u8)
    requires
        bytes_mut_contents(*old(b)).len() + 1 <= isize::MAX,
    ensures
        bytes_mut_contents(*final(b)) == bytes_mut_contents(*old(b)).push(n),
{
    b.put_u8(n)
}

/// `BufMut::put_i16` on a `BytesMut`: appends `n.to_be_bytes()`, the two bytes
/// of `n` in network order.
#[verifier::external_body]
pub(crate) fn put_i16(b: &mut BytesMut, n: i16)
    requires
        bytes_mut_contents(*old(b)).len() + 2 <= isize::MAX,
    ensures
        bytes_mut_contents(*final(b)) == bytes_mut_contents(*old(b)) + be16(n as int),
{
    b.put_i16(n)
}

/// `BufMut::put_i32` on a `BytesMut`: appends `n.to_be_bytes()`, the four bytes
/// of `n` in network order.
#[verifier::external_body]
pub(crate) fn put_i32(b: &mut BytesMut, n: i32)
    requires
        bytes_mut_contents(*old(b)).len() + 4 <= isize::MAX,
    ensures
        bytes_mut_contents(*final(b)) == bytes_mut_contents(*old(b)) + be32(n as int),
{
    b.put_i32(n)
}

/// `BufMut::put_u32` on a `BytesMut`: appends `n.to_be_bytes()`, the four bytes
/// of `n` in network order.
#[verifier::external_body]
pub(crate) fn put_u32(b: &mut BytesMut, n: u32)
    requires
        bytes_mut_contents(*old(b)).len() + 4 <= isize::MAX,
    ensures
        bytes_mut_contents(*final(b)) == bytes_mut_contents(*old(b)) + be32(n as int),
{
    b.put_u32(n)
}

/// `BufMut::put_slice` on a `BytesMut` (which forwards to `extend_from_slice`):
/// appends the slice.
#[verifier::external_body]
pub(crate) fn put_slice(b: &mut BytesMut, src: &[u8])
    requires
        bytes_mut_contents(*old(b)).len() + src@.len() <= isize::MAX,
    ensures
        bytes_mut_contents(*final(b)) == bytes_mut_contents(*old(b)) + src@,
{
    b.put_slice(src)
}

/// `BytesMut::extend_from_slice`: appends the slice.
#[verifier::external_body]
pub(crate) fn extend_from_slice(b: &mut BytesMut, src: &[u8])
    requires
        bytes_mut_contents(*old(b)).len() + src@.len() <= isize::MAX,
    ensures
        bytes_mut_contents(*final(b)) == bytes_mut_contents(*old(b)) + src@,
{
    b.extend_from_slice(src)
}

/// `Buf::bytes` on a `BytesMut`: the slice of all the bytes held.
#[verifier::external_body]
pub(crate) fn buf_bytes(b: &BytesMut) -> (s: &[u8])
    ensures
        s@ == bytes_mut_contents(*b),
{
    b.bytes()
}

/// `AsRef<[u8]>::as_ref` on a `BytesMut`: the slice of all the bytes held.
#[verifier::external_body]
pub(crate) fn as_ref(b: &BytesMut) -> (s: &[u8])
    ensures
        s@ == bytes_mut_contents(*b),
{
    b.as_ref()
}

/// `Deref::deref` on a `BytesMut`: the slice of all the bytes held.
#[verifier::external_body]
pub(crate) fn deref(b: &BytesMut) -> (s: &[u8])
    ensures
        s@ == bytes_mut_contents(*b),
{
    &**b
}

} // verus!
