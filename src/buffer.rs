//! The growable byte buffer of the `bytes` crate, as the codec sees it: a
//! sequence of bytes that grows at the back and is consumed from the front.
use bytes::{Buf, BufMut, BytesMut};
use vstd::prelude::*;

verus! {

#[verifier::external_type_specification]
#[verifier::external_body]
pub struct ExBytesMut(BytesMut);

/// The bytes a `BytesMut` currently holds, front first.
pub uninterp spec fn buffer_contents(b: BytesMut) -> Seq<u8>;

/// The two bytes of `n`, most significant first.
pub open spec fn be16(n: nat) -> Seq<u8> {
    seq![(n / 0x100) as u8, (n % 0x100) as u8]
}

/// The four bytes of `n`, most significant first.
pub open spec fn be32(n: nat) -> Seq<u8> {
    seq![(n / 0x100_0000) as u8, ((n / 0x1_0000) % 0x100) as u8, ((n / 0x100) % 0x100) as u8, (n % 0x100) as u8]
}

/// The 32-bit two's complement pattern of `n`, read as an unsigned number.
pub open spec fn i32_pattern(n: i32) -> nat {
    if n >= 0 { n as nat } else { (n + 0x1_0000_0000) as nat }
}

/// Relies on `BytesMut::with_capacity`: the new buffer holds no bytes.
#[verifier::external_body]
pub(crate) fn buffer_with_capacity(capacity: usize) -> (r: BytesMut)
    ensures
        buffer_contents(r) == Seq::<u8>::empty(),
{
    BytesMut::with_capacity(capacity)
}

/// Relies on `BytesMut`'s `Deref` to `[u8]`: the slice is the buffer's contents.
#[verifier::external_body]
pub(crate) fn buffer_bytes(b: &BytesMut) -> (r: &[u8])
    ensures
        r@ == buffer_contents(*b),
{
    &b[..]
}

/// Relies on `BytesMut`'s `Buf::advance`: drops `n` bytes from the front. It
/// panics past the end, so `n` is bounded by the length.
#[verifier::external_body]
pub(crate) fn buffer_advance(b: &mut BytesMut, n: usize)
    requires
        n <= buffer_contents(*old(b)).len(),
    ensures
        buffer_contents(*final(b)) == buffer_contents(*old(b)).skip(n as int),
{
    b.advance(n)
}

/// Relies on `BufMut::put_u16` for `BytesMut`: appends `n` big-endian.
#[verifier::external_body]
pub(crate) fn buffer_put_u16(b: &mut BytesMut, n: u16)
    requires
        buffer_contents(*old(b)).len() + 2 <= usize::MAX,
    ensures
        buffer_contents(*final(b)) == buffer_contents(*old(b)) + be16(n as nat),
{
    b.put_u16(n)
}

/// Relies on `BufMut::put_i32` for `BytesMut`: appends `n` big-endian in
/// two's complement.
#[verifier::external_body]
pub(crate) fn buffer_put_i32(b: &mut BytesMut, n: i32)
    requires
        buffer_contents(*old(b)).len() + 4 <= usize::MAX,
    ensures
        buffer_contents(*final(b)) == buffer_contents(*old(b)) + be32(i32_pattern(n)),
{
    b.put_i32(n)
}

/// Relies on `BytesMut`'s `BufMut::put_slice`: appends the slice.
#[verifier::external_body]
pub(crate) fn buffer_put_slice(b: &mut BytesMut, s: &[u8])
    requires
        buffer_contents(*old(b)).len() + s@.len() <= usize::MAX,
    ensures
        buffer_contents(*final(b)) == buffer_contents(*old(b)) + s@,
{
    b.put_slice(s)
}

} // verus!
