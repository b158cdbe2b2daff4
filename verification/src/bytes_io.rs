//! The byte buffers of the `bytes` crate, as the protocol code reads and
//! writes them.
//!
//! A `BytesMut` is a growable buffer that messages are written into and a
//! `Bytes` is a cursor over received bytes that the decoders consume from the
//! front.  Verus sees neither type's inside: what each buffer holds is named by
//! `bytes_mut_contents` and `bytes_contents`, and every operation that the
//! protocol uses is a wrapper below whose contract says what it does to those
//! contents, as the `bytes` crate's source (version 1.12) shows it.
use bytes::{Buf, BufMut, Bytes, BytesMut};
use vstd::prelude::*;
use vstd::bytes::{spec_u16_from_le_bytes, spec_u16_to_le_bytes, spec_u32_from_le_bytes, spec_u32_to_le_bytes};

verus! {

#[verifier::external_type_specification]
#[verifier::external_body]
pub struct ExBytes(Bytes);

#[verifier::external_type_specification]
#[verifier::external_body]
pub struct ExBytesMut(BytesMut);

/// The bytes that a `Bytes` still holds, from its read position to its end.
pub uninterp spec fn bytes_contents(b: Bytes) -> Seq<u8>;

/// The bytes written so far into a `BytesMut`.
pub uninterp spec fn bytes_mut_contents(b: BytesMut) -> Seq<u8>;

/// `BytesMut::new`: an empty buffer.
#[verifier::external_body]
pub(crate) fn bytes_mut_new() -> (r: BytesMut)
    ensures
        bytes_mut_contents(r) == Seq::<u8>::empty(),
{
    BytesMut::new()
}

/// `BytesMut::len`: the number of bytes written.
#[verifier::external_body]
pub(crate) fn bytes_mut_len(buf: &BytesMut) -> (r: usize)
    ensures
        r == bytes_mut_contents(*buf).len(),
{
    buf.len()
}

/// `BufMut::put_u8` on a `BytesMut`: appends one byte.
#[verifier::external_body]
pub(crate) fn put_u8(buf: &mut BytesMut, v: u8)
    ensures
        bytes_mut_contents(*final(buf)) == bytes_mut_contents(*old(buf)).push(v),
{
    buf.put_u8(v)
}

/// `BufMut::put_i8` on a `BytesMut`: appends the byte that holds `v` in two's complement.
#[verifier::external_body]
pub(crate) fn put_i8(buf: &mut BytesMut, v: i8)
    ensures
        bytes_mut_contents(*final(buf)) == bytes_mut_contents(*old(buf)).push(v as u8),
{
    buf.put_i8(v)
}

/// `BufMut::put_slice` on a `BytesMut`: appends the slice.
#[verifier::external_body]
pub(crate) fn put_slice(buf: &mut BytesMut, s: &[u8])
    ensures
        bytes_mut_contents(*final(buf)) == bytes_mut_contents(*old(buf)) + s@,
{
    buf.put_slice(s)
}

/// `BufMut::put_u16_le` on a `BytesMut`: appends the two little-endian bytes of `v`.
#[verifier::external_body]
pub(crate) fn put_u16_le(buf: &mut BytesMut, v: u16)
    ensures
        bytes_mut_contents(*final(buf)) == bytes_mut_contents(*old(buf)) + spec_u16_to_le_bytes(v),
{
    buf.put_u16_le(v)
}

/// `BufMut::put_i16_le` on a `BytesMut`: appends the two little-endian bytes of `v`
/// in two's complement.
#[verifier::external_body]
pub(crate) fn put_i16_le(buf: &mut BytesMut, v: i16)
    ensures
        bytes_mut_contents(*final(buf)) == bytes_mut_contents(*old(buf)) + spec_u16_to_le_bytes(
            v as u16,
        ),
{
    buf.put_i16_le(v)
}

/// `BufMut::put_u32_le` on a `BytesMut`: appends the four little-endian bytes of `v`.
#[verifier::external_body]
pub(crate) fn put_u32_le(buf: &mut BytesMut, v: u32)
    ensures
        bytes_mut_contents(*final(buf)) == bytes_mut_contents(*old(buf)) + spec_u32_to_le_bytes(v),
{
    buf.put_u32_le(v)
}

/// `BufMut::put_i32_le` on a `BytesMut`: appends the four little-endian bytes of `v`
/// in two's complement.
#[verifier::external_body]
pub(crate) fn put_i32_le(buf: &mut BytesMut, v: i32)
    ensures
        bytes_mut_contents(*final(buf)) == bytes_mut_contents(*old(buf)) + spec_u32_to_le_bytes(
            v as u32,
        ),
{
    buf.put_i32_le(v)
}

/// Writing one byte of a `BytesMut` in place (through its `IndexMut<usize>`).
#[verifier::external_body]
pub(crate) fn bytes_mut_set(buf: &mut BytesMut, i: usize, v: u8)
    requires
        i < bytes_mut_contents(*old(buf)).len(),
    ensures
        bytes_mut_contents(*final(buf)) == bytes_mut_contents(*old(buf)).update(i as int, v),
{
    buf[i] = v;
}

/// `BytesMut::freeze`: the written bytes, as a `Bytes`.
#[verifier::external_body]
pub(crate) fn freeze(buf: BytesMut) -> (r: Bytes)
    ensures
        bytes_contents(r) == bytes_mut_contents(buf),
{
    buf.freeze()
}

/// `Bytes::new`: no bytes.
#[verifier::external_body]
pub(crate) fn bytes_new() -> (r: Bytes)
    ensures
        bytes_contents(r) == Seq::<u8>::empty(),
{
    Bytes::new()
}

/// `Bytes::from(Vec<u8>)`: the vector's bytes.
#[verifier::external_body]
pub(crate) fn bytes_from_vec(v: Vec<u8>) -> (r: Bytes)
    ensures
        bytes_contents(r) == v@,
{
    Bytes::from(v)
}

/// `Bytes::len`: the number of bytes held (no slice in Rust exceeds
/// `isize::MAX` bytes).
#[verifier::external_body]
pub(crate) fn bytes_len(b: &Bytes) -> (r: usize)
    ensures
        r == bytes_contents(*b).len(),
        r <= isize::MAX,
{
    b.len()
}

/// `Buf::remaining` on a `Bytes`: the number of bytes left to read.
#[verifier::external_body]
pub(crate) fn bytes_remaining(b: &Bytes) -> (r: usize)
    ensures
        r == bytes_contents(*b).len(),
{
    b.remaining()
}

/// `Bytes::is_empty`.
#[verifier::external_body]
pub(crate) fn bytes_is_empty(b: &Bytes) -> (r: bool)
    ensures
        r == (bytes_contents(*b).len() == 0),
{
    b.is_empty()
}

/// The bytes of a `Bytes` as a slice (its `Deref<Target = [u8]>`).
#[verifier::external_body]
pub(crate) fn bytes_as_slice(b: &Bytes) -> (r: &[u8])
    ensures
        r@ == bytes_contents(*b),
{
    b
}

/// `Buf::get_u8` on a `Bytes`: reads the first byte and consumes it.
#[verifier::external_body]
pub(crate) fn get_u8(b: &mut Bytes) -> (r: u8)
    requires
        bytes_contents(*old(b)).len() >= 1,
    ensures
        r == bytes_contents(*old(b))[0],
        bytes_contents(*final(b)) == bytes_contents(*old(b)).skip(1),
{
    b.get_u8()
}

/// `Buf::get_i8` on a `Bytes`: reads the first byte as two's complement and consumes it.
#[verifier::external_body]
pub(crate) fn get_i8(b: &mut Bytes) -> (r: i8)
    requires
        bytes_contents(*old(b)).len() >= 1,
    ensures
        r == bytes_contents(*old(b))[0] as i8,
        bytes_contents(*final(b)) == bytes_contents(*old(b)).skip(1),
{
    b.get_i8()
}

/// `Buf::get_u16_le` on a `Bytes`: reads two little-endian bytes and consumes them.
#[verifier::external_body]
pub(crate) fn get_u16_le(b: &mut Bytes) -> (r: u16)
    requires
        bytes_contents(*old(b)).len() >= 2,
    ensures
        r == spec_u16_from_le_bytes(bytes_contents(*old(b)).take(2)),
        bytes_contents(*final(b)) == bytes_contents(*old(b)).skip(2),
{
    b.get_u16_le()
}

/// `Buf::get_i16_le` on a `Bytes`: reads two little-endian bytes as two's complement.
#[verifier::external_body]
pub(crate) fn get_i16_le(b: &mut Bytes) -> (r: i16)
    requires
        bytes_contents(*old(b)).len() >= 2,
    ensures
        r == spec_u16_from_le_bytes(bytes_contents(*old(b)).take(2)) as i16,
        bytes_contents(*final(b)) == bytes_contents(*old(b)).skip(2),
{
    b.get_i16_le()
}

/// `Buf::get_u32_le` on a `Bytes`: reads four little-endian bytes and consumes them.
#[verifier::external_body]
pub(crate) fn get_u32_le(b: &mut Bytes) -> (r: u32)
    requires
        bytes_contents(*old(b)).len() >= 4,
    ensures
        r == spec_u32_from_le_bytes(bytes_contents(*old(b)).take(4)),
        bytes_contents(*final(b)) == bytes_contents(*old(b)).skip(4),
{
    b.get_u32_le()
}

/// `Buf::get_i32_le` on a `Bytes`: reads four little-endian bytes as two's complement.
#[verifier::external_body]
pub(crate) fn get_i32_le(b: &mut Bytes) -> (r: i32)
    requires
        bytes_contents(*old(b)).len() >= 4,
    ensures
        r == spec_u32_from_le_bytes(bytes_contents(*old(b)).take(4)) as i32,
        bytes_contents(*final(b)) == bytes_contents(*old(b)).skip(4),
{
    b.get_i32_le()
}

/// `Bytes::split_to`: hands out the first `at` bytes and keeps the rest.
#[verifier::external_body]
pub(crate) fn split_to(b: &mut Bytes, at: usize) -> (r: Bytes)
    requires
        at <= bytes_contents(*old(b)).len(),
    ensures
        bytes_contents(r) == bytes_contents(*old(b)).take(at as int),
        bytes_contents(*final(b)) == bytes_contents(*old(b)).skip(at as int),
{
    b.split_to(at)
}

/// `<[u8]>::to_vec` on the bytes of a `Bytes`.
#[verifier::external_body]
pub(crate) fn bytes_to_vec(b: &Bytes) -> (r: Vec<u8>)
    ensures
        r@ == bytes_contents(*b),
{
    b.to_vec()
}

/// `Bytes::clone`: another handle on the same bytes.
pub assume_specification[ <Bytes as Clone>::clone ](b: &Bytes) -> (r: Bytes)
    ensures
        bytes_contents(r) == bytes_contents(*b),
;

} // verus!
