//! The trusted surface over `bytes::BytesMut`, the byte buffer that the line
//! codec scans and fills. Verus sees the buffer only through `buf_bytes`, the
//! name for the bytes it currently holds, and through the wrappers below.

use vstd::prelude::*;

verus! {

#[verifier::external_type_specification]
#[verifier::external_body]
pub struct ExBytesMut(bytes::BytesMut);

/// The bytes a `bytes::BytesMut` buffer currently holds, oldest first.
pub uninterp spec fn buf_bytes(b: bytes::BytesMut) -> Seq<u8>;

/// Relies on `BytesMut::len`: the number of bytes in the buffer.
#[verifier::external_body]
pub(crate) fn buf_len(b: &bytes::BytesMut) -> (r: usize)
    ensures
        r == buf_bytes(*b).len(),
{
    b.len()
}

/// Relies on the slice view of `BytesMut` (`AsRef<[u8]>`): the byte at `i`.
#[verifier::external_body]
pub(crate) fn buf_get(b: &bytes::BytesMut, i: usize) -> (r: u8)
    requires
        i < buf_bytes(*b).len(),
    ensures
        r == buf_bytes(*b)[i as int],
{
    b.as_ref()[i]
}

/// Relies on `BytesMut::split_to`: removes and returns the first `at` bytes,
/// leaving the rest. `split_to` panics when `at` exceeds the length, so the
/// contract asks for less.
#[verifier::external_body]
pub(crate) fn buf_split_to(b: &mut bytes::BytesMut, at: usize) -> (r: bytes::BytesMut)
    requires
        at <= buf_bytes(*old(b)).len(),
    ensures
        buf_bytes(r) == buf_bytes(*old(b)).subrange(0, at as int),
        buf_bytes(*final(b)) == buf_bytes(*old(b)).subrange(
            at as int,
            buf_bytes(*old(b)).len() as int,
        ),
{
    b.split_to(at)
}

/// Relies on `BytesMut::reserve`: grows capacity only; the bytes held stay
/// exactly as they were.
#[verifier::external_body]
pub(crate) fn buf_reserve(b: &mut bytes::BytesMut, additional: usize)
    ensures
        buf_bytes(*final(b)) == buf_bytes(*old(b)),
{
    b.reserve(additional)
}

/// Relies on `BufMut::put_slice` on `BytesMut`: appends the slice's bytes,
/// growing the buffer as needed (as a `Vec` grows on push).
#[verifier::external_body]
pub(crate) fn buf_put_slice(b: &mut bytes::BytesMut, s: &[u8])
    ensures
        buf_bytes(*final(b)) == buf_bytes(*old(b)) + s@,
{
    bytes::BufMut::put_slice(b, s)
}

/// Relies on `BufMut::put_u8` on `BytesMut`: appends one byte, growing the
/// buffer as needed.
#[verifier::external_body]
pub(crate) fn buf_put_u8(b: &mut bytes::BytesMut, v: u8)
    ensures
        buf_bytes(*final(b)) == buf_bytes(*old(b)) + seq![v],
{
    bytes::BufMut::put_u8(b, v)
}

/// Relies on the slice view of `BytesMut` and `slice::to_vec`: copies the
/// buffer's bytes out, oldest first.
#[verifier::external_body]
pub(crate) fn buf_to_vec(b: &bytes::BytesMut) -> (r: Vec<u8>)
    ensures
        r@ == buf_bytes(*b),
{
    b.as_ref().to_vec()
}

} // verus!
