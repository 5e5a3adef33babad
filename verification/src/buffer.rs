//! Byte buffers that are filled at the end and read from the front.
use bytes::{Buf, BufMut};
use vstd::prelude::*;

verus! {

/// A byte buffer.
#[verifier::external_type_specification]
#[verifier::external_body]
pub struct ExBytesMut(bytes::BytesMut);

/// The bytes in a buffer.
pub uninterp spec fn contents(b: bytes::BytesMut) -> Seq<u8>;

/// The number that two bytes stand for, the high one first.
pub open spec fn be16(b: Seq<u8>) -> int {
    256 * b[0] + b[1]
}

/// The number that four bytes stand for, the highest first.
pub open spec fn be32(b: Seq<u8>) -> int {
    0x100_0000 * b[0] + 0x1_0000 * b[1] + 256 * b[2] + b[3]
}

/// A number as two bytes, the high one first.
pub open spec fn bytes16(n: int) -> Seq<u8> {
    seq![((n / 256) % 256) as u8, (n % 256) as u8]
}

/// A number as four bytes, the highest first.
pub open spec fn bytes32(n: int) -> Seq<u8> {
    seq![
        ((n / 0x100_0000) % 256) as u8,
        ((n / 0x1_0000) % 256) as u8,
        ((n / 256) % 256) as u8,
        (n % 256) as u8,
    ]
}

/// Four bytes give back the number that they were made of, and so do two.
pub proof fn lemma_big_endian(n: int, m: int)
    requires
        0 <= n < 0x1_0000_0000,
        0 <= m < 0x1_0000,
    ensures
        be32(bytes32(n)) == n,
        be16(bytes16(m)) == m,
{
    assert(n / 0x100_0000 < 256);
    assert(n == 0x100_0000 * (n / 0x100_0000) + n % 0x100_0000);
    assert((n / 0x1_0000) % 256 == (n % 0x100_0000) / 0x1_0000) by (nonlinear_arith)
        requires
            0 <= n,
    ;
    assert((n / 256) % 256 == (n % 0x1_0000) / 256) by (nonlinear_arith)
        requires
            0 <= n,
    ;
    assert(n % 0x100_0000 == 0x1_0000 * ((n % 0x100_0000) / 0x1_0000) + (n % 0x100_0000) % 0x1_0000);
    assert((n % 0x100_0000) % 0x1_0000 == n % 0x1_0000) by (nonlinear_arith)
        requires
            0 <= n,
    ;
    assert(n % 0x1_0000 == 256 * ((n % 0x1_0000) / 256) + (n % 0x1_0000) % 256);
    assert((n % 0x1_0000) % 256 == n % 256) by (nonlinear_arith)
        requires
            0 <= n,
    ;
}

/// `bytes::BytesMut::len` counts the bytes in the buffer.
#[verifier::external_body]
pub(crate) fn buffer_len(b: &bytes::BytesMut) -> (r: usize)
    ensures
        r == contents(*b).len(),
{
    b.len()
}

/// `bytes::Buf::get_u32` takes four bytes off the front of the buffer and gives the number
/// that they stand for, the highest byte first. It panics where there are fewer.
#[verifier::external_body]
pub(crate) fn take_u32(b: &mut bytes::BytesMut) -> (r: u32)
    requires
        contents(*old(b)).len() >= 4,
    ensures
        r == be32(contents(*old(b))),
        contents(*final(b)) == contents(*old(b)).skip(4),
{
    b.get_u32()
}

/// `bytes::Buf::get_u16` takes two bytes off the front of the buffer and gives the number
/// that they stand for, the high byte first. It panics where there are fewer.
#[verifier::external_body]
pub(crate) fn take_u16(b: &mut bytes::BytesMut) -> (r: u16)
    requires
        contents(*old(b)).len() >= 2,
    ensures
        r == be16(contents(*old(b))),
        contents(*final(b)) == contents(*old(b)).skip(2),
{
    b.get_u16()
}

/// `bytes::BytesMut::split_to` takes the first `n` bytes off the buffer and gives them. It
/// panics where there are fewer.
#[verifier::external_body]
pub(crate) fn take_bytes(b: &mut bytes::BytesMut, n: usize) -> (r: Vec<u8>)
    requires
        n <= contents(*old(b)).len(),
    ensures
        r@ == contents(*old(b)).take(n as int),
        contents(*final(b)) == contents(*old(b)).skip(n as int),
{
    b.split_to(n).to_vec()
}

/// `bytes::BufMut::put_u32` appends a number as four bytes, the highest first. It panics
/// where the buffer cannot grow by as much.
#[verifier::external_body]
pub(crate) fn append_u32(b: &mut bytes::BytesMut, n: u32)
    requires
        contents(*old(b)).len() + 4 <= isize::MAX,
    ensures
        contents(*final(b)) == contents(*old(b)) + bytes32(n as int),
{
    b.put_u32(n)
}

/// `bytes::BufMut::put_u16` appends a number as two bytes, the high one first. It panics
/// where the buffer cannot grow by as much.
#[verifier::external_body]
pub(crate) fn append_u16(b: &mut bytes::BytesMut, n: u16)
    requires
        contents(*old(b)).len() + 2 <= isize::MAX,
    ensures
        contents(*final(b)) == contents(*old(b)) + bytes16(n as int),
{
    b.put_u16(n)
}

/// `bytes::BufMut::put_slice` appends bytes. It panics where the buffer cannot grow by as
/// much.
#[verifier::external_body]
pub(crate) fn append_slice(b: &mut bytes::BytesMut, data: &[u8])
    requires
        contents(*old(b)).len() + data@.len() <= isize::MAX,
    ensures
        contents(*final(b)) == contents(*old(b)) + data@,
{
    b.put_slice(data)
}

}
