//! Frames between the daemon and its clients: lengths, versions and bytes.
use crate::decimal::push_decimal;
use crate::frame::{MIN_PROTOCOL_VERSION, PROTOCOL_VERSION};
use vstd::prelude::*;
use vstd::string::*;

verus! {

use crate::buffer::{be16, be32, bytes16, bytes32, lemma_big_endian};
use crate::decimal::decimal;
use crate::frame::{decoded, framed, DecodeState, Decoded, Outcome};
use crate::text::ends_with;

/// The frame around a payload, for the given version of the protocol.
pub open spec fn versioned(payload: Seq<u8>, version: u16) -> Seq<u8> {
    bytes32((2 + payload.len()) as int % 0x1_0000_0000) + bytes16(version as int) + payload
}

/// A payload after its length alone, for clients of an unknown version.
pub open spec fn unversioned(payload: Seq<u8>) -> Seq<u8> {
    bytes32(payload.len() as int % 0x1_0000_0000) + payload
}

/// Appends a number as four bytes, the highest first.
fn push_u32(out: &mut Vec<u8>, n: u32)
    ensures
        final(out)@ == old(out)@ + bytes32(n as int),
{
    out.push(((n / 0x100_0000) % 256) as u8);
    out.push(((n / 0x1_0000) % 256) as u8);
    out.push(((n / 256) % 256) as u8);
    out.push((n % 256) as u8);
    assert(out@ =~= old(out)@ + bytes32(n as int));
}

/// Appends a number as two bytes, the high one first.
fn push_u16(out: &mut Vec<u8>, n: u16)
    ensures
        final(out)@ == old(out)@ + bytes16(n as int),
{
    out.push(((n / 256) % 256) as u8);
    out.push((n % 256) as u8);
    assert(out@ =~= old(out)@ + bytes16(n as int));
}

/// Appends bytes.
fn push_all(out: &mut Vec<u8>, data: &Vec<u8>)
    ensures
        final(out)@ == old(out)@ + data@,
{
    for i in 0..data.len()
        invariant
            out@ =~= old(out)@ + data@.take(i as int),
    {
        out.push(data[i]);
    }
    assert(data@.take(data@.len() as int) =~= data@);
}

/// The frame around an answer, in the version that the client speaks.
pub fn reply_frame(payload: &Vec<u8>, version: u16) -> (r: Vec<u8>)
    requires
        payload@.len() + 2 <= usize::MAX,
    ensures
        r@ == versioned(payload@, version),
{
    let total: u64 = (2 + payload.len()) as u64;
    let mut out: Vec<u8> = Vec::new();
    push_u32(&mut out, (total % 0x1_0000_0000) as u32);
    push_u16(&mut out, version);
    push_all(&mut out, payload);
    assert(out@ =~= versioned(payload@, version));
    out
}

/// The frame around a request, in the version that is spoken.
pub fn request_frame(payload: &Vec<u8>) -> (r: Vec<u8>)
    requires
        payload@.len() + 2 <= usize::MAX,
    ensures
        r@ == framed(payload@),
{
    reply_frame(payload, PROTOCOL_VERSION)
}

/// A payload after its length alone.
pub fn bare_frame(payload: &Vec<u8>) -> (r: Vec<u8>)
    ensures
        r@ == unversioned(payload@),
{
    let total: u64 = payload.len() as u64;
    let mut out: Vec<u8> = Vec::new();
    push_u32(&mut out, (total % 0x1_0000_0000) as u32);
    push_all(&mut out, payload);
    assert(out@ =~= unversioned(payload@));
    out
}

/// The length that a header states.
pub fn bare_len(header: [u8; 4]) -> (r: usize)
    ensures
        r == be32(header@),
{
    let n: u32 = (header[0] as u32) * 0x100_0000 + (header[1] as u32) * 0x1_0000 + (header[2] as u32)
        * 256 + (header[3] as u32);
    n as usize
}

/// The length of the payload that a header announces; none where it leaves no room for the
/// version.
pub open spec fn announced_len(header: Seq<u8>) -> Option<usize> {
    if be32(header) < 2 {
        None
    } else {
        Some((be32(header) - 2) as usize)
    }
}

/// How many bytes follow the version of a frame whose header states the given length; `None`
/// where the length leaves no room for the version.
pub fn payload_len(header: [u8; 4]) -> (r: Option<usize>)
    ensures
        r == announced_len(header@),
{
    let n: usize = bare_len(header);
    if n < 2 {
        None
    } else {
        Some(n - 2)
    }
}

/// The version that a frame states.
pub fn frame_version(bytes: [u8; 2]) -> (r: u16)
    ensures
        r == be16(bytes@),
{
    (bytes[0] as u16) * 256 + (bytes[1] as u16)
}

/// Whether a version can be spoken.
pub open spec fn is_supported(version: u16) -> bool {
    MIN_PROTOCOL_VERSION <= version <= PROTOCOL_VERSION
}

/// What a client of another version is told.
pub open spec fn unsupported_text(version: u16) -> Seq<char> {
    "unsupported protocol version: got "@ + decimal(version as nat) + ", supported "@ + decimal(
        MIN_PROTOCOL_VERSION as nat,
    ) + "..="@ + decimal(PROTOCOL_VERSION as nat)
}

/// The version to speak with a client: its own, or what to tell it where that is impossible.
pub fn negotiate(version: u16) -> (r: Result<u16, String>)
    ensures
        is_supported(version) ==> r == Ok::<u16, String>(version),
        !is_supported(version) ==> (r matches Err(m) && m@ == unsupported_text(version)),
{
    if MIN_PROTOCOL_VERSION <= version && version <= PROTOCOL_VERSION {
        Ok(version)
    } else {
        let mut m = String::new();
        m.append("unsupported protocol version: got ");
        push_decimal(&mut m, version as u64);
        m.append(", supported ");
        push_decimal(&mut m, MIN_PROTOCOL_VERSION as u64);
        m.append("..=");
        push_decimal(&mut m, PROTOCOL_VERSION as u64);
        assert(m@ =~= unsupported_text(version));
        Err(m)
    }
}

/// An answer in the version that is spoken is read back by the codec.
pub proof fn law_reply_is_read_back(payload: Seq<u8>, rest: Seq<u8>)
    requires
        payload.len() + 2 <= u32::MAX,
        payload.len() + 2 <= usize::MAX,
    ensures
        decoded(DecodeState::Header, versioned(payload, PROTOCOL_VERSION) + rest) == (Decoded {
            state: DecodeState::Header,
            rest,
            outcome: Outcome::Payload(payload),
        }),
{
    crate::frame::law_decode_encode(payload, rest);
}

/// The header and the version of a frame say what its payload is, in any version.
pub proof fn law_header_and_version(payload: Seq<u8>, version: u16)
    requires
        payload.len() + 2 <= u32::MAX,
    ensures
        ({
            let f = versioned(payload, version);
            &&& be32(f) == payload.len() + 2
            &&& be16(f.skip(4)) == version
            &&& f.skip(6) == payload
        }),
{
    let f = versioned(payload, version);
    let n = (2 + payload.len()) as int;
    lemma_big_endian(n, version as int);
    let h = bytes32(n % 0x1_0000_0000);
    let v = bytes16(version as int);
    assert(f[0] == h[0] && f[1] == h[1] && f[2] == h[2] && f[3] == h[3]);
    assert(f.skip(4)[0] == v[0] && f.skip(4)[1] == v[1]);
    assert(f.skip(6) =~= payload);
}

/// A message without a version is its length and the payload, from which both are read back.
pub proof fn law_bare_message(payload: Seq<u8>)
    requires
        payload.len() <= u32::MAX,
    ensures
        be32(unversioned(payload)) == payload.len(),
        unversioned(payload).skip(4) == payload,
        unversioned(payload).len() == payload.len() + 4,
{
    crate::buffer::lemma_big_endian(payload.len() as int, 0);
    let h = bytes32(payload.len() as int % 0x1_0000_0000);
    assert((h + payload).skip(4) =~= payload);
    assert(be32(h + payload) == be32(h));
}

/// The header of a reply announces the length of its payload; a header too small for the version
/// announces none.
pub proof fn law_announced_len(payload: Seq<u8>, version: u16, header: Seq<u8>)
    requires
        payload.len() + 2 <= u32::MAX,
        payload.len() + 2 <= usize::MAX,
    ensures
        announced_len(versioned(payload, version)) == Some(payload.len() as usize),
        announced_len(header) is None <==> be32(header) < 2,
{
    let n = (2 + payload.len()) as int;
    crate::buffer::lemma_big_endian(n, version as int);
    let h = bytes32(n % 0x1_0000_0000);
    assert(be32(versioned(payload, version)) == be32(h));
}

/// Exactly the first two versions of the protocol are spoken.
pub proof fn law_versions(version: u16)
    ensures
        is_supported(version) <==> version == 1 || version == 2,
{
}

/// The message on a version that is not spoken names it, and the least and the greatest that are.
pub proof fn law_refusal_message(version: u16)
    ensures
        ends_with(
            unsupported_text(version),
            "got "@ + decimal(version as nat) + ", supported "@ + decimal(1) + "..="@ + decimal(2),
        ),
{
    let t = unsupported_text(version);
    let h = "unsupported protocol version: "@;
    let p = "got "@ + decimal(version as nat) + ", supported "@ + decimal(1) + "..="@ + decimal(2);
    reveal_strlit("unsupported protocol version: got ");
    reveal_strlit("unsupported protocol version: ");
    reveal_strlit("got ");
    assert("unsupported protocol version: got "@ =~= h + "got "@);
    assert(t =~= h + p);
    assert(t.skip(t.len() - p.len()) =~= p);
}

}
