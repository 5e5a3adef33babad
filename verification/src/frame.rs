//! Framing: the length of the rest as four bytes, the protocol version as two, a payload.
use crate::buffer::{
    append_slice, append_u16, append_u32, buffer_len, take_bytes, take_u16, take_u32,
};
use crate::decimal::push_decimal;
use vstd::prelude::*;
use vstd::string::*;

verus! {

use crate::buffer::{be16, be32, bytes16, bytes32, contents, lemma_big_endian};
use crate::decimal::decimal;
use crate::text::ends_with;

/// The version of the protocol that is spoken.
pub const PROTOCOL_VERSION: u16 = 2;

/// The oldest version that can be negotiated with.
pub const MIN_PROTOCOL_VERSION: u16 = 1;

/// How much of a frame has been read: nothing, the length, or the length and the version.
/// The number is what the length says of what follows it.
#[derive(Debug, Clone, Copy, PartialEq, Eq, Structural)]
pub enum DecodeState {
    Header,
    Version(usize),
    Payload(usize),
}

/// Why a frame is refused.
#[derive(Debug, Clone, Copy, PartialEq, Eq, Structural)]
pub enum FrameError {
    /// The length leaves no room for the version.
    TooShort,
    /// The version is another one.
    VersionMismatch { got: u16 },
}

/// The message of an error.
pub open spec fn error_text(e: FrameError) -> Seq<char> {
    match e {
        FrameError::TooShort => "frame too short for version"@,
        FrameError::VersionMismatch { got } => "version mismatch: expected "@ + decimal(
            PROTOCOL_VERSION as nat,
        ) + ", got "@ + decimal(got as nat),
    }
}

impl FrameError {
    /// The message of the error.
    pub fn message(&self) -> (r: String)
        ensures
            r@ == error_text(*self),
    {
        match self {
            FrameError::TooShort => "frame too short for version".to_owned(),
            FrameError::VersionMismatch { got } => {
                let mut s = String::new();
                s.append("version mismatch: expected ");
                push_decimal(&mut s, PROTOCOL_VERSION as u64);
                s.append(", got ");
                push_decimal(&mut s, *got as u64);
                assert(s@ =~= error_text(*self));
                s
            },
        }
    }
}

/// What reading from a buffer gives.
pub enum Outcome {
    /// More bytes are needed.
    Incomplete,
    /// The payload of a frame.
    Payload(Seq<u8>),
    /// The frame is refused.
    Refused(FrameError),
}

/// The state after reading, what is left in the buffer, and what reading gave.
pub struct Decoded {
    pub state: DecodeState,
    pub rest: Seq<u8>,
    pub outcome: Outcome,
}

/// Reads a payload of `n` bytes.
pub open spec fn payload_step(n: usize, b: Seq<u8>) -> Decoded {
    if b.len() < n {
        Decoded { state: DecodeState::Payload(n), rest: b, outcome: Outcome::Incomplete }
    } else {
        Decoded {
            state: DecodeState::Header,
            rest: b.skip(n as int),
            outcome: Outcome::Payload(b.take(n as int)),
        }
    }
}

/// Reads the version and the payload, `n` bytes together.
pub open spec fn version_step(n: usize, b: Seq<u8>) -> Decoded {
    if b.len() < 2 {
        Decoded { state: DecodeState::Version(n), rest: b, outcome: Outcome::Incomplete }
    } else if be16(b) != PROTOCOL_VERSION {
        Decoded {
            state: DecodeState::Version(n),
            rest: b.skip(2),
            outcome: Outcome::Refused(FrameError::VersionMismatch { got: be16(b) as u16 }),
        }
    } else {
        payload_step((n - 2) as usize, b.skip(2))
    }
}

/// Reads a whole frame.
pub open spec fn header_step(b: Seq<u8>) -> Decoded {
    if b.len() < 4 {
        Decoded { state: DecodeState::Header, rest: b, outcome: Outcome::Incomplete }
    } else if be32(b) < 2 {
        Decoded {
            state: DecodeState::Header,
            rest: b.skip(4),
            outcome: Outcome::Refused(FrameError::TooShort),
        }
    } else {
        version_step(be32(b) as usize, b.skip(4))
    }
}

/// Reads on from a state.
pub open spec fn decoded(s: DecodeState, b: Seq<u8>) -> Decoded {
    match s {
        DecodeState::Header => header_step(b),
        DecodeState::Version(n) => version_step(n, b),
        DecodeState::Payload(n) => payload_step(n, b),
    }
}

/// The frame around a payload. Its length is taken modulo 2^32.
pub open spec fn framed(payload: Seq<u8>) -> Seq<u8> {
    bytes32((2 + payload.len()) as int % 0x1_0000_0000) + bytes16(PROTOCOL_VERSION as int) + payload
}

/// Reads and writes frames.
pub struct FrameCodec {
    state: DecodeState,
}

impl Default for FrameCodec {
    fn default() -> (r: Self)
        ensures
            r.wf(),
            r.state() == DecodeState::Header,
    {
        FrameCodec { state: DecodeState::Header }
    }
}

impl FrameCodec {
    /// How much of a frame has been read.
    pub closed spec fn state(&self) -> DecodeState {
        self.state
    }

    /// A length that was read leaves room for the version.
    pub open spec fn wf(&self) -> bool {
        self.state() matches DecodeState::Version(n) ==> n >= 2
    }

    /// Appends the frame around a payload to a buffer.
    pub fn encode(&mut self, payload: &Vec<u8>, dst: &mut bytes::BytesMut)
        requires
            contents(*old(dst)).len() + payload@.len() + 6 <= isize::MAX,
        ensures
            final(self).state() == old(self).state(),
            contents(*final(dst)) == contents(*old(dst)) + framed(payload@),
    {
        let total: usize = 2 + payload.len();
        let wide: u64 = total as u64;
        let len: u32 = (wide % 0x1_0000_0000) as u32;
        append_u32(dst, len);
        append_u16(dst, PROTOCOL_VERSION);
        append_slice(dst, payload.as_slice());
        assert(contents(*dst) =~= contents(*old(dst)) + framed(payload@));
    }

    /// Reads one frame off the front of a buffer: its payload, or `None` where the buffer
    /// does not hold all of it yet.
    pub fn decode(&mut self, src: &mut bytes::BytesMut) -> (r: Result<Option<Vec<u8>>, FrameError>)
        requires
            old(self).wf(),
        ensures
            final(self).wf(),
            ({
                let d = decoded(old(self).state(), contents(*old(src)));
                &&& final(self).state() == d.state
                &&& contents(*final(src)) == d.rest
                &&& match d.outcome {
                    Outcome::Incomplete => r matches Ok(None),
                    Outcome::Payload(p) => r matches Ok(Some(v)) && v@ == p,
                    Outcome::Refused(e) => r matches Err(f) && f == e,
                }
            }),
    {
        let ghost start = decoded(self.state(), contents(*src));
        loop
            invariant
                self.wf(),
                start == decoded(old(self).state(), contents(*old(src))),
                decoded(self.state(), contents(*src)) == start,
            decreases (match self.state() {
                DecodeState::Header => 2int,
                DecodeState::Version(_) => 1int,
                DecodeState::Payload(_) => 0int,
            }),
        {
            match self.state {
                DecodeState::Header => {
                    if buffer_len(src) < 4 {
                        return Ok(None);
                    }
                    let len: usize = take_u32(src) as usize;
                    if len < 2 {
                        return Err(FrameError::TooShort);
                    }
                    self.state = DecodeState::Version(len);
                },
                DecodeState::Version(len) => {
                    if buffer_len(src) < 2 {
                        return Ok(None);
                    }
                    let version: u16 = take_u16(src);
                    if version != PROTOCOL_VERSION {
                        return Err(FrameError::VersionMismatch { got: version });
                    }
                    self.state = DecodeState::Payload(len - 2);
                },
                DecodeState::Payload(len) => {
                    if buffer_len(src) < len {
                        return Ok(None);
                    }
                    let data = take_bytes(src, len);
                    self.state = DecodeState::Header;
                    return Ok(Some(data));
                },
            }
        }
    }

    /// A payload that turned out to be no message leaves the codec as it was before the
    /// payload was read.
    pub fn unread(&mut self, payload: &Vec<u8>)
        ensures
            final(self).wf(),
            final(self).state() == DecodeState::Payload(payload@.len() as usize),
    {
        self.state = DecodeState::Payload(payload.len());
    }
}

/// Reading the frame around a payload gives the payload back and leaves what follows it, for
/// every payload whose length a frame can state.
pub proof fn law_decode_encode(payload: Seq<u8>, rest: Seq<u8>)
    requires
        payload.len() + 2 <= u32::MAX,
        payload.len() + 2 <= usize::MAX,
    ensures
        decoded(DecodeState::Header, framed(payload) + rest) == (Decoded {
            state: DecodeState::Header,
            rest,
            outcome: Outcome::Payload(payload),
        }),
{
    let b = framed(payload) + rest;
    let n = (2 + payload.len()) as int;
    lemma_big_endian(n, PROTOCOL_VERSION as int);
    let h = bytes32(n % 0x1_0000_0000);
    assert(n % 0x1_0000_0000 == n);
    assert(b[0] == h[0] && b[1] == h[1] && b[2] == h[2] && b[3] == h[3]);
    assert(be32(b) == n);
    let b1 = b.skip(4);
    let v = bytes16(PROTOCOL_VERSION as int);
    assert(b1 =~= v + payload + rest);
    assert(b1[0] == v[0] && b1[1] == v[1]);
    assert(be16(b1) == PROTOCOL_VERSION);
    let b2 = b1.skip(2);
    assert(b2 =~= payload + rest);
    assert(b2.take(payload.len() as int) =~= payload);
    assert(b2.skip(payload.len() as int) =~= rest);
}

/// Frames that follow one another are read one after the other.
pub proof fn law_two_frames(first: Seq<u8>, second: Seq<u8>, rest: Seq<u8>)
    requires
        first.len() + 2 <= u32::MAX,
        first.len() + 2 <= usize::MAX,
        second.len() + 2 <= u32::MAX,
        second.len() + 2 <= usize::MAX,
    ensures
        ({
            let one = decoded(DecodeState::Header, framed(first) + framed(second) + rest);
            let two = decoded(one.state, one.rest);
            &&& one.outcome == Outcome::Payload(first)
            &&& two.outcome == Outcome::Payload(second)
            &&& two.state == DecodeState::Header
            &&& two.rest == rest
        }),
{
    assert(framed(first) + framed(second) + rest =~= framed(first) + (framed(second) + rest));
    law_decode_encode(first, framed(second) + rest);
    law_decode_encode(second, rest);
}

/// How the bytes are cut into deliveries makes no difference. Where some of them are not yet
/// a whole frame, reading on with the rest gives what reading all at once gives; where they
/// are one, or are refused, what comes later is left alone.
pub proof fn law_delivery(s: DecodeState, a: Seq<u8>, b: Seq<u8>)
    requires
        s matches DecodeState::Version(n) ==> n >= 2,
    ensures
        ({
            let d = decoded(s, a);
            let all = decoded(s, a + b);
            &&& d.outcome is Incomplete ==> decoded(d.state, d.rest + b) == all
            &&& !(d.outcome is Incomplete) ==> all == (Decoded {
                state: d.state,
                rest: d.rest + b,
                outcome: d.outcome,
            })
        }),
{
    match s {
        DecodeState::Payload(n) => {
            lemma_delivery_payload(n, a, b);
        },
        DecodeState::Version(n) => {
            lemma_delivery_version(n, a, b);
        },
        DecodeState::Header => {
            if a.len() >= 4 {
                assert(be32(a + b) == be32(a));
                assert((a + b).skip(4) =~= a.skip(4) + b);
                if be32(a) >= 2 {
                    lemma_delivery_version(be32(a) as usize, a.skip(4), b);
                }
            }
        },
    }
}

proof fn lemma_delivery_payload(n: usize, a: Seq<u8>, b: Seq<u8>)
    ensures
        ({
            let d = payload_step(n, a);
            let all = payload_step(n, a + b);
            &&& d.outcome is Incomplete ==> decoded(d.state, d.rest + b) == all
            &&& !(d.outcome is Incomplete) ==> all == (Decoded {
                state: d.state,
                rest: d.rest + b,
                outcome: d.outcome,
            })
        }),
{
    if a.len() >= n {
        assert((a + b).take(n as int) =~= a.take(n as int));
        assert((a + b).skip(n as int) =~= a.skip(n as int) + b);
    }
}

proof fn lemma_delivery_version(n: usize, a: Seq<u8>, b: Seq<u8>)
    requires
        n >= 2,
    ensures
        ({
            let d = version_step(n, a);
            let all = version_step(n, a + b);
            &&& d.outcome is Incomplete ==> decoded(d.state, d.rest + b) == all
            &&& !(d.outcome is Incomplete) ==> all == (Decoded {
                state: d.state,
                rest: d.rest + b,
                outcome: d.outcome,
            })
        }),
{
    if a.len() >= 2 {
        assert(be16(a + b) == be16(a));
        assert((a + b).skip(2) =~= a.skip(2) + b);
        if be16(a) == PROTOCOL_VERSION {
            lemma_delivery_payload((n - 2) as usize, a.skip(2), b);
        }
    }
}

/// A frame of another version is refused with that version, and one too short for a version is
/// refused as such; neither gives a payload.
pub proof fn law_refused_frames(n: int, version: int, rest: Seq<u8>)
    requires
        0 <= n < 0x1_0000_0000,
        n <= usize::MAX,
        0 <= version < 0x1_0000,
    ensures
        ({
            let d = decoded(DecodeState::Header, bytes32(n) + bytes16(version) + rest);
            &&& n < 2 ==> d.outcome == Outcome::Refused(FrameError::TooShort)
            &&& n >= 2 && version != PROTOCOL_VERSION ==> d.outcome == Outcome::Refused(
                FrameError::VersionMismatch { got: version as u16 },
            ) && d.rest == rest
            &&& n >= 2 && version == PROTOCOL_VERSION && rest.len() < n - 2 ==> d.outcome
                == Outcome::Incomplete
            &&& n >= 2 && version == PROTOCOL_VERSION && rest.len() >= n - 2 ==> d.outcome
                == Outcome::Payload(rest.take(n - 2)) && d.rest == rest.skip(n - 2)
        }),
{
    crate::buffer::lemma_big_endian(n, version);
    let h = bytes32(n);
    let v = bytes16(version);
    let b = h + v + rest;
    assert(be32(b) == be32(h));
    assert(b.skip(4) =~= v + rest);
    assert(be16(v + rest) == be16(v));
    assert((v + rest).skip(2) =~= rest);
}

/// The message on a version names the version that came and the one that is spoken.
pub proof fn law_version_messages(got: u16)
    ensures
        ends_with(
            error_text(FrameError::VersionMismatch { got }),
            decimal(PROTOCOL_VERSION as nat) + ", got "@ + decimal(got as nat),
        ),
{
    let h = "version mismatch: expected "@;
    let p = decimal(PROTOCOL_VERSION as nat) + ", got "@ + decimal(got as nat);
    let t = error_text(FrameError::VersionMismatch { got });
    assert(t =~= h + p);
    assert(t.skip(t.len() - p.len()) =~= p);
}

}
