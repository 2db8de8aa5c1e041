//! Length-prefixed messages on the tunnel's byte stream: a two-byte
//! big-endian length, then that many bytes.
use crate::error::ProtoError;
use byteorder::{BigEndian, ByteOrder};
use vstd::prelude::*;

verus! {

/// The largest message a two-byte prefix can announce.
pub const MAX_WIRE_MESSAGE: usize = 65535;

/// The big-endian value of the first two bytes.
pub open spec fn be_u16_spec(b: Seq<u8>) -> int {
    b[0] * 256 + b[1]
}

/// The two bytes that encode `n` big-endian.
pub open spec fn be_bytes_spec(n: int) -> Seq<u8> {
    seq![(n / 256) as u8, (n % 256) as u8]
}

/// A message preceded by its length.
pub open spec fn prefixed_spec(msg: Seq<u8>) -> Seq<u8> {
    be_bytes_spec(msg.len() as int) + msg
}

/// What a reader makes of the bytes that arrive before the end of the
/// stream: the first message and the number of bytes it took, or `None`
/// when the stream ends before the header or the message is complete.
pub open spec fn decode_prefixed_spec(input: Seq<u8>) -> Option<(Seq<u8>, int)> {
    if input.len() < 2 {
        None
    } else if input.len() < 2 + be_u16_spec(input) {
        None
    } else {
        Some((input.subrange(2, 2 + be_u16_spec(input)), 2 + be_u16_spec(input)))
    }
}

/// Relies on byteorder's `BigEndian::read_u16`: the first two bytes read
/// most significant first; it panics on fewer than two bytes.
#[verifier::external_body]
fn read_be_u16(buf: &[u8]) -> (r: u16)
    requires
        buf@.len() >= 2,
    ensures
        r == be_u16_spec(buf@),
{
    BigEndian::read_u16(buf)
}

/// Relies on byteorder's `BigEndian::write_u16`: writes `n` most
/// significant byte first into the first two bytes of the buffer.
#[verifier::external_body]
fn be_u16_bytes(n: u16) -> (r: [u8; 2])
    ensures
        r@ == be_bytes_spec(n as int),
{
    let mut buf = [0u8; 2];
    BigEndian::write_u16(&mut buf, n);
    buf
}

/// The message length announced by a two-byte header.
pub fn frame_length(header: &[u8]) -> (r: usize)
    requires
        header@.len() >= 2,
    ensures
        r == be_u16_spec(header@),
        r <= MAX_WIRE_MESSAGE,
{
    read_be_u16(header) as usize
}

/// Puts the length prefix in front of a message.
pub fn encode_prefixed(msg: &[u8]) -> (r: Vec<u8>)
    requires
        msg@.len() <= MAX_WIRE_MESSAGE,
    ensures
        r@ == prefixed_spec(msg@),
{
    let head = be_u16_bytes(msg.len() as u16);
    let mut out: Vec<u8> = Vec::new();
    out.push(head[0]);
    out.push(head[1]);
    let mut i: usize = 0;
    while i < msg.len()
        invariant
            i <= msg@.len(),
            out@ == head@ + msg@.subrange(0, i as int),
        decreases msg@.len() - i,
    {
        out.push(msg[i]);
        i = i + 1;
        assert(msg@.subrange(0, i as int) == msg@.subrange(0, i - 1) + seq![msg@[i - 1]]);
    }
    assert(msg@.subrange(0, msg@.len() as int) == msg@);
    out
}

/// Takes the first length-prefixed message from the bytes that arrived
/// before the stream ended. A header or message cut short by the end of
/// the stream is reported as `PeerClosed`.
pub fn decode_prefixed(input: &[u8]) -> (r: Result<(Vec<u8>, usize), ProtoError>)
    ensures
        match r {
            Ok((msg, used)) => decode_prefixed_spec(input@) == Some((msg@, used as int)),
            Err(e) => decode_prefixed_spec(input@) is None && e == ProtoError::PeerClosed,
        },
{
    if input.len() < 2 {
        return Err(ProtoError::PeerClosed);
    }
    let len = frame_length(input);
    if input.len() - 2 < len {
        return Err(ProtoError::PeerClosed);
    }
    let body = &input[2..2 + len];
    let mut msg: Vec<u8> = Vec::new();
    let mut i: usize = 0;
    while i < body.len()
        invariant
            i <= body@.len(),
            msg@ == body@.subrange(0, i as int),
        decreases body@.len() - i,
    {
        msg.push(body[i]);
        i = i + 1;
    }
    assert(body@.subrange(0, body@.len() as int) == body@);
    Ok((msg, 2 + len))
}

/// A message framed with its length and followed by any further bytes is
/// read back whole, and the reader consumes exactly its header and body.
pub proof fn lemma_prefix_round_trip(msg: Seq<u8>, rest: Seq<u8>)
    requires
        msg.len() <= MAX_WIRE_MESSAGE,
    ensures
        decode_prefixed_spec(prefixed_spec(msg) + rest) == Some((msg, msg.len() + 2int)),
{
    let input = prefixed_spec(msg) + rest;
    let n = msg.len() as int;
    assert(input[0] == (n / 256) as u8);
    assert(input[1] == (n % 256) as u8);
    assert(be_u16_spec(input) == n);
    assert(input.subrange(2, 2 + n) == msg);
}

/// A reader that has fewer than `2 + L` bytes for a declared length `L`
/// reports a closed peer instead of a message.
pub proof fn lemma_short_input_is_peer_closed(input: Seq<u8>)
    requires
        input.len() < 2 || input.len() < 2 + be_u16_spec(input),
    ensures
        decode_prefixed_spec(input) is None,
{
}

} // verus!
