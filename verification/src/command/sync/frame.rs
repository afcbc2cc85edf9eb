//! Framing: every message on the wire is a length of four bytes, most
//! significant first, and a payload of exactly that length.

use crate::database::types::{
    be_bytes, be_value, lemma_be_bytes_len, lemma_be_bytes_value, pow256,
};
use vstd::prelude::*;

verus! {

/// The number of bytes of the length that stands before a payload.
pub const LENGTH_BYTES: usize = 4;

/// The frame of a payload: its length in four bytes, then the payload.
pub open spec fn framed(payload: Seq<u8>) -> Seq<u8> {
    be_bytes(payload.len(), 4) + payload
}

/// Why bytes cannot be framed, or are no frame.
#[derive(Clone, Copy, Debug, PartialEq, Eq, Structural)]
pub enum FrameError {
    /// The payload is longer than four bytes can say.
    TooLong,
    /// There are fewer bytes than the length and the payload take.
    Truncated,
    /// There are more bytes than the length and the payload take.
    Trailing,
}

/// The four bytes that say `len`.
pub fn encode_length(len: u32) -> (r: [u8; 4])
    ensures
        r@ == be_bytes(len as nat, 4),
{
    let b0: u8 = (len / 16777216) as u8;
    let b1: u8 = ((len / 65536) % 256) as u8;
    let b2: u8 = ((len / 256) % 256) as u8;
    let b3: u8 = (len % 256) as u8;
    let r = [b0, b1, b2, b3];
    proof {
        reveal_with_fuel(be_bytes, 5);
        let n = len as nat;
        assert(be_bytes(n, 4) =~= seq![b0, b1, b2, b3]);
    }
    r
}

/// The length that four bytes say.
pub fn frame_length(header: &[u8; 4]) -> (r: u32)
    ensures
        r == be_value(header@),
{
    proof {
        reveal_with_fuel(be_value, 5);
        let h = header@;
        assert(h.drop_last().drop_last().drop_last().drop_last().len() == 0);
        assert(h.drop_last().drop_last().drop_last().last() == h[0]);
        assert(h.drop_last().drop_last().last() == h[1]);
        assert(h.drop_last().last() == h[2]);
        assert(h.last() == h[3]);
    }
    let b0: u32 = header[0] as u32;
    let b1: u32 = header[1] as u32;
    let b2: u32 = header[2] as u32;
    let b3: u32 = header[3] as u32;
    ((b0 * 256 + b1) * 256 + b2) * 256 + b3
}

/// A length that was encoded is the length that is read back.
pub proof fn lemma_length_round_trip(len: u32)
    ensures
        be_bytes(len as nat, 4).len() == 4,
        be_value(be_bytes(len as nat, 4)) == len,
{
    reveal_with_fuel(pow256, 5);
    lemma_be_bytes_value(len as nat, 4);
}

/// Frames a payload. Fails exactly if the payload is too long for its
/// length to be said in four bytes.
pub fn frame(payload: &Vec<u8>) -> (r: Result<Vec<u8>, FrameError>)
    ensures
        match r {
            Ok(bytes) => payload@.len() <= u32::MAX && bytes@ == framed(payload@),
            Err(err) => payload@.len() > u32::MAX && err == FrameError::TooLong,
        },
{
    if payload.len() > 0xffff_ffff {
        return Err(FrameError::TooLong);
    }
    let header = encode_length(payload.len() as u32);
    let mut bytes: Vec<u8> = Vec::new();
    let mut i: usize = 0;
    while i < 4
        invariant
            i <= 4,
            bytes@ == header@.take(i as int),
        decreases 4 - i,
    {
        bytes.push(header[i]);
        assert(bytes@ =~= header@.take(i + 1));
        i = i + 1;
    }
    assert(bytes@ =~= header@);
    let mut j: usize = 0;
    while j < payload.len()
        invariant
            j <= payload.len(),
            bytes@ == header@ + payload@.take(j as int),
        decreases payload.len() - j,
    {
        bytes.push(payload[j]);
        assert(bytes@ =~= header@ + payload@.take(j + 1));
        j = j + 1;
    }
    assert(payload@.take(j as int) =~= payload@);
    Ok(bytes)
}

/// Takes the payload out of a frame. Fails exactly if the bytes are no
/// frame: too few for the length or for the payload it announces, or more
/// than that.
pub fn unframe(bytes: &Vec<u8>) -> (r: Result<Vec<u8>, FrameError>)
    ensures
        match r {
            Ok(payload) => payload@.len() <= u32::MAX && bytes@ == framed(payload@),
            Err(FrameError::Truncated) => bytes@.len() < 4 || bytes@.len() < 4 + be_value(
                bytes@.take(4),
            ),
            Err(FrameError::Trailing) => bytes@.len() >= 4 && bytes@.len() > 4 + be_value(
                bytes@.take(4),
            ),
            Err(FrameError::TooLong) => false,
        },
{
    if bytes.len() < 4 {
        return Err(FrameError::Truncated);
    }
    let header = [bytes[0], bytes[1], bytes[2], bytes[3]];
    assert(header@ =~= bytes@.take(4));
    let len = frame_length(&header) as usize;
    let rest = bytes.len() - 4;
    if rest < len {
        return Err(FrameError::Truncated);
    }
    if rest > len {
        return Err(FrameError::Trailing);
    }
    let mut payload: Vec<u8> = Vec::new();
    let mut i: usize = 0;
    while i < len
        invariant
            i <= len,
            bytes@.len() == 4 + len,
            bytes.len() == 4 + len,
            payload@ == bytes@.subrange(4, 4 + i as int),
        decreases len - i,
    {
        payload.push(bytes[4 + i]);
        assert(payload@ =~= bytes@.subrange(4, 4 + i + 1));
        i = i + 1;
    }
    proof {
        crate::database::types::lemma_be_value_bytes(header@);
        assert(bytes@ =~= header@ + payload@);
    }
    Ok(payload)
}

/// A frame is the frame of one payload only: the payload that is taken out
/// of a frame is the payload that was framed.
pub proof fn lemma_frame_round_trip(payload: Seq<u8>, other: Seq<u8>)
    requires
        framed(other) == framed(payload),
    ensures
        other == payload,
{
    lemma_be_bytes_len(payload.len(), 4);
    lemma_be_bytes_len(other.len(), 4);
    let a = framed(payload);
    assert(payload =~= a.subrange(4, a.len() as int));
    assert(other =~= a.subrange(4, a.len() as int));
}

} // verus!
