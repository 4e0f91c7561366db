//! Framing of messages on a stream: each payload is preceded by its length,
//! two bytes big-endian.

use vstd::prelude::*;

use crate::bytes::{be_u16, get_u16_be, lemma_u16_roundtrip, push_u16_be, read_u16_be};
use crate::errors::{AppError, DecodeError};

verus! {

/// The number of bytes of a frame's length header.
pub const FRAME_HEADER_LEN: usize = 2;

/// The frame of a payload: its length, two bytes big-endian, then the payload.
pub open spec fn spec_frame(payload: Seq<u8>) -> Seq<u8> {
    be_u16(payload.len() as u16) + payload
}

/// Frames a payload; a payload longer than `u16::MAX` bytes cannot be framed.
pub fn frame(payload: &[u8]) -> (res: Result<Vec<u8>, AppError>)
    ensures
        res is Ok <==> payload@.len() <= u16::MAX,
        res matches Ok(bytes) ==> bytes@ == spec_frame(payload@),
        res is Err ==> res == Err::<Vec<u8>, AppError>(
            AppError::InvalidData { reason: DecodeError::FrameTooLong { len: payload@.len() as usize } },
        ),
{
    if payload.len() > 0xffff {
        return Err(AppError::InvalidData { reason: DecodeError::FrameTooLong { len: payload.len() } });
    }
    let mut bytes: Vec<u8> = Vec::new();
    push_u16_be(&mut bytes, payload.len() as u16);
    let mut i: usize = 0;
    while i < payload.len()
        invariant
            payload@.len() <= u16::MAX,
            0 <= i <= payload@.len(),
            bytes@ == be_u16(payload@.len() as u16) + payload@.subrange(0, i as int),
        decreases payload@.len() - i,
    {
        bytes.push(payload[i]);
        i = i + 1;
        assert(bytes@ =~= be_u16(payload@.len() as u16) + payload@.subrange(0, i as int));
    }
    assert(payload@.subrange(0, payload@.len() as int) =~= payload@);
    Ok(bytes)
}

/// The length of the payload that follows a frame header.
pub fn frame_payload_len(header: &[u8]) -> (n: usize)
    requires
        header@.len() == FRAME_HEADER_LEN,
    ensures
        n == read_u16_be(header@, 0),
{
    get_u16_be(header, 0) as usize
}

/// Round trip: the header of the frame of a payload gives the payload's
/// length, and the payload follows it.
pub proof fn lemma_frame_roundtrip(payload: Seq<u8>)
    requires
        payload.len() <= u16::MAX,
    ensures
        spec_frame(payload).len() == FRAME_HEADER_LEN + payload.len(),
        read_u16_be(spec_frame(payload).subrange(0, FRAME_HEADER_LEN as int), 0) == payload.len(),
        spec_frame(payload).subrange(FRAME_HEADER_LEN as int, spec_frame(payload).len() as int)
            == payload,
{
    let f = spec_frame(payload);
    lemma_u16_roundtrip(payload.len() as u16);
    assert(f.subrange(2, f.len() as int) =~= payload);
}

} // verus!
