//! Pipe frames: a 4-byte little-endian payload length, then the payload.
use vstd::prelude::*;
use crate::wav::{copy_range, extend_vec, le32, u32_at};

verus! {

/// The largest payload a frame may carry.
pub const MAX_FRAME_LEN: usize = 1_048_576;

/// Why a frame could not be written or read.
#[derive(Debug, Clone, PartialEq, Eq)]
pub enum FrameError {
    TooLarge(usize),
    Truncated,
    /// The input ended before a length field or payload was complete.
    UnexpectedEof,
    Io(String),
    Json(String),
}

/// The frame that carries `payload`.
pub open spec fn frame_of(payload: Seq<u8>) -> Seq<u8> {
    le32(payload.len() as int) + payload
}

/// Frames a payload.
pub fn encode_frame(payload: &[u8]) -> (res: Result<Vec<u8>, FrameError>)
    ensures
        payload@.len() > MAX_FRAME_LEN ==> res == Err::<Vec<u8>, FrameError>(
            FrameError::TooLarge(payload@.len() as usize),
        ),
        payload@.len() <= MAX_FRAME_LEN ==> (res matches Ok(f) && f@ == frame_of(payload@)),
{
    if payload.len() > MAX_FRAME_LEN {
        return Err(FrameError::TooLarge(payload.len()));
    }
    let len = payload.len() as u32;
    let mut frame: Vec<u8> = Vec::new();
    frame.push((len % 256) as u8);
    frame.push((len / 256 % 256) as u8);
    frame.push((len / 65536 % 256) as u8);
    frame.push((len / 16777216 % 256) as u8);
    extend_vec(&mut frame, payload);
    assert(frame@ =~= frame_of(payload@));
    Ok(frame)
}

/// What `decode_frame` gives for a frame: its payload, or the error.
pub open spec fn decode_frame_spec(f: Seq<u8>) -> Result<Seq<u8>, FrameError> {
    if f.len() < 4 {
        Err(FrameError::Truncated)
    } else {
        let len = u32_at(f, 0);
        if len > MAX_FRAME_LEN {
            Err(FrameError::TooLarge(len as usize))
        } else if f.len() < len + 4 {
            Err(FrameError::Truncated)
        } else {
            Ok(f.subrange(4, 4 + len))
        }
    }
}

fn length_field(b: &[u8]) -> (len: usize)
    requires
        b@.len() >= 4,
    ensures
        len == u32_at(b@, 0),
{
    (b[0] as u32 + 256 * (b[1] as u32) + 65536 * (b[2] as u32) + 16777216 * (b[3] as u32)) as usize
}

/// The payload of a frame (bytes after the payload are ignored).
pub fn decode_frame(frame: &[u8]) -> (res: Result<Vec<u8>, FrameError>)
    ensures
        match (res, decode_frame_spec(frame@)) {
            (Ok(p), Ok(q)) => p@ == q,
            (Err(e), Err(e2)) => e == e2,
            _ => false,
        },
{
    if frame.len() < 4 {
        return Err(FrameError::Truncated);
    }
    let len = length_field(frame);
    if len > MAX_FRAME_LEN {
        return Err(FrameError::TooLarge(len));
    }
    if frame.len() < len + 4 {
        return Err(FrameError::Truncated);
    }
    Ok(copy_range(frame, 4, 4 + len))
}

/// What `read_payload` gives for the bytes a reader yields.
pub open spec fn read_payload_spec(input: Seq<u8>) -> Result<Seq<u8>, FrameError> {
    if input.len() < 4 {
        Err(FrameError::UnexpectedEof)
    } else {
        let len = u32_at(input, 0);
        if len > MAX_FRAME_LEN {
            Err(FrameError::TooLarge(len as usize))
        } else if input.len() < len + 4 {
            Err(FrameError::UnexpectedEof)
        } else {
            Ok(input.subrange(4, 4 + len))
        }
    }
}

/// The payload length that a frame's four header bytes announce, where it is accepted.
/// A reader consumes the four header bytes; where the length is accepted it then
/// consumes exactly that many payload bytes and nothing after them, and where it is
/// refused it consumes nothing more.
pub fn payload_len(header: &[u8]) -> (r: Result<usize, FrameError>)
    requires
        header@.len() == 4,
    ensures
        u32_at(header@, 0) > MAX_FRAME_LEN ==> r == Err::<usize, FrameError>(
            FrameError::TooLarge(u32_at(header@, 0) as usize),
        ),
        u32_at(header@, 0) <= MAX_FRAME_LEN ==> r == Ok::<usize, FrameError>(u32_at(header@, 0) as usize),
{
    let len = length_field(header);
    if len > MAX_FRAME_LEN {
        Err(FrameError::TooLarge(len))
    } else {
        Ok(len)
    }
}

/// The number of bytes a reader consumes for one frame from the bytes it yields: all
/// of them where the header is cut short, the header alone where the length is
/// refused, else the header and the announced payload (or all, where those run out).
pub open spec fn read_payload_consumed(input: Seq<u8>) -> int {
    if input.len() < 4 {
        input.len() as int
    } else {
        let len = u32_at(input, 0);
        if len > MAX_FRAME_LEN {
            4
        } else if input.len() < len + 4 {
            input.len() as int
        } else {
            4 + len
        }
    }
}

/// Reads one frame's payload from the bytes a reader yields: the length field, then
/// exactly that many bytes; also how many bytes that consumed
/// (`read_payload_consumed`), leaving the rest unread.
pub fn read_payload_counted(input: &[u8]) -> (res: (Result<Vec<u8>, FrameError>, usize))
    ensures
        res.1 == read_payload_consumed(input@),
        match (res.0, read_payload_spec(input@)) {
            (Ok(p), Ok(q)) => p@ == q,
            (Err(e), Err(e2)) => e == e2,
            _ => false,
        },
{
    if input.len() < 4 {
        return (Err(FrameError::UnexpectedEof), input.len());
    }
    let header = copy_range(input, 0, 4);
    assert(u32_at(header@, 0) == u32_at(input@, 0));
    let len = match payload_len(header.as_slice()) {
        Err(e) => {
            return (Err(e), 4);
        },
        Ok(len) => len,
    };
    if input.len() < len + 4 {
        return (Err(FrameError::UnexpectedEof), input.len());
    }
    (Ok(copy_range(input, 4, 4 + len)), 4 + len)
}

/// Reads one frame's payload from the bytes a reader yields: the length field, then
/// exactly that many bytes.
pub fn read_payload(input: &[u8]) -> (res: Result<Vec<u8>, FrameError>)
    ensures
        match (res, read_payload_spec(input@)) {
            (Ok(p), Ok(q)) => p@ == q,
            (Err(e), Err(e2)) => e == e2,
            _ => false,
        },
{
    if input.len() < 4 {
        return Err(FrameError::UnexpectedEof);
    }
    let len = length_field(input);
    if len > MAX_FRAME_LEN {
        return Err(FrameError::TooLarge(len));
    }
    if input.len() < len + 4 {
        return Err(FrameError::UnexpectedEof);
    }
    Ok(copy_range(input, 4, 4 + len))
}

/// Decoding (or reading) a frame gives back the payload it was encoded from.
pub proof fn lemma_frame_roundtrip(payload: Seq<u8>, trailing: Seq<u8>)
    requires
        payload.len() <= MAX_FRAME_LEN,
    ensures
        decode_frame_spec(frame_of(payload) + trailing) == Ok::<Seq<u8>, FrameError>(payload),
        read_payload_spec(frame_of(payload) + trailing) == Ok::<Seq<u8>, FrameError>(payload),
{
    let f = frame_of(payload) + trailing;
    assert(u32_at(f, 0) == payload.len());
    assert(f.subrange(4, 4 + payload.len() as int) =~= payload);
}

/// A frame missing its last byte is refused as truncated.
pub proof fn lemma_truncated_frame_refused(payload: Seq<u8>)
    requires
        payload.len() <= MAX_FRAME_LEN,
    ensures
        decode_frame_spec(frame_of(payload).drop_last()) == Err::<Seq<u8>, FrameError>(
            FrameError::Truncated,
        ),
{
    let f = frame_of(payload).drop_last();
    if f.len() >= 4 {
        assert(u32_at(f, 0) == payload.len());
    }
}

} // verus!
