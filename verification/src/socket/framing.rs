//! Frames: a length of four bytes, the most significant first, and that many
//! bytes of payload.

use vstd::prelude::*;

use crate::text::{decimal, decimal_text};

verus! {

/// Most bytes of a payload, 4 MiB.
pub const MAX_FRAME_SIZE: usize = 4194304;

/// Why a frame was refused.
#[derive(Clone, Copy, Debug, PartialEq, Eq, Structural)]
pub enum FrameError {
    /// The payload to be written is too long.
    InvalidInput { len: usize },
    /// The length that was read is too large.
    InvalidData { len: usize },
    /// The bytes end before the frame does.
    UnexpectedEof,
}

impl FrameError {
    /// The error in words.
    pub fn message(&self) -> (text: String)
        ensures
            text@ == match *self {
                FrameError::InvalidInput { len } => "frame payload "@ + decimal(len as nat)
                    + " exceeds MAX_FRAME_SIZE "@ + decimal(MAX_FRAME_SIZE as nat),
                FrameError::InvalidData { len } => "frame length "@ + decimal(len as nat)
                    + " exceeds MAX_FRAME_SIZE "@ + decimal(MAX_FRAME_SIZE as nat),
                FrameError::UnexpectedEof => "early eof"@,
            },
    {
        match self {
            FrameError::InvalidInput { len } => {
                let mut s = "frame payload ".to_owned();
                s.append(decimal_text(*len as u64).as_str());
                s.append(" exceeds MAX_FRAME_SIZE ");
                s.append(decimal_text(MAX_FRAME_SIZE as u64).as_str());
                s
            },
            FrameError::InvalidData { len } => {
                let mut s = "frame length ".to_owned();
                s.append(decimal_text(*len as u64).as_str());
                s.append(" exceeds MAX_FRAME_SIZE ");
                s.append(decimal_text(MAX_FRAME_SIZE as u64).as_str());
                s
            },
            FrameError::UnexpectedEof => "early eof".to_owned(),
        }
    }
}

/// The four bytes of a length, the most significant first.
pub open spec fn length_bytes(n: nat) -> Seq<u8> {
    seq![
        (n / 16777216) as u8,
        (n / 65536 % 256) as u8,
        (n / 256 % 256) as u8,
        (n % 256) as u8,
    ]
}

/// The length that the first four bytes say.
pub open spec fn length_of(b: Seq<u8>) -> nat {
    (b[0] * 16777216 + b[1] * 65536 + b[2] * 256 + b[3]) as nat
}

/// The frame of a payload.
pub open spec fn frame(payload: Seq<u8>) -> Seq<u8> {
    length_bytes(payload.len()) + payload
}

/// The first frame of some bytes, or why there is none. Of a length that is too
/// large nothing more is read.
pub open spec fn first_frame(src: Seq<u8>) -> Result<Seq<u8>, FrameError> {
    if src.len() < 4 {
        Err(FrameError::UnexpectedEof)
    } else if length_of(src) > MAX_FRAME_SIZE {
        Err(FrameError::InvalidData { len: length_of(src) as usize })
    } else if src.len() < 4 + length_of(src) {
        Err(FrameError::UnexpectedEof)
    } else {
        Ok(src.subrange(4, 4 + length_of(src) as int))
    }
}

/// What is written is read back, whatever comes behind it.
pub proof fn law_frame_round_trip(payload: Seq<u8>, rest: Seq<u8>)
    requires
        payload.len() <= MAX_FRAME_SIZE,
    ensures
        first_frame(frame(payload) + rest) == Ok::<Seq<u8>, FrameError>(payload),
        (frame(payload) + rest).skip(4 + payload.len() as int) == rest,
{
    let src = frame(payload) + rest;
    lemma_length_round_trip(payload.len());
    assert(src[0] == length_bytes(payload.len())[0]);
    assert(src[1] == length_bytes(payload.len())[1]);
    assert(src[2] == length_bytes(payload.len())[2]);
    assert(src[3] == length_bytes(payload.len())[3]);
    assert(length_of(src) == payload.len());
    assert(src.subrange(4, 4 + payload.len() as int) =~= payload);
    assert(src.skip(4 + payload.len() as int) =~= rest);
}

/// Frames one after the other.
pub open spec fn frames(payloads: Seq<Seq<u8>>) -> Seq<u8>
    decreases payloads.len(),
{
    if payloads.len() == 0 {
        Seq::empty()
    } else {
        frame(payloads[0]) + frames(payloads.skip(1))
    }
}

/// The first `n` frames of some bytes, read one after the other.
pub open spec fn read_frames(src: Seq<u8>, n: nat) -> Result<Seq<Seq<u8>>, FrameError>
    decreases n,
{
    if n == 0 {
        Ok(Seq::empty())
    } else {
        match first_frame(src) {
            Err(e) => Err(e),
            Ok(payload) => match read_frames(
                src.skip(4 + payload.len() as int),
                (n - 1) as nat,
            ) {
                Err(e) => Err(e),
                Ok(more) => Ok(seq![payload] + more),
            },
        }
    }
}

/// A stream of frames is read back frame by frame.
pub proof fn law_frames_round_trip(payloads: Seq<Seq<u8>>)
    requires
        forall|i: int| 0 <= i < payloads.len() ==> (#[trigger] payloads[i]).len() <= MAX_FRAME_SIZE,
    ensures
        read_frames(frames(payloads), payloads.len()) == Ok::<Seq<Seq<u8>>, FrameError>(payloads),
    decreases payloads.len(),
{
    if payloads.len() > 0 {
        let more = payloads.skip(1);
        law_frame_round_trip(payloads[0], frames(more));
        law_frames_round_trip(more);
        assert(seq![payloads[0]] + more =~= payloads);
    } else {
        assert(payloads =~= Seq::empty());
    }
}

proof fn lemma_length_round_trip(n: nat)
    requires
        n < 0x1_0000_0000,
    ensures
        length_of(length_bytes(n)) == n,
{
    let a = n / 16777216;
    let b = n / 65536 % 256;
    let c = n / 256 % 256;
    let d = n % 256;
    assert(a < 256 && b < 256 && c < 256 && d < 256);
    assert(n == a * 16777216 + b * 65536 + c * 256 + d);
}

/// Appends the frame of a payload to `w`. A payload that is too long is refused
/// and nothing is appended.
pub fn write_frame(w: &mut Vec<u8>, payload: &[u8]) -> (r: Result<(), FrameError>)
    ensures
        if payload@.len() > MAX_FRAME_SIZE {
            r == Err::<(), FrameError>(FrameError::InvalidInput { len: payload.len() })
                && final(w)@ == old(w)@
        } else {
            r is Ok && final(w)@ == old(w)@ + frame(payload@)
        },
{
    let len: usize = payload.len();
    if len > MAX_FRAME_SIZE {
        return Err(FrameError::InvalidInput { len });
    }
    w.push((len / 16777216) as u8);
    w.push((len / 65536 % 256) as u8);
    w.push((len / 256 % 256) as u8);
    w.push((len % 256) as u8);
    w.extend_from_slice(payload);
    assert(w@ =~= old(w)@ + frame(payload@));
    Ok(())
}

/// The length that a frame begins with, or why the frame is refused.
pub fn read_length(prefix: [u8; 4]) -> (r: Result<usize, FrameError>)
    ensures
        if length_of(prefix@) > MAX_FRAME_SIZE {
            r == Err::<usize, FrameError>(
                FrameError::InvalidData { len: length_of(prefix@) as usize },
            )
        } else {
            r matches Ok(n) && n == length_of(prefix@)
        },
{
    let n: u32 = prefix[0] as u32 * 16777216 + prefix[1] as u32 * 65536 + prefix[2] as u32 * 256
        + prefix[3] as u32;
    let len: usize = n as usize;
    if len > MAX_FRAME_SIZE {
        return Err(FrameError::InvalidData { len });
    }
    Ok(len)
}

/// Bytes with as many zeros behind them as make `len` bytes.
pub open spec fn padded(data: Seq<u8>, len: nat) -> Seq<u8> {
    Seq::new(
        len,
        |i: int|
            if i < data.len() {
                data[i]
            } else {
                0u8
            },
    )
}

/// Reads the first frame of `src` into `buf`. Returns how many bytes of `src` it
/// took. `buf` is left alone until the length has been found acceptable. It then
/// gets that length, also where the payload ends early: the bytes that are there
/// are followed by zeros.
pub fn read_frame(src: &[u8], buf: &mut Vec<u8>) -> (r: Result<usize, FrameError>)
    ensures
        match first_frame(src@) {
            Ok(payload) => r matches Ok(n) && n == 4 + payload.len() && final(buf)@ == payload,
            Err(e) => r == Err::<usize, FrameError>(e) && final(buf)@ == if src@.len() >= 4
                && length_of(src@) <= MAX_FRAME_SIZE {
                padded(src@.skip(4), length_of(src@))
            } else {
                old(buf)@
            },
        },
{
    if src.len() < 4 {
        return Err(FrameError::UnexpectedEof);
    }
    let prefix: [u8; 4] = [src[0], src[1], src[2], src[3]];
    assert(length_of(prefix@) == length_of(src@));
    let len: usize = match read_length(prefix) {
        Err(e) => {
            return Err(e);
        },
        Ok(len) => len,
    };
    buf.clear();
    let there: usize = src.len() - 4;
    let mut i: usize = 0;
    while i < len
        invariant
            i <= len,
            there == src@.len() - 4,
            there <= usize::MAX - 4,
            buf@ == padded(src@.skip(4), i as nat),
        decreases len - i,
    {
        if i < there {
            buf.push(src[4 + i]);
        } else {
            buf.push(0);
        }
        i = i + 1;
        assert(buf@ =~= padded(src@.skip(4), i as nat));
    }
    if there < len {
        return Err(FrameError::UnexpectedEof);
    }
    assert(buf@ =~= src@.subrange(4, 4 + len));
    Ok(4 + len)
}

} // verus!
