//! Native messaging framing.
//!
//! Each message is a 4-byte little-endian length prefix (native order on the
//! platforms the host runs on) followed by that many bytes of UTF-8 JSON. The
//! payload may be at most 1 MiB in either direction.

use vstd::prelude::*;

verus! {

/// Largest payload accepted or sent, in bytes (1 MiB).
pub const MAX_MESSAGE_BYTES: u32 = 1048576;

/// Why a frame was refused.
#[derive(Debug, Clone, Copy, PartialEq, Eq, Structural)]
pub enum FrameError {
    /// An inbound length prefix announced more than `MAX_MESSAGE_BYTES`.
    LengthTooLarge(u32),
    /// The stream ended inside a length prefix.
    TruncatedHeader,
    /// The stream ended before the announced payload was complete.
    TruncatedBody,
    /// An outbound payload is longer than `MAX_MESSAGE_BYTES`.
    OutboundTooLarge(usize),
}

/// The number that four bytes encode in little-endian order.
pub open spec fn le_value(b: Seq<u8>) -> nat
    recommends
        b.len() == 4,
{
    (b[0] + 256 * b[1] + 65536 * b[2] + 16777216 * b[3]) as nat
}

/// The four little-endian bytes of `n` (`n < 2^32`).
pub open spec fn le_bytes(n: nat) -> Seq<u8> {
    seq![
        (n % 256) as u8,
        ((n / 256) % 256) as u8,
        ((n / 65536) % 256) as u8,
        ((n / 16777216) % 256) as u8,
    ]
}

/// What a length prefix means: its length, or the refusal of it.
pub open spec fn spec_frame_length(header: Seq<u8>) -> Result<u32, FrameError> {
    let len = le_value(header);
    if len > MAX_MESSAGE_BYTES {
        Err(FrameError::LengthTooLarge(len as u32))
    } else {
        Ok(len as u32)
    }
}

/// The first frame of `input`: `None` where the input is empty (a clean end
/// of stream between messages), an error where it ends inside the length
/// prefix, else the payload and the number of bytes the frame takes, or the
/// reason it is refused.
pub open spec fn spec_read_message(input: Seq<u8>) -> Result<Option<(Seq<u8>, nat)>, FrameError> {
    if input.len() == 0 {
        Ok(None)
    } else if input.len() < 4 {
        Err(FrameError::TruncatedHeader)
    } else {
        match spec_frame_length(input.take(4)) {
            Err(e) => Err(e),
            Ok(len) => if input.len() - 4 < len {
                Err(FrameError::TruncatedBody)
            } else {
                Ok(Some((input.subrange(4, 4 + len), (4 + len) as nat)))
            },
        }
    }
}

/// The frame that carries `payload`, or the refusal of an oversized one.
pub open spec fn spec_write_message(payload: Seq<u8>) -> Result<Seq<u8>, FrameError> {
    if payload.len() > MAX_MESSAGE_BYTES {
        Err(FrameError::OutboundTooLarge(payload.len() as usize))
    } else {
        Ok(le_bytes(payload.len()) + payload)
    }
}

/// Decoding the encoding of a 32-bit number gives the number back.
pub proof fn lemma_le_roundtrip(n: nat)
    requires
        n < 0x1_0000_0000,
    ensures
        le_value(le_bytes(n)) == n,
{
    let b0 = n % 256;
    let q0 = n / 256;
    let b1 = q0 % 256;
    let q1 = q0 / 256;
    let b2 = q1 % 256;
    let q2 = q1 / 256;
    assert(n == 256 * q0 + b0);
    assert(q0 == 256 * q1 + b1);
    assert(q1 == 256 * q2 + b2);
    assert(q2 < 256) by (nonlinear_arith)
        requires
            n < 0x1_0000_0000,
            n == 256 * q0 + b0,
            q0 == 256 * q1 + b1,
            q1 == 256 * q2 + b2,
            0 <= b0 < 256,
            0 <= b1 < 256,
            0 <= b2 < 256,
    ;
    assert(n / 65536 == q1) by (nonlinear_arith)
        requires
            n == 256 * q0 + b0,
            q0 == 256 * q1 + b1,
            0 <= b0 < 256,
            0 <= b1 < 256,
            q1 >= 0,
    ;
    assert(n / 16777216 == q2) by (nonlinear_arith)
        requires
            n == 256 * q0 + b0,
            q0 == 256 * q1 + b1,
            q1 == 256 * q2 + b2,
            0 <= b0 < 256,
            0 <= b1 < 256,
            0 <= b2 < 256,
            q2 >= 0,
    ;
    let bytes = le_bytes(n);
    assert(bytes[0] == b0);
    assert(bytes[1] == b1);
    assert(bytes[2] == b2);
    assert(bytes[3] == q2);
}

/// Reads the length of a frame from its 4-byte little-endian prefix.
pub fn frame_length(header: [u8; 4]) -> (r: Result<u32, FrameError>)
    ensures
        r == spec_frame_length(header@),
{
    let len: u32 = header[0] as u32 + 256 * (header[1] as u32) + 65536 * (header[2] as u32)
        + 16777216 * (header[3] as u32);
    if len > MAX_MESSAGE_BYTES {
        Err(FrameError::LengthTooLarge(len))
    } else {
        Ok(len)
    }
}

/// Reads the first frame of `input`.
///
/// Returns `Ok(None)` where `input` is empty (a clean end of stream between
/// messages), `Ok(Some((payload, consumed)))` for a complete frame, and an
/// error where the stream ends mid-message (inside the length prefix or the
/// payload) or the prefix announces more than 1 MiB.
pub fn read_message(input: &[u8]) -> (r: Result<Option<(Vec<u8>, usize)>, FrameError>)
    ensures
        match (r, spec_read_message(input@)) {
            (Ok(None), Ok(None)) => true,
            (Ok(Some((p, n))), Ok(Some((sp, sn)))) => p@ == sp && n == sn,
            (Err(e), Err(se)) => e == se,
            _ => false,
        },
{
    if input.len() == 0 {
        return Ok(None);
    }
    if input.len() < 4 {
        return Err(FrameError::TruncatedHeader);
    }
    let header: [u8; 4] = [input[0], input[1], input[2], input[3]];
    assert(header@ =~= input@.take(4));
    let len = match frame_length(header) {
        Err(e) => {
            return Err(e);
        },
        Ok(len) => len as usize,
    };
    if input.len() - 4 < len {
        return Err(FrameError::TruncatedBody);
    }
    let mut payload: Vec<u8> = Vec::new();
    let mut i: usize = 4;
    while i < 4 + len
        invariant
            4 <= i <= 4 + len <= input.len(),
            payload@ == input@.subrange(4, i as int),
        decreases 4 + len - i,
    {
        payload.push(input[i]);
        i = i + 1;
        assert(payload@ =~= input@.subrange(4, i as int));
    }
    Ok(Some((payload, 4 + len)))
}

/// Frames `payload` for sending: its 4-byte little-endian length followed by
/// the payload, or an error where the payload is longer than 1 MiB.
pub fn write_message(payload: &[u8]) -> (r: Result<Vec<u8>, FrameError>)
    ensures
        match (r, spec_write_message(payload@)) {
            (Ok(f), Ok(sf)) => f@ == sf,
            (Err(e), Err(se)) => e == se,
            _ => false,
        },
{
    if payload.len() > MAX_MESSAGE_BYTES as usize {
        return Err(FrameError::OutboundTooLarge(payload.len()));
    }
    let n: u32 = payload.len() as u32;
    let mut frame: Vec<u8> = Vec::new();
    frame.push((n % 256) as u8);
    frame.push(((n / 256) % 256) as u8);
    frame.push(((n / 65536) % 256) as u8);
    frame.push(((n / 16777216) % 256) as u8);
    assert(frame@ =~= le_bytes(payload@.len()));
    let ghost prefix = frame@;
    for i in 0..payload.len()
        invariant
            frame@ == prefix + payload@.take(i as int),
    {
        frame.push(payload[i]);
        assert(payload@.take(i + 1) =~= payload@.take(i as int).push(payload@[i as int]));
    }
    assert(payload@.take(payload.len() as int) =~= payload@);
    Ok(frame)
}

/// Reading back a frame that `write_message` produced yields the payload that
/// was written, whatever bytes follow it in the stream.
pub proof fn lemma_write_then_read(payload: Seq<u8>, rest: Seq<u8>)
    requires
        payload.len() <= MAX_MESSAGE_BYTES,
    ensures
        spec_write_message(payload) matches Ok(frame) && spec_read_message(frame + rest) == Ok::<
            Option<(Seq<u8>, nat)>,
            FrameError,
        >(Some((payload, (4 + payload.len()) as nat))),
{
    let frame = le_bytes(payload.len()) + payload;
    let input = frame + rest;
    lemma_le_roundtrip(payload.len());
    assert(input.take(4) =~= le_bytes(payload.len()));
    assert(input.subrange(4, 4 + payload.len() as int) =~= payload);
}

/// Every length prefix that announces at most 1 MiB is accepted, and every
/// other one is refused with the announced length.
pub proof fn lemma_frame_length_limit(header: Seq<u8>)
    requires
        header.len() == 4,
    ensures
        spec_frame_length(header) is Ok <==> le_value(header) <= MAX_MESSAGE_BYTES,
{
}

/// Reading reports a clean end of stream exactly when no byte of a next
/// message has arrived; a stream that ends after part of a message is an
/// error.
pub proof fn lemma_clean_end_only_between_messages(input: Seq<u8>)
    ensures
        spec_read_message(input) == Ok::<Option<(Seq<u8>, nat)>, FrameError>(None) <==> input.len()
            == 0,
{
}

} // verus!
