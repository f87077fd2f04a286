//! Packet framing
//!
//! A frame on the wire is a two-byte preamble, the payload, and one checksum
//! byte: the sum of the payload bytes, wrapping at eight bits.

use vstd::prelude::*;

use crate::protocol::ProtocolError;

verus! {

/// Maximum frame length, preamble and checksum included.
pub const PACKET_MAXLEN: usize = 256;

/// Bytes that a frame carries besides its payload.
pub const FRAME_OVERHEAD: usize = 3;

/// Preamble of every frame sent to the chip.
pub const REQUEST_PREAMBLE: [u8; 2] = [0x57, 0xAB];

/// Preamble of every frame the chip answers with.
pub const REPLY_PREAMBLE: [u8; 2] = [0x55, 0xAA];

/// Sum of the bytes as a mathematical integer.
pub open spec fn byte_sum(bytes: Seq<u8>) -> int
    decreases bytes.len(),
{
    if bytes.len() == 0 {
        0
    } else {
        byte_sum(bytes.drop_last()) + bytes.last()
    }
}

/// The checksum byte over `bytes`: their sum modulo 256.
pub open spec fn checksum_of(bytes: Seq<u8>) -> u8 {
    (byte_sum(bytes) % 256) as u8
}

/// The frame that carries `payload` behind the preamble `first`, `second`.
pub open spec fn framed(first: u8, second: u8, payload: Seq<u8>) -> Seq<u8> {
    seq![first, second] + payload + seq![checksum_of(payload)]
}

/// Whether `frame` opens with the preamble `first`, `second`.
pub open spec fn has_preamble(first: u8, second: u8, frame: Seq<u8>) -> bool {
    frame.len() >= 2 && frame[0] == first && frame[1] == second
}

/// Everything between the preamble and the trailing checksum byte.
pub open spec fn payload_of(frame: Seq<u8>) -> Seq<u8>
    recommends
        frame.len() >= FRAME_OVERHEAD,
{
    frame.subrange(2, frame.len() - 1)
}

/// Whether the trailing byte of `frame` is the checksum of its payload.
pub open spec fn checksum_matches(frame: Seq<u8>) -> bool {
    frame.len() >= FRAME_OVERHEAD && frame.last() == checksum_of(payload_of(frame))
}

/// What receiving `frame` means when frames open with `first`, `second`:
/// the payload, or the reason the frame is refused. Silence is a timeout, a
/// wrong preamble is reported before the checksum is looked at.
pub open spec fn unframed(first: u8, second: u8, frame: Seq<u8>) -> Result<
    Seq<u8>,
    ProtocolError,
> {
    if frame.len() == 0 {
        Err(ProtocolError::SerialTimeout)
    } else if !has_preamble(first, second, frame) {
        Err(ProtocolError::PreambleMismatch)
    } else if !checksum_matches(frame) {
        Err(ProtocolError::ChecksumMismatch)
    } else {
        Ok(payload_of(frame))
    }
}

/// The frame that carries `payload` to the chip.
pub open spec fn request_frame(payload: Seq<u8>) -> Seq<u8> {
    framed(0x57, 0xAB, payload)
}

/// What a frame received from the chip means.
pub open spec fn reply_of(frame: Seq<u8>) -> Result<Seq<u8>, ProtocolError> {
    unframed(0x55, 0xAA, frame)
}

/// Whether the payload `reply` carries the acknowledging zero at `place`. A
/// reply too short to have that byte does not acknowledge.
pub open spec fn acknowledged_at(reply: Seq<u8>, place: int) -> bool {
    reply.len() > place && reply[place] == 0x00
}

/// Whether an exec result of decoding agrees with the meaning `expected`.
pub open spec fn decodes_to(
    decoded: Result<Vec<u8>, ProtocolError>,
    expected: Result<Seq<u8>, ProtocolError>,
) -> bool {
    match decoded {
        Ok(payload) => expected == Ok::<Seq<u8>, ProtocolError>(payload@),
        Err(error) => expected == Err::<Seq<u8>, ProtocolError>(error),
    }
}

proof fn lemma_byte_sum_push(bytes: Seq<u8>, index: int)
    requires
        0 <= index < bytes.len(),
    ensures
        byte_sum(bytes.take(index + 1)) == byte_sum(bytes.take(index)) + bytes[index],
{
    assert(bytes.take(index + 1).drop_last() =~= bytes.take(index));
}

/// Computes the checksum byte over `bytes`.
pub fn checksum(bytes: &[u8]) -> (sum: u8)
    ensures
        sum == checksum_of(bytes@),
{
    let mut sum: u8 = 0;
    let mut index: usize = 0;
    while index < bytes.len()
        invariant
            index <= bytes.len(),
            sum == checksum_of(bytes@.take(index as int)),
        decreases bytes.len() - index,
    {
        proof {
            lemma_byte_sum_push(bytes@, index as int);
        }
        sum = sum.wrapping_add(bytes[index]);
        index += 1;
    }
    assert(bytes@.take(index as int) =~= bytes@);
    sum
}

/// Builds the frame that carries `payload` behind `preamble`.
pub fn encode_frame(preamble: [u8; 2], payload: &[u8]) -> (frame: Vec<u8>)
    requires
        payload.len() + FRAME_OVERHEAD <= PACKET_MAXLEN,
    ensures
        frame@ == framed(preamble@[0], preamble@[1], payload@),
        frame.len() == payload.len() + FRAME_OVERHEAD,
        frame.len() <= PACKET_MAXLEN,
{
    let mut frame: Vec<u8> = Vec::new();
    frame.push(preamble[0]);
    frame.push(preamble[1]);
    let mut index: usize = 0;
    while index < payload.len()
        invariant
            index <= payload.len(),
            frame@ == seq![preamble@[0], preamble@[1]] + payload@.take(index as int),
        decreases payload.len() - index,
    {
        frame.push(payload[index]);
        index += 1;
    }
    assert(payload@.take(index as int) =~= payload@);
    frame.push(checksum(payload));
    frame
}

/// Checks a received `frame` against `preamble` and its own checksum, and
/// hands out the payload.
pub fn decode_frame(preamble: [u8; 2], frame: &[u8]) -> (decoded: Result<Vec<u8>, ProtocolError>)
    ensures
        decodes_to(decoded, unframed(preamble@[0], preamble@[1], frame@)),
{
    let len = frame.len();
    if len == 0 {
        return Err(ProtocolError::SerialTimeout);
    }
    if len < 2 || frame[0] != preamble[0] || frame[1] != preamble[1] {
        return Err(ProtocolError::PreambleMismatch);
    }
    if len < FRAME_OVERHEAD {
        return Err(ProtocolError::ChecksumMismatch);
    }
    let mut payload: Vec<u8> = Vec::new();
    let mut index: usize = 2;
    while index < len - 1
        invariant
            len == frame.len(),
            len >= FRAME_OVERHEAD,
            2 <= index <= len - 1,
            payload@ == frame@.subrange(2, index as int),
        decreases len - index,
    {
        payload.push(frame[index]);
        index += 1;
    }
    if checksum(payload.as_slice()) != frame[len - 1] {
        return Err(ProtocolError::ChecksumMismatch);
    }
    Ok(payload)
}

/// Builds the frame that carries `payload` to the chip.
pub fn encode_request(payload: &[u8]) -> (frame: Vec<u8>)
    requires
        payload.len() + FRAME_OVERHEAD <= PACKET_MAXLEN,
    ensures
        frame@ == request_frame(payload@),
        frame.len() == payload.len() + FRAME_OVERHEAD,
        frame.len() <= PACKET_MAXLEN,
{
    encode_frame(REQUEST_PREAMBLE, payload)
}

/// Checks a frame received from the chip and hands out its payload.
///
/// Nothing received is a timeout. A frame that does not open with `55 AA` is
/// a preamble mismatch whatever else it holds. A frame with the right
/// preamble whose last byte is not the checksum of what stands between is a
/// checksum mismatch.
pub fn decode_reply(frame: &[u8]) -> (decoded: Result<Vec<u8>, ProtocolError>)
    ensures
        decodes_to(decoded, reply_of(frame@)),
        frame@.len() == 0 ==> decoded == Err::<Vec<u8>, ProtocolError>(
            ProtocolError::SerialTimeout,
        ),
        frame@.len() > 0 && !has_preamble(0x55, 0xAA, frame@) ==> decoded == Err::<
            Vec<u8>,
            ProtocolError,
        >(ProtocolError::PreambleMismatch),
        has_preamble(0x55, 0xAA, frame@) && !checksum_matches(frame@) ==> decoded == Err::<
            Vec<u8>,
            ProtocolError,
        >(ProtocolError::ChecksumMismatch),
        has_preamble(0x55, 0xAA, frame@) && checksum_matches(frame@) ==> (decoded matches Ok(
            payload,
        ) && payload@ == payload_of(frame@)),
{
    decode_frame(REPLY_PREAMBLE, frame)
}

/// Tells whether the payload `reply` carries the acknowledging zero at
/// `place`.
pub fn acknowledges(reply: &[u8], place: usize) -> (acknowledged: bool)
    ensures
        acknowledged == acknowledged_at(reply@, place as int),
{
    reply.len() > place && reply[place] == 0x00
}

/// Framing a payload and decoding the frame with the same preamble gives the
/// payload back.
pub proof fn lemma_frame_round_trip(first: u8, second: u8, payload: Seq<u8>)
    ensures
        unframed(first, second, framed(first, second, payload)) == Ok::<Seq<u8>, ProtocolError>(
            payload,
        ),
{
    let frame = framed(first, second, payload);
    assert(frame.len() == payload.len() + 3);
    assert(payload_of(frame) =~= payload);
}

/// A frame that arrives with another preamble is a preamble mismatch,
/// whether or not its checksum is right.
pub proof fn lemma_wrong_preamble_is_rejected(first: u8, second: u8, frame: Seq<u8>)
    requires
        frame.len() > 0,
        !has_preamble(first, second, frame),
    ensures
        unframed(first, second, frame) == Err::<Seq<u8>, ProtocolError>(
            ProtocolError::PreambleMismatch,
        ),
{
}

/// A frame with the right preamble whose trailing byte differs from the
/// checksum of its payload is a checksum mismatch.
pub proof fn lemma_wrong_checksum_is_rejected(first: u8, second: u8, frame: Seq<u8>)
    requires
        has_preamble(first, second, frame),
        frame.len() < FRAME_OVERHEAD || frame.last() != checksum_of(payload_of(frame)),
    ensures
        unframed(first, second, frame) == Err::<Seq<u8>, ProtocolError>(
            ProtocolError::ChecksumMismatch,
        ),
{
}

} // verus!
