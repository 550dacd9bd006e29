//! The serial protocol: one fixed request frame, one fixed-length response
//! frame with the reading in its fourth and fifth byte.

use vstd::prelude::*;
use crate::error::FramingError;

verus! {

/// Length in bytes of the request frame and of the response frame.
pub const FRAME_LEN: usize = 7;

/// The request frame, byte for byte. It carries no computed checksum.
pub open spec fn request_frame() -> Seq<u8> {
    seq![0xFEu8, 0x44u8, 0x00u8, 0x08u8, 0x02u8, 0x9Fu8, 0x25u8]
}

/// The reading that a response frame carries: its fourth byte as the high
/// half and its fifth as the low half.
pub open spec fn frame_value(bytes: Seq<u8>) -> int
    recommends
        bytes.len() >= FRAME_LEN,
{
    bytes[3] * 256 + bytes[4]
}

/// What decoding makes of the bytes that came back.
pub open spec fn decoded(bytes: Seq<u8>) -> Result<u16, FramingError> {
    if bytes.len() < FRAME_LEN {
        Err(FramingError::ShortResponse)
    } else {
        Ok(frame_value(bytes) as u16)
    }
}

/// The frame that asks the sensor for its reading.
pub fn build_request() -> (frame: [u8; 7])
    ensures
        frame@ == request_frame(),
{
    let frame: [u8; 7] = [0xFE, 0x44, 0x00, 0x08, 0x02, 0x9F, 0x25];
    assert(frame@ =~= request_frame());
    frame
}

/// Decodes a response. Only the length is checked: header, trailer and
/// checksum bytes are not looked at.
pub fn decode_response(bytes: &[u8]) -> (r: Result<u16, FramingError>)
    ensures
        r == decoded(bytes@),
        bytes@.len() >= FRAME_LEN ==> r == Ok::<u16, FramingError>(
            (bytes@[3] * 256 + bytes@[4]) as u16,
        ),
        bytes@.len() < FRAME_LEN ==> r == Err::<u16, FramingError>(FramingError::ShortResponse),
{
    if bytes.len() < FRAME_LEN {
        return Err(FramingError::ShortResponse);
    }
    let high: u16 = bytes[3] as u16;
    let low: u16 = bytes[4] as u16;
    Ok(high * 256 + low)
}

/// Every frame of full length decodes, to the number that its fourth and
/// fifth byte spell in base 256, and that number fits in 16 bits.
pub proof fn lemma_decode_total(bytes: Seq<u8>)
    requires
        bytes.len() == FRAME_LEN,
    ensures
        decoded(bytes) is Ok,
        decoded(bytes)->Ok_0 as int == bytes[3] as int * 256 + bytes[4] as int,
        0 <= bytes[3] as int * 256 + bytes[4] as int <= 65535,
{
}

/// Two frames that agree in their fourth and fifth byte decode alike,
/// whatever the other bytes hold.
pub proof fn lemma_decode_reads_two_bytes(a: Seq<u8>, b: Seq<u8>)
    requires
        a.len() >= FRAME_LEN,
        b.len() >= FRAME_LEN,
        a[3] == b[3],
        a[4] == b[4],
    ensures
        decoded(a) == decoded(b),
{
}

} // verus!
