use vstd::prelude::*;

use crate::error::NetworkError;
use crate::util::{be16, bytes_to_u16_be};

verus! {

/// What the frame validator decides for a receive buffer. A frame is
/// `length:u16 | type:u8 | payload`, where `length` counts every byte after
/// itself. With a whole frame at the front of `b`, the result is the number of
/// bytes after it; otherwise it says how many bytes were wanted and are there.
pub open spec fn validate_spec(b: Seq<u8>) -> Result<usize, NetworkError> {
    if b.len() < 2 {
        Err(NetworkError::ShortMsg { expected_length: 2, actual_length: b.len() as usize })
    } else if b.len() - 2 < be16(b[0], b[1]) {
        Err(
            NetworkError::ShortMsg {
                expected_length: be16(b[0], b[1]) as usize,
                actual_length: (b.len() - 2) as usize,
            },
        )
    } else {
        Ok((b.len() - 2 - be16(b[0], b[1])) as usize)
    }
}

/// Checks whether `bytes` begins with a whole frame and, if so, returns how
/// many bytes follow it. A short buffer is the ordinary "wait for more" case.
pub fn validate_packet_length(bytes: &[u8]) -> (r: Result<usize, NetworkError>)
    ensures
        r == validate_spec(bytes@),
{
    let expected_length = match bytes_to_u16_be(bytes) {
        Ok(n) => n as usize,
        Err(e) => return Err(e),
    };
    let actual_length = bytes.len().saturating_sub(2);
    if actual_length < expected_length {
        return Err(NetworkError::ShortMsg { expected_length, actual_length });
    }
    Ok(actual_length - expected_length)
}

} // verus!
