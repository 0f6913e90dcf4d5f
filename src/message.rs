use vstd::prelude::*;

use crate::error::NetworkError;
use crate::util::{lemma_be16_of_u16_bytes, u16_be_to_bytes, u16_bytes};
use crate::validator::validate_spec;

pub use crate::validator::validate_packet_length;

verus! {

/// Type byte of a join message.
pub const TYPE_JOIN: u8 = 101;

/// Type byte of a leave message.
pub const TYPE_LEAVE: u8 = 102;

/// Type byte of a move message.
pub const TYPE_MOVE: u8 = 201;

/// Type byte of an eat message.
pub const TYPE_EAT: u8 = 202;

/// Type byte of a die message.
pub const TYPE_DIE: u8 = 203;

/// Whether `t` is the type byte of a message of the protocol.
pub open spec fn is_known_type(t: u8) -> bool {
    t == TYPE_JOIN || t == TYPE_LEAVE || t == TYPE_MOVE || t == TYPE_EAT || t == TYPE_DIE
}

/// The frame that carries `payload` under type byte `t`: the length of type
/// byte and payload as a big-endian `u16`, the type byte, the payload.
pub open spec fn frame_bytes(t: u8, payload: Seq<u8>) -> Seq<u8> {
    u16_bytes((payload.len() + 1) as u16) + seq![t] + payload
}

/// The largest payload that a frame can carry: its length field counts the
/// type byte too, and holds at most `u16::MAX`.
pub const MAX_PAYLOAD: usize = 0xFFFE;

/// The two bytes that carry an identifier or an amount: its low sixteen
/// bits, big-endian.
pub open spec fn field_bytes(x: usize) -> Seq<u8> {
    u16_bytes((x % 0x1_0000) as u16)
}

/// Appends the two bytes that carry `x`.
pub(crate) fn push_field(out: &mut Vec<u8>, x: usize)
    ensures
        final(out)@ == old(out)@ + field_bytes(x),
{
    let b = u16_be_to_bytes((x % 0x1_0000) as u16);
    out.push(b[0]);
    out.push(b[1]);
    assert(final(out)@ =~= old(out)@ + field_bytes(x));
}

/// Builds the frame that carries `payload` under type byte `packet_type`.
pub fn encode_frame(packet_type: u8, payload: &[u8]) -> (r: Vec<u8>)
    requires
        payload@.len() <= MAX_PAYLOAD,
    ensures
        r@ == frame_bytes(packet_type, payload@),
{
    let length = u16_be_to_bytes((payload.len() + 1) as u16);
    let mut packet: Vec<u8> = Vec::with_capacity(payload.len() + 3);
    packet.push(length[0]);
    packet.push(length[1]);
    packet.push(packet_type);
    let mut rest = vstd::slice::slice_to_vec(payload);
    packet.append(&mut rest);
    assert(packet@ =~= frame_bytes(packet_type, payload@));
    packet
}

/// A frame followed by any bytes is recognised as a whole frame, with exactly
/// those bytes left over, and carries its type byte and payload.
pub proof fn lemma_frame_then(t: u8, payload: Seq<u8>, rest: Seq<u8>)
    requires
        payload.len() <= MAX_PAYLOAD,
    ensures
        validate_spec(frame_bytes(t, payload) + rest) == Ok::<usize, NetworkError>(
            rest.len() as usize,
        ),
        (frame_bytes(t, payload) + rest).subrange(2, payload.len() + 3 as int) == seq![t] + payload,
        (frame_bytes(t, payload) + rest).skip(payload.len() + 3 as int) == rest,
{
    let f = frame_bytes(t, payload);
    let b = f + rest;
    lemma_be16_of_u16_bytes((payload.len() + 1) as u16);
    assert(b[0] == u16_bytes((payload.len() + 1) as u16)[0]);
    assert(b[1] == u16_bytes((payload.len() + 1) as u16)[1]);
    assert(b.subrange(2, payload.len() + 3 as int) =~= seq![t] + payload);
    assert(b.skip(payload.len() + 3 as int) =~= rest);
}

/// A frame built from a payload is whole, with nothing left over, and
/// draining its `2 + length` bytes gives back the type byte and the payload.
pub proof fn lemma_frame_validates(t: u8, payload: Seq<u8>)
    requires
        payload.len() <= MAX_PAYLOAD,
    ensures
        validate_spec(frame_bytes(t, payload)) == Ok::<usize, NetworkError>(0),
        frame_bytes(t, payload).len() == payload.len() + 3,
        frame_bytes(t, payload).subrange(2, payload.len() + 3 as int) == seq![t] + payload,
{
    lemma_frame_then(t, payload, seq![]);
    assert(frame_bytes(t, payload) + seq![] =~= frame_bytes(t, payload));
}

} // verus!
