use vstd::prelude::*;

use crate::error::{NetworkError, ProtocolError, RuleError};
use crate::message::{
    encode_frame, field_bytes, frame_bytes, is_known_type, push_field, MAX_PAYLOAD, TYPE_DIE,
    TYPE_EAT, TYPE_JOIN, TYPE_LEAVE, TYPE_MOVE,
};
use crate::message::lemma_frame_validates;
use crate::util::{
    be16, bytes_to_u16_be, lemma_be16_of_u16_bytes, lemma_color_round_trip,
    lemma_positions_bytes_len, lemma_positions_round_trip,
};
use crate::validator::validate_spec;
use crate::worm_body::{body_bytes, decode_body, WormBody, WormBodyView};

verus! {

/// A request from a client to the server.
#[derive(Debug)]
pub enum MessageFromClient {
    /// Type 101: `client_id:u16`.
    ReqJoin { client_id: usize },
    /// Type 102: `client_id:u16`.
    ReqLeave { client_id: usize },
    /// Type 201: `client_id:u16`, then the body.
    ReqMove { client_id: usize, worm_body: WormBody },
    /// Type 202: `client_id:u16`, `food_amount:u16`.
    ReqEat { client_id: usize, food_amount: usize },
    /// Type 203: `client_id:u16`.
    ReqDie { client_id: usize },
}

/// The value of a [`MessageFromClient`].
pub enum ClientMessageView {
    ReqJoin { client_id: usize },
    ReqLeave { client_id: usize },
    ReqMove { client_id: usize, worm_body: WormBodyView },
    ReqEat { client_id: usize, food_amount: usize },
    ReqDie { client_id: usize },
}

impl View for MessageFromClient {
    type V = ClientMessageView;

    open spec fn view(&self) -> ClientMessageView {
        match self {
            MessageFromClient::ReqJoin { client_id } => ClientMessageView::ReqJoin {
                client_id: *client_id,
            },
            MessageFromClient::ReqLeave { client_id } => ClientMessageView::ReqLeave {
                client_id: *client_id,
            },
            MessageFromClient::ReqMove { client_id, worm_body } => ClientMessageView::ReqMove {
                client_id: *client_id,
                worm_body: worm_body@,
            },
            MessageFromClient::ReqEat { client_id, food_amount } => ClientMessageView::ReqEat {
                client_id: *client_id,
                food_amount: *food_amount,
            },
            MessageFromClient::ReqDie { client_id } => ClientMessageView::ReqDie {
                client_id: *client_id,
            },
        }
    }
}

impl ClientMessageView {
    /// Whether the encoded message fits in one frame.
    pub open spec fn fits_in_frame(self) -> bool {
        match self {
            ClientMessageView::ReqMove { worm_body, .. } => 18 + 8 * worm_body.positions.len()
                <= MAX_PAYLOAD,
            _ => true,
        }
    }

    /// Whether the message survives the wire unchanged: its numbers fit in
    /// sixteen bits, a body belongs to the sender, and it fits in one frame.
    pub open spec fn is_valid(self) -> bool {
        &&& self.fits_in_frame()
        &&& match self {
            ClientMessageView::ReqJoin { client_id } => client_id < 0x1_0000,
            ClientMessageView::ReqLeave { client_id } => client_id < 0x1_0000,
            ClientMessageView::ReqMove { client_id, worm_body } => client_id < 0x1_0000
                && worm_body.client_id == client_id,
            ClientMessageView::ReqEat { client_id, food_amount } => client_id < 0x1_0000
                && food_amount < 0x1_0000,
            ClientMessageView::ReqDie { client_id } => client_id < 0x1_0000,
        }
    }
}

/// The frame that carries a client message.
pub open spec fn client_encode(m: ClientMessageView) -> Seq<u8> {
    match m {
        ClientMessageView::ReqJoin { client_id } => frame_bytes(TYPE_JOIN, field_bytes(client_id)),
        ClientMessageView::ReqLeave { client_id } => frame_bytes(
            TYPE_LEAVE,
            field_bytes(client_id),
        ),
        ClientMessageView::ReqMove { client_id, worm_body } => frame_bytes(
            TYPE_MOVE,
            field_bytes(client_id) + body_bytes(worm_body),
        ),
        ClientMessageView::ReqEat { client_id, food_amount } => frame_bytes(
            TYPE_EAT,
            field_bytes(client_id) + field_bytes(food_amount),
        ),
        ClientMessageView::ReqDie { client_id } => frame_bytes(TYPE_DIE, field_bytes(client_id)),
    }
}

/// What decoding a frame's type byte and payload `m` as a client message gives.
pub open spec fn client_decode(m: Seq<u8>) -> Result<ClientMessageView, ProtocolError> {
    if m.len() == 0 {
        Err(ProtocolError::Network(NetworkError::TooShortMsg))
    } else if !is_known_type(m[0]) {
        Err(ProtocolError::Rule(RuleError::InvalidPacketType(m[0] as usize)))
    } else if m.len() < 3 {
        Err(
            ProtocolError::Network(
                NetworkError::ShortMsg { expected_length: 2, actual_length: (m.len() - 1) as usize },
            ),
        )
    } else {
        let client_id = be16(m[1], m[2]) as usize;
        if m[0] == TYPE_JOIN {
            Ok(ClientMessageView::ReqJoin { client_id })
        } else if m[0] == TYPE_LEAVE {
            Ok(ClientMessageView::ReqLeave { client_id })
        } else if m[0] == TYPE_MOVE {
            match decode_body(client_id, m.skip(3)) {
                Ok(worm_body) => Ok(ClientMessageView::ReqMove { client_id, worm_body }),
                Err(e) => Err(ProtocolError::Network(e)),
            }
        } else if m[0] == TYPE_EAT {
            if m.len() < 5 {
                Err(
                    ProtocolError::Network(
                        NetworkError::ShortMsg {
                            expected_length: 2,
                            actual_length: (m.len() - 3) as usize,
                        },
                    ),
                )
            } else {
                Ok(ClientMessageView::ReqEat { client_id, food_amount: be16(m[3], m[4]) as usize })
            }
        } else {
            Ok(ClientMessageView::ReqDie { client_id })
        }
    }
}

/// The frame payload of a client message: its fields, in wire order.
spec fn client_payload(m: ClientMessageView) -> Seq<u8> {
    match m {
        ClientMessageView::ReqMove { client_id, worm_body } => field_bytes(client_id) + body_bytes(
            worm_body,
        ),
        ClientMessageView::ReqEat { client_id, food_amount } => field_bytes(client_id)
            + field_bytes(food_amount),
        ClientMessageView::ReqJoin { client_id } => field_bytes(client_id),
        ClientMessageView::ReqLeave { client_id } => field_bytes(client_id),
        ClientMessageView::ReqDie { client_id } => field_bytes(client_id),
    }
}

/// The type byte of a client message.
spec fn client_type(m: ClientMessageView) -> u8 {
    match m {
        ClientMessageView::ReqJoin { .. } => TYPE_JOIN,
        ClientMessageView::ReqLeave { .. } => TYPE_LEAVE,
        ClientMessageView::ReqMove { .. } => TYPE_MOVE,
        ClientMessageView::ReqEat { .. } => TYPE_EAT,
        ClientMessageView::ReqDie { .. } => TYPE_DIE,
    }
}

/// Decoding a body's wire bytes on behalf of its owner gives the body back.
pub proof fn lemma_body_round_trip(w: WormBodyView)
    ensures
        decode_body(w.client_id, body_bytes(w)) == Ok::<WormBodyView, NetworkError>(w),
{
    let b = body_bytes(w);
    lemma_positions_bytes_len(w.positions);
    lemma_color_round_trip(w.color, crate::util::positions_bytes(w.positions));
    assert(b.skip(16) =~= crate::util::positions_bytes(w.positions));
    lemma_positions_round_trip(w.positions);
}

/// The fields in front of every payload read back: type byte, then the
/// sender's identifier.
pub proof fn lemma_header_round_trip(t: u8, id: usize, rest: Seq<u8>)
    requires
        id < 0x1_0000,
    ensures
        (seq![t] + field_bytes(id) + rest).len() >= 3,
        (seq![t] + field_bytes(id) + rest)[0] == t,
        be16((seq![t] + field_bytes(id) + rest)[1], (seq![t] + field_bytes(id) + rest)[2]) == id,
        (seq![t] + field_bytes(id) + rest).skip(3) == rest,
{
    let d = seq![t] + field_bytes(id) + rest;
    lemma_be16_of_u16_bytes(id as u16);
    assert(d[1] == field_bytes(id)[0] && d[2] == field_bytes(id)[1]);
    assert(d.skip(3) =~= rest);
}

/// Decoding the type byte and payload of a client message.
proof fn lemma_client_payload_decodes(m: ClientMessageView)
    requires
        m.is_valid(),
    ensures
        client_decode(seq![client_type(m)] + client_payload(m)) == Ok::<
            ClientMessageView,
            ProtocolError,
        >(m),
{
    let t = client_type(m);
    let d = seq![t] + client_payload(m);
    match m {
        ClientMessageView::ReqMove { client_id, worm_body } => {
            lemma_body_round_trip(worm_body);
            assert(d =~= seq![t] + field_bytes(client_id) + body_bytes(worm_body));
            lemma_header_round_trip(t, client_id, body_bytes(worm_body));
        },
        ClientMessageView::ReqEat { client_id, food_amount } => {
            assert(d =~= seq![t] + field_bytes(client_id) + field_bytes(food_amount));
            lemma_header_round_trip(t, client_id, field_bytes(food_amount));
            lemma_be16_of_u16_bytes(food_amount as u16);
            assert(d[3] == field_bytes(food_amount)[0] && d[4] == field_bytes(food_amount)[1]);
        },
        ClientMessageView::ReqJoin { client_id } => {
            assert(d =~= seq![t] + field_bytes(client_id) + seq![]);
            lemma_header_round_trip(t, client_id, seq![]);
        },
        ClientMessageView::ReqLeave { client_id } => {
            assert(d =~= seq![t] + field_bytes(client_id) + seq![]);
            lemma_header_round_trip(t, client_id, seq![]);
        },
        ClientMessageView::ReqDie { client_id } => {
            assert(d =~= seq![t] + field_bytes(client_id) + seq![]);
            lemma_header_round_trip(t, client_id, seq![]);
        },
    }
}

/// Every valid client message survives the wire: its frame is whole on its
/// own, and decoding the frame without its length prefix gives the message
/// back.
pub proof fn lemma_client_round_trip(m: ClientMessageView)
    requires
        m.is_valid(),
    ensures
        validate_spec(client_encode(m)) == Ok::<usize, NetworkError>(0),
        client_decode(client_encode(m).skip(2)) == Ok::<ClientMessageView, ProtocolError>(m),
{
    let t = client_type(m);
    let p = client_payload(m);
    if let ClientMessageView::ReqMove { worm_body, .. } = m {
        lemma_positions_bytes_len(worm_body.positions);
    }
    lemma_frame_validates(t, p);
    assert(client_encode(m) == frame_bytes(t, p));
    assert(client_encode(m).skip(2) =~= seq![t] + p);
    lemma_client_payload_decodes(m);
}

impl MessageFromClient {
    /// Decodes a client message from a frame without its length prefix: the
    /// type byte, then the payload.
    pub fn new(message_bytes: &[u8]) -> (r: Result<Self, ProtocolError>)
        ensures
            match r {
                Ok(m) => client_decode(message_bytes@) == Ok::<ClientMessageView, ProtocolError>(
                    m@,
                ),
                Err(e) => client_decode(message_bytes@) == Err::<ClientMessageView, ProtocolError>(
                    e,
                ),
            },
    {
        if message_bytes.len() == 0 {
            return Err(ProtocolError::Network(NetworkError::TooShortMsg));
        }
        let type_num = message_bytes[0];
        if !(type_num == TYPE_JOIN || type_num == TYPE_LEAVE || type_num == TYPE_MOVE || type_num
            == TYPE_EAT || type_num == TYPE_DIE) {
            return Err(ProtocolError::Rule(RuleError::InvalidPacketType(type_num as usize)));
        }
        let body = vstd::slice::slice_subrange(message_bytes, 1, message_bytes.len());
        let client_id = match bytes_to_u16_be(body) {
            Ok(n) => n as usize,
            Err(e) => return Err(ProtocolError::Network(e)),
        };
        if type_num == TYPE_JOIN {
            Ok(MessageFromClient::ReqJoin { client_id })
        } else if type_num == TYPE_LEAVE {
            Ok(MessageFromClient::ReqLeave { client_id })
        } else if type_num == TYPE_MOVE {
            let rest = vstd::slice::slice_subrange(body, 2, body.len());
            assert(rest@ =~= message_bytes@.skip(3));
            match WormBody::new(client_id, rest) {
                Ok(worm_body) => Ok(MessageFromClient::ReqMove { client_id, worm_body }),
                Err(e) => Err(ProtocolError::Network(e)),
            }
        } else if type_num == TYPE_EAT {
            let rest = vstd::slice::slice_subrange(body, 2, body.len());
            match bytes_to_u16_be(rest) {
                Ok(n) => Ok(MessageFromClient::ReqEat { client_id, food_amount: n as usize }),
                Err(e) => Err(ProtocolError::Network(e)),
            }
        } else {
            Ok(MessageFromClient::ReqDie { client_id })
        }
    }

    /// Encodes the message as one whole frame, length prefix included.
    pub fn make_bytes(&self) -> (r: Vec<u8>)
        requires
            self@.fits_in_frame(),
        ensures
            r@ == client_encode(self@),
    {
        let mut payload: Vec<u8> = Vec::new();
        match self {
            MessageFromClient::ReqJoin { client_id } => {
                push_field(&mut payload, *client_id);
                encode_frame(TYPE_JOIN, payload.as_slice())
            },
            MessageFromClient::ReqLeave { client_id } => {
                push_field(&mut payload, *client_id);
                encode_frame(TYPE_LEAVE, payload.as_slice())
            },
            MessageFromClient::ReqMove { client_id, worm_body } => {
                push_field(&mut payload, *client_id);
                let mut body = worm_body.make_bytes();
                proof {
                    crate::util::lemma_positions_bytes_len(worm_body@.positions);
                }
                payload.append(&mut body);
                encode_frame(TYPE_MOVE, payload.as_slice())
            },
            MessageFromClient::ReqEat { client_id, food_amount } => {
                push_field(&mut payload, *client_id);
                push_field(&mut payload, *food_amount);
                encode_frame(TYPE_EAT, payload.as_slice())
            },
            MessageFromClient::ReqDie { client_id } => {
                push_field(&mut payload, *client_id);
                encode_frame(TYPE_DIE, payload.as_slice())
            },
        }
    }
}

} // verus!
