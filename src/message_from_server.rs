use vstd::prelude::*;

use crate::error::{NetworkError, ProtocolError, RuleError};
use crate::message::{
    encode_frame, field_bytes, frame_bytes, is_known_type, lemma_frame_validates, push_field,
    MAX_PAYLOAD, TYPE_DIE, TYPE_EAT, TYPE_JOIN, TYPE_LEAVE, TYPE_MOVE,
};
use crate::message_from_client::{lemma_body_round_trip, lemma_header_round_trip};
use crate::util::{be16, bytes_to_u16_be, lemma_be16_of_u16_bytes, lemma_positions_bytes_len};
use crate::validator::validate_spec;
use crate::worm_body::{body_bytes, decode_body, WormBody, WormBodyView};

verus! {

/// A response from the server to a client.
#[derive(Debug)]
pub enum MessageFromServer {
    /// Type 101: `client_id:u16`, then the starting body the server assigns.
    ResJoin { client_id: usize, worm_body: WormBody },
    /// Type 102: `client_id:u16`.
    ResLeave { client_id: usize },
    /// Type 201: `client_id:u16`, then the body; the echo of a client's move.
    ResMove { client_id: usize, worm_body: WormBody },
    /// Type 202: `client_id:u16`, `food_amount:u16`, `is_ok:u8` (0 or 1).
    ResEat { client_id: usize, food_amount: usize, is_ok: bool },
    /// Type 203: `client_id:u16`.
    ResDie { client_id: usize },
}

/// The value of a [`MessageFromServer`].
pub enum ServerMessageView {
    ResJoin { client_id: usize, worm_body: WormBodyView },
    ResLeave { client_id: usize },
    ResMove { client_id: usize, worm_body: WormBodyView },
    ResEat { client_id: usize, food_amount: usize, is_ok: bool },
    ResDie { client_id: usize },
}

impl View for MessageFromServer {
    type V = ServerMessageView;

    open spec fn view(&self) -> ServerMessageView {
        match self {
            MessageFromServer::ResJoin { client_id, worm_body } => ServerMessageView::ResJoin {
                client_id: *client_id,
                worm_body: worm_body@,
            },
            MessageFromServer::ResLeave { client_id } => ServerMessageView::ResLeave {
                client_id: *client_id,
            },
            MessageFromServer::ResMove { client_id, worm_body } => ServerMessageView::ResMove {
                client_id: *client_id,
                worm_body: worm_body@,
            },
            MessageFromServer::ResEat { client_id, food_amount, is_ok } => ServerMessageView::ResEat {
                client_id: *client_id,
                food_amount: *food_amount,
                is_ok: *is_ok,
            },
            MessageFromServer::ResDie { client_id } => ServerMessageView::ResDie {
                client_id: *client_id,
            },
        }
    }
}

impl ServerMessageView {
    /// Whether the encoded message fits in one frame.
    pub open spec fn fits_in_frame(self) -> bool {
        match self {
            ServerMessageView::ResJoin { worm_body, .. } => 18 + 8 * worm_body.positions.len()
                <= MAX_PAYLOAD,
            ServerMessageView::ResMove { worm_body, .. } => 18 + 8 * worm_body.positions.len()
                <= MAX_PAYLOAD,
            _ => true,
        }
    }

    /// Whether the message survives the wire unchanged: its numbers fit in
    /// sixteen bits, a body belongs to the player named, and it fits in one
    /// frame.
    pub open spec fn is_valid(self) -> bool {
        &&& self.fits_in_frame()
        &&& match self {
            ServerMessageView::ResJoin { client_id, worm_body } => client_id < 0x1_0000
                && worm_body.client_id == client_id,
            ServerMessageView::ResLeave { client_id } => client_id < 0x1_0000,
            ServerMessageView::ResMove { client_id, worm_body } => client_id < 0x1_0000
                && worm_body.client_id == client_id,
            ServerMessageView::ResEat { client_id, food_amount, .. } => client_id < 0x1_0000
                && food_amount < 0x1_0000,
            ServerMessageView::ResDie { client_id } => client_id < 0x1_0000,
        }
    }
}

/// The byte that carries a success flag.
pub open spec fn flag_byte(b: bool) -> u8 {
    if b {
        1
    } else {
        0
    }
}

/// The type byte of a server message.
pub open spec fn server_type(m: ServerMessageView) -> u8 {
    match m {
        ServerMessageView::ResJoin { .. } => TYPE_JOIN,
        ServerMessageView::ResLeave { .. } => TYPE_LEAVE,
        ServerMessageView::ResMove { .. } => TYPE_MOVE,
        ServerMessageView::ResEat { .. } => TYPE_EAT,
        ServerMessageView::ResDie { .. } => TYPE_DIE,
    }
}

/// The frame payload of a server message: its fields, in wire order.
pub open spec fn server_payload(m: ServerMessageView) -> Seq<u8> {
    match m {
        ServerMessageView::ResJoin { client_id, worm_body } => field_bytes(client_id) + body_bytes(
            worm_body,
        ),
        ServerMessageView::ResLeave { client_id } => field_bytes(client_id),
        ServerMessageView::ResMove { client_id, worm_body } => field_bytes(client_id) + body_bytes(
            worm_body,
        ),
        ServerMessageView::ResEat { client_id, food_amount, is_ok } => field_bytes(client_id)
            + field_bytes(food_amount) + seq![flag_byte(is_ok)],
        ServerMessageView::ResDie { client_id } => field_bytes(client_id),
    }
}

/// The frame that carries a server message.
pub open spec fn server_encode(m: ServerMessageView) -> Seq<u8> {
    frame_bytes(server_type(m), server_payload(m))
}

/// What decoding a frame's type byte and payload `m` as a server message gives.
pub open spec fn server_decode(m: Seq<u8>) -> Result<ServerMessageView, ProtocolError> {
    if m.len() == 0 {
        Err(ProtocolError::Network(NetworkError::TooShortMsg))
    } else if !is_known_type(m[0]) {
        Err(ProtocolError::Rule(RuleError::InvalidPacketType(m[0] as usize)))
    } else if m.len() < 3 {
        Err(
            ProtocolError::Network(
                NetworkError::ShortMsg { expected_length: 2, actual_length: (m.len() - 1) as usize },
            ),
        )
    } else {
        let client_id = be16(m[1], m[2]) as usize;
        if m[0] == TYPE_JOIN {
            match decode_body(client_id, m.skip(3)) {
                Ok(worm_body) => Ok(ServerMessageView::ResJoin { client_id, worm_body }),
                Err(e) => Err(ProtocolError::Network(e)),
            }
        } else if m[0] == TYPE_LEAVE {
            Ok(ServerMessageView::ResLeave { client_id })
        } else if m[0] == TYPE_MOVE {
            match decode_body(client_id, m.skip(3)) {
                Ok(worm_body) => Ok(ServerMessageView::ResMove { client_id, worm_body }),
                Err(e) => Err(ProtocolError::Network(e)),
            }
        } else if m[0] == TYPE_EAT {
            if m.len() < 5 {
                Err(
                    ProtocolError::Network(
                        NetworkError::ShortMsg {
                            expected_length: 2,
                            actual_length: (m.len() - 3) as usize,
                        },
                    ),
                )
            } else if m.len() < 6 {
                Err(
                    ProtocolError::Network(
                        NetworkError::ShortMsg { expected_length: 1, actual_length: 0 },
                    ),
                )
            } else {
                Ok(
                    ServerMessageView::ResEat {
                        client_id,
                        food_amount: be16(m[3], m[4]) as usize,
                        is_ok: m[5] == 1,
                    },
                )
            }
        } else {
            Ok(ServerMessageView::ResDie { client_id })
        }
    }
}

/// Decoding the type byte and payload of a join or move response.
proof fn lemma_body_payload_decodes(t: u8, client_id: usize, worm_body: WormBodyView)
    requires
        t == TYPE_JOIN || t == TYPE_MOVE,
        client_id < 0x1_0000,
        worm_body.client_id == client_id,
    ensures
        server_decode(seq![t] + (field_bytes(client_id) + body_bytes(worm_body))) == (if t
            == TYPE_JOIN {
            Ok::<ServerMessageView, ProtocolError>(
                ServerMessageView::ResJoin { client_id, worm_body },
            )
        } else {
            Ok::<ServerMessageView, ProtocolError>(
                ServerMessageView::ResMove { client_id, worm_body },
            )
        }),
{
    let d = seq![t] + (field_bytes(client_id) + body_bytes(worm_body));
    lemma_body_round_trip(worm_body);
    assert(d =~= seq![t] + field_bytes(client_id) + body_bytes(worm_body));
    lemma_header_round_trip(t, client_id, body_bytes(worm_body));
}

/// Decoding the type byte and payload of an eat response.
proof fn lemma_eat_payload_decodes(client_id: usize, food_amount: usize, is_ok: bool)
    requires
        client_id < 0x1_0000,
        food_amount < 0x1_0000,
    ensures
        server_decode(
            seq![TYPE_EAT] + field_bytes(client_id) + field_bytes(food_amount) + seq![
                flag_byte(is_ok),
            ],
        ) == Ok::<ServerMessageView, ProtocolError>(
            ServerMessageView::ResEat { client_id, food_amount, is_ok },
        ),
{
    let rest = field_bytes(food_amount) + seq![flag_byte(is_ok)];
    let d = seq![TYPE_EAT] + field_bytes(client_id) + rest;
    assert(d =~= seq![TYPE_EAT] + field_bytes(client_id) + field_bytes(food_amount) + seq![
        flag_byte(is_ok),
    ]);
    lemma_header_round_trip(TYPE_EAT, client_id, rest);
    lemma_be16_of_u16_bytes(food_amount as u16);
    assert(d[3] == field_bytes(food_amount)[0] && d[4] == field_bytes(food_amount)[1]);
    assert(d[5] == flag_byte(is_ok));
}

/// Decoding the type byte and payload of a server message.
proof fn lemma_server_payload_decodes(m: ServerMessageView)
    requires
        m.is_valid(),
    ensures
        server_decode(seq![server_type(m)] + server_payload(m)) == Ok::<
            ServerMessageView,
            ProtocolError,
        >(m),
{
    let t = server_type(m);
    let d = seq![t] + server_payload(m);
    match m {
        ServerMessageView::ResJoin { client_id, worm_body } => {
            lemma_body_payload_decodes(t, client_id, worm_body);
        },
        ServerMessageView::ResMove { client_id, worm_body } => {
            lemma_body_payload_decodes(t, client_id, worm_body);
        },
        ServerMessageView::ResEat { client_id, food_amount, is_ok } => {
            lemma_eat_payload_decodes(client_id, food_amount, is_ok);
        },
        ServerMessageView::ResLeave { client_id } => {
            assert(d =~= seq![t] + field_bytes(client_id) + seq![]);
            lemma_header_round_trip(t, client_id, seq![]);
        },
        ServerMessageView::ResDie { client_id } => {
            assert(d =~= seq![t] + field_bytes(client_id) + seq![]);
            lemma_header_round_trip(t, client_id, seq![]);
        },
    }
}

/// Every valid server message survives the wire: its frame is whole on its
/// own, and decoding the frame without its length prefix gives the message
/// back.
pub proof fn lemma_server_round_trip(m: ServerMessageView)
    requires
        m.is_valid(),
    ensures
        validate_spec(server_encode(m)) == Ok::<usize, NetworkError>(0),
        server_decode(server_encode(m).skip(2)) == Ok::<ServerMessageView, ProtocolError>(m),
{
    let t = server_type(m);
    let p = server_payload(m);
    match m {
        ServerMessageView::ResJoin { worm_body, .. } => {
            lemma_positions_bytes_len(worm_body.positions);
        },
        ServerMessageView::ResMove { worm_body, .. } => {
            lemma_positions_bytes_len(worm_body.positions);
        },
        _ => {},
    }
    lemma_frame_validates(t, p);
    assert(server_encode(m).skip(2) =~= seq![t] + p);
    lemma_server_payload_decodes(m);
}

impl MessageFromServer {
    /// Decodes a server message from a frame without its length prefix: the
    /// type byte, then the payload.
    pub fn new(message_bytes: &[u8]) -> (r: Result<Self, ProtocolError>)
        ensures
            match r {
                Ok(m) => server_decode(message_bytes@) == Ok::<ServerMessageView, ProtocolError>(
                    m@,
                ),
                Err(e) => server_decode(message_bytes@) == Err::<ServerMessageView, ProtocolError>(
                    e,
                ),
            },
    {
        if message_bytes.len() == 0 {
            return Err(ProtocolError::Network(NetworkError::TooShortMsg));
        }
        let type_num = message_bytes[0];
        if !(type_num == TYPE_JOIN || type_num == TYPE_LEAVE || type_num == TYPE_MOVE || type_num
            == TYPE_EAT || type_num == TYPE_DIE) {
            return Err(ProtocolError::Rule(RuleError::InvalidPacketType(type_num as usize)));
        }
        let body = vstd::slice::slice_subrange(message_bytes, 1, message_bytes.len());
        let client_id = match bytes_to_u16_be(body) {
            Ok(n) => n as usize,
            Err(e) => return Err(ProtocolError::Network(e)),
        };
        if type_num == TYPE_JOIN || type_num == TYPE_MOVE {
            let rest = vstd::slice::slice_subrange(body, 2, body.len());
            assert(rest@ =~= message_bytes@.skip(3));
            match WormBody::new(client_id, rest) {
                Ok(worm_body) => if type_num == TYPE_JOIN {
                    Ok(MessageFromServer::ResJoin { client_id, worm_body })
                } else {
                    Ok(MessageFromServer::ResMove { client_id, worm_body })
                },
                Err(e) => Err(ProtocolError::Network(e)),
            }
        } else if type_num == TYPE_LEAVE {
            Ok(MessageFromServer::ResLeave { client_id })
        } else if type_num == TYPE_EAT {
            let rest = vstd::slice::slice_subrange(body, 2, body.len());
            let food_amount = match bytes_to_u16_be(rest) {
                Ok(n) => n as usize,
                Err(e) => return Err(ProtocolError::Network(e)),
            };
            if body.len() < 5 {
                return Err(
                    ProtocolError::Network(
                        NetworkError::ShortMsg { expected_length: 1, actual_length: 0 },
                    ),
                );
            }
            let is_ok = body[4] == 1;
            Ok(MessageFromServer::ResEat { client_id, food_amount, is_ok })
        } else {
            Ok(MessageFromServer::ResDie { client_id })
        }
    }

    /// Encodes the message as one whole frame, length prefix included.
    pub fn make_bytes(&self) -> (r: Vec<u8>)
        requires
            self@.fits_in_frame(),
        ensures
            r@ == server_encode(self@),
    {
        let mut payload: Vec<u8> = Vec::new();
        match self {
            MessageFromServer::ResJoin { client_id, worm_body } => {
                push_field(&mut payload, *client_id);
                let mut body = worm_body.make_bytes();
                proof {
                    lemma_positions_bytes_len(worm_body@.positions);
                }
                payload.append(&mut body);
                encode_frame(TYPE_JOIN, payload.as_slice())
            },
            MessageFromServer::ResLeave { client_id } => {
                push_field(&mut payload, *client_id);
                encode_frame(TYPE_LEAVE, payload.as_slice())
            },
            MessageFromServer::ResMove { client_id, worm_body } => {
                push_field(&mut payload, *client_id);
                let mut body = worm_body.make_bytes();
                proof {
                    lemma_positions_bytes_len(worm_body@.positions);
                }
                payload.append(&mut body);
                encode_frame(TYPE_MOVE, payload.as_slice())
            },
            MessageFromServer::ResEat { client_id, food_amount, is_ok } => {
                push_field(&mut payload, *client_id);
                push_field(&mut payload, *food_amount);
                payload.push(if *is_ok { 1 } else { 0 });
                encode_frame(TYPE_EAT, payload.as_slice())
            },
            MessageFromServer::ResDie { client_id } => {
                push_field(&mut payload, *client_id);
                encode_frame(TYPE_DIE, payload.as_slice())
            },
        }
    }
}

} // verus!
