use wormnet::connection::{Connection, FrameEvent};
use wormnet::error::{NetworkError, RuleError};
use wormnet::message::encode_frame;
use wormnet::message_from_client::MessageFromClient;
use wormnet::message_from_server::MessageFromServer;
use wormnet::util::{color_to_bytes, positions_to_bytes};
use wormnet::worm_body::WormBody;

fn gray() -> (u32, u32, u32, u32) {
    (
        0.5019608_f32.to_bits(),
        0.5019608_f32.to_bits(),
        0.5019608_f32.to_bits(),
        1.0_f32.to_bits(),
    )
}

fn three_points() -> Vec<(u32, u32)> {
    vec![
        (1_f32.to_bits(), 1_f32.to_bits()),
        (2_f32.to_bits(), 2_f32.to_bits()),
        (3_f32.to_bits(), 3_f32.to_bits()),
    ]
}

fn body_of(client_id: usize) -> WormBody {
    let bytes = [color_to_bytes(&gray()), positions_to_bytes(&three_points())].concat();
    WormBody::new(client_id, &bytes).unwrap()
}

fn join_id(e: &FrameEvent) -> Option<usize> {
    match e {
        FrameEvent::Message(MessageFromClient::ReqJoin { client_id }) => Some(*client_id),
        _ => None,
    }
}

#[test]
fn message_from_client_test_good_size_packet() {
    let client_id = 1234;
    let mut conn = Connection::new();
    let packet = MessageFromClient::ReqJoin { client_id }.make_bytes();
    let events = conn.receive(&packet);
    assert_eq!(events.len(), 1);
    assert_eq!(join_id(&events[0]), Some(1234));

    let packet = MessageFromClient::ReqLeave { client_id }.make_bytes();
    let events = conn.receive(&packet);
    assert_eq!(events.len(), 1);
    assert!(matches!(
        events[0],
        FrameEvent::Message(MessageFromClient::ReqLeave { client_id: 1234 })
    ));
    assert!(conn.buffered().is_empty());
    assert!(!conn.is_closed());
}

#[test]
fn message_from_client_test_divided_2_packets() {
    let client_id = 1234;
    let packet = MessageFromClient::ReqJoin { client_id }.make_bytes();
    assert_eq!(packet, vec![0x00, 0x03, 0x65, 0x04, 0xD2]);
    let mut conn = Connection::new();
    assert!(conn.receive(&packet[..2]).is_empty());
    let events = conn.receive(&packet[2..]);
    assert_eq!(events.len(), 1);
    assert_eq!(join_id(&events[0]), Some(1234));
    assert!(conn.buffered().is_empty());
}

#[test]
fn message_from_client_test_divided_3_packets() {
    let client_id = 1234;
    let packet = MessageFromClient::ReqJoin { client_id }.make_bytes();
    let mut conn = Connection::new();
    assert!(conn.receive(&packet[..2]).is_empty());
    assert!(conn.receive(&[packet[2]]).is_empty());
    let events = conn.receive(&packet[3..]);
    assert_eq!(events.len(), 1);
    assert_eq!(join_id(&events[0]), Some(1234));
    assert!(conn.buffered().is_empty());
}

#[test]
fn message_from_client_test_req_move() {
    let client_id = 1234;
    let worm_body = body_of(client_id);
    let packet = MessageFromClient::ReqMove { client_id, worm_body }.make_bytes();
    // length, type, id, 16 bytes of color, 3 points of 8 bytes
    assert_eq!(packet.len(), 2 + 1 + 2 + 16 + 24);
    assert_eq!(&packet[..5], &[0x00, 0x2B, 201, 0x04, 0xD2]);
    let mut conn = Connection::new();
    let events = conn.receive(&packet);
    assert_eq!(events.len(), 1);
    match &events[0] {
        FrameEvent::Message(MessageFromClient::ReqMove { client_id, worm_body }) => {
            assert_eq!(*client_id, 1234);
            assert_eq!(worm_body.client_id, 1234);
            assert_eq!(worm_body.color, gray());
            assert_eq!(worm_body.positions, three_points());
        }
        other => panic!("unexpected event {:?}", other),
    }
}

#[test]
fn server_test_good_size_packet() {
    let client_id = 1234;
    let mut packets = MessageFromClient::ReqJoin { client_id }.make_bytes();
    packets.extend(MessageFromClient::ReqLeave { client_id }.make_bytes());
    let mut conn = Connection::new();
    let events = conn.receive(&packets);
    assert_eq!(events.len(), 2);
    assert_eq!(join_id(&events[0]), Some(1234));
    assert!(matches!(
        events[1],
        FrameEvent::Message(MessageFromClient::ReqLeave { client_id: 1234 })
    ));
}

#[test]
fn server_test_divided_2_packets() {
    let packet = MessageFromClient::ReqJoin { client_id: 1234 }.make_bytes();
    let mut conn = Connection::new();
    let mut events = conn.receive(&packet[..2]);
    events.extend(conn.receive(&packet[2..]));
    assert_eq!(events.len(), 1);
    assert_eq!(join_id(&events[0]), Some(1234));
}

#[test]
fn server_test_divided_3_packets() {
    let packet = MessageFromClient::ReqJoin { client_id: 1234 }.make_bytes();
    let mut conn = Connection::new();
    let mut events = conn.receive(&packet[..2]);
    events.extend(conn.receive(&[packet[2]]));
    events.extend(conn.receive(&packet[3..]));
    assert_eq!(events.len(), 1);
    assert_eq!(join_id(&events[0]), Some(1234));
}

#[test]
fn server_test_req_move() {
    let client_id = 1234;
    let packet = MessageFromClient::ReqMove { client_id, worm_body: body_of(client_id) }.make_bytes();
    let mut conn = Connection::new();
    let mut events = conn.receive(&packet[..10]);
    assert!(events.is_empty());
    events.extend(conn.receive(&packet[10..]));
    assert_eq!(events.len(), 1);
    assert!(matches!(
        events[0],
        FrameEvent::Message(MessageFromClient::ReqMove { client_id: 1234, .. })
    ));
}

#[test]
fn test_join_and_leave() {
    let client_id = 1234;
    let join = MessageFromServer::ResJoin { client_id, worm_body: WormBody::random(client_id) };
    let packet = join.make_bytes();
    match MessageFromServer::new(&packet[2..]).unwrap() {
        MessageFromServer::ResJoin { client_id, worm_body } => {
            assert_eq!(client_id, 1234);
            assert_eq!(worm_body.client_id, 1234);
            assert_eq!(worm_body.color, (0, 0, 0, 0));
            assert_eq!(worm_body.positions.len(), 6);
        }
        other => panic!("unexpected message {:?}", other),
    }
    let packet = MessageFromServer::ResLeave { client_id }.make_bytes();
    assert_eq!(packet, vec![0x00, 0x03, 102, 0x04, 0xD2]);
    assert!(matches!(
        MessageFromServer::new(&packet[2..]).unwrap(),
        MessageFromServer::ResLeave { client_id: 1234 }
    ));
}

#[test]
fn message_from_server_test_req_move() {
    let client_id = 1234;
    let packet = MessageFromServer::ResMove { client_id, worm_body: body_of(client_id) }.make_bytes();
    match MessageFromServer::new(&packet[2..]).unwrap() {
        MessageFromServer::ResMove { client_id, worm_body } => {
            assert_eq!(client_id, 1234);
            assert_eq!(worm_body.color, gray());
            assert_eq!(worm_body.positions, three_points());
        }
        other => panic!("unexpected message {:?}", other),
    }
}

#[test]
fn mod_test_good_size_packet() {
    let packet = MessageFromServer::ResEat { client_id: 1234, food_amount: 100, is_ok: true }.make_bytes();
    assert_eq!(packet, vec![0x00, 0x06, 202, 0x04, 0xD2, 0x00, 0x64, 0x01]);
    assert!(matches!(
        MessageFromServer::new(&packet[2..]).unwrap(),
        MessageFromServer::ResEat { client_id: 1234, food_amount: 100, is_ok: true }
    ));
    let packet = MessageFromServer::ResDie { client_id: 1234 }.make_bytes();
    assert_eq!(packet, vec![0x00, 0x03, 203, 0x04, 0xD2]);
}

#[test]
fn mod_test_divided_2_packets() {
    let packet = MessageFromClient::ReqEat { client_id: 1234, food_amount: 100 }.make_bytes();
    assert_eq!(packet, vec![0x00, 0x05, 202, 0x04, 0xD2, 0x00, 0x64]);
    let mut conn = Connection::new();
    let mut events = conn.receive(&packet[..4]);
    events.extend(conn.receive(&packet[4..]));
    assert_eq!(events.len(), 1);
    assert!(matches!(
        events[0],
        FrameEvent::Message(MessageFromClient::ReqEat { client_id: 1234, food_amount: 100 })
    ));
}

#[test]
fn mod_test_divided_3_packets() {
    let packet = MessageFromClient::ReqDie { client_id: 1234 }.make_bytes();
    let mut conn = Connection::new();
    let mut events = conn.receive(&packet[..1]);
    events.extend(conn.receive(&packet[1..4]));
    assert!(events.is_empty());
    events.extend(conn.receive(&packet[4..]));
    assert_eq!(events.len(), 1);
    assert!(matches!(
        events[0],
        FrameEvent::Message(MessageFromClient::ReqDie { client_id: 1234 })
    ));
}

#[test]
fn mod_test_req_move() {
    let client_id = 1234;
    let packet = MessageFromClient::ReqMove { client_id, worm_body: body_of(client_id) }.make_bytes();
    let decoded = MessageFromClient::new(&packet[2..]).unwrap();
    match decoded {
        MessageFromClient::ReqMove { client_id, worm_body } => {
            assert_eq!(client_id, 1234);
            assert_eq!(worm_body.positions, three_points());
        }
        other => panic!("unexpected message {:?}", other),
    }
}

#[test]
fn unknown_type_closes_after_earlier_frames() {
    let mut bytes = MessageFromClient::ReqJoin { client_id: 7 }.make_bytes();
    bytes.extend(encode_frame(199, &[1, 2, 3]));
    bytes.extend(MessageFromClient::ReqLeave { client_id: 7 }.make_bytes());
    let mut conn = Connection::new();
    let events = conn.receive(&bytes);
    assert_eq!(events.len(), 2);
    assert_eq!(join_id(&events[0]), Some(7));
    assert!(matches!(events[1], FrameEvent::Fatal(RuleError::InvalidPacketType(199))));
    assert!(conn.is_closed());
    // a closed connection takes nothing more
    let packet = MessageFromClient::ReqJoin { client_id: 8 }.make_bytes();
    assert!(conn.receive(&packet).is_empty());
}

#[test]
fn unknown_type_with_empty_payload_is_fatal() {
    let mut conn = Connection::new();
    let events = conn.receive(&[0x00, 0x01, 199]);
    assert_eq!(events.len(), 1);
    assert!(matches!(events[0], FrameEvent::Fatal(RuleError::InvalidPacketType(199))));
    assert!(conn.is_closed());
}

#[test]
fn malformed_positions_keep_connection_open() {
    // color (16 bytes) followed by 7 bytes that are not a whole point
    let mut payload = vec![0x04, 0xD2];
    payload.extend(color_to_bytes(&gray()));
    payload.extend([1, 2, 3, 4, 5, 6, 7]);
    let mut bytes = encode_frame(201, &payload);
    bytes.extend(MessageFromClient::ReqJoin { client_id: 1234 }.make_bytes());
    let mut conn = Connection::new();
    let events = conn.receive(&bytes);
    assert_eq!(events.len(), 2);
    assert!(matches!(
        events[0],
        FrameEvent::Malformed(NetworkError::InvalidMsg { input_length: 7 })
    ));
    assert_eq!(join_id(&events[1]), Some(1234));
    assert!(!conn.is_closed());
}

#[test]
fn malformed_short_frames_are_skipped() {
    let mut bytes = vec![0x00, 0x00];
    bytes.extend([0x00, 0x02, 101, 0x04]);
    bytes.extend([0x00, 0x04, 202, 0x04, 0xD2, 0x00]);
    bytes.extend([0x00, 0x0A, 201, 0x04, 0xD2, 1, 2, 3, 4, 5, 6, 7]);
    let mut conn = Connection::new();
    let events = conn.receive(&bytes);
    assert_eq!(events.len(), 4);
    assert!(matches!(events[0], FrameEvent::Malformed(NetworkError::TooShortMsg)));
    assert!(matches!(
        events[1],
        FrameEvent::Malformed(NetworkError::ShortMsg { expected_length: 2, actual_length: 1 })
    ));
    assert!(matches!(
        events[2],
        FrameEvent::Malformed(NetworkError::ShortMsg { expected_length: 2, actual_length: 1 })
    ));
    assert!(matches!(
        events[3],
        FrameEvent::Malformed(NetworkError::ShortMsg { expected_length: 16, actual_length: 7 })
    ));
    assert!(!conn.is_closed());
}

#[test]
fn trailing_partial_frame_stays_buffered() {
    let mut bytes = MessageFromClient::ReqJoin { client_id: 1 }.make_bytes();
    bytes.extend([0x00, 0x03, 102]);
    let mut conn = Connection::new();
    let events = conn.receive(&bytes);
    assert_eq!(events.len(), 1);
    assert_eq!(conn.buffered(), &[0x00, 0x03, 102]);
    let events = conn.receive(&[0x00, 0x01]);
    assert_eq!(events.len(), 1);
    assert!(matches!(
        events[0],
        FrameEvent::Message(MessageFromClient::ReqLeave { client_id: 1 })
    ));
    assert!(conn.buffered().is_empty());
}

#[test]
fn next_event_waits_and_steps() {
    let mut conn = Connection::new();
    assert!(conn.next_event().is_none());
    assert!(conn.receive(&[0x00]).is_empty());
    assert!(conn.next_event().is_none());
    assert_eq!(conn.buffered(), &[0x00]);
    assert!(!conn.is_closed());

    let mut conn = Connection::new();
    assert!(conn.receive(&[0x00, 0x05]).is_empty());
    assert!(conn.next_event().is_none());
    assert_eq!(conn.buffered(), &[0x00, 0x05]);
    assert!(!conn.is_closed());
}
