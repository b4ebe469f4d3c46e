use aes::cipher::{AsyncStreamCipher, NewCipher};
use aes::Aes128;
use cfb8::Cfb8;
use minecraft_protocol::connection::{Connection, ConnectionAction, Packet};
use minecraft_protocol::crypto::{ServerKeys, SessionCipher};
use minecraft_protocol::errors::ProtoError;
use minecraft_protocol::protocol::{ConnectionState, Reader, Writer};

const STATUS_JSON: &str = "{\"version\":{\"name\":\"1.19.4\",\"protocol\":762}}";
const FAREWELL_JSON: &str = "{\"text\":\"Goodbye\"}";

fn fresh_connection(online_mode: bool) -> Connection {
    Connection::new(online_mode, STATUS_JSON.to_string(), FAREWELL_JSON.to_string())
}

fn ciphered_connection(key: [u8; 16]) -> Connection {
    let mut conn = fresh_connection(true);
    conn.state = ConnectionState::Play;
    conn.shared_secret = Some(key);
    conn.cipher = Some(SessionCipher::new(key));
    conn
}

fn handshake_packet(next_state: i32) -> Packet {
    let mut w = Writer::new();
    w.write_varint(762);
    w.write_string("localhost");
    w.write_u16(25565);
    w.write_varint(next_state);
    Packet { id: 0, data: w.into_bytes() }
}

#[test]
fn packet_round_trip() {
    let packet = Packet { id: 0x2a, data: vec![1, 2, 3, 4] };
    let bytes = packet.encode();
    let back = Packet::decode(&bytes).unwrap();
    assert_eq!(back.id, 0x2a);
    assert_eq!(back.data, vec![1, 2, 3, 4]);
}

#[test]
fn packet_round_trip_negative_id() {
    let packet = Packet { id: -7, data: vec![] };
    let back = Packet::decode(&packet.encode()).unwrap();
    assert_eq!(back.id, -7);
    assert_eq!(back.data, Vec::<u8>::new());
}

#[test]
fn frame_round_trip_without_cipher() {
    let mut sender = fresh_connection(true);
    let mut receiver = fresh_connection(true);
    let packet = Packet { id: 1, data: vec![9, 9, 9] };
    let frame = sender.encode_frame(&packet);
    // the frame is a plain varint length followed by the body
    let mut r = Reader::new(&frame);
    let declared = r.read_varint().unwrap() as usize;
    let body = r.get_leftover_bytes().to_vec();
    assert_eq!(declared, body.len());
    let back = receiver.decode_frame(body).unwrap();
    assert_eq!(back.id, 1);
    assert_eq!(back.data, vec![9, 9, 9]);
}

#[test]
fn frame_round_trip_with_cipher_both_directions() {
    let key: [u8; 16] = [0x11; 16];
    let mut server = ciphered_connection(key);
    // the client keeps one cipher instance, exactly like the server
    let mut client: Cfb8<Aes128> = Cfb8::new_from_slices(&key, &key).unwrap();

    // server -> client: the whole frame (length varint included) is ciphered
    let packet = Packet { id: 5, data: vec![1, 2, 3] };
    let mut wire = server.encode_frame(&packet);
    client.decrypt(&mut wire);
    let mut r = Reader::new(&wire);
    let declared = r.read_varint().unwrap() as usize;
    let body = r.get_leftover_bytes().to_vec();
    assert_eq!(declared, body.len());
    let back = Packet::decode(&body).unwrap();
    assert_eq!(back.id, 5);
    assert_eq!(back.data, vec![1, 2, 3]);

    // client -> server: the body alone is ciphered; the server's register
    // carries over from the frame it just sent
    let inner = Packet { id: 0, data: vec![7, 7] }.encode();
    let mut body = inner.clone();
    client.encrypt(&mut body);
    let back = server.decode_frame(body).unwrap();
    assert_eq!(back.id, 0);
    assert_eq!(back.data, vec![7, 7]);
}

#[test]
fn cipher_encrypt_then_decrypt_is_identity_across_frames() {
    let key: [u8; 16] = [0xab; 16];
    let plain1: Vec<u8> = b"first frame".to_vec();
    let plain2: Vec<u8> = b"second frame".to_vec();
    let mut enc = SessionCipher::new(key);
    let c1 = enc.encrypt(&plain1);
    let c2 = enc.encrypt(&plain2);
    assert_ne!(c1, plain1, "encryption must change the bytes");
    let mut dec = SessionCipher::new(key);
    assert_eq!(dec.decrypt(&c1), plain1);
    assert_eq!(dec.decrypt(&c2), plain2);
    // decrypting frame 2 depends on having decrypted frame 1
    let mut cold = SessionCipher::new(key);
    assert_ne!(cold.decrypt(&c2), plain2);
}

#[test]
fn cipher_matches_reference_implementation() {
    let key: [u8; 16] = [0x42; 16];
    let plain: Vec<u8> = b"reference check".to_vec();
    let mut ours = SessionCipher::new(key);
    let ciphered = ours.encrypt(&plain);
    let mut reference: Cfb8<Aes128> = Cfb8::new_from_slices(&key, &key).unwrap();
    let mut expected = plain.clone();
    reference.encrypt(&mut expected);
    assert_eq!(ciphered, expected);
}

#[test]
fn handshake_next_state_one_transitions_to_status() {
    let keys = ServerKeys::generate().unwrap();
    let mut conn = fresh_connection(true);
    let action = conn.handle_packet(handshake_packet(1), &keys).unwrap();
    assert!(matches!(action, ConnectionAction::Continue));
    assert_eq!(conn.state, ConnectionState::Status);
}

#[test]
fn handshake_next_state_two_transitions_to_login() {
    let keys = ServerKeys::generate().unwrap();
    let mut conn = fresh_connection(true);
    let action = conn.handle_packet(handshake_packet(2), &keys).unwrap();
    assert!(matches!(action, ConnectionAction::Continue));
    assert_eq!(conn.state, ConnectionState::Login);
}

#[test]
fn handshake_other_next_state_fails_without_transition() {
    let keys = ServerKeys::generate().unwrap();
    let mut conn = fresh_connection(true);
    let r = conn.handle_packet(handshake_packet(3), &keys);
    assert!(matches!(r, Err(ProtoError::InvalidNextState)));
    assert_eq!(conn.state, ConnectionState::Handshaking);
}

#[test]
fn handshake_wrong_packet_id_is_unexpected() {
    let keys = ServerKeys::generate().unwrap();
    let mut conn = fresh_connection(true);
    let r = conn.handle_packet(Packet { id: 1, data: vec![] }, &keys);
    assert!(matches!(r, Err(ProtoError::UnexpectedPacket)));
    assert_eq!(conn.state, ConnectionState::Handshaking);
}

#[test]
fn status_request_answered_in_place() {
    let keys = ServerKeys::generate().unwrap();
    let mut conn = fresh_connection(true);
    conn.state = ConnectionState::Status;
    let action = conn.handle_packet(Packet { id: 0, data: vec![] }, &keys).unwrap();
    let response = match action {
        ConnectionAction::Send(p) => p,
        _ => panic!("expected a response packet"),
    };
    assert_eq!(response.id, 0);
    let mut r = Reader::new(&response.data);
    assert_eq!(r.read_string().as_deref(), Ok(STATUS_JSON));
    assert_eq!(conn.state, ConnectionState::Status);
}

#[test]
fn status_ping_echoed_then_done() {
    let keys = ServerKeys::generate().unwrap();
    let mut conn = fresh_connection(true);
    conn.state = ConnectionState::Status;
    let mut w = Writer::new();
    w.write_i64(123_456_789);
    let action = conn.handle_packet(Packet { id: 1, data: w.into_bytes() }, &keys).unwrap();
    let pong = match action {
        ConnectionAction::Send(p) => p,
        _ => panic!("expected a pong packet"),
    };
    assert_eq!(pong.id, 1);
    assert_eq!(pong.data, 123_456_789i64.to_be_bytes().to_vec());
    assert_eq!(conn.state, ConnectionState::Done);
}

#[test]
fn status_unknown_id_is_unexpected() {
    let keys = ServerKeys::generate().unwrap();
    let mut conn = fresh_connection(true);
    conn.state = ConnectionState::Status;
    let r = conn.handle_packet(Packet { id: 7, data: vec![] }, &keys);
    assert!(matches!(r, Err(ProtoError::UnexpectedPacket)));
}

#[test]
fn offline_login_start_disconnects() {
    let keys = ServerKeys::generate().unwrap();
    let mut conn = fresh_connection(false);
    conn.state = ConnectionState::Login;
    let mut w = Writer::new();
    w.write_string("Alice");
    w.write_bool(false);
    let action = conn.handle_packet(Packet { id: 0, data: w.into_bytes() }, &keys).unwrap();
    let farewell = match action {
        ConnectionAction::Send(p) => p,
        _ => panic!("expected a disconnect packet"),
    };
    assert_eq!(farewell.id, 0);
    let mut r = Reader::new(&farewell.data);
    assert_eq!(r.read_string().as_deref(), Ok(FAREWELL_JSON));
    assert_eq!(conn.state, ConnectionState::Done);
    assert_eq!(conn.player.as_ref().map(|p| p.username.as_str()), Some("Alice"));
}

#[test]
fn login_plugin_response_is_fatal() {
    let keys = ServerKeys::generate().unwrap();
    let mut conn = fresh_connection(true);
    conn.state = ConnectionState::Login;
    let r = conn.handle_packet(Packet { id: 2, data: vec![] }, &keys);
    assert!(matches!(r, Err(ProtoError::UnexpectedPacket)));
}

#[test]
fn done_accepts_nothing() {
    let keys = ServerKeys::generate().unwrap();
    let mut conn = fresh_connection(true);
    conn.state = ConnectionState::Done;
    let r = conn.handle_packet(Packet { id: 0, data: vec![] }, &keys);
    assert!(matches!(r, Err(ProtoError::UnexpectedPacket)));
}

#[test]
fn play_packets_are_discarded() {
    let keys = ServerKeys::generate().unwrap();
    let mut conn = fresh_connection(true);
    conn.state = ConnectionState::Play;
    let action = conn.handle_packet(Packet { id: 99, data: vec![1] }, &keys).unwrap();
    assert!(matches!(action, ConnectionAction::Continue));
    assert_eq!(conn.state, ConnectionState::Play);
}
