use minecraft_protocol::errors::ProtoError;
use minecraft_protocol::protocol::{
    ConnectionState, EncryptionRequest, EncryptionResponse, Handshake, LoginDisconnect,
    LoginStart, LoginSuccess, ProfileProperty, Reader, StatusPing, StatusPong, StatusRequest,
    StatusResponse, Writer,
};

fn handshake_payload(version: i32, addr: &str, port: u16, next_state: i32) -> Vec<u8> {
    let mut w = Writer::new();
    w.write_varint(version);
    w.write_string(addr);
    w.write_u16(port);
    w.write_varint(next_state);
    w.into_bytes()
}

#[test]
fn handshake_decode_status() {
    let h = Handshake::decode(&handshake_payload(762, "localhost", 25565, 1)).unwrap();
    assert_eq!(h.protocol_version, 762);
    assert_eq!(h.server_address, "localhost");
    assert_eq!(h.server_port, 25565);
    assert_eq!(h.next_state, ConnectionState::Status);
}

#[test]
fn handshake_decode_login() {
    let h = Handshake::decode(&handshake_payload(762, "example.net", 1024, 2)).unwrap();
    assert_eq!(h.next_state, ConnectionState::Login);
}

#[test]
fn handshake_decode_invalid_next_state() {
    for bad in [0, 3, -1, 42] {
        let r = Handshake::decode(&handshake_payload(762, "x", 1, bad));
        assert!(matches!(r, Err(ProtoError::InvalidNextState)), "field {bad}");
    }
}

#[test]
fn handshake_decode_truncated() {
    let r = Handshake::decode(&[0x01, 0x02]);
    assert!(matches!(r, Err(ProtoError::BufferUnderrun)));
}

#[test]
fn status_request_decode_accepts_anything() {
    assert!(StatusRequest::decode(&[]).is_ok());
    assert!(StatusRequest::decode(&[1, 2, 3]).is_ok());
}

#[test]
fn status_response_encode_is_length_prefixed_json() {
    let json = "{\"description\":{\"text\":\"Hello, world!\"}}";
    let response = StatusResponse::new(json.to_string());
    let enc = response.encode();
    let mut r = Reader::new(&enc);
    assert_eq!(r.read_string().as_deref(), Ok(json));
    assert!(r.get_leftover_bytes().is_empty());
}

#[test]
fn status_ping_pong_echo() {
    let mut w = Writer::new();
    w.write_i64(123_456_789);
    let ping = StatusPing::decode(&w.into_bytes()).unwrap();
    assert_eq!(ping.payload, 123_456_789);
    let pong = StatusPong::from_ping(ping);
    assert_eq!(pong.payload, 123_456_789);
    assert_eq!(pong.encode(), 123_456_789i64.to_be_bytes().to_vec());
}

#[test]
fn login_start_decode_without_uuid() {
    let mut w = Writer::new();
    w.write_string("Alice");
    w.write_bool(false);
    let ls = LoginStart::decode(&w.into_bytes()).unwrap();
    assert_eq!(ls.username, "Alice");
    assert_eq!(ls.uuid, None);
}

#[test]
fn login_start_decode_with_uuid() {
    let id: u128 = 0x4566e69f_c907_48ee_8d71_d7ba5aa00d20;
    let mut w = Writer::new();
    w.write_string("Alice");
    w.write_bool(true);
    w.write_uuid(id);
    let ls = LoginStart::decode(&w.into_bytes()).unwrap();
    assert_eq!(ls.username, "Alice");
    assert_eq!(ls.uuid, Some(id));
}

#[test]
fn login_start_decode_truncated_uuid() {
    let mut w = Writer::new();
    w.write_string("Alice");
    w.write_bool(true);
    w.write_u16(7);
    let r = LoginStart::decode(&w.into_bytes());
    assert!(matches!(r, Err(ProtoError::BufferUnderrun)));
}

#[test]
fn encryption_request_encode_layout() {
    let request = EncryptionRequest::new(vec![0xde, 0xad, 0xbe, 0xef], [9, 8, 7, 6]);
    assert_eq!(request.server_id, "");
    let enc = request.encode();
    let mut r = Reader::new(&enc);
    assert_eq!(r.read_string().as_deref(), Ok(""));
    assert_eq!(r.read_byte_array(), Ok(vec![0xde, 0xad, 0xbe, 0xef]));
    assert_eq!(r.read_byte_array(), Ok(vec![9, 8, 7, 6]));
    assert!(r.get_leftover_bytes().is_empty());
}

#[test]
fn encryption_response_decode() {
    let mut w = Writer::new();
    w.write_varint(3);
    w.write_raw(&[1, 2, 3]);
    w.write_varint(2);
    w.write_raw(&[4, 5]);
    let er = EncryptionResponse::decode(&w.into_bytes()).unwrap();
    assert_eq!(er.shared_secret, vec![1, 2, 3]);
    assert_eq!(er.verify_token, vec![4, 5]);
}

#[test]
fn encryption_response_decode_truncated() {
    let r = EncryptionResponse::decode(&[0x03, 0x01]);
    assert!(matches!(r, Err(ProtoError::BufferUnderrun)));
}

#[test]
fn login_success_encode_layout() {
    let id: u128 = 0x4566e69f_c907_48ee_8d71_d7ba5aa00d20;
    let success = LoginSuccess {
        uuid: id,
        username: "Alice".to_string(),
        properties: vec![ProfileProperty {
            name: "textures".to_string(),
            value: "dGV4dHVyZQ==".to_string(),
            signature: "c2lnbmF0dXJl".to_string(),
        }],
    };
    let enc = success.encode();
    let mut r = Reader::new(&enc);
    assert_eq!(r.read_uuid(), Ok(id));
    assert_eq!(r.read_string().as_deref(), Ok("Alice"));
    assert_eq!(r.read_varint(), Ok(1));
    assert_eq!(r.read_string().as_deref(), Ok("textures"));
    assert_eq!(r.read_string().as_deref(), Ok("dGV4dHVyZQ=="));
    assert_eq!(r.read_bool(), Ok(true));
    assert_eq!(r.read_string().as_deref(), Ok("c2lnbmF0dXJl"));
    assert!(r.get_leftover_bytes().is_empty());
}

#[test]
fn login_disconnect_encode() {
    let reason = "{\"text\":\"Goodbye\"}";
    let disconnect = LoginDisconnect::new(reason.to_string());
    let enc = disconnect.encode();
    let mut r = Reader::new(&enc);
    assert_eq!(r.read_string().as_deref(), Ok(reason));
}
