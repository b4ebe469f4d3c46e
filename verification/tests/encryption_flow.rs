use minecraft_protocol::connection::{Connection, ConnectionAction, Packet};
use minecraft_protocol::crypto::ServerKeys;
use minecraft_protocol::errors::ProtoError;
use minecraft_protocol::protocol::{
    ConnectionState, EncryptionResponse, LoginSuccess, ProfileProperty, Reader, Writer,
};
use openssl::rsa::{Padding, Rsa};

const STATUS_JSON: &str = "{\"version\":{\"name\":\"1.19.4\",\"protocol\":762}}";
const FAREWELL_JSON: &str = "{\"text\":\"Goodbye\"}";

fn rsa_encrypt_to(pub_der: &[u8], plain: &[u8]) -> Vec<u8> {
    let key = Rsa::public_key_from_der(pub_der).unwrap();
    let mut out = vec![0u8; key.size() as usize];
    let n = key.public_encrypt(plain, &mut out, Padding::PKCS1).unwrap();
    out.truncate(n);
    out
}

fn handshake_packet(next_state: i32) -> Packet {
    let mut w = Writer::new();
    w.write_varint(762);
    w.write_string("localhost");
    w.write_u16(25565);
    w.write_varint(next_state);
    Packet { id: 0, data: w.into_bytes() }
}

fn login_start_packet(name: &str) -> Packet {
    let mut w = Writer::new();
    w.write_string(name);
    w.write_bool(false);
    Packet { id: 0, data: w.into_bytes() }
}

fn encryption_response_packet(secret_ct: &[u8], token_ct: &[u8]) -> Packet {
    let mut w = Writer::new();
    w.write_varint(secret_ct.len() as i32);
    w.write_raw(secret_ct);
    w.write_varint(token_ct.len() as i32);
    w.write_raw(token_ct);
    Packet { id: 1, data: w.into_bytes() }
}

/// Drives a fresh online-mode connection through handshake and login
/// start; returns the connection, the key pair, and the public key the
/// encryption request carried.
fn reach_encryption(name: &str) -> (Connection, ServerKeys, Vec<u8>) {
    let keys = ServerKeys::generate().unwrap();
    let mut conn = Connection::new(true, STATUS_JSON.to_string(), FAREWELL_JSON.to_string());
    let action = conn.handle_packet(handshake_packet(2), &keys).unwrap();
    assert!(matches!(action, ConnectionAction::Continue));
    assert_eq!(conn.state, ConnectionState::Login);
    let action = conn.handle_packet(login_start_packet(name), &keys).unwrap();
    let request = match action {
        ConnectionAction::Send(p) => p,
        _ => panic!("expected an encryption request"),
    };
    assert_eq!(request.id, 1);
    // the request carries the empty server id, the public key and the
    // verify challenge
    let mut r = Reader::new(&request.data);
    assert_eq!(r.read_string().as_deref(), Ok(""));
    let pub_der = r.read_byte_array().unwrap();
    let token = r.read_byte_array().unwrap();
    assert_eq!(token, conn.verify_token.to_vec());
    assert!(r.get_leftover_bytes().is_empty());
    (conn, keys, pub_der)
}

#[test]
fn tampered_verify_echo_fails_and_installs_nothing() {
    let (mut conn, keys, pub_der) = reach_encryption("Alice");
    let secret: [u8; 16] = [5; 16];
    let mut echo = conn.verify_token;
    echo[0] ^= 0x01;  // a single flipped bit
    let packet = encryption_response_packet(
        &rsa_encrypt_to(&pub_der, &secret),
        &rsa_encrypt_to(&pub_der, &echo),
    );
    let r = conn.handle_packet(packet, &keys);
    assert!(matches!(r, Err(ProtoError::AuthIntegrityFailure)));
    assert!(conn.shared_secret.is_none());
    assert!(conn.cipher.is_none());
    assert_eq!(conn.state, ConnectionState::Login);
}

#[test]
fn garbage_ciphertext_is_a_crypto_failure() {
    let (mut conn, keys, _pub_der) = reach_encryption("Alice");
    let packet = encryption_response_packet(&[0u8; 128], &[0u8; 128]);
    let r = conn.handle_packet(packet, &keys);
    assert!(matches!(r, Err(ProtoError::CryptoFailure)));
    assert!(conn.shared_secret.is_none());
    assert!(conn.cipher.is_none());
}

#[test]
fn encryption_response_before_login_start_is_unexpected() {
    let keys = ServerKeys::generate().unwrap();
    let mut conn = Connection::new(true, STATUS_JSON.to_string(), FAREWELL_JSON.to_string());
    conn.state = ConnectionState::Login;
    let response = EncryptionResponse { shared_secret: vec![1], verify_token: vec![2] };
    let r = conn.handle_encryption_response(response, &keys);
    assert!(matches!(r, Err(ProtoError::UnexpectedPacket)));
}

#[test]
fn auth_request_before_key_install_is_missing_shared_secret() {
    let keys = ServerKeys::generate().unwrap();
    let conn = Connection::new(true, STATUS_JSON.to_string(), FAREWELL_JSON.to_string());
    let r = conn.auth_request(&keys);
    assert!(matches!(r, Err(ProtoError::MissingSharedSecret)));
}

#[test]
fn valid_encryption_response_installs_key_and_queries_authority() {
    let (mut conn, keys, pub_der) = reach_encryption("Alice");
    let secret: [u8; 16] = [0xc3; 16];
    let echo = conn.verify_token;
    let packet = encryption_response_packet(
        &rsa_encrypt_to(&pub_der, &secret),
        &rsa_encrypt_to(&pub_der, &echo),
    );
    let action = conn.handle_packet(packet, &keys).unwrap();
    let request = match action {
        ConnectionAction::Authenticate(a) => a,
        _ => panic!("expected an authentication request"),
    };
    assert_eq!(request.username, "Alice");
    assert_eq!(request.server_hash, mojang_api::server_hash("", secret, &pub_der));
    assert_eq!(conn.shared_secret, Some(secret));
    assert!(conn.cipher.is_some());
    assert_eq!(conn.state, ConnectionState::Login);
}

#[test]
fn end_to_end_login_reaches_play_with_identity() {
    let (mut conn, keys, pub_der) = reach_encryption("Alice");
    let secret: [u8; 16] = [0x77; 16];
    let echo = conn.verify_token;
    let packet = encryption_response_packet(
        &rsa_encrypt_to(&pub_der, &secret),
        &rsa_encrypt_to(&pub_der, &echo),
    );
    let action = conn.handle_packet(packet, &keys).unwrap();
    let request = match action {
        ConnectionAction::Authenticate(a) => a,
        _ => panic!("expected an authentication request"),
    };
    assert_eq!(request.username, "Alice");

    // a stubbed session authority answers with a fixed identity
    let id: u128 = 0x4566e69f_c907_48ee_8d71_d7ba5aa00d20;
    let identity = LoginSuccess {
        uuid: id,
        username: "Alice".to_string(),
        properties: vec![ProfileProperty {
            name: "textures".to_string(),
            value: "dGV4dHVyZQ==".to_string(),
            signature: "c2ln".to_string(),
        }],
    };
    let success = conn.complete_login(identity);
    assert_eq!(success.id, 2);
    assert_eq!(conn.state, ConnectionState::Play);
    let mut r = Reader::new(&success.data);
    assert_eq!(r.read_uuid(), Ok(id));
    assert_eq!(r.read_string().as_deref(), Ok("Alice"));
    assert_eq!(r.read_varint(), Ok(1));
}
