//! One connection's protocol engine: the packet framing layer (with the
//! stream cipher once it is active) and the state machine that decides, for
//! each inbound packet, what to answer and where the connection goes next.
//! The machine itself is a specification-level function (`step`); the
//! executable handlers are proved to implement it. Socket reads and writes,
//! and the remote session-authority call, live outside this crate: callers
//! hand frames in and carry answers out.

use vstd::prelude::*;

verus! {

use crate::crypto::{cfb8_decrypted, cfb8_encrypted, random_verify_token, server_hash_of,
    spec_rsa_decrypt, ServerKeys, SessionCipher};
use crate::errors::ProtoError;
use crate::player::{Player, PlayerV};
use crate::protocol::{encryption_request_enc, login_success_enc, login_success_wf,
    parse_encryption_response, parse_handshake, parse_login_start, parse_status_ping,
    ConnectionState, EncryptionRequest, EncryptionResponse, Handshake, LoginDisconnect,
    LoginStart, LoginStartV, LoginSuccess, Reader, StatusPing, StatusPong, StatusRequest,
    StatusResponse, Writer};
use crate::wire::{be16, be64, parse_varint, string_enc, take_pad, u32_bits, u64_bits, varint_enc};
use vstd::slice::slice_to_vec;
use vstd::utf8::encode_utf8;

broadcast use vstd::array::group_array_axioms;

// ---------------------------------------------------------------------------
// Packets and frames.
// ---------------------------------------------------------------------------

/// One packet body: a numeric identifier and an opaque payload.
#[derive(Debug)]
pub struct Packet {
    pub id: i32,
    pub data: Vec<u8>,
}

#[verifier::ext_equal]
pub struct PacketV {
    pub id: i32,
    pub data: Seq<u8>,
}

impl View for Packet {
    type V = PacketV;

    open spec fn view(&self) -> PacketV {
        PacketV { id: self.id, data: self.data@ }
    }
}

/// A packet body on the wire: the id as a varint, then the raw payload.
pub open spec fn packet_enc(p: PacketV) -> Seq<u8> {
    varint_enc(u32_bits(p.id)) + p.data
}

/// What decoding a frame body yields: the leading varint is the id, the
/// rest is the payload.
pub open spec fn parse_packet(s: Seq<u8>) -> Result<PacketV, ProtoError> {
    match parse_varint(s, 0) {
        Ok((id, p)) => Ok((PacketV { id, data: s.subrange(p, s.len() as int) })),
        Err(e) => Err(e),
    }
}

/// A whole frame: the body's byte count as a varint, then the body.
pub open spec fn frame_enc(p: PacketV) -> Seq<u8>
    recommends
        packet_enc(p).len() <= 0x7fff_ffff,
{
    varint_enc(packet_enc(p).len() as u32) + packet_enc(p)
}

impl Packet {
    pub fn decode(bytes: &[u8]) -> (r: Result<Packet, ProtoError>)
        ensures
            match r {
                Ok(p) => parse_packet(bytes@) == Ok::<PacketV, ProtoError>(p@),
                Err(e) => parse_packet(bytes@) == Err::<PacketV, ProtoError>(e),
            },
    {
        let mut cursor = Reader::new(bytes);
        let id = match cursor.read_varint() {
            Ok(v) => v,
            Err(e) => {
                return Err(e);
            },
        };
        let data = slice_to_vec(cursor.get_leftover_bytes());
        Ok(Packet { id, data })
    }

    pub fn encode(&self) -> (r: Vec<u8>)
        ensures
            r@ == packet_enc(self@),
    {
        let mut writer = Writer::new();
        writer.write_varint(self.id);
        writer.write_raw(self.data.as_slice());
        writer.into_bytes()
    }
}

/// Round trip for packet bodies: encoding an id and payload and decoding
/// the result is the identity.
pub proof fn lemma_packet_round_trip(p: PacketV)
    ensures
        parse_packet(packet_enc(p)) == Ok::<PacketV, ProtoError>(p),
{
    let nv = varint_enc(u32_bits(p.id));
    let s = packet_enc(p);
    crate::wire::lemma_varint_enc_len(u32_bits(p.id));
    assert(s.subrange(0, nv.len() as int) =~= nv);
    crate::wire::lemma_parse_varint_at(s, 0, p.id);
    assert(s.subrange(nv.len() as int, s.len() as int) =~= p.data);
    assert(parse_packet(s)->Ok_0 =~= p);
}

/// Round trip for whole frames: the frame's length varint declares exactly
/// the body, the body follows it verbatim, and the body decodes back to
/// the original packet.
pub proof fn lemma_frame_round_trip(p: PacketV)
    requires
        p.data.len() + 5 <= 0x7fff_ffff,
    ensures
        ({
            let body = packet_enc(p);
            let frame = frame_enc(p);
            let lv = varint_enc(body.len() as u32);
            &&& parse_varint(frame, 0) == Ok::<(i32, int), ProtoError>(
                (body.len() as i32, lv.len() as int),
            )
            &&& frame.subrange(lv.len() as int, frame.len() as int) == body
            &&& parse_packet(body) == Ok::<PacketV, ProtoError>(p)
        }),
{
    let body = packet_enc(p);
    let frame = frame_enc(p);
    crate::wire::lemma_varint_enc_len(u32_bits(p.id));
    let n = body.len() as i32;
    assert(u32_bits(n) == body.len() as u32);
    let lv = varint_enc(u32_bits(n));
    assert(frame.subrange(0, lv.len() as int) =~= lv);
    crate::wire::lemma_parse_varint_at(frame, 0, n);
    assert(frame.subrange(lv.len() as int, frame.len() as int) =~= body);
    lemma_packet_round_trip(p);
}

/// Framing round trip under an active cipher: any ciphertext that
/// decrypts, at the matching register state, to the frame of `p` — as
/// `encode_frame`'s contract guarantees of its output — yields `p` back
/// once decrypted: the length varint declares the body, and the body
/// parses to exactly `p`.
pub proof fn lemma_frame_round_trip_ciphered(
    key: Seq<u8>,
    hist: Seq<u8>,
    wire: Seq<u8>,
    p: PacketV,
)
    requires
        p.data.len() + 5 <= 0x7fff_ffff,
        cfb8_decrypted(key, hist, wire) == frame_enc(p),
    ensures
        ({
            let plain = cfb8_decrypted(key, hist, wire);
            let body = packet_enc(p);
            let lv = varint_enc(body.len() as u32);
            &&& parse_varint(plain, 0) == Ok::<(i32, int), ProtoError>(
                (body.len() as i32, lv.len() as int),
            )
            &&& plain.subrange(lv.len() as int, plain.len() as int) == body
            &&& parse_packet(body) == Ok::<PacketV, ProtoError>(p)
        }),
{
    lemma_frame_round_trip(p);
}

// ---------------------------------------------------------------------------
// What a handled packet asks the caller to do.
// ---------------------------------------------------------------------------

/// A query for the remote session authority: the claimed username and the
/// session fingerprint. The caller performs the remote call and, on
/// success, hands the verified identity to `complete_login`.
#[derive(Debug)]
pub struct AuthRequest {
    pub username: String,
    pub server_hash: String,
}

#[verifier::ext_equal]
pub struct AuthRequestV {
    pub username: Seq<char>,
    pub server_hash: Seq<char>,
}

impl View for AuthRequest {
    type V = AuthRequestV;

    open spec fn view(&self) -> AuthRequestV {
        AuthRequestV { username: self.username@, server_hash: self.server_hash@ }
    }
}

/// What the caller must do after one packet is handled: nothing, send a
/// response packet, or consult the session authority.
pub enum ConnectionAction {
    Continue,
    Send(Packet),
    Authenticate(AuthRequest),
}

#[verifier::ext_equal]
pub enum ConnectionActionV {
    Continue,
    Send(PacketV),
    Authenticate(AuthRequestV),
}

impl View for ConnectionAction {
    type V = ConnectionActionV;

    open spec fn view(&self) -> ConnectionActionV {
        match self {
            ConnectionAction::Continue => ConnectionActionV::Continue,
            ConnectionAction::Send(p) => ConnectionActionV::Send(p@),
            ConnectionAction::Authenticate(a) => ConnectionActionV::Authenticate(a@),
        }
    }
}

pub open spec fn action_result_view(r: Result<ConnectionAction, ProtoError>) -> Result<
    ConnectionActionV,
    ProtoError,
> {
    match r {
        Ok(a) => Ok(a@),
        Err(e) => Err(e),
    }
}

pub open spec fn auth_result_view(r: Result<AuthRequest, ProtoError>) -> Result<
    AuthRequestV,
    ProtoError,
> {
    match r {
        Ok(a) => Ok(a@),
        Err(e) => Err(e),
    }
}

// ---------------------------------------------------------------------------
// The connection and its mathematical model.
// ---------------------------------------------------------------------------

#[verifier::ext_equal]
pub struct CipherV {
    pub key: Seq<u8>,
    pub processed: Seq<u8>,
}

#[verifier::ext_equal]
pub struct ConnectionV {
    pub state: ConnectionState,
    pub player: Option<PlayerV>,
    pub verify_token: Seq<u8>,
    pub shared_secret: Option<Seq<u8>>,
    pub cipher: Option<CipherV>,
    pub online_mode: bool,
    pub status_json: Seq<char>,
    pub farewell_json: Seq<char>,
}

/// One connection's protocol state: the phase, the pending identity, the
/// verify challenge drawn at construction, and the symmetric key and
/// cipher once the encryption handshake succeeds.
pub struct Connection {
    pub state: ConnectionState,
    pub player: Option<Player>,
    pub verify_token: [u8; 4],
    pub shared_secret: Option<[u8; 16]>,
    pub cipher: Option<SessionCipher>,
    pub online_mode: bool,
    pub status_json: String,
    pub farewell_json: String,
}

impl View for Connection {
    type V = ConnectionV;

    open spec fn view(&self) -> ConnectionV {
        ConnectionV {
            state: self.state,
            player: match self.player {
                Some(p) => Some(p@),
                None => None,
            },
            verify_token: self.verify_token@,
            shared_secret: match self.shared_secret {
                Some(s) => Some(s@),
                None => None,
            },
            cipher: match self.cipher {
                Some(c) => Some((CipherV { key: c.key(), processed: c.processed() })),
                None => None,
            },
            online_mode: self.online_mode,
            status_json: self.status_json@,
            farewell_json: self.farewell_json@,
        }
    }
}

/// The connection invariant: the cipher is present exactly when the
/// shared secret is, keyed by it; the challenge is four bytes; and the
/// configured documents fit a varint length prefix.
pub open spec fn conn_wf(c: ConnectionV) -> bool {
    &&& c.verify_token.len() == 4
    &&& match (c.cipher, c.shared_secret) {
        (Some(ci), Some(sec)) => ci.key == sec && sec.len() == 16,
        (None, None) => true,
        _ => false,
    }
    &&& encode_utf8(c.status_json).len() <= 0x7fff_ffff
    &&& encode_utf8(c.farewell_json).len() <= 0x7fff_ffff
}

// ---------------------------------------------------------------------------
// The state machine, as a function.
// ---------------------------------------------------------------------------

/// Handshaking accepts only packet 0; the handshake's next-state field
/// decides where the connection goes.
pub open spec fn handshake_step(c: ConnectionV, p: PacketV) -> (ConnectionV, Result<
    ConnectionActionV,
    ProtoError,
>) {
    if p.id != 0 {
        (c, Err(ProtoError::UnexpectedPacket))
    } else {
        match parse_handshake(p.data) {
            Ok(h) => ((ConnectionV { state: h.next_state, ..c }), Ok(ConnectionActionV::Continue)),
            Err(e) => (c, Err(e)),
        }
    }
}

/// Status accepts a status request (0), answered in place, or a ping (1),
/// echoed verbatim before the connection finishes.
pub open spec fn status_step(c: ConnectionV, p: PacketV) -> (ConnectionV, Result<
    ConnectionActionV,
    ProtoError,
>) {
    if p.id == 0 {
        (c, Ok(ConnectionActionV::Send((PacketV { id: 0, data: string_enc(c.status_json) }))))
    } else if p.id == 1 {
        match parse_status_ping(p.data) {
            Ok(payload) => (
                (ConnectionV { state: ConnectionState::Done, ..c }),
                Ok(ConnectionActionV::Send((PacketV { id: 1, data: be64(u64_bits(payload)) }))),
            ),
            Err(e) => (c, Err(e)),
        }
    } else {
        (c, Err(ProtoError::UnexpectedPacket))
    }
}

/// A login start captures the claimed identity; online mode answers with
/// the encryption challenge, offline mode with a farewell and the end of
/// the connection.
pub open spec fn login_start_step(c: ConnectionV, ls: LoginStartV, pub_der: Seq<u8>) -> (
    ConnectionV,
    PacketV,
) {
    let c1 = ConnectionV {
        player: Some((PlayerV { username: ls.username, uuid: ls.uuid })),
        ..c
    };
    if c.online_mode {
        (
            c1,
            PacketV {
                id: 1,
                data: encryption_request_enc(Seq::empty(), pub_der, c.verify_token),
            },
        )
    } else {
        (
            (ConnectionV { state: ConnectionState::Done, ..c1 }),
            PacketV { id: 0, data: string_enc(c.farewell_json) },
        )
    }
}

/// The encryption response: the echoed challenge must decrypt to exactly
/// the issued one, and only then is the decrypted 16-byte key installed
/// and the authority queried. On any failure nothing is installed.
pub open spec fn encryption_step(
    c: ConnectionV,
    er: crate::protocol::EncryptionResponseV,
    priv_der: Seq<u8>,
    pub_der: Seq<u8>,
) -> (ConnectionV, Result<AuthRequestV, ProtoError>) {
    match c.player {
        None => (c, Err(ProtoError::UnexpectedPacket)),
        Some(pl) => match spec_rsa_decrypt(priv_der, er.verify_token) {
            Err(e) => (c, Err(e)),
            Ok(tok_plain) => if take_pad(tok_plain, 4) != c.verify_token {
                (c, Err(ProtoError::AuthIntegrityFailure))
            } else {
                match spec_rsa_decrypt(priv_der, er.shared_secret) {
                    Err(e) => (c, Err(e)),
                    Ok(sec_plain) => {
                        let sec = take_pad(sec_plain, 16);
                        (
                            (ConnectionV {
                                shared_secret: Some(sec),
                                cipher: Some((CipherV { key: sec, processed: Seq::empty() })),
                                ..c
                            }),
                            Ok(
                                (AuthRequestV {
                                    username: pl.username,
                                    server_hash: server_hash_of(Seq::empty(), sec, pub_der),
                                }),
                            ),
                        )
                    },
                }
            },
        },
    }
}

/// Login accepts a login start (0) or an encryption response (1); the
/// login plugin response (2) is not implemented and is fatal, like any
/// other id.
pub open spec fn login_step(c: ConnectionV, p: PacketV, priv_der: Seq<u8>, pub_der: Seq<u8>) -> (
    ConnectionV,
    Result<ConnectionActionV, ProtoError>,
) {
    if p.id == 0 {
        match parse_login_start(p.data) {
            Ok(ls) => {
                let (c2, pkt) = login_start_step(c, ls, pub_der);
                (c2, Ok(ConnectionActionV::Send(pkt)))
            },
            Err(e) => (c, Err(e)),
        }
    } else if p.id == 1 {
        match parse_encryption_response(p.data) {
            Ok(er) => {
                let (c2, res) = encryption_step(c, er, priv_der, pub_der);
                match res {
                    Ok(req) => (c2, Ok(ConnectionActionV::Authenticate(req))),
                    Err(e) => (c2, Err(e)),
                }
            },
            Err(e) => (c, Err(e)),
        }
    } else {
        (c, Err(ProtoError::UnexpectedPacket))
    }
}

/// One step of the whole machine: dispatch on the current state. Play
/// accepts and discards anything; Done accepts nothing.
pub open spec fn step(c: ConnectionV, p: PacketV, priv_der: Seq<u8>, pub_der: Seq<u8>) -> (
    ConnectionV,
    Result<ConnectionActionV, ProtoError>,
) {
    match c.state {
        ConnectionState::Handshaking => handshake_step(c, p),
        ConnectionState::Status => status_step(c, p),
        ConnectionState::Login => login_step(c, p, priv_der, pub_der),
        ConnectionState::Play => (c, Ok(ConnectionActionV::Continue)),
        ConnectionState::Done => (c, Err(ProtoError::UnexpectedPacket)),
    }
}

/// Completing a login: the verified identity is announced and the
/// connection enters Play.
pub open spec fn complete_login_step(c: ConnectionV, v: crate::protocol::LoginSuccessV) -> (
    ConnectionV,
    PacketV,
) {
    (
        (ConnectionV { state: ConnectionState::Play, ..c }),
        PacketV { id: 2, data: login_success_enc(v) },
    )
}

// ---------------------------------------------------------------------------
// The executable engine.
// ---------------------------------------------------------------------------

impl Connection {
    /// A fresh connection in Handshaking, its 4-byte verify challenge
    /// drawn from a cryptographically seeded source.
    pub fn new(online_mode: bool, status_json: String, farewell_json: String) -> (r: Connection)
        requires
            encode_utf8(status_json@).len() <= 0x7fff_ffff,
            encode_utf8(farewell_json@).len() <= 0x7fff_ffff,
        ensures
            conn_wf(r@),
            r@.state == ConnectionState::Handshaking,
            r@.player is None,
            r@.shared_secret is None,
            r@.cipher is None,
            r@.online_mode == online_mode,
            r@.status_json == status_json@,
            r@.farewell_json == farewell_json@,
    {
        Connection {
            state: ConnectionState::Handshaking,
            player: None,
            verify_token: random_verify_token(),
            shared_secret: None,
            cipher: None,
            online_mode,
            status_json,
            farewell_json,
        }
    }

    /// Unwraps one frame body: decrypts it if the cipher is active, then
    /// splits the leading varint off as the packet id.
    pub fn decode_frame(&mut self, body: Vec<u8>) -> (r: Result<Packet, ProtoError>)
        requires
            conn_wf(old(self)@),
        ensures
            conn_wf(final(self)@),
            ({
                let c = old(self)@;
                match c.cipher {
                    Some(ci) => {
                        let plain = cfb8_decrypted(ci.key, ci.processed, body@);
                        &&& final(self)@ == (ConnectionV {
                            cipher: Some(
                                (CipherV { key: ci.key, processed: ci.processed + body@ }),
                            ),
                            ..c
                        })
                        &&& match r {
                            Ok(p) => parse_packet(plain) == Ok::<PacketV, ProtoError>(p@),
                            Err(e) => parse_packet(plain) == Err::<PacketV, ProtoError>(e),
                        }
                    },
                    None => {
                        &&& final(self)@ == c
                        &&& match r {
                            Ok(p) => parse_packet(body@) == Ok::<PacketV, ProtoError>(p@),
                            Err(e) => parse_packet(body@) == Err::<PacketV, ProtoError>(e),
                        }
                    },
                }
            }),
    {
        let plain = match &mut self.cipher {
            Some(cipher) => cipher.decrypt(&body),
            None => body,
        };
        Packet::decode(plain.as_slice())
    }

    /// Wraps one packet into a frame: id and payload behind a length
    /// varint, the whole frame encrypted if the cipher is active.
    pub fn encode_frame(&mut self, packet: &Packet) -> (r: Vec<u8>)
        requires
            conn_wf(old(self)@),
            packet@.data.len() + 5 <= 0x7fff_ffff,
        ensures
            conn_wf(final(self)@),
            ({
                let c = old(self)@;
                let frame = frame_enc(packet@);
                match c.cipher {
                    Some(ci) => {
                        &&& r@ == cfb8_encrypted(ci.key, ci.processed, frame)
                        &&& cfb8_decrypted(ci.key, ci.processed, r@) == frame
                        &&& final(self)@ == (ConnectionV {
                            cipher: Some((CipherV { key: ci.key, processed: ci.processed + r@ })),
                            ..c
                        })
                    },
                    None => {
                        &&& r@ == frame
                        &&& final(self)@ == c
                    },
                }
            }),
    {
        let mut inner = Writer::new();
        inner.write_varint(packet.id);
        inner.write_raw(packet.data.as_slice());
        let n = inner.len();
        let mut outer = Writer::new();
        outer.write_varint(n as i32);
        let inner_vec = inner.into_bytes();
        outer.write_raw(inner_vec.as_slice());
        let frame = outer.into_bytes();
        proof {
            crate::wire::lemma_varint_enc_len(u32_bits(packet@.id));
            assert(u32_bits(n as i32) == packet_enc(packet@).len() as u32);
            assert(frame@ =~= frame_enc(packet@));
        }
        match &mut self.cipher {
            Some(cipher) => cipher.encrypt(&frame),
            None => frame,
        }
    }

    /// Handles the one legal Handshaking packet and moves to the state it
    /// names.
    pub fn handle_handshaking(&mut self, packet: Packet) -> (r: Result<
        ConnectionAction,
        ProtoError,
    >)
        requires
            conn_wf(old(self)@),
        ensures
            conn_wf(final(self)@),
            ({
                let (c2, res) = handshake_step(old(self)@, packet@);
                final(self)@ == c2 && action_result_view(r) == res
            }),
    {
        if packet.id != 0 {
            return Err(ProtoError::UnexpectedPacket);
        }
        let handshake = match Handshake::decode(packet.data.as_slice()) {
            Ok(h) => h,
            Err(e) => {
                return Err(e);
            },
        };
        self.state = handshake.next_state;
        Ok(ConnectionAction::Continue)
    }

    /// Answers a status request with the configured status document; the
    /// connection stays in Status.
    pub fn handle_status_request(&mut self, _request: StatusRequest) -> (r: Packet)
        requires
            conn_wf(old(self)@),
        ensures
            conn_wf(final(self)@),
            final(self)@ == old(self)@,
            r@ == (PacketV { id: 0, data: string_enc(old(self)@.status_json) }),
    {
        let response = StatusResponse::new(self.status_json.clone());
        let data = response.encode();
        Packet { id: 0, data }
    }

    /// Echoes a ping's payload verbatim and finishes the connection.
    pub fn handle_status_ping(&mut self, ping: StatusPing) -> (r: Packet)
        requires
            conn_wf(old(self)@),
        ensures
            conn_wf(final(self)@),
            final(self)@ == (ConnectionV { state: ConnectionState::Done, ..old(self)@ }),
            r@ == (PacketV { id: 1, data: be64(u64_bits(ping.payload)) }),
    {
        let response = StatusPong::from_ping(ping);
        let data = response.encode();
        self.state = ConnectionState::Done;
        Packet { id: 1, data }
    }

    /// Dispatches the two legal Status packets.
    pub fn handle_status(&mut self, packet: Packet) -> (r: Result<ConnectionAction, ProtoError>)
        requires
            conn_wf(old(self)@),
        ensures
            conn_wf(final(self)@),
            ({
                let (c2, res) = status_step(old(self)@, packet@);
                final(self)@ == c2 && action_result_view(r) == res
            }),
    {
        if packet.id == 0 {
            let request = match StatusRequest::decode(packet.data.as_slice()) {
                Ok(rq) => rq,
                Err(e) => {
                    return Err(e);
                },
            };
            Ok(ConnectionAction::Send(self.handle_status_request(request)))
        } else if packet.id == 1 {
            let ping = match StatusPing::decode(packet.data.as_slice()) {
                Ok(p) => p,
                Err(e) => {
                    return Err(e);
                },
            };
            Ok(ConnectionAction::Send(self.handle_status_ping(ping)))
        } else {
            Err(ProtoError::UnexpectedPacket)
        }
    }

    /// Captures the claimed identity and answers with the encryption
    /// challenge (online mode) or a farewell (offline mode).
    pub fn handle_login_start(&mut self, login_start: LoginStart, keys: &ServerKeys) -> (r: Packet)
        requires
            conn_wf(old(self)@),
            keys.wf(),
        ensures
            conn_wf(final(self)@),
            ({
                let (c2, pkt) = login_start_step(old(self)@, login_start@, keys.public_der());
                final(self)@ == c2 && r@ == pkt
            }),
    {
        self.player = Some(Player::from_login_start(login_start));
        if self.online_mode {
            let response = EncryptionRequest::new(keys.public_key_to_der(), self.verify_token);
            proof {
                assert(encode_utf8(Seq::<char>::empty()).len() == 0);
            }
            let data = response.encode();
            Packet { id: 1, data }
        } else {
            let response = LoginDisconnect::new(self.farewell_json.clone());
            let data = response.encode();
            self.state = ConnectionState::Done;
            Packet { id: 0, data }
        }
    }

    /// The session-authority query for this connection: its claimed
    /// username and the fingerprint of the empty server id, the installed
    /// shared secret and the server's public key. Owed exactly when a
    /// shared secret is installed and an identity is pending.
    pub fn auth_request(&self, keys: &ServerKeys) -> (r: Result<AuthRequest, ProtoError>)
        requires
            conn_wf(self@),
            keys.wf(),
        ensures
            r is Ok <==> (self@.shared_secret is Some && self@.player is Some),
            match r {
                Ok(req) => match (self@.player, self@.shared_secret) {
                    (Some(pl), Some(sec)) => req@.username == pl.username && req@.server_hash
                        == server_hash_of(Seq::empty(), sec, keys.public_der()),
                    _ => false,
                },
                Err(e) => if self@.shared_secret is None {
                    e == ProtoError::MissingSharedSecret
                } else {
                    e == ProtoError::UnexpectedPacket
                },
            },
    {
        let secret = match &self.shared_secret {
            Some(s) => s,
            None => {
                return Err(ProtoError::MissingSharedSecret);
            },
        };
        let username = match &self.player {
            Some(p) => p.username.clone(),
            None => {
                return Err(ProtoError::UnexpectedPacket);
            },
        };
        let server_hash = keys.session_hash("", secret);
        proof {
            reveal_strlit("");
            assert(""@ =~= Seq::<char>::empty());
        }
        Ok(AuthRequest { username, server_hash })
    }

    /// Checks the decrypted verify echo against the issued challenge;
    /// only on an exact match installs the decrypted key and the cipher,
    /// and produces the session-authority query.
    pub fn handle_encryption_response(
        &mut self,
        encryption_response: EncryptionResponse,
        keys: &ServerKeys,
    ) -> (r: Result<AuthRequest, ProtoError>)
        requires
            conn_wf(old(self)@),
            keys.wf(),
        ensures
            conn_wf(final(self)@),
            ({
                let (c2, res) = encryption_step(
                    old(self)@,
                    encryption_response@,
                    keys.private_der(),
                    keys.public_der(),
                );
                final(self)@ == c2 && auth_result_view(r) == res
            }),
    {
        if self.player.is_none() {
            return Err(ProtoError::UnexpectedPacket);
        }
        let token = match encryption_response.decrypt_verify_token(keys) {
            Ok(t) => t,
            Err(e) => {
                return Err(e);
            },
        };
        let mismatch = token[0] != self.verify_token[0] || token[1] != self.verify_token[1]
            || token[2] != self.verify_token[2] || token[3] != self.verify_token[3];
        if mismatch {
            return Err(ProtoError::AuthIntegrityFailure);
        }
        proof {
            assert(token@ =~= old(self)@.verify_token);
        }
        let secret = match encryption_response.decrypt_shared_secret(keys) {
            Ok(s) => s,
            Err(e) => {
                return Err(e);
            },
        };
        self.shared_secret = Some(secret);
        self.cipher = Some(SessionCipher::new(secret));
        match self.auth_request(keys) {
            Ok(req) => Ok(req),
            Err(e) => Err(e),
        }
    }

    /// Announces the verified identity and enters Play.
    pub fn complete_login(&mut self, login_success: LoginSuccess) -> (r: Packet)
        requires
            conn_wf(old(self)@),
            login_success_wf(login_success@),
        ensures
            conn_wf(final(self)@),
            ({
                let (c2, pkt) = complete_login_step(old(self)@, login_success@);
                final(self)@ == c2 && r@ == pkt
            }),
    {
        let data = login_success.encode();
        self.state = ConnectionState::Play;
        Packet { id: 2, data }
    }

    /// Dispatches the three legal Login packets; the login plugin
    /// response is not implemented and is fatal.
    pub fn handle_login(&mut self, packet: Packet, keys: &ServerKeys) -> (r: Result<
        ConnectionAction,
        ProtoError,
    >)
        requires
            conn_wf(old(self)@),
            keys.wf(),
        ensures
            conn_wf(final(self)@),
            ({
                let (c2, res) = login_step(
                    old(self)@,
                    packet@,
                    keys.private_der(),
                    keys.public_der(),
                );
                final(self)@ == c2 && action_result_view(r) == res
            }),
    {
        if packet.id == 0 {
            let login_start = match LoginStart::decode(packet.data.as_slice()) {
                Ok(ls) => ls,
                Err(e) => {
                    return Err(e);
                },
            };
            Ok(ConnectionAction::Send(self.handle_login_start(login_start, keys)))
        } else if packet.id == 1 {
            let encryption_response = match EncryptionResponse::decode(packet.data.as_slice()) {
                Ok(er) => er,
                Err(e) => {
                    return Err(e);
                },
            };
            match self.handle_encryption_response(encryption_response, keys) {
                Ok(req) => Ok(ConnectionAction::Authenticate(req)),
                Err(e) => Err(e),
            }
        } else {
            Err(ProtoError::UnexpectedPacket)
        }
    }

    /// Accepts and discards one Play packet.
    pub fn handle_play(&mut self, _packet: Packet) -> (r: Result<ConnectionAction, ProtoError>)
        requires
            conn_wf(old(self)@),
        ensures
            conn_wf(final(self)@),
            final(self)@ == old(self)@,
            action_result_view(r) == Ok::<ConnectionActionV, ProtoError>(
                ConnectionActionV::Continue,
            ),
    {
        Ok(ConnectionAction::Continue)
    }

    /// One step of the state machine: dispatch the packet on the current
    /// state.
    pub fn handle_packet(&mut self, packet: Packet, keys: &ServerKeys) -> (r: Result<
        ConnectionAction,
        ProtoError,
    >)
        requires
            conn_wf(old(self)@),
            keys.wf(),
        ensures
            conn_wf(final(self)@),
            ({
                let (c2, res) = step(old(self)@, packet@, keys.private_der(), keys.public_der());
                final(self)@ == c2 && action_result_view(r) == res
            }),
    {
        match self.state {
            ConnectionState::Handshaking => self.handle_handshaking(packet),
            ConnectionState::Status => self.handle_status(packet),
            ConnectionState::Login => self.handle_login(packet, keys),
            ConnectionState::Play => self.handle_play(packet),
            ConnectionState::Done => Err(ProtoError::UnexpectedPacket),
        }
    }
}

// ---------------------------------------------------------------------------
// The state-machine law for handshakes.
// ---------------------------------------------------------------------------

/// The wire payload of a handshake whose next-state field is given
/// verbatim, before the 1/2 mapping.
pub open spec fn handshake_payload(
    protocol_version: i32,
    server_address: Seq<char>,
    server_port: u16,
    next_state_field: i32,
) -> Seq<u8> {
    varint_enc(u32_bits(protocol_version)) + string_enc(server_address) + be16(server_port)
        + varint_enc(u32_bits(next_state_field))
}

/// A handshake packet with next-state field 1 moves the connection to
/// Status and 2 to Login; any other field fails with `InvalidNextState`
/// and the connection does not transition.
pub proof fn lemma_handshake_transitions(
    c: ConnectionV,
    protocol_version: i32,
    server_address: Seq<char>,
    server_port: u16,
    next_state_field: i32,
)
    requires
        encode_utf8(server_address).len() <= 0x7fff_ffff,
    ensures
        ({
            let p = PacketV {
                id: 0,
                data: handshake_payload(
                    protocol_version,
                    server_address,
                    server_port,
                    next_state_field,
                ),
            };
            let (c2, res) = handshake_step(c, p);
            &&& (next_state_field == 1 ==> c2 == (ConnectionV {
                state: ConnectionState::Status,
                ..c
            }) && res is Ok)
            &&& (next_state_field == 2 ==> c2 == (ConnectionV {
                state: ConnectionState::Login,
                ..c
            }) && res is Ok)
            &&& (next_state_field != 1 && next_state_field != 2 ==> c2 == c && res == Err::<
                ConnectionActionV,
                ProtoError,
            >(ProtoError::InvalidNextState))
        }),
{
    let a = varint_enc(u32_bits(protocol_version));
    let b = string_enc(server_address);
    let d = be16(server_port);
    let e = varint_enc(u32_bits(next_state_field));
    let s = handshake_payload(protocol_version, server_address, server_port, next_state_field);
    crate::wire::lemma_varint_enc_len(u32_bits(protocol_version));
    crate::wire::lemma_varint_enc_len(u32_bits(next_state_field));
    let p0 = a.len() as int;
    let p1 = p0 + b.len() as int;
    let p2 = p1 + 2;
    let p3 = p2 + e.len() as int;
    assert(s.len() == p3);
    assert(s.subrange(0, p0) =~= a);
    crate::wire::lemma_parse_varint_at(s, 0, protocol_version);
    assert(s.subrange(p0, p1) =~= b);
    crate::wire::lemma_parse_string_at(s, p0, server_address);
    assert(s.subrange(p1, p2) =~= d);
    crate::wire::lemma_parse_u16_at(s, p1, server_port);
    assert(s.subrange(p2, p3) =~= e);
    crate::wire::lemma_parse_varint_at(s, p2, next_state_field);
}

} // verus!
