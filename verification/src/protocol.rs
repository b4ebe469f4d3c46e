//! The executable protocol layer: a byte-cursor reader and a byte-buffer
//! writer for the protocol's scalar wire types, and the typed message
//! schemas that decode from and encode to packet payloads. Every operation
//! is proved against the wire model in `wire`.

use vstd::prelude::*;

verus! {

use crate::crypto::{spec_rsa_decrypt, ServerKeys};
use crate::errors::ProtoError;
use crate::wire::{be128, be16, be64, bool_enc, bytes_enc, i32_bits, i64_bits, parse_bool,
    parse_byte_array, parse_i64, parse_string, parse_u128, parse_u16, parse_varint,
    parse_varint_raw, string_enc, take_pad, u32_bits, u64_bits, val128, val16, val64, varint_enc};
use vstd::slice::{slice_subrange, slice_to_vec};
use vstd::utf8::{decode_utf8, encode_utf8, valid_utf8};

broadcast use vstd::array::group_array_axioms;

// ---------------------------------------------------------------------------
// Bit-pattern reinterpretations between signed and unsigned integers.
// ---------------------------------------------------------------------------

fn i32_from_bits(u: u32) -> (r: i32)
    ensures
        r == i32_bits(u),
{
    if u < 0x8000_0000 {
        u as i32
    } else {
        ((u as i64) - 0x1_0000_0000) as i32
    }
}

fn u32_from_bits(v: i32) -> (r: u32)
    ensures
        r == u32_bits(v),
{
    if v >= 0 {
        v as u32
    } else {
        ((v as i64) + 0x1_0000_0000) as u32
    }
}

fn i64_from_bits(u: u64) -> (r: i64)
    ensures
        r == i64_bits(u),
{
    if u < 0x8000_0000_0000_0000 {
        u as i64
    } else {
        ((u as i128) - 0x1_0000_0000_0000_0000) as i64
    }
}

fn u64_from_bits(v: i64) -> (r: u64)
    ensures
        r == u64_bits(v),
{
    if v >= 0 {
        v as u64
    } else {
        ((v as i128) + 0x1_0000_0000_0000_0000) as u64
    }
}

// ---------------------------------------------------------------------------
// Trusted bridge to std's UTF-8 validation.
// ---------------------------------------------------------------------------

/// Relies on `String::from_utf8`: it succeeds exactly on valid UTF-8 input
/// and returns the string whose characters are that input's UTF-8 decoding,
/// the same encoding that vstd's `utf8` module models.
#[verifier::external_body]
fn string_from_utf8_bytes(bytes: Vec<u8>) -> (r: Option<String>)
    ensures
        match r {
            Some(s) => valid_utf8(bytes@) && s@ == decode_utf8(bytes@),
            None => !valid_utf8(bytes@),
        },
{
    String::from_utf8(bytes).ok()
}

// ---------------------------------------------------------------------------
// Reader: a cursor over a fixed byte buffer.
// ---------------------------------------------------------------------------

/// A read cursor over untrusted bytes. Every read fails with
/// `BufferUnderrun` rather than touching anything out of bounds.
pub struct Reader<'a> {
    bytes: &'a [u8],
    index: usize,
}

impl<'a> Reader<'a> {
    /// The whole underlying buffer.
    pub closed spec fn data(&self) -> Seq<u8> {
        self.bytes@
    }

    /// The current cursor position.
    pub closed spec fn pos(&self) -> int {
        self.index as int
    }

    pub open spec fn wf(&self) -> bool {
        0 <= self.pos() <= self.data().len()
    }

    pub fn new(bytes: &'a [u8]) -> (r: Reader<'a>)
        ensures
            r.data() == bytes@,
            r.pos() == 0,
            r.wf(),
    {
        Reader { bytes, index: 0 }
    }

    /// Reads one base-128 varint, consuming at most five bytes.
    pub fn read_varint(&mut self) -> (r: Result<i32, ProtoError>)
        requires
            old(self).wf(),
        ensures
            final(self).wf(),
            final(self).data() == old(self).data(),
            match r {
                Ok(v) => parse_varint(old(self).data(), old(self).pos()) == Ok::<
                    (i32, int),
                    ProtoError,
                >((v, final(self).pos())),
                Err(e) => parse_varint(old(self).data(), old(self).pos()) == Err::<
                    (i32, int),
                    ProtoError,
                >(e),
            },
    {
        let ghost s = self.bytes@;
        let ghost start = self.index as int;
        let mut acc: u64 = 0;
        let mut mult: u64 = 1;
        let mut fuel: usize = 5;
        loop
            invariant
                old(self).data() == s,
                start == old(self).pos(),
                self.bytes@ == s,
                self.index <= s.len(),
                fuel <= 5,
                acc < mult,
                (fuel == 5 ==> mult == 1) && (fuel == 4 ==> mult == 0x80) && (fuel == 3 ==> mult
                    == 0x4000) && (fuel == 2 ==> mult == 0x20_0000) && (fuel == 1 ==> mult
                    == 0x1000_0000) && (fuel == 0 ==> mult == 0x8_0000_0000),
                ({
                    match parse_varint_raw(s, self.index as int, fuel as nat) {
                        Ok((v, p)) => parse_varint_raw(s, start, 5) == Ok::<
                            (nat, int),
                            ProtoError,
                        >(((acc + mult * v) as nat, p)),
                        Err(e) => parse_varint_raw(s, start, 5) == Err::<(nat, int), ProtoError>(
                            e,
                        ),
                    }
                }),
            decreases fuel,
        {
            if fuel == 0 {
                proof {
                    assert(parse_varint_raw(s, self.index as int, 0) == Err::<
                        (nat, int),
                        ProtoError,
                    >(ProtoError::MalformedVarInt));
                }
                return Err(ProtoError::MalformedVarInt);
            }
            if self.index >= self.bytes.len() {
                return Err(ProtoError::BufferUnderrun);
            }
            let ghost i0 = self.index as int;
            let b = self.bytes[self.index];
            self.index = self.index + 1;
            if b < 0x80 {
                let raw: u64 = acc + mult * (b as u64);
                proof {
                    assert(mult * (b as u64) <= 0x8_0000_0000 * 0x7f) by (nonlinear_arith)
                        requires
                            mult <= 0x8_0000_0000,
                            b < 0x80,
                    ;
                    assert(parse_varint_raw(s, i0, fuel as nat) == Ok::<(nat, int), ProtoError>(
                        (b as nat, i0 + 1),
                    ));
                }
                let u: u32 = (raw % 0x1_0000_0000) as u32;
                return Ok(i32_from_bits(u));
            } else {
                proof {
                    assert(mult * ((b - 0x80) as u64) <= mult * 0x7f) by (nonlinear_arith)
                        requires
                            0x80 <= b,
                            b <= 0xff,
                            0 < mult,
                    ;
                    let r2 = parse_varint_raw(s, i0 + 1, (fuel - 1) as nat);
                    if r2 is Ok {
                        let (v2, p2) = r2->Ok_0;
                        assert((mult as int) * (((b - 0x80) as int) + 0x80 * v2) == (mult as int)
                            * ((b - 0x80) as int) + ((mult as int) * 0x80) * v2)
                            by (nonlinear_arith);
                    }
                }
                acc = acc + mult * ((b - 0x80) as u64);
                mult = mult * 0x80;
                fuel = fuel - 1;
            }
        }
    }

    /// Reads a varint byte count followed by that many UTF-8 bytes.
    pub fn read_string(&mut self) -> (r: Result<String, ProtoError>)
        requires
            old(self).wf(),
        ensures
            final(self).wf(),
            final(self).data() == old(self).data(),
            match r {
                Ok(v) => parse_string(old(self).data(), old(self).pos()) == Ok::<
                    (Seq<char>, int),
                    ProtoError,
                >((v@, final(self).pos())),
                Err(e) => parse_string(old(self).data(), old(self).pos()) == Err::<
                    (Seq<char>, int),
                    ProtoError,
                >(e),
            },
    {
        let bytes = match self.read_byte_array() {
            Ok(bytes) => bytes,
            Err(e) => {
                return Err(e);
            },
        };
        match string_from_utf8_bytes(bytes) {
            Some(s) => Ok(s),
            None => Err(ProtoError::InvalidUtf8),
        }
    }

    /// Reads a varint byte count followed by that many raw bytes.
    pub fn read_byte_array(&mut self) -> (r: Result<Vec<u8>, ProtoError>)
        requires
            old(self).wf(),
        ensures
            final(self).wf(),
            final(self).data() == old(self).data(),
            match r {
                Ok(v) => parse_byte_array(old(self).data(), old(self).pos()) == Ok::<
                    (Seq<u8>, int),
                    ProtoError,
                >((v@, final(self).pos())),
                Err(e) => parse_byte_array(old(self).data(), old(self).pos()) == Err::<
                    (Seq<u8>, int),
                    ProtoError,
                >(e),
            },
    {
        let n = match self.read_varint() {
            Ok(n) => n,
            Err(e) => {
                return Err(e);
            },
        };
        if n < 0 {
            return Err(ProtoError::BufferUnderrun);
        }
        let n = n as usize;
        if n > self.bytes.len() - self.index {
            return Err(ProtoError::BufferUnderrun);
        }
        let slice = slice_subrange(self.bytes, self.index, self.index + n);
        let v = slice_to_vec(slice);
        self.index = self.index + n;
        Ok(v)
    }

    /// Reads one byte: zero is false, anything else is true.
    pub fn read_bool(&mut self) -> (r: Result<bool, ProtoError>)
        requires
            old(self).wf(),
        ensures
            final(self).wf(),
            final(self).data() == old(self).data(),
            match r {
                Ok(v) => parse_bool(old(self).data(), old(self).pos()) == Ok::<
                    (bool, int),
                    ProtoError,
                >((v, final(self).pos())),
                Err(e) => parse_bool(old(self).data(), old(self).pos()) == Err::<
                    (bool, int),
                    ProtoError,
                >(e),
            },
    {
        if self.index >= self.bytes.len() {
            return Err(ProtoError::BufferUnderrun);
        }
        let b = self.bytes[self.index];
        self.index = self.index + 1;
        Ok(b != 0)
    }

    /// Reads two big-endian bytes.
    pub fn read_u16(&mut self) -> (r: Result<u16, ProtoError>)
        requires
            old(self).wf(),
        ensures
            final(self).wf(),
            final(self).data() == old(self).data(),
            match r {
                Ok(v) => parse_u16(old(self).data(), old(self).pos()) == Ok::<
                    (u16, int),
                    ProtoError,
                >((v, final(self).pos())),
                Err(e) => parse_u16(old(self).data(), old(self).pos()) == Err::<
                    (u16, int),
                    ProtoError,
                >(e),
            },
    {
        if self.bytes.len() - self.index < 2 {
            return Err(ProtoError::BufferUnderrun);
        }
        let b0 = self.bytes[self.index];
        let b1 = self.bytes[self.index + 1];
        let v: u16 = (b0 as u16) * 0x100 + (b1 as u16);
        proof {
            let sub = self.bytes@.subrange(self.index as int, self.index as int + 2);
            assert(sub[0] == b0 && sub[1] == b1);
            assert(val16(sub) == v);
        }
        self.index = self.index + 2;
        Ok(v)
    }

    /// Reads eight big-endian bytes as a signed 64-bit value.
    pub fn read_i64(&mut self) -> (r: Result<i64, ProtoError>)
        requires
            old(self).wf(),
        ensures
            final(self).wf(),
            final(self).data() == old(self).data(),
            match r {
                Ok(v) => parse_i64(old(self).data(), old(self).pos()) == Ok::<
                    (i64, int),
                    ProtoError,
                >((v, final(self).pos())),
                Err(e) => parse_i64(old(self).data(), old(self).pos()) == Err::<
                    (i64, int),
                    ProtoError,
                >(e),
            },
    {
        if self.bytes.len() - self.index < 8 {
            return Err(ProtoError::BufferUnderrun);
        }
        let i = self.index;
        let u: u64 = (self.bytes[i] as u64) * 0x100_0000_0000_0000 + (self.bytes[i + 1] as u64)
            * 0x1_0000_0000_0000 + (self.bytes[i + 2] as u64) * 0x100_0000_0000 + (self.bytes[i
            + 3] as u64) * 0x1_0000_0000 + (self.bytes[i + 4] as u64) * 0x100_0000 + (self.bytes[i
            + 5] as u64) * 0x1_0000 + (self.bytes[i + 6] as u64) * 0x100 + (self.bytes[i
            + 7] as u64);
        proof {
            let sub = self.bytes@.subrange(i as int, i as int + 8);
            assert(forall|k: int| 0 <= k < 8 ==> sub[k] == self.bytes@[i + k]);
            assert(val64(sub) == u);
        }
        self.index = self.index + 8;
        Ok(i64_from_bits(u))
    }

    /// Reads sixteen raw bytes as a big-endian 128-bit identifier.
    pub fn read_uuid(&mut self) -> (r: Result<u128, ProtoError>)
        requires
            old(self).wf(),
        ensures
            final(self).wf(),
            final(self).data() == old(self).data(),
            match r {
                Ok(v) => parse_u128(old(self).data(), old(self).pos()) == Ok::<
                    (u128, int),
                    ProtoError,
                >((v, final(self).pos())),
                Err(e) => parse_u128(old(self).data(), old(self).pos()) == Err::<
                    (u128, int),
                    ProtoError,
                >(e),
            },
    {
        if self.bytes.len() - self.index < 16 {
            return Err(ProtoError::BufferUnderrun);
        }
        let i = self.index;
        let u: u128 = (self.bytes[i] as u128) * 0x100_0000_0000_0000_0000_0000_0000_0000 + (
        self.bytes[i + 1] as u128) * 0x1_0000_0000_0000_0000_0000_0000_0000 + (self.bytes[i
            + 2] as u128) * 0x100_0000_0000_0000_0000_0000_0000 + (self.bytes[i + 3] as u128)
            * 0x1_0000_0000_0000_0000_0000_0000 + (self.bytes[i + 4] as u128)
            * 0x100_0000_0000_0000_0000_0000 + (self.bytes[i + 5] as u128)
            * 0x1_0000_0000_0000_0000_0000 + (self.bytes[i + 6] as u128)
            * 0x100_0000_0000_0000_0000 + (self.bytes[i + 7] as u128) * 0x1_0000_0000_0000_0000 + (
        self.bytes[i + 8] as u128) * 0x100_0000_0000_0000 + (self.bytes[i + 9] as u128)
            * 0x1_0000_0000_0000 + (self.bytes[i + 10] as u128) * 0x100_0000_0000 + (self.bytes[i
            + 11] as u128) * 0x1_0000_0000 + (self.bytes[i + 12] as u128) * 0x100_0000 + (
        self.bytes[i + 13] as u128) * 0x1_0000 + (self.bytes[i + 14] as u128) * 0x100 + (
        self.bytes[i + 15] as u128);
        proof {
            let sub = self.bytes@.subrange(i as int, i as int + 16);
            assert(forall|k: int| 0 <= k < 16 ==> sub[k] == self.bytes@[i + k]);
            assert(val128(sub) == u);
        }
        self.index = self.index + 16;
        Ok(u)
    }

    /// The unread remainder of the buffer.
    pub fn get_leftover_bytes(&self) -> (r: &[u8])
        requires
            self.wf(),
        ensures
            r@ == self.data().subrange(self.pos(), self.data().len() as int),
    {
        slice_subrange(self.bytes, self.index, self.bytes.len())
    }
}

// ---------------------------------------------------------------------------
// Writer: an append-only byte buffer.
// ---------------------------------------------------------------------------

/// An append-only buffer that lays protocol primitives down in wire order.
pub struct Writer {
    bytes: Vec<u8>,
}

impl View for Writer {
    type V = Seq<u8>;

    closed spec fn view(&self) -> Seq<u8> {
        self.bytes@
    }
}

impl Writer {
    pub fn new() -> (r: Writer)
        ensures
            r@ == Seq::<u8>::empty(),
    {
        Writer { bytes: Vec::new() }
    }

    /// Appends the base-128 encoding of the value's 32-bit bit pattern, so
    /// a negative value always occupies the full five bytes.
    pub fn write_varint(&mut self, value: i32)
        ensures
            final(self)@ == old(self)@ + varint_enc(u32_bits(value)),
    {
        let ghost target = self@ + varint_enc(u32_bits(value));
        let mut u: u32 = u32_from_bits(value);
        loop
            invariant_except_break
                self@ + varint_enc(u) == target,
            ensures
                self@ == target,
            decreases u,
        {
            if u < 0x80 {
                self.bytes.push(u as u8);
                proof {
                    assert(self@ =~= target);
                }
                break ;
            } else {
                let byte: u8 = ((u % 0x80) + 0x80) as u8;
                self.bytes.push(byte);
                proof {
                    assert(varint_enc(u) == seq![byte] + varint_enc(u / 0x80));
                    assert(self@ + varint_enc(u / 0x80) =~= target);
                }
                u = u / 0x80;
            }
        }
    }

    /// Appends a varint byte count followed by the string's UTF-8 bytes.
    pub fn write_string(&mut self, string: &str)
        requires
            encode_utf8(string@).len() <= 0x7fff_ffff,
        ensures
            final(self)@ == old(self)@ + string_enc(string@),
    {
        let n = string.len();
        self.write_varint(n as i32);
        let b = string.as_bytes();
        self.write_raw(b);
        proof {
            assert(self@ =~= old(self)@ + string_enc(string@));
        }
    }

    /// Appends a 128-bit identifier as sixteen big-endian raw bytes.
    pub fn write_uuid(&mut self, uuid: u128)
        ensures
            final(self)@ == old(self)@ + be128(uuid),
    {
        let u = uuid;
        self.bytes.push((u / 0x100_0000_0000_0000_0000_0000_0000_0000) as u8);
        self.bytes.push(((u / 0x1_0000_0000_0000_0000_0000_0000_0000) % 0x100) as u8);
        self.bytes.push(((u / 0x100_0000_0000_0000_0000_0000_0000) % 0x100) as u8);
        self.bytes.push(((u / 0x1_0000_0000_0000_0000_0000_0000) % 0x100) as u8);
        self.bytes.push(((u / 0x100_0000_0000_0000_0000_0000) % 0x100) as u8);
        self.bytes.push(((u / 0x1_0000_0000_0000_0000_0000) % 0x100) as u8);
        self.bytes.push(((u / 0x100_0000_0000_0000_0000) % 0x100) as u8);
        self.bytes.push(((u / 0x1_0000_0000_0000_0000) % 0x100) as u8);
        self.bytes.push(((u / 0x100_0000_0000_0000) % 0x100) as u8);
        self.bytes.push(((u / 0x1_0000_0000_0000) % 0x100) as u8);
        self.bytes.push(((u / 0x100_0000_0000) % 0x100) as u8);
        self.bytes.push(((u / 0x1_0000_0000) % 0x100) as u8);
        self.bytes.push(((u / 0x100_0000) % 0x100) as u8);
        self.bytes.push(((u / 0x1_0000) % 0x100) as u8);
        self.bytes.push(((u / 0x100) % 0x100) as u8);
        self.bytes.push((u % 0x100) as u8);
        proof {
            assert(self@ =~= old(self)@ + be128(uuid));
        }
    }

    /// Appends two big-endian bytes.
    pub fn write_u16(&mut self, value: u16)
        ensures
            final(self)@ == old(self)@ + be16(value),
    {
        self.bytes.push((value / 0x100) as u8);
        self.bytes.push((value % 0x100) as u8);
        proof {
            assert(self@ =~= old(self)@ + be16(value));
        }
    }

    /// Appends the 64-bit two's-complement bit pattern, big-endian.
    pub fn write_i64(&mut self, value: i64)
        ensures
            final(self)@ == old(self)@ + be64(u64_bits(value)),
    {
        let u = u64_from_bits(value);
        self.bytes.push((u / 0x100_0000_0000_0000) as u8);
        self.bytes.push(((u / 0x1_0000_0000_0000) % 0x100) as u8);
        self.bytes.push(((u / 0x100_0000_0000) % 0x100) as u8);
        self.bytes.push(((u / 0x1_0000_0000) % 0x100) as u8);
        self.bytes.push(((u / 0x100_0000) % 0x100) as u8);
        self.bytes.push(((u / 0x1_0000) % 0x100) as u8);
        self.bytes.push(((u / 0x100) % 0x100) as u8);
        self.bytes.push((u % 0x100) as u8);
        proof {
            assert(self@ =~= old(self)@ + be64(u));
        }
    }

    /// Appends a single 0 or 1 byte.
    pub fn write_bool(&mut self, value: bool)
        ensures
            final(self)@ == old(self)@ + bool_enc(value),
    {
        self.bytes.push(if value { 1 } else { 0 });
        proof {
            assert(self@ =~= old(self)@ + bool_enc(value));
        }
    }

    /// Appends raw bytes unchanged.
    pub fn write_raw(&mut self, bytes: &[u8])
        ensures
            final(self)@ == old(self)@ + bytes@,
    {
        let mut v = slice_to_vec(bytes);
        self.bytes.append(&mut v);
    }

    pub fn len(&self) -> (r: usize)
        ensures
            r == self@.len(),
    {
        self.bytes.len()
    }

    pub fn is_empty(&self) -> (r: bool)
        ensures
            r == (self@.len() == 0),
    {
        self.bytes.is_empty()
    }

    /// Surrenders the accumulated bytes.
    pub fn into_bytes(self) -> (r: Vec<u8>)
        ensures
            r@ == self@,
    {
        self.bytes
    }
}

impl Default for Writer {
    fn default() -> (r: Writer)
        ensures
            r@ == Seq::<u8>::empty(),
    {
        Writer::new()
    }
}

// ---------------------------------------------------------------------------
// Connection states.
// ---------------------------------------------------------------------------

/// The per-connection protocol phase; `Done` is terminal.
#[derive(Clone, Copy, Debug, PartialEq, Eq, Structural)]
pub enum ConnectionState {
    Handshaking,
    Status,
    Login,
    Play,
    Done,
}

// ---------------------------------------------------------------------------
// Message schemas: one plain value type per packet kind, each mapping 1:1
// to a wire payload layout.
// ---------------------------------------------------------------------------

/// The first packet of every connection: protocol version, the address the
/// client dialed, and which phase it asks for next.
#[derive(Debug)]
pub struct Handshake {
    pub protocol_version: i32,
    pub server_address: String,
    pub server_port: u16,
    pub next_state: ConnectionState,
}

pub struct HandshakeV {
    pub protocol_version: i32,
    pub server_address: Seq<char>,
    pub server_port: u16,
    pub next_state: ConnectionState,
}

impl View for Handshake {
    type V = HandshakeV;

    open spec fn view(&self) -> HandshakeV {
        HandshakeV {
            protocol_version: self.protocol_version,
            server_address: self.server_address@,
            server_port: self.server_port,
            next_state: self.next_state,
        }
    }
}

/// What decoding a handshake payload yields: a next-state field of 1 asks
/// for Status, 2 for Login, anything else is `InvalidNextState`.
pub open spec fn parse_handshake(s: Seq<u8>) -> Result<HandshakeV, ProtoError> {
    match parse_varint(s, 0) {
        Ok((protocol_version, p1)) => match parse_string(s, p1) {
            Ok((server_address, p2)) => match parse_u16(s, p2) {
                Ok((server_port, p3)) => match parse_varint(s, p3) {
                    Ok((next_state, _)) => if next_state == 1 {
                        Ok(
                            (HandshakeV {
                                protocol_version,
                                server_address,
                                server_port,
                                next_state: ConnectionState::Status,
                            }),
                        )
                    } else if next_state == 2 {
                        Ok(
                            (HandshakeV {
                                protocol_version,
                                server_address,
                                server_port,
                                next_state: ConnectionState::Login,
                            }),
                        )
                    } else {
                        Err(ProtoError::InvalidNextState)
                    },
                    Err(e) => Err(e),
                },
                Err(e) => Err(e),
            },
            Err(e) => Err(e),
        },
        Err(e) => Err(e),
    }
}

impl Handshake {
    pub fn decode(bytes: &[u8]) -> (r: Result<Handshake, ProtoError>)
        ensures
            match r {
                Ok(h) => parse_handshake(bytes@) == Ok::<HandshakeV, ProtoError>(h@),
                Err(e) => parse_handshake(bytes@) == Err::<HandshakeV, ProtoError>(e),
            },
    {
        let mut cursor = Reader::new(bytes);
        let protocol_version = match cursor.read_varint() {
            Ok(v) => v,
            Err(e) => {
                return Err(e);
            },
        };
        let server_address = match cursor.read_string() {
            Ok(v) => v,
            Err(e) => {
                return Err(e);
            },
        };
        let server_port = match cursor.read_u16() {
            Ok(v) => v,
            Err(e) => {
                return Err(e);
            },
        };
        let next_state = match cursor.read_varint() {
            Ok(1) => ConnectionState::Status,
            Ok(2) => ConnectionState::Login,
            Ok(_) => {
                return Err(ProtoError::InvalidNextState);
            },
            Err(e) => {
                return Err(e);
            },
        };
        Ok(Handshake { protocol_version, server_address, server_port, next_state })
    }
}

/// A status query; its payload carries nothing.
#[derive(Debug)]
pub struct StatusRequest;

impl StatusRequest {
    pub fn decode(_bytes: &[u8]) -> (r: Result<StatusRequest, ProtoError>)
        ensures
            r is Ok,
    {
        Ok(StatusRequest)
    }
}

/// The server's status document, already serialized as JSON text; only its
/// framing is in scope here.
#[derive(Debug)]
pub struct StatusResponse {
    pub json: String,
}

impl StatusResponse {
    pub fn new(json: String) -> (r: StatusResponse)
        ensures
            r.json@ == json@,
    {
        StatusResponse { json }
    }

    pub fn encode(&self) -> (r: Vec<u8>)
        requires
            encode_utf8(self.json@).len() <= 0x7fff_ffff,
        ensures
            r@ == string_enc(self.json@),
    {
        let mut writer = Writer::new();
        writer.write_string(self.json.as_str());
        writer.into_bytes()
    }
}

/// A liveness probe carrying an arbitrary 64-bit payload.
#[derive(Clone, Copy, Debug)]
pub struct StatusPing {
    pub payload: i64,
}

pub open spec fn parse_status_ping(s: Seq<u8>) -> Result<i64, ProtoError> {
    match parse_i64(s, 0) {
        Ok((v, _)) => Ok(v),
        Err(e) => Err(e),
    }
}

impl StatusPing {
    pub fn decode(bytes: &[u8]) -> (r: Result<StatusPing, ProtoError>)
        ensures
            match r {
                Ok(p) => parse_status_ping(bytes@) == Ok::<i64, ProtoError>(p.payload),
                Err(e) => parse_status_ping(bytes@) == Err::<i64, ProtoError>(e),
            },
    {
        let mut cursor = Reader::new(bytes);
        match cursor.read_i64() {
            Ok(payload) => Ok(StatusPing { payload }),
            Err(e) => Err(e),
        }
    }
}

/// The echo of a ping: the same payload, verbatim.
#[derive(Clone, Copy, Debug)]
pub struct StatusPong {
    pub payload: i64,
}

impl StatusPong {
    pub fn from_ping(ping: StatusPing) -> (r: StatusPong)
        ensures
            r.payload == ping.payload,
    {
        StatusPong { payload: ping.payload }
    }

    pub fn encode(&self) -> (r: Vec<u8>)
        ensures
            r@ == be64(u64_bits(self.payload)),
    {
        let mut writer = Writer::new();
        writer.write_i64(self.payload);
        writer.into_bytes()
    }
}

/// The client's claimed identity: a username and, optionally, a
/// client-declared 128-bit identifier.
#[derive(Debug)]
pub struct LoginStart {
    pub username: String,
    pub uuid: Option<u128>,
}

pub struct LoginStartV {
    pub username: Seq<char>,
    pub uuid: Option<u128>,
}

impl View for LoginStart {
    type V = LoginStartV;

    open spec fn view(&self) -> LoginStartV {
        LoginStartV { username: self.username@, uuid: self.uuid }
    }
}

pub open spec fn parse_login_start(s: Seq<u8>) -> Result<LoginStartV, ProtoError> {
    match parse_string(s, 0) {
        Ok((username, p1)) => match parse_bool(s, p1) {
            Ok((has_uuid, p2)) => if has_uuid {
                match parse_u128(s, p2) {
                    Ok((id, _)) => Ok((LoginStartV { username, uuid: Some(id) })),
                    Err(e) => Err(e),
                }
            } else {
                Ok((LoginStartV { username, uuid: None }))
            },
            Err(e) => Err(e),
        },
        Err(e) => Err(e),
    }
}

impl LoginStart {
    pub fn decode(bytes: &[u8]) -> (r: Result<LoginStart, ProtoError>)
        ensures
            match r {
                Ok(ls) => parse_login_start(bytes@) == Ok::<LoginStartV, ProtoError>(ls@),
                Err(e) => parse_login_start(bytes@) == Err::<LoginStartV, ProtoError>(e),
            },
    {
        let mut cursor = Reader::new(bytes);
        let username = match cursor.read_string() {
            Ok(v) => v,
            Err(e) => {
                return Err(e);
            },
        };
        let has_uuid = match cursor.read_bool() {
            Ok(v) => v,
            Err(e) => {
                return Err(e);
            },
        };
        let uuid = if has_uuid {
            match cursor.read_uuid() {
                Ok(v) => Some(v),
                Err(e) => {
                    return Err(e);
                },
            }
        } else {
            None
        };
        Ok(LoginStart { username, uuid })
    }
}

/// The server's encryption challenge: an empty server id, the DER-encoded
/// public half of the process-wide key pair, and a 4-byte verify challenge.
#[derive(Debug)]
pub struct EncryptionRequest {
    pub server_id: String,
    pub public_key: Vec<u8>,
    pub verify_token: [u8; 4],
}

/// The wire layout of an encryption challenge.
pub open spec fn encryption_request_enc(
    server_id: Seq<char>,
    public_key: Seq<u8>,
    verify_token: Seq<u8>,
) -> Seq<u8> {
    string_enc(server_id) + bytes_enc(public_key) + bytes_enc(verify_token)
}

impl EncryptionRequest {
    pub fn new(public_key: Vec<u8>, verify_token: [u8; 4]) -> (r: EncryptionRequest)
        ensures
            r.server_id@ == Seq::<char>::empty(),
            r.public_key@ == public_key@,
            r.verify_token@ == verify_token@,
    {
        EncryptionRequest { server_id: String::new(), public_key, verify_token }
    }

    pub fn encode(&self) -> (r: Vec<u8>)
        requires
            encode_utf8(self.server_id@).len() <= 0x7fff_ffff,
            self.public_key@.len() <= 0x7fff_ffff,
        ensures
            r@ == encryption_request_enc(self.server_id@, self.public_key@, self.verify_token@),
    {
        let mut writer = Writer::new();
        writer.write_string(self.server_id.as_str());
        writer.write_varint(self.public_key.len() as i32);
        writer.write_raw(self.public_key.as_slice());
        writer.write_varint(4);
        writer.write_raw(self.verify_token.as_slice());
        proof {
            assert(u32_bits(4) == 4 && u32_bits(self.public_key@.len() as i32)
                == self.public_key@.len() as u32);
            assert(writer@ =~= encryption_request_enc(
                self.server_id@,
                self.public_key@,
                self.verify_token@,
            ));
        }
        writer.into_bytes()
    }
}

/// The client's answer to the challenge: its chosen 16-byte symmetric key
/// and the echoed verify challenge, each encrypted to the server's public
/// key, as raw ciphertexts.
#[derive(Debug)]
pub struct EncryptionResponse {
    pub shared_secret: Vec<u8>,
    pub verify_token: Vec<u8>,
}

pub struct EncryptionResponseV {
    pub shared_secret: Seq<u8>,
    pub verify_token: Seq<u8>,
}

impl View for EncryptionResponse {
    type V = EncryptionResponseV;

    open spec fn view(&self) -> EncryptionResponseV {
        EncryptionResponseV { shared_secret: self.shared_secret@, verify_token: self.verify_token@ }
    }
}

pub open spec fn parse_encryption_response(s: Seq<u8>) -> Result<EncryptionResponseV, ProtoError> {
    match parse_byte_array(s, 0) {
        Ok((shared_secret, p1)) => match parse_byte_array(s, p1) {
            Ok((verify_token, _)) => Ok((EncryptionResponseV { shared_secret, verify_token })),
            Err(e) => Err(e),
        },
        Err(e) => Err(e),
    }
}

impl EncryptionResponse {
    pub fn decode(bytes: &[u8]) -> (r: Result<EncryptionResponse, ProtoError>)
        ensures
            match r {
                Ok(er) => parse_encryption_response(bytes@) == Ok::<
                    EncryptionResponseV,
                    ProtoError,
                >(er@),
                Err(e) => parse_encryption_response(bytes@) == Err::<
                    EncryptionResponseV,
                    ProtoError,
                >(e),
            },
    {
        let mut cursor = Reader::new(bytes);
        let shared_secret = match cursor.read_byte_array() {
            Ok(v) => v,
            Err(e) => {
                return Err(e);
            },
        };
        let verify_token = match cursor.read_byte_array() {
            Ok(v) => v,
            Err(e) => {
                return Err(e);
            },
        };
        Ok(EncryptionResponse { shared_secret, verify_token })
    }

    /// Decrypts the client's chosen symmetric key: the first sixteen bytes
    /// of the decrypted buffer, zero-padded where it is shorter.
    pub fn decrypt_shared_secret(&self, keys: &ServerKeys) -> (r: Result<[u8; 16], ProtoError>)
        ensures
            match r {
                Ok(sec) => spec_rsa_decrypt(keys.private_der(), self.shared_secret@) is Ok && sec@
                    == take_pad(
                    spec_rsa_decrypt(keys.private_der(), self.shared_secret@)->Ok_0,
                    16,
                ),
                Err(e) => spec_rsa_decrypt(keys.private_der(), self.shared_secret@) == Err::<
                    Seq<u8>,
                    ProtoError,
                >(e),
            },
    {
        let plain = match keys.decrypt(&self.shared_secret) {
            Ok(p) => p,
            Err(e) => {
                return Err(e);
            },
        };
        Ok(pad_to_16(&plain))
    }

    /// Decrypts the client's echo of the verify challenge: the first four
    /// bytes of the decrypted buffer, zero-padded where it is shorter.
    pub fn decrypt_verify_token(&self, keys: &ServerKeys) -> (r: Result<[u8; 4], ProtoError>)
        ensures
            match r {
                Ok(tok) => spec_rsa_decrypt(keys.private_der(), self.verify_token@) is Ok && tok@
                    == take_pad(spec_rsa_decrypt(keys.private_der(), self.verify_token@)->Ok_0, 4),
                Err(e) => spec_rsa_decrypt(keys.private_der(), self.verify_token@) == Err::<
                    Seq<u8>,
                    ProtoError,
                >(e),
            },
    {
        let plain = match keys.decrypt(&self.verify_token) {
            Ok(p) => p,
            Err(e) => {
                return Err(e);
            },
        };
        Ok(pad_to_4(&plain))
    }
}

fn pad_to_16(plain: &Vec<u8>) -> (r: [u8; 16])
    ensures
        r@ == take_pad(plain@, 16),
{
    let mut out: [u8; 16] = [0u8; 16];
    let mut i: usize = 0;
    while i < 16
        invariant
            i <= 16,
            forall|k: int| 0 <= k < i ==> out@[k] == take_pad(plain@, 16)[k],
            forall|k: int| i <= k < 16 ==> out@[k] == 0,
        decreases 16 - i,
    {
        if i < plain.len() {
            out[i] = plain[i];
        }
        i = i + 1;
    }
    proof {
        assert(out@ =~= take_pad(plain@, 16));
    }
    out
}

fn pad_to_4(plain: &Vec<u8>) -> (r: [u8; 4])
    ensures
        r@ == take_pad(plain@, 4),
{
    let mut out: [u8; 4] = [0u8; 4];
    let mut i: usize = 0;
    while i < 4
        invariant
            i <= 4,
            forall|k: int| 0 <= k < i ==> out@[k] == take_pad(plain@, 4)[k],
            forall|k: int| i <= k < 4 ==> out@[k] == 0,
        decreases 4 - i,
    {
        if i < plain.len() {
            out[i] = plain[i];
        }
        i = i + 1;
    }
    proof {
        assert(out@ =~= take_pad(plain@, 4));
    }
    out
}

/// One signed profile property of a verified identity.
#[derive(Debug)]
pub struct ProfileProperty {
    pub name: String,
    pub value: String,
    pub signature: String,
}

pub struct ProfilePropertyV {
    pub name: Seq<char>,
    pub value: Seq<char>,
    pub signature: Seq<char>,
}

impl View for ProfileProperty {
    type V = ProfilePropertyV;

    open spec fn view(&self) -> ProfilePropertyV {
        ProfilePropertyV { name: self.name@, value: self.value@, signature: self.signature@ }
    }
}

pub open spec fn property_wf(p: ProfilePropertyV) -> bool {
    &&& encode_utf8(p.name).len() <= 0x7fff_ffff
    &&& encode_utf8(p.value).len() <= 0x7fff_ffff
    &&& encode_utf8(p.signature).len() <= 0x7fff_ffff
}

/// Each property is written as name, value, an is-signed marker that is
/// always true, and the signature.
pub open spec fn property_enc(p: ProfilePropertyV) -> Seq<u8> {
    string_enc(p.name) + string_enc(p.value) + bool_enc(true) + string_enc(p.signature)
}

pub open spec fn properties_enc(ps: Seq<ProfilePropertyV>) -> Seq<u8>
    decreases ps.len(),
{
    if ps.len() == 0 {
        Seq::empty()
    } else {
        properties_enc(ps.drop_last()) + property_enc(ps.last())
    }
}

/// The verified identity announced on a successful login.
#[derive(Debug)]
pub struct LoginSuccess {
    pub uuid: u128,
    pub username: String,
    pub properties: Vec<ProfileProperty>,
}

pub struct LoginSuccessV {
    pub uuid: u128,
    pub username: Seq<char>,
    pub properties: Seq<ProfilePropertyV>,
}

impl View for LoginSuccess {
    type V = LoginSuccessV;

    open spec fn view(&self) -> LoginSuccessV {
        LoginSuccessV {
            uuid: self.uuid,
            username: self.username@,
            properties: self.properties@.map_values(|p: ProfileProperty| p@),
        }
    }
}

pub open spec fn login_success_wf(v: LoginSuccessV) -> bool {
    &&& encode_utf8(v.username).len() <= 0x7fff_ffff
    &&& v.properties.len() <= 0x7fff_ffff
    &&& forall|i: int| 0 <= i < v.properties.len() ==> property_wf(#[trigger] v.properties[i])
}

/// The wire layout of a login success: identifier, username, property
/// count, then each property.
pub open spec fn login_success_enc(v: LoginSuccessV) -> Seq<u8> {
    be128(v.uuid) + string_enc(v.username) + varint_enc(v.properties.len() as u32) + properties_enc(
        v.properties,
    )
}

impl LoginSuccess {
    pub fn encode(&self) -> (r: Vec<u8>)
        requires
            login_success_wf(self@),
        ensures
            r@ == login_success_enc(self@),
    {
        let ghost v = self@;
        let mut writer = Writer::new();
        writer.write_uuid(self.uuid);
        writer.write_string(self.username.as_str());
        writer.write_varint(self.properties.len() as i32);
        let ghost head = writer@;
        proof {
            assert(u32_bits(self.properties@.len() as i32) == v.properties.len() as u32);
            assert(head =~= be128(v.uuid) + string_enc(v.username) + varint_enc(
                v.properties.len() as u32,
            ));
        }
        let mut i: usize = 0;
        while i < self.properties.len()
            invariant
                i <= self.properties@.len(),
                v == self@,
                head == be128(v.uuid) + string_enc(v.username) + varint_enc(
                    v.properties.len() as u32,
                ),
                login_success_wf(v),
                v.properties.len() == self.properties@.len(),
                writer@ == head + properties_enc(v.properties.take(i as int)),
            decreases self.properties@.len() - i,
        {
            let p = &self.properties[i];
            proof {
                assert(v.properties[i as int] == p@);
            }
            writer.write_string(p.name.as_str());
            writer.write_string(p.value.as_str());
            writer.write_bool(true);
            writer.write_string(p.signature.as_str());
            proof {
                let taken = v.properties.take(i as int + 1);
                assert(taken.drop_last() =~= v.properties.take(i as int));
                assert(taken.last() == v.properties[i as int]);
                assert(writer@ =~= head + properties_enc(taken));
            }
            i = i + 1;
        }
        proof {
            assert(v.properties.take(self.properties@.len() as int) =~= v.properties);
            assert(writer@ =~= login_success_enc(v));
        }
        writer.into_bytes()
    }
}

/// A structured farewell sent instead of the encryption handshake when the
/// server runs without online-mode verification; JSON text, framing only.
#[derive(Debug)]
pub struct LoginDisconnect {
    pub reason: String,
}

impl LoginDisconnect {
    pub fn new(reason: String) -> (r: LoginDisconnect)
        ensures
            r.reason@ == reason@,
    {
        LoginDisconnect { reason }
    }

    pub fn encode(&self) -> (r: Vec<u8>)
        requires
            encode_utf8(self.reason@).len() <= 0x7fff_ffff,
        ensures
            r@ == string_enc(self.reason@),
    {
        let mut writer = Writer::new();
        writer.write_string(self.reason.as_str());
        writer.into_bytes()
    }
}

} // verus!
