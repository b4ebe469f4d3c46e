//! The mathematical model of the wire format: what each primitive encodes
//! to, what parsing arbitrary bytes yields, and the round-trip laws that
//! tie the two together. Everything here is specification-level; the
//! executable codec in `protocol` is proved against these functions.

use vstd::prelude::*;

verus! {

use crate::errors::ProtoError;
use vstd::arithmetic::div_mod::lemma_div_denominator;
use vstd::utf8::{decode_utf8, encode_utf8, encode_utf8_decode_utf8, encode_utf8_valid_utf8,
    valid_utf8};

// ---------------------------------------------------------------------------
// Two's-complement reinterpretations between signed and unsigned integers.
// ---------------------------------------------------------------------------

/// The 32-bit two's-complement bit pattern of a signed value.
pub open spec fn u32_bits(v: i32) -> u32 {
    if v >= 0 {
        v as u32
    } else {
        (v + 0x1_0000_0000) as u32
    }
}

/// The signed value whose 32-bit two's-complement bit pattern is `u`.
pub open spec fn i32_bits(u: u32) -> i32 {
    if u < 0x8000_0000 {
        u as i32
    } else {
        (u - 0x1_0000_0000) as i32
    }
}

/// The 64-bit two's-complement bit pattern of a signed value.
pub open spec fn u64_bits(v: i64) -> u64 {
    if v >= 0 {
        v as u64
    } else {
        (v + 0x1_0000_0000_0000_0000) as u64
    }
}

/// The signed value whose 64-bit two's-complement bit pattern is `u`.
pub open spec fn i64_bits(u: u64) -> i64 {
    if u < 0x8000_0000_0000_0000 {
        u as i64
    } else {
        (u - 0x1_0000_0000_0000_0000) as i64
    }
}

pub proof fn lemma_i32_bits_of_u32_bits(v: i32)
    ensures
        i32_bits(u32_bits(v)) == v,
{
}

pub proof fn lemma_i64_bits_of_u64_bits(v: i64)
    ensures
        i64_bits(u64_bits(v)) == v,
{
}

// ---------------------------------------------------------------------------
// Variable-length integers: base-128 groups, least-significant group first,
// high bit of each byte set when another group follows.
// ---------------------------------------------------------------------------

/// The wire encoding of an unsigned 32-bit bit pattern as a varint.
pub open spec fn varint_enc(u: u32) -> Seq<u8>
    decreases u,
{
    if u < 0x80 {
        seq![u as u8]
    } else {
        seq![((u % 0x80) + 0x80) as u8] + varint_enc(u / 0x80)
    }
}

/// Parsing a varint from `s` at `pos`, allowed to consume at most `fuel`
/// bytes: the raw (unsigned, untruncated) accumulated value and the
/// position just past the last byte consumed.
pub open spec fn parse_varint_raw(s: Seq<u8>, pos: int, fuel: nat) -> Result<(nat, int), ProtoError>
    decreases fuel,
{
    if fuel == 0 {
        Err(ProtoError::MalformedVarInt)
    } else if !(0 <= pos < s.len()) {
        Err(ProtoError::BufferUnderrun)
    } else {
        let b = s[pos];
        if b < 0x80 {
            Ok((b as nat, pos + 1))
        } else {
            match parse_varint_raw(s, pos + 1, (fuel - 1) as nat) {
                Ok((v, p)) => Ok((((b - 0x80) + 0x80 * v) as nat, p)),
                Err(e) => Err(e),
            }
        }
    }
}

/// Parsing a 32-bit signed varint: at most five bytes are consumed and the
/// accumulated value is truncated to its low 32 bits.
pub open spec fn parse_varint(s: Seq<u8>, pos: int) -> Result<(i32, int), ProtoError> {
    match parse_varint_raw(s, pos, 5) {
        Ok((raw, p)) => Ok((i32_bits((raw % 0x1_0000_0000) as u32), p)),
        Err(e) => Err(e),
    }
}

/// How many base-128 groups the encoding of a 32-bit pattern takes: one
/// per factor of 2^7, so between one and five.
pub proof fn lemma_varint_enc_len(u: u32)
    ensures
        1 <= varint_enc(u).len() <= 5,
        varint_enc(u).len() == 1 <==> u < 0x80,
        varint_enc(u).len() == 2 <==> 0x80 <= u < 0x4000,
        varint_enc(u).len() == 3 <==> 0x4000 <= u < 0x20_0000,
        varint_enc(u).len() == 4 <==> 0x20_0000 <= u < 0x1000_0000,
        varint_enc(u).len() == 5 <==> u >= 0x1000_0000,
    decreases u,
{
    if u >= 0x80 {
        lemma_varint_enc_len(u / 0x80);
    }
}

/// Parsing the encoding of `u` (laid down at `pos` inside `s`, with at
/// least `fuel >= len` bytes of budget) succeeds and yields `u` back.
pub proof fn lemma_parse_varint_enc(s: Seq<u8>, pos: int, u: u32, fuel: nat)
    requires
        0 <= pos,
        pos + varint_enc(u).len() <= s.len(),
        varint_enc(u).len() <= fuel,
        s.subrange(pos, pos + varint_enc(u).len()) == varint_enc(u),
    ensures
        parse_varint_raw(s, pos, fuel) == Ok::<(nat, int), ProtoError>(
            (u as nat, pos + varint_enc(u).len()),
        ),
    decreases u,
{
    lemma_varint_enc_len(u);
    let enc = varint_enc(u);
    let n = enc.len() as int;
    assert(s[pos] == s.subrange(pos, pos + n)[0]);
    if u < 0x80 {
        assert(s[pos] == enc[0]);
    } else {
        let rest = varint_enc(u / 0x80);
        assert(s[pos] == enc[0]);
        lemma_varint_enc_len(u / 0x80);
        assert(s.subrange(pos + 1, pos + 1 + rest.len()) =~= rest) by {
            assert forall|i: int| 0 <= i < rest.len() implies s.subrange(
                pos + 1,
                pos + 1 + rest.len(),
            )[i] == rest[i] by {
                assert(s.subrange(pos + 1, pos + 1 + rest.len())[i] == s[pos + 1 + i]);
                assert(s.subrange(pos, pos + n)[i + 1] == s[pos + (i + 1)]);
                assert(enc[i + 1] == rest[i]);
            }
        }
        lemma_parse_varint_enc(s, pos + 1, u / 0x80, (fuel - 1) as nat);
        assert((s[pos] - 0x80) + 0x80 * ((u / 0x80) as nat) == u);
    }
}

/// Round trip for 32-bit signed varints: decoding an encoding (followed by
/// anything) yields the original value and consumes exactly the encoding;
/// values 0..=127 take one byte and negative values take five.
pub proof fn lemma_varint_round_trip(v: i32, rest: Seq<u8>)
    ensures
        ({
            let enc = varint_enc(u32_bits(v));
            &&& parse_varint(enc + rest, 0) == Ok::<(i32, int), ProtoError>((v, enc.len() as int))
            &&& 1 <= enc.len() <= 5
            &&& (0 <= v < 0x80 ==> enc.len() == 1)
            &&& (v < 0 ==> enc.len() == 5)
        }),
{
    let u = u32_bits(v);
    let enc = varint_enc(u);
    lemma_varint_enc_len(u);
    let s = enc + rest;
    assert(s.subrange(0, enc.len() as int) =~= enc);
    lemma_parse_varint_enc(s, 0, u, 5);
    assert((u as nat) % 0x1_0000_0000 == u as nat);
    lemma_i32_bits_of_u32_bits(v);
}

/// Parsing the encoding of `v` laid down at `pos` inside `s`.
pub proof fn lemma_parse_varint_at(s: Seq<u8>, pos: int, v: i32)
    requires
        0 <= pos,
        pos + varint_enc(u32_bits(v)).len() <= s.len(),
        s.subrange(pos, pos + varint_enc(u32_bits(v)).len()) == varint_enc(u32_bits(v)),
    ensures
        parse_varint(s, pos) == Ok::<(i32, int), ProtoError>(
            (v, pos + varint_enc(u32_bits(v)).len()),
        ),
{
    let u = u32_bits(v);
    lemma_varint_enc_len(u);
    lemma_parse_varint_enc(s, pos, u, 5);
    assert((u as nat) % 0x1_0000_0000 == u as nat);
    lemma_i32_bits_of_u32_bits(v);
}

// ---------------------------------------------------------------------------
// Fixed-width big-endian integers.
// ---------------------------------------------------------------------------

/// Big-endian encoding of a 16-bit value.
pub open spec fn be16(v: u16) -> Seq<u8> {
    seq![(v / 0x100) as u8, (v % 0x100) as u8]
}

/// The 16-bit value held by two big-endian bytes.
pub open spec fn val16(s: Seq<u8>) -> u16
    recommends
        s.len() == 2,
{
    (s[0] * 0x100 + s[1]) as u16
}

/// Big-endian encoding of a 64-bit bit pattern.
pub open spec fn be64(u: u64) -> Seq<u8> {
    seq![
        (u / 0x100_0000_0000_0000) as u8,
        ((u / 0x1_0000_0000_0000) % 0x100) as u8,
        ((u / 0x100_0000_0000) % 0x100) as u8,
        ((u / 0x1_0000_0000) % 0x100) as u8,
        ((u / 0x100_0000) % 0x100) as u8,
        ((u / 0x1_0000) % 0x100) as u8,
        ((u / 0x100) % 0x100) as u8,
        (u % 0x100) as u8,
    ]
}

/// The 64-bit bit pattern held by eight big-endian bytes.
pub open spec fn val64(s: Seq<u8>) -> u64
    recommends
        s.len() == 8,
{
    (s[0] * 0x100_0000_0000_0000 + s[1] * 0x1_0000_0000_0000 + s[2] * 0x100_0000_0000 + s[3]
        * 0x1_0000_0000 + s[4] * 0x100_0000 + s[5] * 0x1_0000 + s[6] * 0x100 + s[7]) as u64
}

/// Big-endian encoding of a 128-bit identifier.
pub open spec fn be128(u: u128) -> Seq<u8> {
    seq![
        (u / 0x100_0000_0000_0000_0000_0000_0000_0000) as u8,
        ((u / 0x1_0000_0000_0000_0000_0000_0000_0000) % 0x100) as u8,
        ((u / 0x100_0000_0000_0000_0000_0000_0000) % 0x100) as u8,
        ((u / 0x1_0000_0000_0000_0000_0000_0000) % 0x100) as u8,
        ((u / 0x100_0000_0000_0000_0000_0000) % 0x100) as u8,
        ((u / 0x1_0000_0000_0000_0000_0000) % 0x100) as u8,
        ((u / 0x100_0000_0000_0000_0000) % 0x100) as u8,
        ((u / 0x1_0000_0000_0000_0000) % 0x100) as u8,
        ((u / 0x100_0000_0000_0000) % 0x100) as u8,
        ((u / 0x1_0000_0000_0000) % 0x100) as u8,
        ((u / 0x100_0000_0000) % 0x100) as u8,
        ((u / 0x1_0000_0000) % 0x100) as u8,
        ((u / 0x100_0000) % 0x100) as u8,
        ((u / 0x1_0000) % 0x100) as u8,
        ((u / 0x100) % 0x100) as u8,
        (u % 0x100) as u8,
    ]
}

/// The 128-bit identifier held by sixteen big-endian bytes.
pub open spec fn val128(s: Seq<u8>) -> u128
    recommends
        s.len() == 16,
{
    (s[0] * 0x100_0000_0000_0000_0000_0000_0000_0000 + s[1] * 0x1_0000_0000_0000_0000_0000_0000_0000
        + s[2] * 0x100_0000_0000_0000_0000_0000_0000 + s[3] * 0x1_0000_0000_0000_0000_0000_0000 + s[4]
        * 0x100_0000_0000_0000_0000_0000 + s[5] * 0x1_0000_0000_0000_0000_0000 + s[6]
        * 0x100_0000_0000_0000_0000 + s[7] * 0x1_0000_0000_0000_0000 + s[8] * 0x100_0000_0000_0000
        + s[9] * 0x1_0000_0000_0000 + s[10] * 0x100_0000_0000 + s[11] * 0x1_0000_0000 + s[12]
        * 0x100_0000 + s[13] * 0x1_0000 + s[14] * 0x100 + s[15]) as u128
}

pub proof fn lemma_val16_be16(v: u16)
    ensures
        val16(be16(v)) == v,
{
}

pub proof fn lemma_val64_be64(u: u64)
    ensures
        val64(be64(u)) == u,
{
    lemma_div_denominator(u as int, 0x100, 0x100);
    lemma_div_denominator(u as int, 0x1_0000, 0x100);
    lemma_div_denominator(u as int, 0x100_0000, 0x100);
    lemma_div_denominator(u as int, 0x1_0000_0000, 0x100);
    lemma_div_denominator(u as int, 0x100_0000_0000, 0x100);
    lemma_div_denominator(u as int, 0x1_0000_0000_0000, 0x100);
}

pub proof fn lemma_val128_be128(u: u128)
    ensures
        val128(be128(u)) == u,
{
    lemma_div_denominator(u as int, 0x100, 0x100);
    lemma_div_denominator(u as int, 0x1_0000, 0x100);
    lemma_div_denominator(u as int, 0x100_0000, 0x100);
    lemma_div_denominator(u as int, 0x1_0000_0000, 0x100);
    lemma_div_denominator(u as int, 0x100_0000_0000, 0x100);
    lemma_div_denominator(u as int, 0x1_0000_0000_0000, 0x100);
    lemma_div_denominator(u as int, 0x100_0000_0000_0000, 0x100);
    lemma_div_denominator(u as int, 0x1_0000_0000_0000_0000, 0x100);
    lemma_div_denominator(u as int, 0x100_0000_0000_0000_0000, 0x100);
    lemma_div_denominator(u as int, 0x1_0000_0000_0000_0000_0000, 0x100);
    lemma_div_denominator(u as int, 0x100_0000_0000_0000_0000_0000, 0x100);
    lemma_div_denominator(u as int, 0x1_0000_0000_0000_0000_0000_0000, 0x100);
    lemma_div_denominator(u as int, 0x100_0000_0000_0000_0000_0000_0000, 0x100);
    lemma_div_denominator(u as int, 0x1_0000_0000_0000_0000_0000_0000_0000, 0x100);
}

// ---------------------------------------------------------------------------
// Parsing the remaining primitives from arbitrary bytes.
// ---------------------------------------------------------------------------

/// The first `n` bytes of `p`, padded with zeros where `p` is shorter:
/// how a fixed-width secret is cut out of a decrypted buffer.
pub open spec fn take_pad(p: Seq<u8>, n: nat) -> Seq<u8> {
    Seq::new(n, |i: int| if i < p.len() { p[i] } else { 0u8 })
}

pub open spec fn parse_u16(s: Seq<u8>, pos: int) -> Result<(u16, int), ProtoError> {
    if 0 <= pos && pos + 2 <= s.len() {
        Ok((val16(s.subrange(pos, pos + 2)), pos + 2))
    } else {
        Err(ProtoError::BufferUnderrun)
    }
}

pub open spec fn parse_i64(s: Seq<u8>, pos: int) -> Result<(i64, int), ProtoError> {
    if 0 <= pos && pos + 8 <= s.len() {
        Ok((i64_bits(val64(s.subrange(pos, pos + 8))), pos + 8))
    } else {
        Err(ProtoError::BufferUnderrun)
    }
}

pub open spec fn parse_u128(s: Seq<u8>, pos: int) -> Result<(u128, int), ProtoError> {
    if 0 <= pos && pos + 16 <= s.len() {
        Ok((val128(s.subrange(pos, pos + 16)), pos + 16))
    } else {
        Err(ProtoError::BufferUnderrun)
    }
}

/// A boolean is one byte: zero reads as false, anything else as true.
pub open spec fn parse_bool(s: Seq<u8>, pos: int) -> Result<(bool, int), ProtoError> {
    if 0 <= pos < s.len() {
        Ok((s[pos] != 0, pos + 1))
    } else {
        Err(ProtoError::BufferUnderrun)
    }
}

/// The writer always emits 0 or 1 for a boolean.
pub open spec fn bool_enc(b: bool) -> Seq<u8> {
    seq![if b { 1u8 } else { 0u8 }]
}

/// A byte array is a varint byte count followed by that many raw bytes.
pub open spec fn bytes_enc(b: Seq<u8>) -> Seq<u8>
    recommends
        b.len() <= 0x7fff_ffff,
{
    varint_enc(b.len() as u32) + b
}

pub open spec fn parse_byte_array(s: Seq<u8>, pos: int) -> Result<(Seq<u8>, int), ProtoError> {
    match parse_varint(s, pos) {
        Ok((n, p)) => if n < 0 || p + n > s.len() {
            Err(ProtoError::BufferUnderrun)
        } else {
            Ok((s.subrange(p, p + n), p + n))
        },
        Err(e) => Err(e),
    }
}

/// A string is a byte array holding the UTF-8 encoding of its characters.
pub open spec fn string_enc(s: Seq<char>) -> Seq<u8>
    recommends
        encode_utf8(s).len() <= 0x7fff_ffff,
{
    bytes_enc(encode_utf8(s))
}

pub open spec fn parse_string(s: Seq<u8>, pos: int) -> Result<(Seq<char>, int), ProtoError> {
    match parse_byte_array(s, pos) {
        Ok((b, p)) => if valid_utf8(b) {
            Ok((decode_utf8(b), p))
        } else {
            Err(ProtoError::InvalidUtf8)
        },
        Err(e) => Err(e),
    }
}

// ---------------------------------------------------------------------------
// Round-trip laws for the remaining primitives.
// ---------------------------------------------------------------------------

pub proof fn lemma_parse_u16_at(s: Seq<u8>, pos: int, v: u16)
    requires
        0 <= pos,
        pos + 2 <= s.len(),
        s.subrange(pos, pos + 2) == be16(v),
    ensures
        parse_u16(s, pos) == Ok::<(u16, int), ProtoError>((v, pos + 2)),
{
    lemma_val16_be16(v);
}

pub proof fn lemma_parse_i64_at(s: Seq<u8>, pos: int, v: i64)
    requires
        0 <= pos,
        pos + 8 <= s.len(),
        s.subrange(pos, pos + 8) == be64(u64_bits(v)),
    ensures
        parse_i64(s, pos) == Ok::<(i64, int), ProtoError>((v, pos + 8)),
{
    lemma_val64_be64(u64_bits(v));
    lemma_i64_bits_of_u64_bits(v);
}

pub proof fn lemma_parse_u128_at(s: Seq<u8>, pos: int, v: u128)
    requires
        0 <= pos,
        pos + 16 <= s.len(),
        s.subrange(pos, pos + 16) == be128(v),
    ensures
        parse_u128(s, pos) == Ok::<(u128, int), ProtoError>((v, pos + 16)),
{
    lemma_val128_be128(v);
}

pub proof fn lemma_parse_bool_at(s: Seq<u8>, pos: int, b: bool)
    requires
        0 <= pos,
        pos + 1 <= s.len(),
        s.subrange(pos, pos + 1) == bool_enc(b),
    ensures
        parse_bool(s, pos) == Ok::<(bool, int), ProtoError>((b, pos + 1)),
{
    assert(s[pos] == s.subrange(pos, pos + 1)[0]);
}

pub proof fn lemma_parse_byte_array_at(s: Seq<u8>, pos: int, b: Seq<u8>)
    requires
        0 <= pos,
        b.len() <= 0x7fff_ffff,
        pos + bytes_enc(b).len() <= s.len(),
        s.subrange(pos, pos + bytes_enc(b).len()) == bytes_enc(b),
    ensures
        parse_byte_array(s, pos) == Ok::<(Seq<u8>, int), ProtoError>(
            (b, pos + bytes_enc(b).len()),
        ),
{
    let n = b.len() as i32;
    let nv = varint_enc(u32_bits(n));
    lemma_varint_enc_len(u32_bits(n));
    let total = bytes_enc(b).len() as int;
    assert(bytes_enc(b) == nv + b);
    assert(s.subrange(pos, pos + nv.len()) =~= nv) by {
        assert forall|i: int| 0 <= i < nv.len() implies s.subrange(pos, pos + nv.len())[i]
            == nv[i] by {
            assert(s.subrange(pos, pos + total)[i] == s[pos + i]);
            assert((nv + b)[i] == nv[i]);
        }
    }
    lemma_parse_varint_at(s, pos, n);
    let p = pos + nv.len() as int;
    assert(s.subrange(p, p + b.len()) =~= b) by {
        assert forall|i: int| 0 <= i < b.len() implies s.subrange(p, p + b.len())[i] == b[i] by {
            assert(s.subrange(pos, pos + total)[nv.len() + i] == s[pos + nv.len() + i]);
            assert((nv + b)[nv.len() + i] == b[i]);
        }
    }
}

/// Round trip for byte arrays: the varint length prefix plus the raw bytes
/// parse back to exactly those bytes.
pub proof fn lemma_byte_array_round_trip(b: Seq<u8>, rest: Seq<u8>)
    requires
        b.len() <= 0x7fff_ffff,
    ensures
        parse_byte_array(bytes_enc(b) + rest, 0) == Ok::<(Seq<u8>, int), ProtoError>(
            (b, bytes_enc(b).len() as int),
        ),
{
    let s = bytes_enc(b) + rest;
    assert(s.subrange(0, bytes_enc(b).len() as int) =~= bytes_enc(b));
    lemma_parse_byte_array_at(s, 0, b);
}

pub proof fn lemma_parse_string_at(s: Seq<u8>, pos: int, cs: Seq<char>)
    requires
        0 <= pos,
        encode_utf8(cs).len() <= 0x7fff_ffff,
        pos + string_enc(cs).len() <= s.len(),
        s.subrange(pos, pos + string_enc(cs).len()) == string_enc(cs),
    ensures
        parse_string(s, pos) == Ok::<(Seq<char>, int), ProtoError>(
            (cs, pos + string_enc(cs).len()),
        ),
{
    lemma_parse_byte_array_at(s, pos, encode_utf8(cs));
    encode_utf8_valid_utf8(cs);
    encode_utf8_decode_utf8(cs);
}

/// Round trip for strings: encoding any character sequence as UTF-8 behind
/// a varint byte count and parsing it back is the identity.
pub proof fn lemma_string_round_trip(cs: Seq<char>, rest: Seq<u8>)
    requires
        encode_utf8(cs).len() <= 0x7fff_ffff,
    ensures
        parse_string(string_enc(cs) + rest, 0) == Ok::<(Seq<char>, int), ProtoError>(
            (cs, string_enc(cs).len() as int),
        ),
{
    let s = string_enc(cs) + rest;
    assert(s.subrange(0, string_enc(cs).len() as int) =~= string_enc(cs));
    lemma_parse_string_at(s, 0, cs);
}

} // verus!
