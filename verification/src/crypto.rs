//! The cryptographic edge of the library: the process-wide asymmetric key
//! pair, the per-connection stream cipher, the random verify challenge and
//! the session-authentication fingerprint. Each call into an outside
//! cryptographic crate stands behind one trusted wrapper; everything that
//! can be decided from the wrappers' results is verified.

use aes::cipher::{AsyncStreamCipher, NewCipher};
use aes::Aes128;
use cfb8::Cfb8;
use rand::{RngCore, SeedableRng};
use vstd::prelude::*;

verus! {

use crate::errors::ProtoError;

// ---------------------------------------------------------------------------
// Randomness.
// ---------------------------------------------------------------------------

/// Relies on rand's `StdRng::from_entropy` and `RngCore::fill_bytes` to
/// draw four bytes from a cryptographically seeded source. Nothing can be
/// promised of a random value.
#[verifier::external_body]
pub(crate) fn random_verify_token() -> (r: [u8; 4]) {
    let mut rng = rand::rngs::StdRng::from_entropy();
    let mut token = [0u8; 4];
    rng.fill_bytes(&mut token);
    token
}

// ---------------------------------------------------------------------------
// The asymmetric key pair.
// ---------------------------------------------------------------------------

/// What openssl's PKCS#1 v1.5 private-key decryption returns for a given
/// private key (as DER) and ciphertext: `None` where the key does not parse
/// or the decryption fails. Deterministic in its arguments.
pub uninterp spec fn rsa_decrypted(priv_der: Seq<u8>, ctext: Seq<u8>) -> Option<Seq<u8>>;

/// Relies on openssl's `Rsa::generate(1024)`, `Rsa::private_key_to_der` and
/// `Rsa::public_key_to_der`: a fresh key pair serialized both ways. The key
/// material is random, so nothing is promised of the bytes.
#[verifier::external_body]
fn rsa_generate_der() -> (r: Result<(Vec<u8>, Vec<u8>), ProtoError>) {
    let key = match openssl::rsa::Rsa::generate(1024) {
        Ok(key) => key,
        Err(_) => return Err(ProtoError::CryptoFailure),
    };
    match (key.private_key_to_der(), key.public_key_to_der()) {
        (Ok(private_der), Ok(public_der)) => Ok((private_der, public_der)),
        _ => Err(ProtoError::CryptoFailure),
    }
}

/// Relies on openssl's `Rsa::private_key_from_der` and
/// `Rsa::private_decrypt` with PKCS#1 v1.5 padding, which are deterministic
/// in the key and the ciphertext. The output buffer is sized to the key, as
/// `private_decrypt` demands, and trimmed to the count it reports.
#[verifier::external_body]
fn rsa_decrypt_exec(priv_der: &Vec<u8>, ctext: &Vec<u8>) -> (r: Option<Vec<u8>>)
    requires
        ctext@.len() <= 0x7fff_ffff,
    ensures
        match r {
            Some(p) => rsa_decrypted(priv_der@, ctext@) == Some(p@),
            None => rsa_decrypted(priv_der@, ctext@) is None,
        },
{
    let key = match openssl::rsa::Rsa::private_key_from_der(priv_der) {
        Ok(key) => key,
        Err(_) => return None,
    };
    let mut buf = vec![0u8; key.size() as usize];
    match key.private_decrypt(ctext, &mut buf, openssl::rsa::Padding::PKCS1) {
        Ok(n) => {
            buf.truncate(n);
            Some(buf)
        },
        Err(_) => None,
    }
}

/// The result of one private-key decryption attempt, ciphertexts beyond
/// the implementation's size limit rejected up front.
pub open spec fn spec_rsa_decrypt(priv_der: Seq<u8>, ctext: Seq<u8>) -> Result<Seq<u8>, ProtoError> {
    if ctext.len() > 0x7fff_ffff {
        Err(ProtoError::CryptoFailure)
    } else {
        match rsa_decrypted(priv_der, ctext) {
            Some(p) => Ok(p),
            None => Err(ProtoError::CryptoFailure),
        }
    }
}

/// The process-wide asymmetric key pair: generated once at startup and
/// from then on read-only, shared by every connection.
pub struct ServerKeys {
    priv_der: Vec<u8>,
    pub_der: Vec<u8>,
}

impl ServerKeys {
    /// The private half, DER-encoded.
    pub closed spec fn private_der(&self) -> Seq<u8> {
        self.priv_der@
    }

    /// The public half, DER-encoded.
    pub closed spec fn public_der(&self) -> Seq<u8> {
        self.pub_der@
    }

    pub open spec fn wf(&self) -> bool {
        self.public_der().len() <= 0x7fff_ffff
    }

    /// Generates a fresh 1024-bit key pair.
    pub fn generate() -> (r: Result<ServerKeys, ProtoError>)
        ensures
            match r {
                Ok(k) => k.wf(),
                Err(e) => e == ProtoError::CryptoFailure,
            },
    {
        match rsa_generate_der() {
            Ok((priv_der, pub_der)) => {
                if pub_der.len() > 0x7fff_ffff {
                    return Err(ProtoError::CryptoFailure);
                }
                Ok(ServerKeys { priv_der, pub_der })
            },
            Err(_) => Err(ProtoError::CryptoFailure),
        }
    }

    /// A copy of the DER-encoded public half.
    pub fn public_key_to_der(&self) -> (r: Vec<u8>)
        ensures
            r@ == self.public_der(),
    {
        vstd::slice::slice_to_vec(self.pub_der.as_slice())
    }

    /// The session-authentication fingerprint of a server id and a
    /// shared secret under this key pair's public half.
    pub fn session_hash(&self, server_id: &str, secret: &[u8; 16]) -> (r: String)
        ensures
            r@ == server_hash_of(server_id@, secret@, self.public_der()),
    {
        server_hash_exec(server_id, secret, &self.pub_der)
    }

    /// Decrypts one ciphertext with the private half.
    pub fn decrypt(&self, ctext: &Vec<u8>) -> (r: Result<Vec<u8>, ProtoError>)
        ensures
            match r {
                Ok(p) => spec_rsa_decrypt(self.private_der(), ctext@) == Ok::<Seq<u8>, ProtoError>(
                    p@,
                ),
                Err(e) => spec_rsa_decrypt(self.private_der(), ctext@) == Err::<
                    Seq<u8>,
                    ProtoError,
                >(e),
            },
    {
        if ctext.len() > 0x7fff_ffff {
            return Err(ProtoError::CryptoFailure);
        }
        match rsa_decrypt_exec(&self.priv_der, ctext) {
            Some(p) => Ok(p),
            None => Err(ProtoError::CryptoFailure),
        }
    }
}

// ---------------------------------------------------------------------------
// The session-authentication fingerprint.
// ---------------------------------------------------------------------------

/// What mojang_api's `server_hash` returns: the protocol's hex digest of
/// the server id, the 16-byte shared secret and the DER public key.
/// Deterministic in its arguments.
pub uninterp spec fn server_hash_of(server_id: Seq<char>, secret: Seq<u8>, pub_der: Seq<u8>) -> Seq<
    char,
>;

/// Relies on mojang_api's `server_hash`, a pure digest of the three
/// arguments.
#[verifier::external_body]
pub(crate) fn server_hash_exec(server_id: &str, secret: &[u8; 16], pub_der: &Vec<u8>) -> (r:
    String)
    ensures
        r@ == server_hash_of(server_id@, secret@, pub_der@),
{
    mojang_api::server_hash(server_id, *secret, pub_der)
}

// ---------------------------------------------------------------------------
// The symmetric stream cipher.
// ---------------------------------------------------------------------------

/// What cfb8's `AsyncStreamCipher::encrypt` for `Cfb8<Aes128>` produces for
/// a given key (used as both key and initialization vector), a given
/// ciphertext history already fed through the register, and a plaintext.
pub uninterp spec fn cfb8_encrypted(key: Seq<u8>, hist: Seq<u8>, plain: Seq<u8>) -> Seq<u8>;

/// What cfb8's `AsyncStreamCipher::decrypt` for `Cfb8<Aes128>` produces in
/// the same situation for a ciphertext.
pub uninterp spec fn cfb8_decrypted(key: Seq<u8>, hist: Seq<u8>, ctext: Seq<u8>) -> Seq<u8>;

/// Relies on cfb8's `Cfb8::<Aes128>::new_from_slices` and
/// `AsyncStreamCipher::{decrypt, encrypt}`. The mode feeds each ciphertext
/// byte through its register, so decrypting the history restores the
/// register state, byte count is preserved, and decrypting what was just
/// encrypted at the same state gives the plaintext back.
#[verifier::external_body]
fn cfb8_encrypt_exec(key: &[u8; 16], hist: &Vec<u8>, plain: &Vec<u8>) -> (r: Vec<u8>)
    ensures
        r@ == cfb8_encrypted(key@, hist@, plain@),
        r@.len() == plain@.len(),
        cfb8_decrypted(key@, hist@, r@) == plain@,
{
    let mut cipher: Cfb8<Aes128> = Cfb8::new_from_slices(key, key).unwrap();
    let mut replay = hist.clone();
    cipher.decrypt(&mut replay);
    let mut out = plain.clone();
    cipher.encrypt(&mut out);
    out
}

/// Relies on cfb8's `Cfb8::<Aes128>::new_from_slices` and
/// `AsyncStreamCipher::decrypt`, replaying the ciphertext history exactly
/// as the encrypting wrapper does.
#[verifier::external_body]
fn cfb8_decrypt_exec(key: &[u8; 16], hist: &Vec<u8>, ctext: &Vec<u8>) -> (r: Vec<u8>)
    ensures
        r@ == cfb8_decrypted(key@, hist@, ctext@),
        r@.len() == ctext@.len(),
{
    let mut cipher: Cfb8<Aes128> = Cfb8::new_from_slices(key, key).unwrap();
    let mut replay = hist.clone();
    cipher.decrypt(&mut replay);
    let mut out = ctext.clone();
    cipher.decrypt(&mut out);
    out
}

/// One connection's stream cipher: the negotiated 16-byte key (serving as
/// key and initialization vector) together with the ciphertext bytes the
/// register has already consumed, in both directions in order. The running
/// register state is a function of the two, so decryption continuity
/// across frames is captured exactly.
pub struct SessionCipher {
    key: [u8; 16],
    hist: Vec<u8>,
}

impl SessionCipher {
    /// The 16-byte key the cipher was installed with.
    pub closed spec fn key(&self) -> Seq<u8> {
        self.key@
    }

    /// Every ciphertext byte the register has consumed so far.
    pub closed spec fn processed(&self) -> Seq<u8> {
        self.hist@
    }

    pub fn new(key: [u8; 16]) -> (r: SessionCipher)
        ensures
            r.key() == key@,
            r.processed() == Seq::<u8>::empty(),
    {
        SessionCipher { key, hist: Vec::new() }
    }

    /// Encrypts one outbound buffer; the produced ciphertext advances the
    /// register.
    pub fn encrypt(&mut self, plain: &Vec<u8>) -> (r: Vec<u8>)
        ensures
            r@ == cfb8_encrypted(old(self).key(), old(self).processed(), plain@),
            r@.len() == plain@.len(),
            cfb8_decrypted(old(self).key(), old(self).processed(), r@) == plain@,
            final(self).key() == old(self).key(),
            final(self).processed() == old(self).processed() + r@,
    {
        let out = cfb8_encrypt_exec(&self.key, &self.hist, plain);
        let mut tail = vstd::slice::slice_to_vec(out.as_slice());
        self.hist.append(&mut tail);
        out
    }

    /// Decrypts one inbound buffer; the consumed ciphertext advances the
    /// register.
    pub fn decrypt(&mut self, ctext: &Vec<u8>) -> (r: Vec<u8>)
        ensures
            r@ == cfb8_decrypted(old(self).key(), old(self).processed(), ctext@),
            r@.len() == ctext@.len(),
            final(self).key() == old(self).key(),
            final(self).processed() == old(self).processed() + ctext@,
    {
        let out = cfb8_decrypt_exec(&self.key, &self.hist, ctext);
        let mut tail = vstd::slice::slice_to_vec(ctext.as_slice());
        self.hist.append(&mut tail);
        out
    }
}

} // verus!
