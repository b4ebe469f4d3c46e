use vstd::prelude::*;

verus! {

/// The closed taxonomy of everything that can go wrong on one connection.
/// Every error is terminal for the connection that produced it.
#[derive(Clone, Copy, Debug, PartialEq, Eq, Structural)]
pub enum ProtoError {
    /// A variable-length integer used more than five continuation groups.
    MalformedVarInt,
    /// A declared length exceeds the bytes that remain in the buffer.
    BufferUnderrun,
    /// A length-prefixed string did not hold valid UTF-8.
    InvalidUtf8,
    /// The packet id is not legal for the connection's current state.
    UnexpectedPacket,
    /// The handshake's next-state field was neither 1 nor 2.
    InvalidNextState,
    /// The decrypted verify echo did not equal the original challenge.
    AuthIntegrityFailure,
    /// An asymmetric decryption failed (malformed ciphertext or key).
    CryptoFailure,
    /// Authentication was attempted before a symmetric key was installed.
    MissingSharedSecret,
    /// The remote session authority failed or returned a negative result.
    AuthenticationFailed,
    /// A read or write on the underlying socket failed.
    TransportError,
}

} // verus!
