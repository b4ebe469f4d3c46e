//! A verified server-side implementation of a length-prefixed, binary,
//! packet-oriented game wire protocol: the primitive codec, the packet
//! framing layer, the per-connection state machine, and the encryption
//! handshake that bootstraps a stream cipher and gates identity
//! verification against a remote session authority.

pub mod connection;
pub mod crypto;
pub mod errors;
pub mod player;
pub mod protocol;
pub mod wire;
