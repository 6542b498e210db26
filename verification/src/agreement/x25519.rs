//! X25519 (RFC 7748 §5): Diffie-Hellman on the Montgomery form of Curve25519.
//!
//! X25519 does not authenticate the peer; its result must enter a protocol's key derivation and
//! authenticated handshake.

pub mod api;
pub mod field;
pub mod ladder;
pub mod scalar;

pub use api::{X25519, X25519PrivateKey, X25519PublicKey, X25519SharedSecret};
