//! X448 (RFC 7748 §5): Diffie-Hellman on the Montgomery form of Curve448.
//!
//! The ladder is X25519's with another field, `a24 = 39081`, 448 scalar bits, and its own scalar
//! preparation. X448 does not authenticate the peer; its result must enter a protocol's key
//! derivation and authenticated handshake.

pub mod api;
pub mod field;
pub mod ladder;
pub mod scalar;

pub use api::{X448, X448PrivateKey, X448PublicKey, X448SharedSecret};
