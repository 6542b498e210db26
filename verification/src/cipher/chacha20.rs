//! ChaCha20 (RFC 8439 §2.1–§2.4): a 256-bit-key stream cipher with a 96-bit nonce and a 32-bit
//! block counter.

pub mod api;
pub mod block;
pub mod quarter_round;

pub use api::{ChaCha20, ChaCha20Key, ChaCha20Nonce, ChaCha20Stream};
