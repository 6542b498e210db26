//! `AEAD_CHACHA20_POLY1305` (RFC 8439 §2.8).

pub mod api;
pub mod construction;
pub mod limits;

pub use api::{ChaCha20Poly1305, ChaCha20Poly1305Key, ChaCha20Poly1305Nonce, ChaCha20Poly1305Tag};
