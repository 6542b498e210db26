//! AES-GCM (NIST SP 800-38D) with a 96-bit IV and a full 128-bit tag.

pub mod block_cipher;
pub mod counter;
pub mod gctr;
pub mod ghash;
pub mod limits;
pub mod setup;
pub mod authentication;
pub mod tag;
pub mod open;
pub mod seal;
pub mod api;
pub mod api256;

pub use api::{Aes128Gcm, Aes128GcmKey, Aes128GcmNonce, Aes128GcmTag};
pub use api256::{Aes256Gcm, Aes256GcmKey, Aes256GcmNonce, Aes256GcmTag};
