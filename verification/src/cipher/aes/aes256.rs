//! AES-256: the AES round function with a 32-byte key and fourteen rounds (FIPS 197 §5.2,
//! `Nk = 8`, `Nr = 14`). Blocks, round transforms, and the forward and inverse ciphers are shared
//! with AES-128.

pub mod api;
pub mod key_schedule;

pub use api::{Aes256, Aes256Block, Aes256Key};
