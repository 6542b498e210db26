//! The Advanced Encryption Standard family (FIPS 197).

pub mod aes128;
pub mod aes256;
