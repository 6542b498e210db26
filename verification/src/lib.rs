//! Readable, verified cryptographic primitives: AES, AES-GCM, ChaCha20, Poly1305,
//! ChaCha20-Poly1305, bounded AEAD records, and X25519/X448 key agreement.

pub mod aead;
pub mod agreement;
pub mod bits;
pub mod block_buffer;
pub mod error;
pub mod mac;
pub mod secret;
mod wipe;
pub mod cipher;
pub mod random;

pub use error::{CryptoError, CryptoResult};
pub use secret::SecretBytes;
