//! Key, nonce and private-scalar generation: how many bytes each asks of the randomness source,
//! how often it asks, and what it makes of the answer.

use rsl_crypto::aead::chacha20poly1305::{ChaCha20Poly1305, ChaCha20Poly1305Key, ChaCha20Poly1305Nonce};
use rsl_crypto::aead::gcm::{Aes128Gcm, Aes128GcmKey, Aes128GcmNonce, Aes256Gcm, Aes256GcmKey, Aes256GcmNonce};
use rsl_crypto::agreement::ecdh_p256::EcdhP256PrivateKey;
use rsl_crypto::agreement::ecdh_p384::EcdhP384PrivateKey;
use rsl_crypto::cipher::chacha20::{ChaCha20, ChaCha20Key, ChaCha20Nonce};
use rsl_crypto::random::RandomSource;
use rsl_crypto::{CryptoError, CryptoResult};

/// Fills every requested byte with one value, or always fails, and records the length of each
/// buffer it was handed.
struct RecordingSource {
    value: u8,
    fails: bool,
    requests: Vec<usize>,
}

impl RecordingSource {
    fn filling(value: u8) -> Self {
        Self { value, fails: false, requests: Vec::new() }
    }

    fn failing() -> Self {
        Self { value: 0, fails: true, requests: Vec::new() }
    }
}

impl RandomSource for RecordingSource {
    fn fill_bytes(&mut self, output: &mut [u8]) -> CryptoResult<()> {
        self.requests.push(output.len());
        if self.fails {
            return Err(CryptoError::EntropyUnavailable);
        }
        output.fill(self.value);
        Ok(())
    }
}

#[test]
fn chacha20_key_generation_asks_for_one_key_length_buffer() {
    let mut source = RecordingSource::filling(0x42);
    let key = ChaCha20Key::generate(&mut source).unwrap();
    assert_eq!(source.requests, vec![32]);
    let nonce = ChaCha20Nonce::new([1; 12]);
    let generated = ChaCha20::new(key).keystream_block(7, &nonce);
    let expected = ChaCha20::new(ChaCha20Key::new([0x42; 32])).keystream_block(7, &nonce);
    assert_eq!(generated, expected);

    let mut broken = RecordingSource::failing();
    assert_eq!(ChaCha20Key::generate(&mut broken).err(), Some(CryptoError::EntropyUnavailable));
    assert_eq!(broken.requests, vec![32]);
}

#[test]
fn chacha20poly1305_generation_asks_for_key_and_nonce_lengths() {
    let mut source = RecordingSource::filling(0x11);
    let key = ChaCha20Poly1305Key::generate(&mut source).unwrap();
    let nonce = ChaCha20Poly1305Nonce::generate(&mut source).unwrap();
    assert_eq!(source.requests, vec![32, 12]);
    assert_eq!(nonce.as_bytes(), &[0x11; 12]);
    let generated = ChaCha20Poly1305::new(key).seal(&nonce, b"header", b"payload").unwrap();
    let expected = ChaCha20Poly1305::new(ChaCha20Poly1305Key::new([0x11; 32]))
        .seal(&nonce, b"header", b"payload")
        .unwrap();
    assert_eq!(generated, expected);

    let mut broken = RecordingSource::failing();
    assert_eq!(ChaCha20Poly1305Key::generate(&mut broken).err(), Some(CryptoError::EntropyUnavailable));
    assert_eq!(ChaCha20Poly1305Nonce::generate(&mut broken).err(), Some(CryptoError::EntropyUnavailable));
    assert_eq!(broken.requests, vec![32, 12]);
}

#[test]
fn aes_gcm_generation_asks_for_key_and_nonce_lengths() {
    let mut source = RecordingSource::filling(0x5a);
    let key = Aes128GcmKey::generate(&mut source).unwrap();
    let nonce = Aes128GcmNonce::generate(&mut source).unwrap();
    assert_eq!(source.requests, vec![16, 12]);
    assert_eq!(nonce.as_bytes(), &[0x5a; 12]);
    let generated = Aes128Gcm::new(key).seal(&nonce, b"header", b"payload").unwrap();
    let expected = Aes128Gcm::new(Aes128GcmKey::new([0x5a; 16])).seal(&nonce, b"header", b"payload").unwrap();
    assert_eq!(generated, expected);

    let mut source = RecordingSource::filling(0xa5);
    let key = Aes256GcmKey::generate(&mut source).unwrap();
    let nonce = Aes256GcmNonce::generate(&mut source).unwrap();
    assert_eq!(source.requests, vec![32, 12]);
    assert_eq!(nonce.as_bytes(), &[0xa5; 12]);
    let generated = Aes256Gcm::new(key).seal(&nonce, b"header", b"payload").unwrap();
    let expected = Aes256Gcm::new(Aes256GcmKey::new([0xa5; 32])).seal(&nonce, b"header", b"payload").unwrap();
    assert_eq!(generated, expected);

    let mut broken = RecordingSource::failing();
    assert_eq!(Aes128GcmKey::generate(&mut broken).err(), Some(CryptoError::EntropyUnavailable));
    assert_eq!(Aes128GcmNonce::generate(&mut broken).err(), Some(CryptoError::EntropyUnavailable));
    assert_eq!(Aes256GcmKey::generate(&mut broken).err(), Some(CryptoError::EntropyUnavailable));
    assert_eq!(Aes256GcmNonce::generate(&mut broken).err(), Some(CryptoError::EntropyUnavailable));
    assert_eq!(broken.requests, vec![16, 12, 32, 12]);
}

#[test]
fn ecdh_candidates_have_the_scalar_length_and_stop_after_sixty_four() {
    let mut zero = RecordingSource::filling(0);
    let key = EcdhP256PrivateKey::generate(&mut zero).unwrap();
    assert_eq!(zero.requests, vec![32]);
    let mut one = [0_u8; 32];
    one[31] = 1;
    assert_eq!(key.scalar_bytes(), &one);

    let mut saturated = RecordingSource::filling(0xff);
    assert_eq!(EcdhP256PrivateKey::generate(&mut saturated).err(), Some(CryptoError::EntropyUnavailable));
    assert_eq!(saturated.requests, vec![32; 64]);

    let mut zero = RecordingSource::filling(0);
    let key = EcdhP384PrivateKey::generate(&mut zero).unwrap();
    assert_eq!(zero.requests, vec![48]);
    let mut one = [0_u8; 48];
    one[47] = 1;
    assert_eq!(key.scalar_bytes(), &one);

    let mut saturated = RecordingSource::filling(0xff);
    assert_eq!(EcdhP384PrivateKey::generate(&mut saturated).err(), Some(CryptoError::EntropyUnavailable));
    assert_eq!(saturated.requests, vec![48; 64]);

    let mut broken = RecordingSource::failing();
    assert_eq!(EcdhP256PrivateKey::generate(&mut broken).err(), Some(CryptoError::EntropyUnavailable));
    assert_eq!(EcdhP384PrivateKey::generate(&mut broken).err(), Some(CryptoError::EntropyUnavailable));
    assert_eq!(broken.requests, vec![32, 48]);
}
