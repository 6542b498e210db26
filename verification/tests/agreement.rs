//! The typed key-agreement boundaries of X25519 and X448, and their scalar preparation.

use rsl_crypto::agreement::x25519::scalar::PreparedScalar as PreparedScalar25519;
use rsl_crypto::agreement::x25519::{X25519, X25519PrivateKey, X25519PublicKey};
use rsl_crypto::agreement::x448::scalar::PreparedScalar as PreparedScalar448;
use rsl_crypto::agreement::x448::{X448, X448PrivateKey, X448PublicKey};
use rsl_crypto::agreement::ecdh_p256::EcdhP256PrivateKey;
use rsl_crypto::agreement::ecdh_p384::EcdhP384PrivateKey;
use rsl_crypto::random::RandomSource;
use rsl_crypto::{CryptoError, CryptoResult};

struct FixedSource(u8);

impl RandomSource for FixedSource {
    fn fill_bytes(&mut self, output: &mut [u8]) -> CryptoResult<()> {
        output.fill(self.0);
        Ok(())
    }
}

struct BrokenSource;

impl RandomSource for BrokenSource {
    fn fill_bytes(&mut self, _output: &mut [u8]) -> CryptoResult<()> {
        Err(CryptoError::EntropyUnavailable)
    }
}

fn hex_bytes<const N: usize>(text: &str) -> [u8; N] {
    let mut bytes = [0u8; N];
    for (index, byte) in bytes.iter_mut().enumerate() {
        *byte = u8::from_str_radix(&text[2 * index..2 * index + 2], 16).unwrap();
    }
    bytes
}

const P256_ORDER: &str = "ffffffff00000000ffffffffffffffffbce6faada7179e84f3b9cac2fc632551";
const P384_ORDER: &str =
    "ffffffffffffffffffffffffffffffffffffffffffffffffc7634d81f4372ddf581a0db248b0a77aecec196accc52973";

#[test]
fn api_public_values_are_exact_size_and_secret_debug_is_redacted() {
    let private_key = X25519PrivateKey::new([0x42; 32]);
    let public_key = X25519::public_key(&private_key);

    assert_eq!(X25519PrivateKey::LEN, 32);
    assert_eq!(X25519PublicKey::LEN, 32);
    assert_eq!(public_key.as_bytes().len(), 32);
    assert_eq!(private_key.debug_text(), "X25519PrivateKey([REDACTED])");

    let private_key = X448PrivateKey::new([0x42; 56]);
    let public_key = X448::public_key(&private_key);

    assert_eq!(X448PrivateKey::LEN, 56);
    assert_eq!(X448PublicKey::LEN, 56);
    assert_eq!(public_key.as_bytes().len(), 56);
    assert_eq!(private_key.debug_text(), "X448PrivateKey([REDACTED])");
}

#[test]
fn api_public_wire_slices_require_exact_length() {
    assert_eq!(
        X25519PublicKey::try_from([0_u8; 31].as_slice()),
        Err(CryptoError::InvalidLength { name: "X25519 public key", expected: 32, actual: 31 })
    );
    assert!(X25519PublicKey::try_from([0_u8; 32].as_slice()).is_ok());
    assert_eq!(
        X25519PublicKey::try_from([0_u8; 33].as_slice()),
        Err(CryptoError::InvalidLength { name: "X25519 public key", expected: 32, actual: 33 })
    );

    assert_eq!(
        X448PublicKey::try_from([0_u8; 55].as_slice()),
        Err(CryptoError::InvalidLength { name: "X448 public key", expected: 56, actual: 55 })
    );
    assert!(X448PublicKey::try_from([0_u8; 56].as_slice()).is_ok());
    assert_eq!(
        X448PublicKey::try_from([0_u8; 57].as_slice()),
        Err(CryptoError::InvalidLength { name: "X448 public key", expected: 56, actual: 57 })
    );
}

#[test]
fn api_zero_coordinate_is_rejected_as_a_shared_secret() {
    let private_key = X25519PrivateKey::new([0x42; 32]);
    let zero = X25519PublicKey::new([0; 32]);
    assert!(matches!(X25519::agree(&private_key, &zero), Err(CryptoError::InvalidPublicKey)));

    let private_key = X448PrivateKey::new([0x42; 56]);
    let zero = X448PublicKey::new([0; 56]);
    assert!(matches!(X448::agree(&private_key, &zero), Err(CryptoError::InvalidPublicKey)));
}

#[test]
fn scalar_preparation_clears_and_sets_the_exact_rfc_7748_bits() {
    let scalar = PreparedScalar25519::new(&[0xff; 32]);

    assert_eq!(scalar.expose_secret()[0], 0xf8);
    assert_eq!(scalar.expose_secret()[31], 0x7f);
    assert_eq!(scalar.bit(0), 0);
    assert_eq!(scalar.bit(1), 0);
    assert_eq!(scalar.bit(2), 0);
    assert_eq!(scalar.bit(254), 1);

    let scalar = PreparedScalar448::new(&[0xff; 56]);
    assert_eq!(scalar.bit(0), 0);
    assert_eq!(scalar.bit(1), 0);
    assert_eq!(scalar.bit(2), 1);
    assert_eq!(scalar.bit(447), 1);
    let zero = PreparedScalar448::new(&[0; 56]);
    assert_eq!(zero.bit(447), 1);
    assert_eq!(zero.bit(446), 0);
}

#[test]
fn api_candidate_testing_adds_one_and_rejects_out_of_range_sources() {
    let mut one_source = FixedSource(0);
    let key = EcdhP256PrivateKey::generate(&mut one_source).unwrap();
    let mut one = [0_u8; 32];
    one[31] = 1;
    assert_eq!(key.scalar_bytes(), &one);

    let mut saturated = FixedSource(0xff);
    assert_eq!(EcdhP256PrivateKey::generate(&mut saturated).err(), Some(CryptoError::EntropyUnavailable));

    let mut one_source = FixedSource(0);
    let key = EcdhP384PrivateKey::generate(&mut one_source).unwrap();
    let mut one = [0_u8; 48];
    one[47] = 1;
    assert_eq!(key.scalar_bytes(), &one);

    let mut saturated = FixedSource(0xff);
    assert_eq!(EcdhP384PrivateKey::generate(&mut saturated).err(), Some(CryptoError::EntropyUnavailable));
}

#[test]
fn ecdh_private_scalars_must_lie_between_one_and_the_order() {
    assert_eq!(EcdhP256PrivateKey::from_bytes([0; 32]).err(), Some(CryptoError::InvalidKey));
    assert_eq!(EcdhP256PrivateKey::from_bytes(hex_bytes::<32>(P256_ORDER)).err(), Some(CryptoError::InvalidKey));
    let mut below = hex_bytes::<32>(P256_ORDER);
    below[31] -= 1;
    assert_eq!(EcdhP256PrivateKey::from_bytes(below).unwrap().scalar_bytes(), &below);
    let key = EcdhP256PrivateKey::from_bytes([0x42; 32]).unwrap();
    assert_eq!(key.debug_text(), "EcdhP256PrivateKey([REDACTED])");
    assert_eq!(EcdhP256PrivateKey::LEN, 32);

    assert_eq!(EcdhP384PrivateKey::from_bytes([0; 48]).err(), Some(CryptoError::InvalidKey));
    assert_eq!(EcdhP384PrivateKey::from_bytes(hex_bytes::<48>(P384_ORDER)).err(), Some(CryptoError::InvalidKey));
    let mut below = hex_bytes::<48>(P384_ORDER);
    below[47] -= 1;
    assert_eq!(EcdhP384PrivateKey::from_bytes(below).unwrap().scalar_bytes(), &below);
    assert_eq!(EcdhP384PrivateKey::from_bytes([0x42; 48]).unwrap().debug_text(), "EcdhP384PrivateKey([REDACTED])");
    assert_eq!(EcdhP384PrivateKey::LEN, 48);
}

#[test]
fn ecdh_generation_forwards_the_source_error() {
    assert_eq!(EcdhP256PrivateKey::generate(&mut BrokenSource).err(), Some(CryptoError::EntropyUnavailable));
    let mut top_source = FixedSource(0x7f);
    let key = EcdhP384PrivateKey::generate(&mut top_source).unwrap();
    let mut expected = [0x7f_u8; 48];
    expected[47] = 0x80;
    assert_eq!(key.scalar_bytes(), &expected);
}
