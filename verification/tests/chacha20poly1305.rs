//! Poly1305 and `AEAD_CHACHA20_POLY1305` (RFC 8439 §2.5–§2.8).

use rsl_crypto::aead::chacha20poly1305::construction::pad16_len;
use rsl_crypto::aead::chacha20poly1305::limits::{MAX_PAYLOAD_BYTES, validate_input_lengths};
use rsl_crypto::aead::chacha20poly1305::{ChaCha20Poly1305, ChaCha20Poly1305Key, ChaCha20Poly1305Nonce, ChaCha20Poly1305Tag};
use rsl_crypto::aead::Aead;
use rsl_crypto::mac::poly1305::{Poly1305, Poly1305Key};
use rsl_crypto::CryptoError;



#[test]
fn pad16_reaches_the_next_boundary_only_when_needed() {
    assert_eq!(pad16_len(0), 0);
    assert_eq!(pad16_len(12), 4);
    assert_eq!(pad16_len(16), 0);
    assert_eq!(pad16_len(114), 14);
}



#[test]
fn payload_limit_is_the_last_counter_block() {
    assert_eq!(MAX_PAYLOAD_BYTES, (1 << 38) - 64);
    assert!(validate_input_lengths(0, 0).is_ok());
        {
        let limit = usize::try_from(MAX_PAYLOAD_BYTES).unwrap();
        assert!(validate_input_lengths(0, limit).is_ok());
        assert_eq!(
            validate_input_lengths(0, limit + 1),
            Err(CryptoError::MessageTooLong)
        );
    }
}



#[test]
fn secret_owners_are_redacted_and_wire_types_check_lengths() {
    let key = ChaCha20Poly1305Key::new([0x42; 32]);
    assert_eq!(key.debug_text(), "ChaCha20Poly1305Key([REDACTED])");
    let algorithm = ChaCha20Poly1305::new(key);
    assert_eq!(algorithm.debug_text(), "ChaCha20Poly1305([REDACTED KEY])");
    assert_eq!(
        ChaCha20Poly1305Nonce::try_from([0_u8; 8].as_slice()),
        Err(CryptoError::InvalidLength {
            name: "ChaCha20-Poly1305 nonce",
            expected: 12,
            actual: 8,
        })
    );
    assert_eq!(
        ChaCha20Poly1305Tag::try_from([0_u8; 15].as_slice()),
        Err(CryptoError::InvalidLength {
            name: "ChaCha20-Poly1305 tag",
            expected: 16,
            actual: 15,
        })
    );
}


/// RFC 8439 §2.5.2: the Poly1305 example tag.
#[test]
fn rfc_8439_section_2_5_2_poly1305_tag() {
    let key = [
        0x85, 0xd6, 0xbe, 0x78, 0x57, 0x55, 0x6d, 0x33, 0x7f, 0x44, 0x52, 0xfe, 0x42, 0xd5, 0x06, 0xa8,
        0x01, 0x03, 0x80, 0x8a, 0xfb, 0x0d, 0xb2, 0xfd, 0x4a, 0xbf, 0xf6, 0xaf, 0x41, 0x49, 0xf5, 0x1b,
    ];
    let expected = [
        0xa8, 0x06, 0x1d, 0xc1, 0x30, 0x51, 0x36, 0xc6, 0xc2, 0x2b, 0x8b, 0xaf, 0x0c, 0x01, 0x27, 0xa9,
    ];
    let mut mac = Poly1305::new(Poly1305Key::new(key));
    mac.update(b"Cryptographic Forum Research Group");
    assert_eq!(mac.finalize().as_bytes(), &expected);

    let mut split = Poly1305::new(Poly1305Key::new(key));
    split.update(b"Cryptographic Fo");
    split.update(b"rum Resea");
    split.update(b"rch Group");
    assert_eq!(split.verify(&expected), Ok(()));
    let mut changed = expected;
    changed[0] ^= 1;
    let mut again = Poly1305::new(Poly1305Key::new(key));
    again.update(b"Cryptographic Forum Research Group");
    assert_eq!(again.verify(&changed), Err(CryptoError::AuthenticationFailed));
}

/// RFC 8439 §2.8.2: the AEAD example, sealed and opened.
#[test]
fn rfc_8439_section_2_8_2_aead_example() {
    let key: [u8; 32] = core::array::from_fn(|index| 0x80 + index as u8);
    let nonce = ChaCha20Poly1305Nonce::new([0x07, 0, 0, 0, 0x40, 0x41, 0x42, 0x43, 0x44, 0x45, 0x46, 0x47]);
    let aad = [0x50, 0x51, 0x52, 0x53, 0xc0, 0xc1, 0xc2, 0xc3, 0xc4, 0xc5, 0xc6, 0xc7];
    let plaintext = b"Ladies and Gentlemen of the class of '99: If I could offer you only one tip for the future, sunscreen would be it.";
    let algorithm = ChaCha20Poly1305::new(ChaCha20Poly1305Key::new(key));
    let sealed = algorithm.seal(&nonce, &aad, plaintext).unwrap();
    assert_eq!(
        &sealed.ciphertext()[..16],
        &[0xd3, 0x1a, 0x8d, 0x34, 0x64, 0x8e, 0x60, 0xdb, 0x7b, 0x86, 0xaf, 0xbc, 0x53, 0xef, 0x7e, 0xc2]
    );
    assert_eq!(
        sealed.tag().as_bytes(),
        &[0x1a, 0xe1, 0x0b, 0x59, 0x4f, 0x09, 0xe2, 0x6a, 0x7e, 0x90, 0x2e, 0xcb, 0xd0, 0x60, 0x06, 0x91]
    );
    let (ciphertext, tag) = sealed.into_parts();
    assert_eq!(Aead::open(&algorithm, &nonce, &aad, &ciphertext, &tag).unwrap(), plaintext.to_vec());
    let mut changed_aad = aad;
    changed_aad[0] ^= 1;
    assert_eq!(algorithm.open(&nonce, &changed_aad, &ciphertext, &tag), Err(CryptoError::AuthenticationFailed));
    assert_eq!(
        ChaCha20Poly1305Tag::try_from(tag.as_bytes().as_slice()),
        Ok(tag)
    );
}
