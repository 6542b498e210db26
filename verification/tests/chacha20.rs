//! ChaCha20 quarter round, block function, and keystream application (RFC 8439 §2.1–§2.4).

use rsl_crypto::cipher::chacha20::block::State;
use rsl_crypto::cipher::chacha20::quarter_round::{quarter_round, quarter_round_on_state};
use rsl_crypto::cipher::chacha20::{ChaCha20, ChaCha20Key, ChaCha20Nonce};
use rsl_crypto::cipher::StreamCipher;
use rsl_crypto::CryptoError;



/// Published evidence: RFC 8439 §2.1.1 quarter-round test vector.
#[test]
fn rfc_8439_section_2_1_1_quarter_round() {
    let (mut a, mut b, mut c, mut d) = (0x1111_1111, 0x0102_0304, 0x9b8d_6f43, 0x0123_4567);
    quarter_round(&mut a, &mut b, &mut c, &mut d);
    assert_eq!(
        (a, b, c, d),
        (0xea2a_92f4, 0xcb1c_f8ce, 0x4581_472e, 0x5881_c4bb)
    );
}

/// Published evidence: RFC 8439 §2.2.1 `QUARTERROUND(2, 7, 8, 13)` on a sample state.
#[test]
fn rfc_8439_section_2_2_1_diagonal_round_changes_only_four_words() {
    let mut state = [
        0x8795_31e0,
        0xc5ec_f37d,
        0x5164_61b1,
        0xc9a6_2f8a,
        0x44c2_0ef3,
        0x3390_af7f,
        0xd9fc_690b,
        0x2a5f_714c,
        0x5337_2767,
        0xb00a_5631,
        0x974c_541a,
        0x359e_9963,
        0x5c97_1061,
        0x3d63_1689,
        0x2098_d9d6,
        0x91db_d320,
    ];
    let before = state;
    quarter_round_on_state(&mut state, 2, 7, 8, 13);
    let expected = [
        0x8795_31e0,
        0xc5ec_f37d,
        0xbdb8_86dc,
        0xc9a6_2f8a,
        0x44c2_0ef3,
        0x3390_af7f,
        0xd9fc_690b,
        0xcfac_afd2,
        0xe46b_ea80,
        0xb00a_5631,
        0x974c_541a,
        0x359e_9963,
        0x5c97_1061,
        0xccc0_7c79,
        0x2098_d9d6,
        0x91db_d320,
    ];
    assert_eq!(state, expected);
    for index in (0..16).filter(|index| ![2, 7, 8, 13].contains(index)) {
        assert_eq!(state[index], before[index], "word {index} unchanged");
    }
}



fn sequential_key() -> [u8; 32] {
    core::array::from_fn(|index| u8::try_from(index).unwrap())
}

/// Published evidence: RFC 8439 §2.3.2 state setup, state after 20 rounds, and serialized
/// block for key `00..1f`, nonce `00:00:00:09:00:00:00:4a:00:00:00:00`, counter 1.
#[test]
fn rfc_8439_section_2_3_2_block_function_intermediates() {
    let nonce = [0, 0, 0, 9, 0, 0, 0, 0x4a, 0, 0, 0, 0];
    let state = State::new(&sequential_key(), 1, &nonce);
    assert_eq!(
        state.words(),
        &[
            0x6170_7865,
            0x3320_646e,
            0x7962_2d32,
            0x6b20_6574,
            0x0302_0100,
            0x0706_0504,
            0x0b0a_0908,
            0x0f0e_0d0c,
            0x1312_1110,
            0x1716_1514,
            0x1b1a_1918,
            0x1f1e_1d1c,
            0x0000_0001,
            0x0900_0000,
            0x4a00_0000,
            0x0000_0000,
        ]
    );
    assert_eq!(
        state.after_twenty_rounds(),
        [
            0x8377_78ab,
            0xe238_d763,
            0xa67a_e21e,
            0x5950_bb2f,
            0xc4f2_d0c7,
            0xfc62_bb2f,
            0x8fa0_18fc,
            0x3f5e_c7b7,
            0x3352_71c2,
            0xf294_89f3,
            0xeabd_a8fc,
            0x82e4_6ebd,
            0xd19c_12b4,
            0xb04e_16de,
            0x9e83_d0cb,
            0x4e3c_50a2,
        ]
    );
    let expected_block: [u8; 64] = [
        0x10, 0xf1, 0xe7, 0xe4, 0xd1, 0x3b, 0x59, 0x15, 0x50, 0x0f, 0xdd, 0x1f, 0xa3, 0x20,
        0x71, 0xc4, 0xc7, 0xd1, 0xf4, 0xc7, 0x33, 0xc0, 0x68, 0x03, 0x04, 0x22, 0xaa, 0x9a,
        0xc3, 0xd4, 0x6c, 0x4e, 0xd2, 0x82, 0x64, 0x46, 0x07, 0x9f, 0xaa, 0x09, 0x14, 0xc2,
        0xd7, 0x05, 0xd9, 0x8b, 0x02, 0xa2, 0xb5, 0x12, 0x9c, 0xd1, 0xde, 0x16, 0x4e, 0xb9,
        0xcb, 0xd0, 0x83, 0xe8, 0xa2, 0x50, 0x3c, 0x4e,
    ];
    assert_eq!(state.keystream_block(), expected_block);
}

/// Published evidence: RFC 8439 §2.4.2's two block states after the block operation.
#[test]
fn rfc_8439_section_2_4_2_consecutive_counter_blocks() {
    let nonce = [0, 0, 0, 0, 0, 0, 0, 0x4a, 0, 0, 0, 0];
    let first = State::new(&sequential_key(), 1, &nonce);
    let second = State::new(&sequential_key(), 2, &nonce);
    assert_eq!(first.words()[12], 1);
    assert_eq!(second.words()[12], 2);
    let first_block = first.keystream_block();
    assert_eq!(
        &first_block[..8],
        &[0x22, 0x4f, 0x51, 0xf3, 0x40, 0x1b, 0xd9, 0xe1]
    );
    let first_words: [u32; 16] = core::array::from_fn(|index| {
        u32::from_le_bytes(first_block[index * 4..index * 4 + 4].try_into().unwrap())
    });
    assert_eq!(first_words[0], 0xf351_4f22);
    assert_eq!(first_words[15], 0xb741_7df0);
    let second_block = second.keystream_block();
    assert_eq!(
        u32::from_le_bytes(second_block[..4].try_into().unwrap()),
        0x9f74_a669
    );
}



#[test]
fn counter_exhaustion_is_reported_before_any_keystream_is_applied() {
    let cipher = ChaCha20::new(ChaCha20Key::new([0x42; 32]));
    let nonce = ChaCha20Nonce::new([0; 12]);
    let mut two_blocks = [0x11_u8; 128];
    assert_eq!(
        cipher.apply_keystream(u32::MAX, &nonce, &mut two_blocks),
        Err(CryptoError::CounterExhausted)
    );
    assert_eq!(two_blocks, [0x11; 128]);
    let mut one_block = [0_u8; 64];
    assert!(
        cipher
            .apply_keystream(u32::MAX, &nonce, &mut one_block)
            .is_ok()
    );
    assert!(cipher.apply_keystream(u32::MAX, &nonce, &mut []).is_ok());
}

#[test]
fn stateful_stream_matches_one_shot_across_arbitrary_splits() {
    let expected = ChaCha20::new(ChaCha20Key::new([0x42; 32]))
        .encrypt(7, &ChaCha20Nonce::new([1; 12]), &[0_u8; 200])
        .unwrap();
    let mut stream =
        ChaCha20::new(ChaCha20Key::new([0x42; 32])).stream(ChaCha20Nonce::new([1; 12]), 7);
    let mut actual = [0_u8; 200];
    let mut position = 0;
    for length in [1, 63, 64, 65, 7] {
        stream
            .apply_keystream(&mut actual[position..position + length])
            .unwrap();
        position += length;
    }
    assert_eq!(&actual[..position], &expected[..position]);

    let mut ending = ChaCha20::new(ChaCha20Key::new([0x42; 32]))
        .stream(ChaCha20Nonce::new([1; 12]), u32::MAX);
    let mut block = [0_u8; 64];
    ending.apply_keystream(&mut block).unwrap();
    assert_eq!(
        ending.apply_keystream(&mut [0_u8; 1]),
        Err(CryptoError::CounterExhausted)
    );
}


/// RFC 8439 §2.4.2: the "sunscreen" plaintext encrypted from counter one.
#[test]
fn rfc_8439_section_2_4_2_sunscreen_ciphertext() {
    let key: [u8; 32] = core::array::from_fn(|index| index as u8);
    let nonce = ChaCha20Nonce::new([0, 0, 0, 0, 0, 0, 0, 0x4a, 0, 0, 0, 0]);
    let plaintext = b"Ladies and Gentlemen of the class of '99: If I could offer you only one tip for the future, sunscreen would be it.";
    let ciphertext = ChaCha20::new(ChaCha20Key::new(key)).encrypt(1, &nonce, plaintext).unwrap();
    assert_eq!(
        &ciphertext[..16],
        &[0x6e, 0x2e, 0x35, 0x9a, 0x25, 0x68, 0xf9, 0x80, 0x41, 0xba, 0x07, 0x28, 0xdd, 0x0d, 0x69, 0x81]
    );
    assert_eq!(&ciphertext[ciphertext.len() - 2..], &[0x87, 0x4d]);
    let recovered = ChaCha20::new(ChaCha20Key::new(key)).encrypt(1, &nonce, &ciphertext).unwrap();
    assert_eq!(&recovered[..], &plaintext[..]);
}

/// The stream satisfies the generic stream-cipher contract and is redacted in diagnostics.
#[test]
fn stream_cipher_trait_applies_the_same_keystream() {
    fn mask<C: StreamCipher>(cipher: &mut C, buffer: &mut [u8]) -> Result<(), CryptoError> {
        cipher.apply_keystream(buffer)
    }
    let key = ChaCha20Key::new([0x42; 32]);
    assert_eq!(key.debug_text(), "ChaCha20Key([REDACTED])");
    let cipher = ChaCha20::new(key);
    assert_eq!(cipher.debug_text(), "ChaCha20([REDACTED KEY])");
    let expected = cipher.encrypt(1, &ChaCha20Nonce::new([0; 12]), b"plaintext").unwrap();
    let mut stream = cipher.stream(ChaCha20Nonce::new([0; 12]), 1);
    let mut buffer = *b"plaintext";
    mask(&mut stream, &mut buffer).unwrap();
    assert_eq!(&buffer[..], &expected[..]);
}
