//! AES-256 key expansion and block cipher, checked against FIPS 197 Appendix A.3 and C.3.

use rsl_crypto::cipher::aes::aes128::key::RoundKeySource;
use rsl_crypto::cipher::aes::aes256::key_schedule::KeySchedule;
use rsl_crypto::cipher::aes::aes256::{Aes256, Aes256Block, Aes256Key};
use rsl_crypto::cipher::BlockCipher;

/// The cipher key of FIPS 197 Appendix A.3.
const APPENDIX_A3_KEY: [u8; 32] = [0x60, 0x3d, 0xeb, 0x10, 0x15, 0xca, 0x71, 0xbe, 0x2b, 0x73, 0xae, 0xf0, 0x85, 0x7d, 0x77, 0x81, 0x1f, 0x35, 0x2c, 0x07, 0x3b, 0x61, 0x08, 0xd7, 0x2d, 0x98, 0x10, 0xa3, 0x09, 0x14, 0xdf, 0xf4];

/// All sixty expanded words of FIPS 197 Appendix A.3.
const APPENDIX_A3_WORDS: [[u8; 4]; 60] = [
    [0x60, 0x3d, 0xeb, 0x10],
    [0x15, 0xca, 0x71, 0xbe],
    [0x2b, 0x73, 0xae, 0xf0],
    [0x85, 0x7d, 0x77, 0x81],
    [0x1f, 0x35, 0x2c, 0x07],
    [0x3b, 0x61, 0x08, 0xd7],
    [0x2d, 0x98, 0x10, 0xa3],
    [0x09, 0x14, 0xdf, 0xf4],
    [0x9b, 0xa3, 0x54, 0x11],
    [0x8e, 0x69, 0x25, 0xaf],
    [0xa5, 0x1a, 0x8b, 0x5f],
    [0x20, 0x67, 0xfc, 0xde],
    [0xa8, 0xb0, 0x9c, 0x1a],
    [0x93, 0xd1, 0x94, 0xcd],
    [0xbe, 0x49, 0x84, 0x6e],
    [0xb7, 0x5d, 0x5b, 0x9a],
    [0xd5, 0x9a, 0xec, 0xb8],
    [0x5b, 0xf3, 0xc9, 0x17],
    [0xfe, 0xe9, 0x42, 0x48],
    [0xde, 0x8e, 0xbe, 0x96],
    [0xb5, 0xa9, 0x32, 0x8a],
    [0x26, 0x78, 0xa6, 0x47],
    [0x98, 0x31, 0x22, 0x29],
    [0x2f, 0x6c, 0x79, 0xb3],
    [0x81, 0x2c, 0x81, 0xad],
    [0xda, 0xdf, 0x48, 0xba],
    [0x24, 0x36, 0x0a, 0xf2],
    [0xfa, 0xb8, 0xb4, 0x64],
    [0x98, 0xc5, 0xbf, 0xc9],
    [0xbe, 0xbd, 0x19, 0x8e],
    [0x26, 0x8c, 0x3b, 0xa7],
    [0x09, 0xe0, 0x42, 0x14],
    [0x68, 0x00, 0x7b, 0xac],
    [0xb2, 0xdf, 0x33, 0x16],
    [0x96, 0xe9, 0x39, 0xe4],
    [0x6c, 0x51, 0x8d, 0x80],
    [0xc8, 0x14, 0xe2, 0x04],
    [0x76, 0xa9, 0xfb, 0x8a],
    [0x50, 0x25, 0xc0, 0x2d],
    [0x59, 0xc5, 0x82, 0x39],
    [0xde, 0x13, 0x69, 0x67],
    [0x6c, 0xcc, 0x5a, 0x71],
    [0xfa, 0x25, 0x63, 0x95],
    [0x96, 0x74, 0xee, 0x15],
    [0x58, 0x86, 0xca, 0x5d],
    [0x2e, 0x2f, 0x31, 0xd7],
    [0x7e, 0x0a, 0xf1, 0xfa],
    [0x27, 0xcf, 0x73, 0xc3],
    [0x74, 0x9c, 0x47, 0xab],
    [0x18, 0x50, 0x1d, 0xda],
    [0xe2, 0x75, 0x7e, 0x4f],
    [0x74, 0x01, 0x90, 0x5a],
    [0xca, 0xfa, 0xaa, 0xe3],
    [0xe4, 0xd5, 0x9b, 0x34],
    [0x9a, 0xdf, 0x6a, 0xce],
    [0xbd, 0x10, 0x19, 0x0d],
    [0xfe, 0x48, 0x90, 0xd1],
    [0xe6, 0x18, 0x8d, 0x0b],
    [0x04, 0x6d, 0xf3, 0x44],
    [0x70, 0x6c, 0x63, 0x1e],
];

#[test]
fn complete_key_expansion_matches_all_60_appendix_a3_words() {
    let schedule = KeySchedule::expand(&APPENDIX_A3_KEY);
    for (index, expected) in APPENDIX_A3_WORDS.iter().enumerate() {
        assert_eq!(&schedule.word_at(index), expected, "w[{index}]");
    }
}

#[test]
fn round_keys_select_consecutive_four_word_groups() {
    let schedule = KeySchedule::expand(&APPENDIX_A3_KEY);
    let first = schedule.round_key(0);
    let last = schedule.round_key(14);
    assert_eq!(first.byte(0, 0), 0x60);
    assert_eq!(last.byte(3, 3), APPENDIX_A3_WORDS[59][3]);
}

/// FIPS 197 Appendix C.3: the AES-256 example block.
#[test]
fn appendix_c3_block_encrypts_and_decrypts() {
    let key: [u8; 32] = core::array::from_fn(|index| index as u8);
    let plaintext: [u8; 16] = core::array::from_fn(|index| (index as u8) * 0x11);
    let expected = [
        0x8e, 0xa2, 0xb7, 0xca, 0x51, 0x67, 0x45, 0xbf, 0xea, 0xfc, 0x49, 0x90, 0x4b, 0x49, 0x60, 0x89,
    ];
    let cipher = Aes256::new(Aes256Key::new(key));
    let mut block = Aes256Block::new(plaintext);
    cipher.encrypt_block(&mut block);
    assert_eq!(block.as_bytes(), &expected);
    cipher.decrypt_block(&mut block);
    assert_eq!(block.into_bytes(), plaintext);
}

/// The generic block-cipher contract: decryption undoes encryption.
#[test]
fn generic_round_trip_restores_the_block() {
    fn round_trip<C: BlockCipher>(cipher: &C, block: &mut C::Block) {
        cipher.encrypt_block(block);
        cipher.decrypt_block(block);
    }
    let cipher = Aes256::new(Aes256Key::new([0x42; 32]));
    let mut block = Aes256Block::new(*b"one-block-input!");
    round_trip(&cipher, &mut block);
    assert_eq!(block.as_bytes(), b"one-block-input!");
    assert_eq!(cipher.debug_text(), "Aes256([REDACTED KEY SCHEDULE])");
}
