//! AES-GCM layers (NIST SP 800-38D) checked against the published AES-128 test case values:
//! counter increments, `GF(2^128)` multiplication, GHASH, `S`, `GCTR`, setup, limits, tags,
//! sealing, opening, and the typed AES-256-GCM boundary.

use ghash::{Block, GHash as ReferenceGhash, Key, universal_hash::UniversalHash};
use rsl_crypto::aead::gcm::authentication::{bit_length, calculate_s, length_block};
use rsl_crypto::aead::gcm::counter::CounterBlock;
use rsl_crypto::aead::gcm::gctr::apply;
use rsl_crypto::aead::gcm::ghash::field::{FieldElement, advance_changing_multiple, displayed_bit, multiply};
use rsl_crypto::aead::gcm::ghash::{Ghash, GhashResult, HashSubkey};
use rsl_crypto::aead::gcm::limits::{MAX_ASSOCIATED_DATA_BYTES, MAX_PAYLOAD_BYTES, validate_input_lengths};
use rsl_crypto::aead::gcm::open::open;
use rsl_crypto::aead::gcm::seal::seal;
use rsl_crypto::aead::gcm::setup::{GcmIv96, PreCounterBlock, derive_hash_subkey};
use rsl_crypto::aead::gcm::tag::{FullTag, mask};
use rsl_crypto::aead::gcm::api256::{Aes256Gcm, Aes256GcmKey, Aes256GcmNonce, Aes256GcmTag};
use rsl_crypto::aead::Aead;
use rsl_crypto::cipher::aes::aes128::{Aes128, Aes128Block, Aes128Key};
use rsl_crypto::CryptoError;

const BLOCK_BYTES: usize = 16;



/// Published counter-block evidence from NIST `AES_GCM.pdf`, GCM-AES128 Example 2.
///
/// The document publishes `J0 = cafebabe...00000001` and GCTR block one's
/// `CB = cafebabe...00000002`. Algorithm 4 step 3 connects them through `inc32(J0)`.
#[test]
fn incrementing_published_j0_produces_the_first_published_counter_block() {
    let mut counter = CounterBlock::new([
        0xca, 0xfe, 0xba, 0xbe, 0xfa, 0xce, 0xdb, 0xad, 0xde, 0xca, 0xf8, 0x88, 0x00, 0x00,
        0x00, 0x01,
    ]);

    counter.increment();

    assert_eq!(
        counter.as_block(),
        &[
            0xca, 0xfe, 0xba, 0xbe, 0xfa, 0xce, 0xdb, 0xad, 0xde, 0xca, 0xf8, 0x88, 0x00, 0x00,
            0x00, 0x02,
        ]
    );
}

/// Published repeated-counter evidence from NIST `AES_GCM.pdf`, GCM-AES128 Example 2,
/// GCTR blocks 1 through 4.
#[test]
fn repeated_increments_follow_all_four_published_counter_blocks() {
    let prefix = [
        0xca, 0xfe, 0xba, 0xbe, 0xfa, 0xce, 0xdb, 0xad, 0xde, 0xca, 0xf8, 0x88,
    ];
    let mut initial = [0_u8; 16];
    initial[..12].copy_from_slice(&prefix);
    initial[15] = 1;
    let mut counter = CounterBlock::new(initial);

    for published_low_byte in 2_u8..=5 {
        counter.increment();

        let mut expected = [0_u8; 16];
        expected[..12].copy_from_slice(&prefix);
        expected[15] = published_low_byte;
        assert_eq!(counter.as_block(), &expected);
    }
}

/// Standard-derived carry evidence from SP 800-38D §6.2's integer addition rule.
#[test]
fn carry_crosses_each_of_the_four_counter_bytes() {
    let mut counter = CounterBlock::new([
        0x10, 0x32, 0x54, 0x76, 0x98, 0xba, 0xdc, 0xfe, 0x11, 0x22, 0x33, 0x44, 0x00, 0xff,
        0xff, 0xff,
    ]);

    counter.increment();

    assert_eq!(
        counter.as_block(),
        &[
            0x10, 0x32, 0x54, 0x76, 0x98, 0xba, 0xdc, 0xfe, 0x11, 0x22, 0x33, 0x44, 0x01, 0x00,
            0x00, 0x00,
        ]
    );
}

/// Standard-derived modular-overflow evidence from SP 800-38D §6.2's `mod 2^32` rule.
#[test]
fn overflow_wraps_only_the_low_32_bits() {
    let mut counter = CounterBlock::new([
        0x10, 0x32, 0x54, 0x76, 0x98, 0xba, 0xdc, 0xfe, 0x11, 0x22, 0x33, 0x44, 0xff, 0xff,
        0xff, 0xff,
    ]);

    counter.increment();

    assert_eq!(
        counter.as_block(),
        &[
            0x10, 0x32, 0x54, 0x76, 0x98, 0xba, 0xdc, 0xfe, 0x11, 0x22, 0x33, 0x44, 0x00, 0x00,
            0x00, 0x00,
        ]
    );
}



/// Standard-derived representation evidence from SP 800-38D §6.3, Algorithm 1 step 1.
#[test]
fn displayed_bits_are_read_left_to_right_across_bytes() {
    let block = [
        0b1000_0001,
        0b0100_0000,
        0,
        0,
        0,
        0,
        0,
        0,
        0,
        0,
        0,
        0,
        0,
        0,
        0,
        1,
    ];

    assert_eq!(displayed_bit(&block, 0), 1);
    assert_eq!(displayed_bit(&block, 1), 0);
    assert_eq!(displayed_bit(&block, 7), 1);
    assert_eq!(displayed_bit(&block, 8), 0);
    assert_eq!(displayed_bit(&block, 9), 1);
    assert_eq!(displayed_bit(&block, 127), 1);
}

/// Standard-derived transition evidence from SP 800-38D §6.3, Algorithm 1 step 3.
#[test]
fn changing_multiple_shifts_without_reduction_when_its_last_bit_is_zero() {
    let mut block = [0_u8; BLOCK_BYTES];
    block[0] = 0x80;

    advance_changing_multiple(&mut block);

    let mut expected = [0_u8; BLOCK_BYTES];
    expected[0] = 0x40;
    assert_eq!(block, expected);
}

/// Standard-derived reduction evidence from SP 800-38D §6.3's definition of `R` and
/// Algorithm 1 step 3.
#[test]
fn changing_multiple_adds_r_when_its_discarded_bit_is_one() {
    let mut block = [0_u8; BLOCK_BYTES];
    block[BLOCK_BYTES - 1] = 1;

    advance_changing_multiple(&mut block);

    let mut expected_r = [0_u8; BLOCK_BYTES];
    expected_r[0] = 0xe1;
    assert_eq!(block, expected_r);
}

/// Standard-derived field-identity evidence from SP 800-38D §6.3's polynomial convention.
///
/// Because the leftmost displayed bit is the coefficient of `u^0`, the multiplicative
/// identity is `0x80 || 0^120`, not the integer-looking block ending in `0x01`.
#[test]
fn the_leftmost_bit_is_the_multiplicative_identity() {
    let mut identity_bytes = [0_u8; BLOCK_BYTES];
    identity_bytes[0] = 0x80;
    let identity = FieldElement::from_block(&identity_bytes);
    let operand = FieldElement::from_block(&[
        0xb8, 0x3b, 0x53, 0x37, 0x08, 0xbf, 0x53, 0x5d, 0x0a, 0xa6, 0xe5, 0x29, 0x80, 0xd5,
        0x3b, 0x78,
    ]);

    assert_eq!(multiply(&identity, &operand).as_block(), operand.as_block());
    assert_eq!(multiply(&operand, &identity).as_block(), operand.as_block());
}

/// Standard-derived zero behavior from Algorithm 1's zero accumulator and masked additions.
#[test]
fn zero_annihilates_either_operand() {
    let zero = FieldElement::from_block(&[0_u8; BLOCK_BYTES]);
    let operand = FieldElement::from_block(&[
        0x42, 0x83, 0x1e, 0xc2, 0x21, 0x77, 0x74, 0x24, 0x4b, 0x72, 0x21, 0xb7, 0x84, 0xd0,
        0xd4, 0x9c,
    ]);

    assert_eq!(multiply(&zero, &operand).as_block(), &[0_u8; BLOCK_BYTES]);
    assert_eq!(multiply(&operand, &zero).as_block(), &[0_u8; BLOCK_BYTES]);
}

/// Standard-derived multiplication evidence using published operands from NIST's
/// `AES_GCM.pdf`, GCM-AES128 Example 2.
///
/// NIST publishes the first ciphertext block and `H`; it does not print their individual
/// product. The expected product is therefore explicitly classified as derived by applying
/// SP 800-38D §6.3, Algorithm 1, not as a published known answer.
#[test]
fn first_example_two_ciphertext_block_times_h_matches_the_derived_product() {
    let ciphertext_block = FieldElement::from_block(&[
        0x42, 0x83, 0x1e, 0xc2, 0x21, 0x77, 0x74, 0x24, 0x4b, 0x72, 0x21, 0xb7, 0x84, 0xd0,
        0xd4, 0x9c,
    ]);
    let hash_subkey = FieldElement::from_block(&[
        0xb8, 0x3b, 0x53, 0x37, 0x08, 0xbf, 0x53, 0x5d, 0x0a, 0xa6, 0xe5, 0x29, 0x80, 0xd5,
        0x3b, 0x78,
    ]);
    let expected = [
        0x59, 0xed, 0x3f, 0x2b, 0xb1, 0xa0, 0xaa, 0xa0, 0x7c, 0x9f, 0x56, 0xc6, 0xa5, 0x04,
        0x64, 0x7b,
    ];

    assert_eq!(
        multiply(&ciphertext_block, &hash_subkey).as_block(),
        &expected
    );
    assert_eq!(
        multiply(&hash_subkey, &ciphertext_block).as_block(),
        &expected
    );
}



/// Standard-derived first-iteration evidence from SP 800-38D §6.4 Algorithm 2 and the
/// published operands in NIST `AES_GCM.pdf`, GCM-AES128 Example 2.
///
/// Since `Y_0` is zero, `Y_1 = X_1 • H`. NIST does not publish this individual intermediate,
/// so the expected value retains the standard-derived classification recorded in the vector
/// provenance file.
#[test]
fn first_update_matches_the_derived_first_field_product() {
    let hash_subkey = HashSubkey::new([
        0xb8, 0x3b, 0x53, 0x37, 0x08, 0xbf, 0x53, 0x5d, 0x0a, 0xa6, 0xe5, 0x29, 0x80, 0xd5,
        0x3b, 0x78,
    ]);
    let first_ciphertext_block = [
        0x42, 0x83, 0x1e, 0xc2, 0x21, 0x77, 0x74, 0x24, 0x4b, 0x72, 0x21, 0xb7, 0x84, 0xd0,
        0xd4, 0x9c,
    ];
    let expected_y_1 = [
        0x59, 0xed, 0x3f, 0x2b, 0xb1, 0xa0, 0xaa, 0xa0, 0x7c, 0x9f, 0x56, 0xc6, 0xa5, 0x04,
        0x64, 0x7b,
    ];
    let mut ghash = Ghash::new(hash_subkey);

    ghash.update_block(&first_ciphertext_block);

    assert_eq!(ghash.finalize().as_block(), &expected_y_1);
}

/// Published complete-GHASH evidence from NIST `AES_GCM.pdf`, GCM-AES128 Example 2.
///
/// With empty AAD and 512 ciphertext bits, SP 800-38D Algorithm 4 step 4 supplies the four
/// published ciphertext blocks followed by `[0]_64 || [512]_64`. NIST publishes the final
/// GHASH result as `S = 7f1b...4eac`.
#[test]
fn example_two_reaches_nists_published_s_value() {
    let hash_subkey = HashSubkey::new([
        0xb8, 0x3b, 0x53, 0x37, 0x08, 0xbf, 0x53, 0x5d, 0x0a, 0xa6, 0xe5, 0x29, 0x80, 0xd5,
        0x3b, 0x78,
    ]);
    let input_blocks = [
        [
            0x42, 0x83, 0x1e, 0xc2, 0x21, 0x77, 0x74, 0x24, 0x4b, 0x72, 0x21, 0xb7, 0x84, 0xd0,
            0xd4, 0x9c,
        ],
        [
            0xe3, 0xaa, 0x21, 0x2f, 0x2c, 0x02, 0xa4, 0xe0, 0x35, 0xc1, 0x7e, 0x23, 0x29, 0xac,
            0xa1, 0x2e,
        ],
        [
            0x21, 0xd5, 0x14, 0xb2, 0x54, 0x66, 0x93, 0x1c, 0x7d, 0x8f, 0x6a, 0x5a, 0xac, 0x84,
            0xaa, 0x05,
        ],
        [
            0x1b, 0xa3, 0x0b, 0x39, 0x6a, 0x0a, 0xac, 0x97, 0x3d, 0x58, 0xe0, 0x91, 0x47, 0x3f,
            0x59, 0x85,
        ],
        [
            0x00, 0x00, 0x00, 0x00, 0x00, 0x00, 0x00, 0x00, 0x00, 0x00, 0x00, 0x00, 0x00, 0x00,
            0x02, 0x00,
        ],
    ];
    let expected_s = [
        0x7f, 0x1b, 0x32, 0xb8, 0x1b, 0x82, 0x0d, 0x02, 0x61, 0x4f, 0x88, 0x95, 0xac, 0x1d,
        0x4e, 0xac,
    ];
    let mut ghash = Ghash::new(hash_subkey);

    for block in &input_blocks {
        ghash.update_block(block);
    }

    assert_eq!(ghash.finalize().as_block(), &expected_s);
}



const AUTH_HASH_SUBKEY: [u8; 16] = [
    0xb8, 0x3b, 0x53, 0x37, 0x08, 0xbf, 0x53, 0x5d, 0x0a, 0xa6, 0xe5, 0x29, 0x80, 0xd5, 0x3b,
    0x78,
];

const AUTH_ASSOCIATED_DATA: [u8; 64] = [
    0x3a, 0xd7, 0x7b, 0xb4, 0x0d, 0x7a, 0x36, 0x60, 0xa8, 0x9e, 0xca, 0xf3, 0x24, 0x66, 0xef,
    0x97, 0xf5, 0xd3, 0xd5, 0x85, 0x03, 0xb9, 0x69, 0x9d, 0xe7, 0x85, 0x89, 0x5a, 0x96, 0xfd,
    0xba, 0xaf, 0x43, 0xb1, 0xcd, 0x7f, 0x59, 0x8e, 0xce, 0x23, 0x88, 0x1b, 0x00, 0xe3, 0xed,
    0x03, 0x06, 0x88, 0x7b, 0x0c, 0x78, 0x5e, 0x27, 0xe8, 0xad, 0x3f, 0x82, 0x23, 0x20, 0x71,
    0x04, 0x72, 0x5d, 0xd4,
];

const AUTH_CIPHERTEXT: [u8; 64] = [
    0x42, 0x83, 0x1e, 0xc2, 0x21, 0x77, 0x74, 0x24, 0x4b, 0x72, 0x21, 0xb7, 0x84, 0xd0, 0xd4,
    0x9c, 0xe3, 0xaa, 0x21, 0x2f, 0x2c, 0x02, 0xa4, 0xe0, 0x35, 0xc1, 0x7e, 0x23, 0x29, 0xac,
    0xa1, 0x2e, 0x21, 0xd5, 0x14, 0xb2, 0x54, 0x66, 0x93, 0x1c, 0x7d, 0x8f, 0x6a, 0x5a, 0xac,
    0x84, 0xaa, 0x05, 0x1b, 0xa3, 0x0b, 0x39, 0x6a, 0x0a, 0xac, 0x97, 0x3d, 0x58, 0xe0, 0x91,
    0x47, 0x3f, 0x59, 0x85,
];

/// Standard-derived encoding evidence from Algorithm 4 steps 4–5.
#[test]
fn byte_lengths_become_two_independent_big_endian_bit_lengths() {
    assert_eq!(
        length_block(20, 60),
        Ok([
            0x00, 0x00, 0x00, 0x00, 0x00, 0x00, 0x00, 0xa0, 0x00, 0x00, 0x00, 0x00, 0x00, 0x00,
            0x01, 0xe0,
        ])
    );
}

/// Standard-derived bound evidence for `[len(X)]_64`.
#[test]
fn bit_length_rejects_the_first_unrepresentable_byte_length() {
    let largest_byte_length = usize::try_from(u64::MAX / 8)
        .expect("the test target can represent the largest whole-byte GCM bit length");

    assert_eq!(bit_length(largest_byte_length), Ok((u64::MAX / 8) * 8));
    assert_eq!(
        bit_length(largest_byte_length + 1),
        Err(CryptoError::MessageTooLong)
    );
}

/// Published empty-AAD evidence from NIST `AES_GCM.pdf`, GCM-AES128 Example 2, `S`.
#[test]
fn example_two_authenticates_complete_ciphertext_blocks() {
    let result = calculate_s(HashSubkey::new(AUTH_HASH_SUBKEY), &[], &AUTH_CIPHERTEXT)
        .expect("the published lengths fit in 64-bit bit counts");

    assert_eq!(
        result.as_block(),
        &[
            0x7f, 0x1b, 0x32, 0xb8, 0x1b, 0x82, 0x0d, 0x02, 0x61, 0x4f, 0x88, 0x95, 0xac, 0x1d,
            0x4e, 0xac,
        ]
    );
}

/// Published empty-ciphertext evidence from NIST `AES_GCM.pdf`, GCM-AES128 Example 3, `S`.
#[test]
fn example_three_authenticates_complete_aad_blocks() {
    let result = calculate_s(HashSubkey::new(AUTH_HASH_SUBKEY), &AUTH_ASSOCIATED_DATA, &[])
        .expect("the published lengths fit in 64-bit bit counts");

    assert_eq!(
        result.as_block(),
        &[
            0x6d, 0xd6, 0xcf, 0x3a, 0x1f, 0xa0, 0x37, 0x1d, 0xd4, 0xc5, 0xc1, 0xac, 0x1c, 0x36,
            0x75, 0xf1,
        ]
    );
}

/// Published AAD-and-ciphertext evidence from NIST `AES_GCM.pdf`, GCM-AES128 Example 4, `S`.
#[test]
fn example_four_preserves_aad_then_ciphertext_order() {
    let result = calculate_s(HashSubkey::new(AUTH_HASH_SUBKEY), &AUTH_ASSOCIATED_DATA, &AUTH_CIPHERTEXT)
        .expect("the published lengths fit in 64-bit bit counts");

    assert_eq!(
        result.as_block(),
        &[
            0x56, 0x87, 0x3b, 0x62, 0x38, 0xe0, 0x50, 0x2e, 0x16, 0xdb, 0x13, 0x23, 0xd4, 0x1e,
            0xb6, 0x55,
        ]
    );
}

/// Published dual-partial-padding evidence from NIST `AES_GCM.pdf`, GCM-AES128 Example 5.
#[test]
fn example_five_zero_pads_aad_and_ciphertext_independently() {
    let result = calculate_s(
        HashSubkey::new(AUTH_HASH_SUBKEY),
        &AUTH_ASSOCIATED_DATA[..20],
        &AUTH_CIPHERTEXT[..60],
    )
    .expect("the published lengths fit in 64-bit bit counts");

    assert_eq!(
        result.as_block(),
        &[
            0xc2, 0x3b, 0x3d, 0x63, 0xd2, 0xed, 0x95, 0x05, 0x6c, 0xa3, 0x42, 0x76, 0x9c, 0xd1,
            0x3c, 0x03,
        ]
    );
}



/// Construct NIST `AES_GCM.pdf`'s common GCM-AES128 example cipher and first counter block.
fn gctr_cipher_and_counter() -> (Aes128, CounterBlock) {
    let cipher = Aes128::new(Aes128Key::new([
        0xfe, 0xff, 0xe9, 0x92, 0x86, 0x65, 0x73, 0x1c, 0x6d, 0x6a, 0x8f, 0x94, 0x67, 0x30,
        0x83, 0x08,
    ]));
    let mut counter = CounterBlock::new([
        0xca, 0xfe, 0xba, 0xbe, 0xfa, 0xce, 0xdb, 0xad, 0xde, 0xca, 0xf8, 0x88, 0x00, 0x00,
        0x00, 0x01,
    ]);
    counter.increment();

    (cipher, counter)
}

/// Published complete-block evidence from NIST `AES_GCM.pdf`, GCM-AES128 Example 2.
#[test]
fn four_complete_blocks_reach_the_published_ciphertext() {
    let (cipher, counter) = gctr_cipher_and_counter();
    let mut data = [
        0xd9, 0x31, 0x32, 0x25, 0xf8, 0x84, 0x06, 0xe5, 0xa5, 0x59, 0x09, 0xc5, 0xaf, 0xf5,
        0x26, 0x9a, 0x86, 0xa7, 0xa9, 0x53, 0x15, 0x34, 0xf7, 0xda, 0x2e, 0x4c, 0x30, 0x3d,
        0x8a, 0x31, 0x8a, 0x72, 0x1c, 0x3c, 0x0c, 0x95, 0x95, 0x68, 0x09, 0x53, 0x2f, 0xcf,
        0x0e, 0x24, 0x49, 0xa6, 0xb5, 0x25, 0xb1, 0x6a, 0xed, 0xf5, 0xaa, 0x0d, 0xe6, 0x57,
        0xba, 0x63, 0x7b, 0x39, 0x1a, 0xaf, 0xd2, 0x55,
    ];
    let expected = [
        0x42, 0x83, 0x1e, 0xc2, 0x21, 0x77, 0x74, 0x24, 0x4b, 0x72, 0x21, 0xb7, 0x84, 0xd0,
        0xd4, 0x9c, 0xe3, 0xaa, 0x21, 0x2f, 0x2c, 0x02, 0xa4, 0xe0, 0x35, 0xc1, 0x7e, 0x23,
        0x29, 0xac, 0xa1, 0x2e, 0x21, 0xd5, 0x14, 0xb2, 0x54, 0x66, 0x93, 0x1c, 0x7d, 0x8f,
        0x6a, 0x5a, 0xac, 0x84, 0xaa, 0x05, 0x1b, 0xa3, 0x0b, 0x39, 0x6a, 0x0a, 0xac, 0x97,
        0x3d, 0x58, 0xe0, 0x91, 0x47, 0x3f, 0x59, 0x85,
    ];

    apply(&cipher, counter, &mut data);

    assert_eq!(data, expected);
}

/// Published final-partial-block evidence from NIST `AES_GCM.pdf`, GCM-AES128 Example 5.
#[test]
fn partial_final_block_uses_only_the_published_leftmost_key_stream_bytes() {
    let (cipher, counter) = gctr_cipher_and_counter();
    let mut data = [
        0xd9, 0x31, 0x32, 0x25, 0xf8, 0x84, 0x06, 0xe5, 0xa5, 0x59, 0x09, 0xc5, 0xaf, 0xf5,
        0x26, 0x9a, 0x86, 0xa7, 0xa9, 0x53, 0x15, 0x34, 0xf7, 0xda, 0x2e, 0x4c, 0x30, 0x3d,
        0x8a, 0x31, 0x8a, 0x72, 0x1c, 0x3c, 0x0c, 0x95, 0x95, 0x68, 0x09, 0x53, 0x2f, 0xcf,
        0x0e, 0x24, 0x49, 0xa6, 0xb5, 0x25, 0xb1, 0x6a, 0xed, 0xf5, 0xaa, 0x0d, 0xe6, 0x57,
        0xba, 0x63, 0x7b, 0x39,
    ];
    let expected = [
        0x42, 0x83, 0x1e, 0xc2, 0x21, 0x77, 0x74, 0x24, 0x4b, 0x72, 0x21, 0xb7, 0x84, 0xd0,
        0xd4, 0x9c, 0xe3, 0xaa, 0x21, 0x2f, 0x2c, 0x02, 0xa4, 0xe0, 0x35, 0xc1, 0x7e, 0x23,
        0x29, 0xac, 0xa1, 0x2e, 0x21, 0xd5, 0x14, 0xb2, 0x54, 0x66, 0x93, 0x1c, 0x7d, 0x8f,
        0x6a, 0x5a, 0xac, 0x84, 0xaa, 0x05, 0x1b, 0xa3, 0x0b, 0x39, 0x6a, 0x0a, 0xac, 0x97,
        0x3d, 0x58, 0xe0, 0x91,
    ];

    apply(&cipher, counter, &mut data);

    assert_eq!(data, expected);
}

/// Standard-derived symmetry evidence from Algorithm 3's XOR operation.
#[test]
fn applying_gctr_twice_with_the_same_initial_counter_recovers_input() {
    let plaintext = *b"partial GCTR input crosses two blocks";
    let (cipher, first_counter) = gctr_cipher_and_counter();
    let (_, second_counter) = gctr_cipher_and_counter();
    let mut data = plaintext;

    apply(&cipher, first_counter, &mut data);
    assert_ne!(data, plaintext);
    apply(&cipher, second_counter, &mut data);

    assert_eq!(data, plaintext);
}

/// Published empty-input rule from SP 800-38D §6.5 Algorithm 3 step 1.
#[test]
fn empty_input_returns_without_a_transformed_byte() {
    let (cipher, counter) = gctr_cipher_and_counter();
    let mut empty = [];

    apply(&cipher, counter, &mut empty);

    assert!(empty.is_empty());
}

/// API-regression evidence: GCTR consumes AES blocks only as temporary key-stream owners.
///
/// Keeping this type assertion close to GCTR catches accidental substitution of raw key or
/// counter arrays at the cipher boundary.
#[test]
fn aes_block_type_remains_the_counter_encryption_boundary() {
    let (cipher, counter) = gctr_cipher_and_counter();
    let mut block = Aes128Block::new(*counter.as_block());

    cipher.encrypt_block(&mut block);

    assert_eq!(block.as_bytes().len(), 16);
}



/// Construct the common AES key from NIST `AES_GCM.pdf` GCM-AES128 Examples 1–6.
fn setup_cipher() -> Aes128 {
    Aes128::new(Aes128Key::new([
        0xfe, 0xff, 0xe9, 0x92, 0x86, 0x65, 0x73, 0x1c, 0x6d, 0x6a, 0x8f, 0x94, 0x67, 0x30,
        0x83, 0x08,
    ]))
}

/// Published setup evidence from NIST `AES_GCM.pdf`, GCM-AES128 Example 2, `H`.
#[test]
fn zero_block_encryption_derives_the_published_hash_subkey() {
    let hash_subkey = derive_hash_subkey(&setup_cipher());

    assert_eq!(
        hash_subkey.as_block(),
        &[
            0xb8, 0x3b, 0x53, 0x37, 0x08, 0xbf, 0x53, 0x5d, 0x0a, 0xa6, 0xe5, 0x29, 0x80, 0xd5,
            0x3b, 0x78,
        ]
    );
}

/// Published setup evidence from NIST `AES_GCM.pdf`, GCM-AES128 Example 2, `IV` and `J0`.
#[test]
fn ninety_six_bit_iv_constructs_the_published_pre_counter_block() {
    let iv = GcmIv96::new([
        0xca, 0xfe, 0xba, 0xbe, 0xfa, 0xce, 0xdb, 0xad, 0xde, 0xca, 0xf8, 0x88,
    ]);
    let pre_counter = PreCounterBlock::from_iv(&iv);

    assert_eq!(
        pre_counter.as_block(),
        &[
            0xca, 0xfe, 0xba, 0xbe, 0xfa, 0xce, 0xdb, 0xad, 0xde, 0xca, 0xf8, 0x88, 0x00, 0x00,
            0x00, 0x01,
        ]
    );
}

/// Published/standard-derived boundary evidence for Algorithm 4 steps 2–3.
#[test]
fn payload_counter_increments_j0_while_tag_counter_retains_it() {
    let first_iv = GcmIv96::new([
        0xca, 0xfe, 0xba, 0xbe, 0xfa, 0xce, 0xdb, 0xad, 0xde, 0xca, 0xf8, 0x88,
    ]);
    let second_iv = GcmIv96::new([
        0xca, 0xfe, 0xba, 0xbe, 0xfa, 0xce, 0xdb, 0xad, 0xde, 0xca, 0xf8, 0x88,
    ]);
    let payload_counter = PreCounterBlock::from_iv(&first_iv).payload_counter();
    let tag_counter = PreCounterBlock::from_iv(&second_iv).into_tag_counter();

    assert_eq!(
        payload_counter.as_block(),
        &[
            0xca, 0xfe, 0xba, 0xbe, 0xfa, 0xce, 0xdb, 0xad, 0xde, 0xca, 0xf8, 0x88, 0x00, 0x00,
            0x00, 0x02,
        ]
    );
    assert_eq!(
        tag_counter.as_block(),
        &[
            0xca, 0xfe, 0xba, 0xbe, 0xfa, 0xce, 0xdb, 0xad, 0xde, 0xca, 0xf8, 0x88, 0x00, 0x00,
            0x00, 0x01,
        ]
    );
}

/// Standard-derived position evidence from Algorithm 4 step 2's direct concatenation.
#[test]
fn every_iv_byte_retains_its_position_before_the_fixed_suffix() {
    let iv = GcmIv96::new([
        0x00, 0x11, 0x22, 0x33, 0x44, 0x55, 0x66, 0x77, 0x88, 0x99, 0xaa, 0xbb,
    ]);
    let pre_counter = PreCounterBlock::from_iv(&iv);

    assert_eq!(
        pre_counter.as_block(),
        &[
            0x00, 0x11, 0x22, 0x33, 0x44, 0x55, 0x66, 0x77, 0x88, 0x99, 0xaa, 0xbb, 0, 0, 0, 1
        ]
    );
}



#[test]
fn ordinary_and_empty_inputs_are_supported() {
    assert_eq!(validate_input_lengths(0, 0), Ok(()));
    assert_eq!(validate_input_lengths(20, 60), Ok(()));
}

/// Standard-derived boundary evidence for `len(P) <= 2^39 - 256` bits.
#[test]
fn payload_limit_accepts_its_boundary_and_rejects_the_next_byte() {
    let boundary =
        usize::try_from(MAX_PAYLOAD_BYTES).expect("the 64-bit target fits the bound");

    assert_eq!(validate_input_lengths(0, boundary), Ok(()));
    assert_eq!(
        validate_input_lengths(0, boundary + 1),
        Err(CryptoError::MessageTooLong)
    );
}

/// Standard-derived whole-byte boundary evidence for `len(A) <= 2^64 - 1` bits.
#[test]
fn associated_data_limit_accepts_its_boundary_and_rejects_the_next_byte() {
    let boundary = usize::try_from(MAX_ASSOCIATED_DATA_BYTES)
        .expect("the 64-bit target fits the whole-byte bound");

    assert_eq!(validate_input_lengths(boundary, 0), Ok(()));
    assert_eq!(
        validate_input_lengths(boundary + 1, 0),
        Err(CryptoError::MessageTooLong)
    );
}

#[test]
fn payload_and_aad_limits_are_independent() {
    assert_eq!(validate_input_lengths(1, 0), Ok(()));
    assert_eq!(validate_input_lengths(0, 1), Ok(()));
}



/// Build a zeroizing `GhashResult` whose bytes equal one published NIST `S` value.
///
/// Updating GHASH under the field identity makes `Y_1 = S`; this test helper avoids exposing
/// a raw production constructor for the secret result type.
fn result_from_bytes(bytes: [u8; 16]) -> GhashResult {
    let mut identity = [0_u8; 16];
    identity[0] = 0x80;
    let mut ghash = Ghash::new(HashSubkey::new(identity));
    ghash.update_block(&bytes);
    ghash.finalize()
}

/// Construct the common cipher and `J0` used by NIST GCM-AES128 Examples 1–5.
fn nist_cipher_and_pre_counter() -> (Aes128, PreCounterBlock) {
    let cipher = Aes128::new(Aes128Key::new([
        0xfe, 0xff, 0xe9, 0x92, 0x86, 0x65, 0x73, 0x1c, 0x6d, 0x6a, 0x8f, 0x94, 0x67, 0x30,
        0x83, 0x08,
    ]));
    let iv = GcmIv96::new([
        0xca, 0xfe, 0xba, 0xbe, 0xfa, 0xce, 0xdb, 0xad, 0xde, 0xca, 0xf8, 0x88,
    ]);

    (cipher, PreCounterBlock::from_iv(&iv))
}

/// Published full-tag evidence from NIST `AES_GCM.pdf`, GCM-AES128 Examples 1–5.
#[test]
fn every_full_length_example_tag_matches_its_published_s_value() {
    let cases = [
        (
            [0_u8; 16],
            [
                0x32, 0x47, 0x18, 0x4b, 0x3c, 0x4f, 0x69, 0xa4, 0x4d, 0xbc, 0xd2, 0x28, 0x87,
                0xbb, 0xb4, 0x18,
            ],
        ),
        (
            [
                0x7f, 0x1b, 0x32, 0xb8, 0x1b, 0x82, 0x0d, 0x02, 0x61, 0x4f, 0x88, 0x95, 0xac,
                0x1d, 0x4e, 0xac,
            ],
            [
                0x4d, 0x5c, 0x2a, 0xf3, 0x27, 0xcd, 0x64, 0xa6, 0x2c, 0xf3, 0x5a, 0xbd, 0x2b,
                0xa6, 0xfa, 0xb4,
            ],
        ),
        (
            [
                0x6d, 0xd6, 0xcf, 0x3a, 0x1f, 0xa0, 0x37, 0x1d, 0xd4, 0xc5, 0xc1, 0xac, 0x1c,
                0x36, 0x75, 0xf1,
            ],
            [
                0x5f, 0x91, 0xd7, 0x71, 0x23, 0xef, 0x5e, 0xb9, 0x99, 0x79, 0x13, 0x84, 0x9b,
                0x8d, 0xc1, 0xe9,
            ],
        ),
        (
            [
                0x56, 0x87, 0x3b, 0x62, 0x38, 0xe0, 0x50, 0x2e, 0x16, 0xdb, 0x13, 0x23, 0xd4,
                0x1e, 0xb6, 0x55,
            ],
            [
                0x64, 0xc0, 0x23, 0x29, 0x04, 0xaf, 0x39, 0x8a, 0x5b, 0x67, 0xc1, 0x0b, 0x53,
                0xa5, 0x02, 0x4d,
            ],
        ),
        (
            [
                0xc2, 0x3b, 0x3d, 0x63, 0xd2, 0xed, 0x95, 0x05, 0x6c, 0xa3, 0x42, 0x76, 0x9c,
                0xd1, 0x3c, 0x03,
            ],
            [
                0xf0, 0x7c, 0x25, 0x28, 0xee, 0xa2, 0xfc, 0xa1, 0x21, 0x1f, 0x90, 0x5e, 0x1b,
                0x6a, 0x88, 0x1b,
            ],
        ),
    ];

    for (published_s, published_tag) in cases {
        let (cipher, pre_counter) = nist_cipher_and_pre_counter();
        let tag = mask(&cipher, pre_counter, result_from_bytes(published_s));
        assert_eq!(tag.as_bytes(), &published_tag);
    }
}

/// API-regression evidence: consuming a tag transfers exactly one complete tag block.
#[test]
fn full_tag_consumption_is_explicit() {
    let (cipher, pre_counter) = nist_cipher_and_pre_counter();
    let tag: FullTag = mask(&cipher, pre_counter, result_from_bytes([0_u8; 16]));

    assert_eq!(tag.into_bytes().len(), 16);
}

/// Negative evidence that every tag position contributes before one uniform decision.
#[test]
fn verification_checks_every_byte_and_returns_one_failure_category() {
    let expected = [0xa5; 16];

    assert_eq!(FullTag::from_bytes(expected).verify(&expected), Ok(()));

    for index in 0..expected.len() {
        let mut received = expected;
        received[index] ^= 1;

        assert_eq!(
            FullTag::from_bytes(expected).verify(&received),
            Err(CryptoError::AuthenticationFailed)
        );
    }
}



const SEAL_PLAINTEXT: [u8; 64] = [
    0xd9, 0x31, 0x32, 0x25, 0xf8, 0x84, 0x06, 0xe5, 0xa5, 0x59, 0x09, 0xc5, 0xaf, 0xf5, 0x26,
    0x9a, 0x86, 0xa7, 0xa9, 0x53, 0x15, 0x34, 0xf7, 0xda, 0x2e, 0x4c, 0x30, 0x3d, 0x8a, 0x31,
    0x8a, 0x72, 0x1c, 0x3c, 0x0c, 0x95, 0x95, 0x68, 0x09, 0x53, 0x2f, 0xcf, 0x0e, 0x24, 0x49,
    0xa6, 0xb5, 0x25, 0xb1, 0x6a, 0xed, 0xf5, 0xaa, 0x0d, 0xe6, 0x57, 0xba, 0x63, 0x7b, 0x39,
    0x1a, 0xaf, 0xd2, 0x55,
];

const SEAL_ASSOCIATED_DATA: [u8; 64] = [
    0x3a, 0xd7, 0x7b, 0xb4, 0x0d, 0x7a, 0x36, 0x60, 0xa8, 0x9e, 0xca, 0xf3, 0x24, 0x66, 0xef,
    0x97, 0xf5, 0xd3, 0xd5, 0x85, 0x03, 0xb9, 0x69, 0x9d, 0xe7, 0x85, 0x89, 0x5a, 0x96, 0xfd,
    0xba, 0xaf, 0x43, 0xb1, 0xcd, 0x7f, 0x59, 0x8e, 0xce, 0x23, 0x88, 0x1b, 0x00, 0xe3, 0xed,
    0x03, 0x06, 0x88, 0x7b, 0x0c, 0x78, 0x5e, 0x27, 0xe8, 0xad, 0x3f, 0x82, 0x23, 0x20, 0x71,
    0x04, 0x72, 0x5d, 0xd4,
];

const SEAL_CIPHERTEXT: [u8; 64] = [
    0x42, 0x83, 0x1e, 0xc2, 0x21, 0x77, 0x74, 0x24, 0x4b, 0x72, 0x21, 0xb7, 0x84, 0xd0, 0xd4,
    0x9c, 0xe3, 0xaa, 0x21, 0x2f, 0x2c, 0x02, 0xa4, 0xe0, 0x35, 0xc1, 0x7e, 0x23, 0x29, 0xac,
    0xa1, 0x2e, 0x21, 0xd5, 0x14, 0xb2, 0x54, 0x66, 0x93, 0x1c, 0x7d, 0x8f, 0x6a, 0x5a, 0xac,
    0x84, 0xaa, 0x05, 0x1b, 0xa3, 0x0b, 0x39, 0x6a, 0x0a, 0xac, 0x97, 0x3d, 0x58, 0xe0, 0x91,
    0x47, 0x3f, 0x59, 0x85,
];

/// Construct the common key and IV from NIST GCM-AES128 Examples 1–5.
fn seal_cipher_and_iv() -> (Aes128, GcmIv96) {
    (
        Aes128::new(Aes128Key::new([
            0xfe, 0xff, 0xe9, 0x92, 0x86, 0x65, 0x73, 0x1c, 0x6d, 0x6a, 0x8f, 0x94, 0x67, 0x30,
            0x83, 0x08,
        ])),
        GcmIv96::new([
            0xca, 0xfe, 0xba, 0xbe, 0xfa, 0xce, 0xdb, 0xad, 0xde, 0xca, 0xf8, 0x88,
        ]),
    )
}

/// Published final-output evidence from NIST `AES_GCM.pdf`, GCM-AES128 Example 1.
#[test]
fn empty_plaintext_and_aad_produce_the_published_tag() {
    let (cipher, iv) = seal_cipher_and_iv();
    let result = seal(&cipher, &iv, &[], &[]).expect("empty inputs satisfy every length limit");

    assert!(result.ciphertext().is_empty());
    assert_eq!(
        result.tag().as_bytes(),
        &[
            0x32, 0x47, 0x18, 0x4b, 0x3c, 0x4f, 0x69, 0xa4, 0x4d, 0xbc, 0xd2, 0x28, 0x87, 0xbb,
            0xb4, 0x18,
        ]
    );
}

/// Published complete-block composition evidence from NIST GCM-AES128 Example 2.
#[test]
fn complete_plaintext_blocks_produce_the_published_ciphertext_and_tag() {
    let (cipher, iv) = seal_cipher_and_iv();
    let result = seal(&cipher, &iv, &[], &SEAL_PLAINTEXT)
        .expect("the published inputs satisfy every length limit");

    assert_eq!(result.ciphertext(), SEAL_CIPHERTEXT);
    assert_eq!(
        result.tag().as_bytes(),
        &[
            0x4d, 0x5c, 0x2a, 0xf3, 0x27, 0xcd, 0x64, 0xa6, 0x2c, 0xf3, 0x5a, 0xbd, 0x2b, 0xa6,
            0xfa, 0xb4,
        ]
    );
}

/// Published partial-block composition evidence from NIST GCM-AES128 Example 5.
#[test]
fn partial_aad_and_plaintext_produce_the_published_ciphertext_and_tag() {
    let (cipher, iv) = seal_cipher_and_iv();
    let result = seal(&cipher, &iv, &SEAL_ASSOCIATED_DATA[..20], &SEAL_PLAINTEXT[..60])
        .expect("the published inputs satisfy every length limit");

    assert_eq!(result.ciphertext(), &SEAL_CIPHERTEXT[..60]);
    assert_eq!(
        result.tag().as_bytes(),
        &[
            0xf0, 0x7c, 0x25, 0x28, 0xee, 0xa2, 0xfc, 0xa1, 0x21, 0x1f, 0x90, 0x5e, 0x1b, 0x6a,
            0x88, 0x1b,
        ]
    );
}

/// Ownership evidence for the later public detached-result boundary.
#[test]
fn result_transfers_ciphertext_and_tag_without_a_second_owner() {
    let (cipher, iv) = seal_cipher_and_iv();
    let result = seal(&cipher, &iv, &[], &[]).expect("empty inputs are valid");
    let (ciphertext, tag) = result.into_parts();

    assert!(ciphertext.is_empty());
    assert_eq!(tag.len(), 16);
}



const OPEN_PLAINTEXT: [u8; 64] = [
    0xd9, 0x31, 0x32, 0x25, 0xf8, 0x84, 0x06, 0xe5, 0xa5, 0x59, 0x09, 0xc5, 0xaf, 0xf5, 0x26,
    0x9a, 0x86, 0xa7, 0xa9, 0x53, 0x15, 0x34, 0xf7, 0xda, 0x2e, 0x4c, 0x30, 0x3d, 0x8a, 0x31,
    0x8a, 0x72, 0x1c, 0x3c, 0x0c, 0x95, 0x95, 0x68, 0x09, 0x53, 0x2f, 0xcf, 0x0e, 0x24, 0x49,
    0xa6, 0xb5, 0x25, 0xb1, 0x6a, 0xed, 0xf5, 0xaa, 0x0d, 0xe6, 0x57, 0xba, 0x63, 0x7b, 0x39,
    0x1a, 0xaf, 0xd2, 0x55,
];

const OPEN_ASSOCIATED_DATA: [u8; 20] = [
    0x3a, 0xd7, 0x7b, 0xb4, 0x0d, 0x7a, 0x36, 0x60, 0xa8, 0x9e, 0xca, 0xf3, 0x24, 0x66, 0xef,
    0x97, 0xf5, 0xd3, 0xd5, 0x85,
];

const OPEN_CIPHERTEXT: [u8; 60] = [
    0x42, 0x83, 0x1e, 0xc2, 0x21, 0x77, 0x74, 0x24, 0x4b, 0x72, 0x21, 0xb7, 0x84, 0xd0, 0xd4,
    0x9c, 0xe3, 0xaa, 0x21, 0x2f, 0x2c, 0x02, 0xa4, 0xe0, 0x35, 0xc1, 0x7e, 0x23, 0x29, 0xac,
    0xa1, 0x2e, 0x21, 0xd5, 0x14, 0xb2, 0x54, 0x66, 0x93, 0x1c, 0x7d, 0x8f, 0x6a, 0x5a, 0xac,
    0x84, 0xaa, 0x05, 0x1b, 0xa3, 0x0b, 0x39, 0x6a, 0x0a, 0xac, 0x97, 0x3d, 0x58, 0xe0, 0x91,
];

const OPEN_TAG: [u8; 16] = [
    0xf0, 0x7c, 0x25, 0x28, 0xee, 0xa2, 0xfc, 0xa1, 0x21, 0x1f, 0x90, 0x5e, 0x1b, 0x6a, 0x88,
    0x1b,
];

/// Construct the key and IV from NIST GCM-AES128 Example 5.
fn open_cipher_and_iv() -> (Aes128, GcmIv96) {
    (
        Aes128::new(Aes128Key::new([
            0xfe, 0xff, 0xe9, 0x92, 0x86, 0x65, 0x73, 0x1c, 0x6d, 0x6a, 0x8f, 0x94, 0x67, 0x30,
            0x83, 0x08,
        ])),
        GcmIv96::new([
            0xca, 0xfe, 0xba, 0xbe, 0xfa, 0xce, 0xdb, 0xad, 0xde, 0xca, 0xf8, 0x88,
        ]),
    )
}

/// Published final-output evidence from NIST `AES_GCM.pdf`, GCM-AES128 Example 5.
#[test]
fn valid_partial_inputs_recover_only_the_published_plaintext() {
    let (cipher, iv) = open_cipher_and_iv();
    let plaintext = open(&cipher, &iv, &OPEN_ASSOCIATED_DATA, &OPEN_CIPHERTEXT, &OPEN_TAG)
        .expect("the published tag authenticates the published inputs");

    assert_eq!(plaintext, OPEN_PLAINTEXT[..60]);
}

/// Negative composition evidence for every value bound into the GCM tag.
#[test]
fn changed_iv_aad_ciphertext_or_tag_returns_only_authentication_failed() {
    let mut changed_iv = [
        0xca, 0xfe, 0xba, 0xbe, 0xfa, 0xce, 0xdb, 0xad, 0xde, 0xca, 0xf8, 0x88,
    ];
    changed_iv[0] ^= 1;
    let (cipher, _) = open_cipher_and_iv();
    assert_eq!(
        open(
            &cipher,
            &GcmIv96::new(changed_iv),
            &OPEN_ASSOCIATED_DATA,
            &OPEN_CIPHERTEXT,
            &OPEN_TAG,
        ),
        Err(CryptoError::AuthenticationFailed)
    );

    let mut changed_aad = OPEN_ASSOCIATED_DATA;
    changed_aad[0] ^= 1;
    let (cipher, iv) = open_cipher_and_iv();
    assert_eq!(
        open(&cipher, &iv, &changed_aad, &OPEN_CIPHERTEXT, &OPEN_TAG),
        Err(CryptoError::AuthenticationFailed)
    );

    let mut changed_ciphertext = OPEN_CIPHERTEXT;
    changed_ciphertext[0] ^= 1;
    let (cipher, iv) = open_cipher_and_iv();
    assert_eq!(
        open(&cipher, &iv, &OPEN_ASSOCIATED_DATA, &changed_ciphertext, &OPEN_TAG),
        Err(CryptoError::AuthenticationFailed)
    );

    let mut changed_tag = OPEN_TAG;
    changed_tag[0] ^= 1;
    let (cipher, iv) = open_cipher_and_iv();
    assert_eq!(
        open(&cipher, &iv, &OPEN_ASSOCIATED_DATA, &OPEN_CIPHERTEXT, &changed_tag),
        Err(CryptoError::AuthenticationFailed)
    );
}

/// Published empty-input evidence from NIST GCM-AES128 Example 1.
#[test]
fn valid_empty_ciphertext_returns_empty_plaintext() {
    let (cipher, iv) = open_cipher_and_iv();
    let tag = [
        0x32, 0x47, 0x18, 0x4b, 0x3c, 0x4f, 0x69, 0xa4, 0x4d, 0xbc, 0xd2, 0x28, 0x87, 0xbb,
        0xb4, 0x18,
    ];

    let plaintext = open(&cipher, &iv, &[], &[], &tag)
        .expect("the published empty-input tag authenticates");

    assert!(plaintext.is_empty());
}




#[test]
fn public_sizes_are_exact_and_byte_exposure_is_explicit() {
    let nonce_bytes = [0x12; Aes256GcmNonce::LEN];
    let tag_bytes = [0x34; Aes256GcmTag::LEN];
    let nonce = Aes256GcmNonce::new(nonce_bytes);
    let tag = Aes256GcmTag::new(tag_bytes);

    assert_eq!(Aes256GcmKey::LEN, 32);
    assert_eq!(nonce.as_bytes(), &nonce_bytes);
    assert_eq!(nonce.into_bytes(), nonce_bytes);
    assert_eq!(tag.as_bytes(), &tag_bytes);
    assert_eq!(tag.into_bytes(), tag_bytes);
}

#[test]
fn key_owning_debug_output_is_redacted() {
    let key = Aes256GcmKey::new([0x5a; 32]);
    assert_eq!(key.debug_text(), "Aes256GcmKey([REDACTED])");

    let algorithm = Aes256Gcm::new(key);
    assert_eq!(algorithm.debug_text(), "Aes256Gcm([REDACTED KEY SCHEDULE])");
}

#[test]
fn wire_slices_require_exact_nonce_and_tag_lengths() {
    let nonce_bytes = [0x12; Aes256GcmNonce::LEN];
    let tag_bytes = [0x34; Aes256GcmTag::LEN];

    assert_eq!(
        Aes256GcmNonce::try_from(nonce_bytes.as_slice()),
        Ok(Aes256GcmNonce::new(nonce_bytes))
    );
    assert_eq!(
        Aes256GcmTag::try_from(tag_bytes.as_slice()),
        Ok(Aes256GcmTag::new(tag_bytes))
    );

    assert_eq!(
        Aes256GcmNonce::try_from(&nonce_bytes[..11]),
        Err(CryptoError::InvalidLength {
            name: "AES-256-GCM nonce",
            expected: 12,
            actual: 11,
        })
    );
    assert_eq!(
        Aes256GcmTag::try_from(&tag_bytes[..15]),
        Err(CryptoError::InvalidLength {
            name: "AES-256-GCM tag",
            expected: 16,
            actual: 15,
        })
    );
}

#[test]
fn complete_block_recurrence_matches_rustcrypto() {
    for case_index in 0_u8..32 {
        let key_bytes = core::array::from_fn(|byte_index| {
            let byte_index =
                u8::try_from(byte_index).expect("every GHASH subkey byte index fits in u8");
            case_index
                .wrapping_mul(0x3d)
                .wrapping_add(byte_index.wrapping_mul(0x71))
                .wrapping_add(0x29)
        });
        let input_blocks: [[u8; 16]; 8] = core::array::from_fn(|block_index| {
            let block_index =
                u8::try_from(block_index).expect("every GHASH test block index fits in u8");
            core::array::from_fn(|byte_index| {
                let byte_index =
                    u8::try_from(byte_index).expect("every GHASH block byte index fits in u8");
                case_index
                    .wrapping_mul(0x53)
                    .wrapping_add(block_index.wrapping_mul(0x97))
                    .wrapping_add(byte_index.wrapping_mul(0x2f))
                    .wrapping_add(0x0b)
            })
        });
        let block_count = usize::from(case_index % 8) + 1;

        let mut ours = Ghash::new(HashSubkey::new(key_bytes));
        for block in &input_blocks[..block_count] {
            ours.update_block(block);
        }

        let reference_key = Key::from(key_bytes);
        let mut reference = ReferenceGhash::new(&reference_key);
        let reference_blocks: [Block; 8] = input_blocks.map(Block::from);
        reference.update(&reference_blocks[..block_count]);
        let reference_result = reference.finalize();

        assert_eq!(
            ours.finalize().as_block().as_slice(),
            &reference_result[..],
            "case {case_index}, block count {block_count}"
        );
    }
}

/// NIST GCM test case 13: AES-256, zero key and IV, empty plaintext.
#[test]
fn aes256_gcm_empty_plaintext_matches_the_published_tag() {
    let algorithm = Aes256Gcm::new(Aes256GcmKey::new([0; 32]));
    let sealed = algorithm.seal(&Aes256GcmNonce::new([0; 12]), &[], &[]).unwrap();
    assert!(sealed.ciphertext().is_empty());
    assert_eq!(
        sealed.tag().as_bytes(),
        &[0x53, 0x0f, 0x8a, 0xfb, 0xc7, 0x45, 0x36, 0xb9, 0xa9, 0x63, 0xb4, 0xf1, 0xc4, 0xcb, 0x73, 0x8b]
    );
}

/// NIST GCM test case 14: AES-256, zero key and IV, one zero block; opening recovers it and a
/// changed tag is refused.
#[test]
fn aes256_gcm_one_block_round_trip_matches_the_published_values() {
    let algorithm = Aes256Gcm::new(Aes256GcmKey::new([0; 32]));
    let nonce = Aes256GcmNonce::new([0; 12]);
    let sealed = Aead::seal(&algorithm, &nonce, &[], &[0; 16]).unwrap();
    assert_eq!(
        sealed.ciphertext(),
        &[0xce, 0xa7, 0x40, 0x3d, 0x4d, 0x60, 0x6b, 0x6e, 0x07, 0x4e, 0xc5, 0xd3, 0xba, 0xf3, 0x9d, 0x18]
    );
    assert_eq!(
        sealed.tag().as_bytes(),
        &[0xd0, 0xd1, 0xc8, 0xa7, 0x99, 0x99, 0x6b, 0xf0, 0x26, 0x5b, 0x98, 0xb5, 0xd4, 0x8a, 0xb9, 0x19]
    );
    let (ciphertext, tag) = sealed.into_parts();
    assert_eq!(algorithm.open(&nonce, &[], &ciphertext, &tag), Ok(vec![0; 16]));
    let mut changed = tag.into_bytes();
    changed[15] ^= 0x80;
    assert_eq!(
        algorithm.open(&nonce, &[], &ciphertext, &Aes256GcmTag::new(changed)),
        Err(CryptoError::AuthenticationFailed)
    );
}

/// GHASH of a single block under the identity subkey is the block itself; zero absorbs.
#[test]
fn multiplication_identity_and_zero_hold_for_a_varied_operand() {
    let mut identity = [0_u8; 16];
    identity[0] = 0x80;
    let operand: [u8; 16] = core::array::from_fn(|index| (index as u8).wrapping_mul(0x3b).wrapping_add(5));
    let product = multiply(&FieldElement::from_block(&identity), &FieldElement::from_block(&operand));
    assert_eq!(product.as_block(), &operand);
    let zero = multiply(&FieldElement::from_block(&operand), &FieldElement::zero());
    assert_eq!(zero.as_block(), &[0_u8; 16]);
}
