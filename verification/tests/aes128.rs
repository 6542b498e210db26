//! AES-128 field arithmetic, substitution, state layout, round transforms, and the block
//! ciphers, checked against FIPS 197 values.

use rsl_crypto::cipher::aes::aes128::field::{field_add, multiplicative_inverse_or_zero, multiply, xtimes};
use rsl_crypto::cipher::aes::aes128::forward::encrypt_block;
use rsl_crypto::cipher::aes::aes128::inverse::decrypt_block;
use rsl_crypto::cipher::aes::aes128::key::RoundKey;
use rsl_crypto::cipher::aes::aes128::key_schedule::KeySchedule;
use rsl_crypto::cipher::aes::aes128::state::{BLOCK_LEN, State};
use rsl_crypto::cipher::aes::aes128::substitution::{
    AFFINE_CONSTANT, affine_transform, inverse_affine_transform, inverse_substitute_byte, substitute_byte,
};
use rsl_crypto::cipher::aes::aes128::transforms::{
    add_round_key, inverse_mix_column, inverse_mix_columns, inverse_shift_rows, inverse_sub_bytes, mix_column,
    mix_columns, shift_rows, sub_bytes,
};
use rsl_crypto::cipher::aes::aes128::{Aes128, Aes128Block, Aes128Key};
use rsl_crypto::cipher::BlockCipher;



/// Published arithmetic evidence from FIPS 197-upd1 §4.1, equation 4.2.
#[test]
fn addition_matches_the_published_polynomial_binary_and_hex_example() {
    assert_eq!(field_add(0x57, 0x83), 0xd4);
}

/// Published arithmetic evidence from FIPS 197-upd1 §4.2, equation 4.6.
#[test]
fn repeated_xtimes_matches_every_published_power_of_x_for_57() {
    let mut value = 0x57;

    for expected in [0xae, 0x47, 0x8e, 0x07, 0x0e, 0x1c, 0x38] {
        value = xtimes(value);
        assert_eq!(value, expected);
    }
}

/// Published arithmetic evidence from FIPS 197-upd1 §4.2, equation 4.7.
#[test]
fn general_multiplication_matches_the_published_57_times_13_example() {
    assert_eq!(multiply(0x57, 0x13), 0xfe);
}

/// Standard-derived evidence from FIPS 197-upd1 equations 4.4 and 4.5.
///
/// This exhaustively checks that general multiplication by `{02}` follows the separately
/// specified `XTIMES()` operation for every field element. The expectations are derived from
/// the published relationship rather than imported as 256 published vectors.
#[test]
fn multiplication_by_two_equals_xtimes_for_every_byte() {
    for byte in u8::MIN..=u8::MAX {
        assert_eq!(multiply(byte, 0x02), xtimes(byte), "byte {byte:#04x}");
    }
}

/// Standard-derived evidence from the field identities in FIPS 197 §4.1–§4.2.
#[test]
fn zero_and_one_have_the_required_multiplication_behavior() {
    for byte in u8::MIN..=u8::MAX {
        assert_eq!(multiply(byte, 0x00), 0x00, "right zero for {byte:#04x}");
        assert_eq!(multiply(0x00, byte), 0x00, "left zero for {byte:#04x}");
        assert_eq!(multiply(byte, 0x01), byte, "right one for {byte:#04x}");
        assert_eq!(multiply(0x01, byte), byte, "left one for {byte:#04x}");
    }
}

/// Standard-derived exhaustive evidence from FIPS 197-upd1 §4.4, equations 4.10 and 4.11.
///
/// The standard publishes the exponent rule, not a table of all expected inverse bytes. This
/// test checks the defining inverse equation independently for all 255 nonzero elements.
#[test]
fn every_nonzero_byte_times_its_calculated_inverse_is_one() {
    for byte in 1..=u8::MAX {
        let inverse = multiplicative_inverse_or_zero(byte);

        assert_eq!(multiply(byte, inverse), 0x01, "byte {byte:#04x}");
    }
}

/// Standard-derived boundary evidence from FIPS 197-upd1 equation 5.2.
#[test]
fn zero_maps_to_zero_at_the_future_sbox_inverse_boundary() {
    assert_eq!(multiplicative_inverse_or_zero(0x00), 0x00);
}



/// All published substitution values from FIPS 197-upd1 §5.1.1, Table 4.
///
/// Array index is the input byte `xy`: the high nibble `x` selects the printed table row and
/// the low nibble `y` selects the printed column. This table is test evidence only and is not
/// compiled into the production substitution path.
const PUBLISHED_SBOX: [u8; 256] = [
    0x63, 0x7c, 0x77, 0x7b, 0xf2, 0x6b, 0x6f, 0xc5, 0x30, 0x01, 0x67, 0x2b, 0xfe, 0xd7, 0xab,
    0x76, 0xca, 0x82, 0xc9, 0x7d, 0xfa, 0x59, 0x47, 0xf0, 0xad, 0xd4, 0xa2, 0xaf, 0x9c, 0xa4,
    0x72, 0xc0, 0xb7, 0xfd, 0x93, 0x26, 0x36, 0x3f, 0xf7, 0xcc, 0x34, 0xa5, 0xe5, 0xf1, 0x71,
    0xd8, 0x31, 0x15, 0x04, 0xc7, 0x23, 0xc3, 0x18, 0x96, 0x05, 0x9a, 0x07, 0x12, 0x80, 0xe2,
    0xeb, 0x27, 0xb2, 0x75, 0x09, 0x83, 0x2c, 0x1a, 0x1b, 0x6e, 0x5a, 0xa0, 0x52, 0x3b, 0xd6,
    0xb3, 0x29, 0xe3, 0x2f, 0x84, 0x53, 0xd1, 0x00, 0xed, 0x20, 0xfc, 0xb1, 0x5b, 0x6a, 0xcb,
    0xbe, 0x39, 0x4a, 0x4c, 0x58, 0xcf, 0xd0, 0xef, 0xaa, 0xfb, 0x43, 0x4d, 0x33, 0x85, 0x45,
    0xf9, 0x02, 0x7f, 0x50, 0x3c, 0x9f, 0xa8, 0x51, 0xa3, 0x40, 0x8f, 0x92, 0x9d, 0x38, 0xf5,
    0xbc, 0xb6, 0xda, 0x21, 0x10, 0xff, 0xf3, 0xd2, 0xcd, 0x0c, 0x13, 0xec, 0x5f, 0x97, 0x44,
    0x17, 0xc4, 0xa7, 0x7e, 0x3d, 0x64, 0x5d, 0x19, 0x73, 0x60, 0x81, 0x4f, 0xdc, 0x22, 0x2a,
    0x90, 0x88, 0x46, 0xee, 0xb8, 0x14, 0xde, 0x5e, 0x0b, 0xdb, 0xe0, 0x32, 0x3a, 0x0a, 0x49,
    0x06, 0x24, 0x5c, 0xc2, 0xd3, 0xac, 0x62, 0x91, 0x95, 0xe4, 0x79, 0xe7, 0xc8, 0x37, 0x6d,
    0x8d, 0xd5, 0x4e, 0xa9, 0x6c, 0x56, 0xf4, 0xea, 0x65, 0x7a, 0xae, 0x08, 0xba, 0x78, 0x25,
    0x2e, 0x1c, 0xa6, 0xb4, 0xc6, 0xe8, 0xdd, 0x74, 0x1f, 0x4b, 0xbd, 0x8b, 0x8a, 0x70, 0x3e,
    0xb5, 0x66, 0x48, 0x03, 0xf6, 0x0e, 0x61, 0x35, 0x57, 0xb9, 0x86, 0xc1, 0x1d, 0x9e, 0xe1,
    0xf8, 0x98, 0x11, 0x69, 0xd9, 0x8e, 0x94, 0x9b, 0x1e, 0x87, 0xe9, 0xce, 0x55, 0x28, 0xdf,
    0x8c, 0xa1, 0x89, 0x0d, 0xbf, 0xe6, 0x42, 0x68, 0x41, 0x99, 0x2d, 0x0f, 0xb0, 0x54, 0xbb,
    0x16,
];

/// All published inverse-substitution values from FIPS 197-upd1 §5.3.2, Table 6.
///
/// Indexing follows the same high-nibble row and low-nibble column convention as Table 4.
/// This table is compiled only as test evidence.
const PUBLISHED_INVERSE_SBOX: [u8; 256] = [
    0x52, 0x09, 0x6a, 0xd5, 0x30, 0x36, 0xa5, 0x38, 0xbf, 0x40, 0xa3, 0x9e, 0x81, 0xf3, 0xd7,
    0xfb, 0x7c, 0xe3, 0x39, 0x82, 0x9b, 0x2f, 0xff, 0x87, 0x34, 0x8e, 0x43, 0x44, 0xc4, 0xde,
    0xe9, 0xcb, 0x54, 0x7b, 0x94, 0x32, 0xa6, 0xc2, 0x23, 0x3d, 0xee, 0x4c, 0x95, 0x0b, 0x42,
    0xfa, 0xc3, 0x4e, 0x08, 0x2e, 0xa1, 0x66, 0x28, 0xd9, 0x24, 0xb2, 0x76, 0x5b, 0xa2, 0x49,
    0x6d, 0x8b, 0xd1, 0x25, 0x72, 0xf8, 0xf6, 0x64, 0x86, 0x68, 0x98, 0x16, 0xd4, 0xa4, 0x5c,
    0xcc, 0x5d, 0x65, 0xb6, 0x92, 0x6c, 0x70, 0x48, 0x50, 0xfd, 0xed, 0xb9, 0xda, 0x5e, 0x15,
    0x46, 0x57, 0xa7, 0x8d, 0x9d, 0x84, 0x90, 0xd8, 0xab, 0x00, 0x8c, 0xbc, 0xd3, 0x0a, 0xf7,
    0xe4, 0x58, 0x05, 0xb8, 0xb3, 0x45, 0x06, 0xd0, 0x2c, 0x1e, 0x8f, 0xca, 0x3f, 0x0f, 0x02,
    0xc1, 0xaf, 0xbd, 0x03, 0x01, 0x13, 0x8a, 0x6b, 0x3a, 0x91, 0x11, 0x41, 0x4f, 0x67, 0xdc,
    0xea, 0x97, 0xf2, 0xcf, 0xce, 0xf0, 0xb4, 0xe6, 0x73, 0x96, 0xac, 0x74, 0x22, 0xe7, 0xad,
    0x35, 0x85, 0xe2, 0xf9, 0x37, 0xe8, 0x1c, 0x75, 0xdf, 0x6e, 0x47, 0xf1, 0x1a, 0x71, 0x1d,
    0x29, 0xc5, 0x89, 0x6f, 0xb7, 0x62, 0x0e, 0xaa, 0x18, 0xbe, 0x1b, 0xfc, 0x56, 0x3e, 0x4b,
    0xc6, 0xd2, 0x79, 0x20, 0x9a, 0xdb, 0xc0, 0xfe, 0x78, 0xcd, 0x5a, 0xf4, 0x1f, 0xdd, 0xa8,
    0x33, 0x88, 0x07, 0xc7, 0x31, 0xb1, 0x12, 0x10, 0x59, 0x27, 0x80, 0xec, 0x5f, 0x60, 0x51,
    0x7f, 0xa9, 0x19, 0xb5, 0x4a, 0x0d, 0x2d, 0xe5, 0x7a, 0x9f, 0x93, 0xc9, 0x9c, 0xef, 0xa0,
    0xe0, 0x3b, 0x4d, 0xae, 0x2a, 0xf5, 0xb0, 0xc8, 0xeb, 0xbb, 0x3c, 0x83, 0x53, 0x99, 0x61,
    0x17, 0x2b, 0x04, 0x7e, 0xba, 0x77, 0xd6, 0x26, 0xe1, 0x69, 0x14, 0x63, 0x55, 0x21, 0x0c,
    0x7d,
];

/// Published boundary evidence from the first cell of FIPS 197-upd1 Table 4.
///
/// Equation 5.2 maps zero to zero, so the affine constant itself becomes the S-box output.
#[test]
fn zero_maps_to_the_affine_constant() {
    assert_eq!(affine_transform(0x00), AFFINE_CONSTANT);
    assert_eq!(substitute_byte(0x00), 0x63);
}

/// Published example from the prose immediately following FIPS 197-upd1 Table 4.
#[test]
fn table_lookup_example_53_maps_to_ed_without_a_production_table() {
    assert_eq!(substitute_byte(0x53), 0xed);
}

/// Exhaustive published-value evidence from FIPS 197-upd1 Table 4.
#[test]
fn calculated_substitution_matches_every_published_table_entry() {
    for (input, expected) in (u8::MIN..=u8::MAX).zip(PUBLISHED_SBOX) {
        assert_eq!(substitute_byte(input), expected, "input {input:#04x}");
    }
}

/// Standard-derived bijection evidence for the one-to-one substitution required by §5.1.1.
#[test]
fn every_output_byte_occurs_exactly_once() {
    let mut seen = [false; 256];

    for input in u8::MIN..=u8::MAX {
        let output = usize::from(substitute_byte(input));
        assert!(!seen[output], "duplicate output {output:#04x}");
        seen[output] = true;
    }

    assert!(seen.into_iter().all(core::convert::identity));
}

/// Standard-derived inverse-affine boundary from FIPS 197 equations 5.3–5.4.
#[test]
fn inverse_affine_transform_undoes_the_forward_transform_for_every_byte() {
    for byte in u8::MIN..=u8::MAX {
        assert_eq!(inverse_affine_transform(affine_transform(byte)), byte);
    }
}

/// Exhaustive published-value evidence from FIPS 197-upd1 Table 6.
#[test]
fn calculated_inverse_substitution_matches_every_published_table_entry() {
    for (input, expected) in (u8::MIN..=u8::MAX).zip(PUBLISHED_INVERSE_SBOX) {
        assert_eq!(
            inverse_substitute_byte(input),
            expected,
            "input {input:#04x}"
        );
    }
}

/// Standard-derived bijection evidence from FIPS 197-upd1 §§5.1.1 and 5.3.2.
#[test]
fn forward_and_inverse_substitutions_cancel_for_every_byte() {
    for byte in u8::MIN..=u8::MAX {
        assert_eq!(inverse_substitute_byte(substitute_byte(byte)), byte);
        assert_eq!(substitute_byte(inverse_substitute_byte(byte)), byte);
    }
}



/// Published intermediate-state evidence from FIPS 197-upd1 Appendix B, `input`.
///
/// Appendix B prints the input byte sequence and its corresponding four state rows. This
/// checks equation 3.6 against values published by the controlling standard rather than only
/// checking that our load and store operations agree with each other.
#[test]
fn maps_appendix_b_input_into_the_published_state_rows() {
    let input = [
        0x32, 0x43, 0xf6, 0xa8, 0x88, 0x5a, 0x30, 0x8d, 0x31, 0x31, 0x98, 0xa2, 0xe0, 0x37,
        0x07, 0x34,
    ];

    let state = State::from_block(&input);

    assert_eq!(
        state.rows(),
        [
            [0x32, 0x88, 0x31, 0xe0],
            [0x43, 0x5a, 0x31, 0x37],
            [0xf6, 0x30, 0x98, 0x07],
            [0xa8, 0x8d, 0xa2, 0x34],
        ]
    );
}

/// Standard-derived evidence from FIPS 197-upd1 §3.4, equations 3.6 and 3.7.
///
/// Distinct values at every byte position make a transposition or row-major interpretation
/// observable. This is not a NIST-published vector; it is a direct application of the two
/// cited equations to a locally chosen sequential block.
#[test]
fn block_to_state_to_block_preserves_every_position() {
    let input = core::array::from_fn(|index| {
        u8::try_from(index).expect("every AES block index fits in u8")
    });
    let state = State::from_block(&input);
    let mut output = [0xff_u8; BLOCK_LEN];

    state.write_block(&mut output);

    assert_eq!(output, input);
}



/// Published representation evidence from FIPS 197-upd1 Appendix B, `Key`.
///
/// Appendix B prints the sixteen key bytes as both a sequence and four state-shaped rows.
/// The expected words below are its sequence split according to §3.5 equation 3.8.
#[test]
fn appendix_b_key_bytes_map_to_four_published_columns() {
    let key = [
        0x2b, 0x7e, 0x15, 0x16, 0x28, 0xae, 0xd2, 0xa6, 0xab, 0xf7, 0x15, 0x88, 0x09, 0xcf,
        0x4f, 0x3c,
    ];
    let round_key = RoundKey::from_block(&key);

    assert_eq!(round_key.words()[0], [0x2b, 0x7e, 0x15, 0x16]);
    assert_eq!(round_key.words()[1], [0x28, 0xae, 0xd2, 0xa6]);
    assert_eq!(round_key.words()[2], [0xab, 0xf7, 0x15, 0x88]);
    assert_eq!(round_key.words()[3], [0x09, 0xcf, 0x4f, 0x3c]);
}



/// Assert that a state serializes to one expected FIPS byte sequence.
fn assert_block(state: &State, expected: [u8; 16]) {
    let mut actual = [0_u8; 16];
    state.write_block(&mut actual);
    assert_eq!(actual, expected);
}

/// Published intermediate-state evidence from FIPS 197-upd1 Appendix B, round 1.
///
/// Appendix B prints both matrices directly: the first is the state at the start of round 1,
/// and the second is the state after `SUBBYTES()`. The one-dimensional input below is the
/// first printed matrix converted mechanically through §3.4 equation 3.7.
#[test]
fn round_one_sub_bytes_matches_the_published_appendix_b_state() {
    let start_of_round = [
        0x19, 0x3d, 0xe3, 0xbe, 0xa0, 0xf4, 0xe2, 0x2b, 0x9a, 0xc6, 0x8d, 0x2a, 0xe9, 0xf8,
        0x48, 0x08,
    ];
    let expected_rows = [
        [0xd4, 0xe0, 0xb8, 0x1e],
        [0x27, 0xbf, 0xb4, 0x41],
        [0x11, 0x98, 0x5d, 0x52],
        [0xae, 0xf1, 0xe5, 0x30],
    ];
    let mut state = State::from_block(&start_of_round);

    sub_bytes(&mut state);

    for (row, expected_row) in expected_rows.into_iter().enumerate() {
        for (column, expected_byte) in expected_row.into_iter().enumerate() {
            assert_eq!(
                state.byte(row, column),
                expected_byte,
                "state byte s[{row}, {column}]"
            );
        }
    }
}

/// Published intermediate-state evidence from FIPS 197-upd1 Appendix B, round 1.
///
/// The starting and expected matrices are Appendix B's post-`SUBBYTES()` and post-`SHIFTROWS()`
/// columns. The input byte sequence is the first matrix converted through §3.4 equation 3.7;
/// expected values remain arranged exactly as the four published rows.
#[test]
fn round_one_shift_rows_matches_the_published_appendix_b_state() {
    let after_sub_bytes = [
        0xd4, 0x27, 0x11, 0xae, 0xe0, 0xbf, 0x98, 0xf1, 0xb8, 0xb4, 0x5d, 0xe5, 0x1e, 0x41,
        0x52, 0x30,
    ];
    let expected_rows = [
        [0xd4, 0xe0, 0xb8, 0x1e],
        [0xbf, 0xb4, 0x41, 0x27],
        [0x5d, 0x52, 0x11, 0x98],
        [0x30, 0xae, 0xf1, 0xe5],
    ];
    let mut state = State::from_block(&after_sub_bytes);

    shift_rows(&mut state);

    for (row, expected_row) in expected_rows.into_iter().enumerate() {
        for (column, expected_byte) in expected_row.into_iter().enumerate() {
            assert_eq!(
                state.byte(row, column),
                expected_byte,
                "state byte s[{row}, {column}]"
            );
        }
    }
}

/// Published first-column evidence from FIPS 197-upd1 Appendix B, round 1.
///
/// Appendix B's post-`SHIFTROWS()` first column is `{d4,bf,5d,30}` and its post-`MIXCOLUMNS()`
/// first column is `{04,66,81,e5}`. Isolating that pair tests equation 5.8 without relying on
/// state traversal.
#[test]
fn round_one_first_mixed_column_matches_appendix_b() {
    assert_eq!(
        mix_column([0xd4, 0xbf, 0x5d, 0x30]),
        [0x04, 0x66, 0x81, 0xe5]
    );
}

/// Published complete-state evidence from FIPS 197-upd1 Appendix B, round 1.
///
/// The input and expected matrices are the published post-`SHIFTROWS()` and
/// post-`MIXCOLUMNS()` boundaries. This separately checks that all four columns are selected,
/// transformed, and returned at the correct indices.
#[test]
fn round_one_mix_columns_matches_the_published_appendix_b_state() {
    let after_shift_rows = [
        0xd4, 0xbf, 0x5d, 0x30, 0xe0, 0xb4, 0x52, 0xae, 0xb8, 0x41, 0x11, 0xf1, 0x1e, 0x27,
        0x98, 0xe5,
    ];
    let expected_rows = [
        [0x04, 0xe0, 0x48, 0x28],
        [0x66, 0xcb, 0xf8, 0x06],
        [0x81, 0x19, 0xd3, 0x26],
        [0xe5, 0x9a, 0x7a, 0x4c],
    ];
    let mut state = State::from_block(&after_shift_rows);

    mix_columns(&mut state);

    for (row, expected_row) in expected_rows.into_iter().enumerate() {
        for (column, expected_byte) in expected_row.into_iter().enumerate() {
            assert_eq!(
                state.byte(row, column),
                expected_byte,
                "state byte s[{row}, {column}]"
            );
        }
    }
}

/// Published state/key boundary from FIPS 197-upd1 Appendix B, initial key addition.
///
/// Appendix B prints the input matrix, cipher key matrix, and round-1 start matrix. The
/// transformation below combines exactly those first two published values; each expected row
/// is the third published value.
#[test]
fn initial_add_round_key_matches_the_published_appendix_b_state() {
    let input = [
        0x32, 0x43, 0xf6, 0xa8, 0x88, 0x5a, 0x30, 0x8d, 0x31, 0x31, 0x98, 0xa2, 0xe0, 0x37,
        0x07, 0x34,
    ];
    let key = [
        0x2b, 0x7e, 0x15, 0x16, 0x28, 0xae, 0xd2, 0xa6, 0xab, 0xf7, 0x15, 0x88, 0x09, 0xcf,
        0x4f, 0x3c,
    ];
    let expected_rows = [
        [0x19, 0xa0, 0x9a, 0xe9],
        [0x3d, 0xf4, 0xc6, 0xf8],
        [0xe3, 0xe2, 0x8d, 0x48],
        [0xbe, 0x2b, 0x2a, 0x08],
    ];
    let mut state = State::from_block(&input);
    let round_key = RoundKey::from_block(&key);

    add_round_key(&mut state, &round_key);

    for (row, expected_row) in expected_rows.into_iter().enumerate() {
        for (column, expected_byte) in expected_row.into_iter().enumerate() {
            assert_eq!(
                state.byte(row, column),
                expected_byte,
                "state byte s[{row}, {column}]"
            );
        }
    }
}

/// Standard-derived inverse-property evidence from FIPS 197-upd1 §5.3.4.
///
/// The standard states that `ADDROUNDKEY()` is its own inverse. Applying the same round key
/// twice must therefore recover all sixteen initial bytes.
#[test]
fn add_round_key_is_its_own_inverse() {
    let input = core::array::from_fn(|index| {
        u8::try_from(index).expect("every AES block index fits in u8")
    });
    let key = [0xa5; 16];
    let mut state = State::from_block(&input);
    let round_key = RoundKey::from_block(&key);
    let mut output = [0_u8; 16];

    add_round_key(&mut state, &round_key);
    add_round_key(&mut state, &round_key);
    state.write_block(&mut output);

    assert_eq!(output, input);
}

/// Published inverse-substitution evidence from NIST `AES_Core128.pdf`, decryption block 1.
#[test]
fn inverse_sub_bytes_matches_the_first_published_decryption_boundary() {
    let after_initial_key_addition = [
        0xea, 0xc3, 0x82, 0x1c, 0xc4, 0x94, 0x13, 0xe9, 0x49, 0xa1, 0xc6, 0x3b, 0x92, 0x05,
        0xe3, 0x31,
    ];
    let expected = [
        0xbb, 0x33, 0x11, 0xc4, 0x88, 0xe7, 0x82, 0xeb, 0xa4, 0xf1, 0xc7, 0x49, 0x74, 0x36,
        0x4d, 0x2e,
    ];
    let mut state = State::from_block(&after_initial_key_addition);

    inverse_sub_bytes(&mut state);

    assert_block(&state, expected);
}

/// Published inverse-row evidence from NIST `AES_Core128.pdf`, decryption block 1.
#[test]
fn inverse_shift_rows_matches_the_first_published_decryption_boundary() {
    let after_inverse_substitution = [
        0xbb, 0x33, 0x11, 0xc4, 0x88, 0xe7, 0x82, 0xeb, 0xa4, 0xf1, 0xc7, 0x49, 0x74, 0x36,
        0x4d, 0x2e,
    ];
    let expected = [
        0xbb, 0x36, 0xc7, 0xeb, 0x88, 0x33, 0x4d, 0x49, 0xa4, 0xe7, 0x11, 0x2e, 0x74, 0xf1,
        0x82, 0xc4,
    ];
    let mut state = State::from_block(&after_inverse_substitution);

    inverse_shift_rows(&mut state);

    assert_block(&state, expected);
}

/// Published inverse-column evidence from NIST `AES_Core128.pdf`, decryption round 9.
#[test]
fn inverse_mix_columns_matches_the_first_published_decryption_round() {
    let after_round_key = [
        0x17, 0x41, 0xa1, 0x18, 0x91, 0xc9, 0x91, 0x68, 0x8c, 0x36, 0x38, 0x6f, 0x23, 0xad,
        0x82, 0xaa,
    ];
    let expected = [
        0x83, 0x33, 0xf0, 0xaf, 0xff, 0x15, 0xa6, 0xed, 0xc1, 0x91, 0xb4, 0x09, 0x77, 0x0e,
        0x81, 0x5e,
    ];
    let mut state = State::from_block(&after_round_key);

    inverse_mix_columns(&mut state);

    assert_block(&state, expected);
}

/// Standard-derived inverse-property evidence from FIPS 197 §§5.1.1–5.1.3 and §§5.3.1–5.3.3.
#[test]
fn every_inverse_state_transform_cancels_its_forward_transform() {
    let input = core::array::from_fn(|index| {
        let index = u8::try_from(index).expect("every AES block index fits in u8");
        index.wrapping_mul(0x11).wrapping_add(0x07)
    });

    let mut substitution_state = State::from_block(&input);
    sub_bytes(&mut substitution_state);
    inverse_sub_bytes(&mut substitution_state);
    assert_block(&substitution_state, input);

    let mut row_state = State::from_block(&input);
    shift_rows(&mut row_state);
    inverse_shift_rows(&mut row_state);
    assert_block(&row_state, input);

    let mut column_state = State::from_block(&input);
    mix_columns(&mut column_state);
    inverse_mix_columns(&mut column_state);
    assert_block(&column_state, input);

    for column_start in (0..16).step_by(4) {
        let column = [
            input[column_start],
            input[column_start + 1],
            input[column_start + 2],
            input[column_start + 3],
        ];
        assert_eq!(inverse_mix_column(mix_column(column)), column);
    }
}



/// Published complete-cipher evidence from FIPS 197-upd1 Appendix B.
#[test]
fn appendix_b_block_reaches_the_published_output() {
    let key = [
        0x2b, 0x7e, 0x15, 0x16, 0x28, 0xae, 0xd2, 0xa6, 0xab, 0xf7, 0x15, 0x88, 0x09, 0xcf,
        0x4f, 0x3c,
    ];
    let mut block = [
        0x32, 0x43, 0xf6, 0xa8, 0x88, 0x5a, 0x30, 0x8d, 0x31, 0x31, 0x98, 0xa2, 0xe0, 0x37,
        0x07, 0x34,
    ];
    let expected = [
        0x39, 0x25, 0x84, 0x1d, 0x02, 0xdc, 0x09, 0xfb, 0xdc, 0x11, 0x85, 0x97, 0x19, 0x6a,
        0x0b, 0x32,
    ];
    let schedule = KeySchedule::expand(&key);

    encrypt_block(&mut block, &schedule);

    assert_eq!(block, expected);
}

/// Published supplementary evidence from NIST's `AES_Core128.pdf`, first encryption block.
///
/// The vector uses the same key as FIPS Appendix B with NIST's separate ECB example plaintext
/// and ciphertext. It therefore checks a second complete input path without becoming a new
/// algorithm authority.
#[test]
fn nist_core128_first_block_reaches_the_published_ciphertext() {
    let key = [
        0x2b, 0x7e, 0x15, 0x16, 0x28, 0xae, 0xd2, 0xa6, 0xab, 0xf7, 0x15, 0x88, 0x09, 0xcf,
        0x4f, 0x3c,
    ];
    let mut block = [
        0x6b, 0xc1, 0xbe, 0xe2, 0x2e, 0x40, 0x9f, 0x96, 0xe9, 0x3d, 0x7e, 0x11, 0x73, 0x93,
        0x17, 0x2a,
    ];
    let expected = [
        0x3a, 0xd7, 0x7b, 0xb4, 0x0d, 0x7a, 0x36, 0x60, 0xa8, 0x9e, 0xca, 0xf3, 0x24, 0x66,
        0xef, 0x97,
    ];
    let schedule = KeySchedule::expand(&key);

    encrypt_block(&mut block, &schedule);

    assert_eq!(block, expected);
}



/// Published complete inverse-cipher evidence from FIPS 197-upd1 Appendix B.
///
/// Appendix B publishes the forward input and output. `INVCIPHER()` must map that published
/// output back to the published input under the same Appendix A.1 key schedule.
#[test]
fn inverse_cipher_recovers_the_appendix_b_input() {
    let key = [
        0x2b, 0x7e, 0x15, 0x16, 0x28, 0xae, 0xd2, 0xa6, 0xab, 0xf7, 0x15, 0x88, 0x09, 0xcf,
        0x4f, 0x3c,
    ];
    let mut block = [
        0x39, 0x25, 0x84, 0x1d, 0x02, 0xdc, 0x09, 0xfb, 0xdc, 0x11, 0x85, 0x97, 0x19, 0x6a,
        0x0b, 0x32,
    ];
    let expected = [
        0x32, 0x43, 0xf6, 0xa8, 0x88, 0x5a, 0x30, 0x8d, 0x31, 0x31, 0x98, 0xa2, 0xe0, 0x37,
        0x07, 0x34,
    ];
    let schedule = KeySchedule::expand(&key);

    decrypt_block(&mut block, &schedule);

    assert_eq!(block, expected);
}

/// Published inverse-cipher evidence from NIST `AES_Core128.pdf`, first decryption block.
#[test]
fn nist_core128_first_ciphertext_recovers_the_published_plaintext() {
    let key = [
        0x2b, 0x7e, 0x15, 0x16, 0x28, 0xae, 0xd2, 0xa6, 0xab, 0xf7, 0x15, 0x88, 0x09, 0xcf,
        0x4f, 0x3c,
    ];
    let mut block = [
        0x3a, 0xd7, 0x7b, 0xb4, 0x0d, 0x7a, 0x36, 0x60, 0xa8, 0x9e, 0xca, 0xf3, 0x24, 0x66,
        0xef, 0x97,
    ];
    let expected = [
        0x6b, 0xc1, 0xbe, 0xe2, 0x2e, 0x40, 0x9f, 0x96, 0xe9, 0x3d, 0x7e, 0x11, 0x73, 0x93,
        0x17, 0x2a,
    ];
    let schedule = KeySchedule::expand(&key);

    decrypt_block(&mut block, &schedule);

    assert_eq!(block, expected);
}

/// Standard-derived composition evidence across varied deterministic keys and blocks.
#[test]
fn inverse_cipher_cancels_forward_cipher() {
    for case in 0_u8..16 {
        let key = core::array::from_fn(|index| {
            let index = u8::try_from(index).expect("every AES key index fits in u8");
            case.wrapping_mul(0x31)
                .wrapping_add(index.wrapping_mul(0x17))
        });
        let initial = core::array::from_fn(|index| {
            let index = u8::try_from(index).expect("every AES block index fits in u8");
            case.wrapping_mul(0x53)
                .wrapping_add(index.wrapping_mul(0x29))
        });
        let schedule = KeySchedule::expand(&key);
        let mut block = initial;

        encrypt_block(&mut block, &schedule);
        decrypt_block(&mut block, &schedule);

        assert_eq!(block, initial, "case {case}");
    }
}



/// API-regression evidence: formatting secret-owning public types reveals no key bytes.
#[test]
fn secret_bearing_debug_output_is_redacted() {
    let key = Aes128Key::new([0x5a; 16]);
    assert_eq!(key.debug_text(), "Aes128Key([REDACTED])");

    let cipher = Aes128::new(key);
    assert_eq!(cipher.debug_text(), "Aes128([REDACTED KEY SCHEDULE])");
}

/// API-regression evidence: exposing or transferring block bytes is always explicit.
#[test]
fn block_exposure_and_consumption_are_explicit() {
    let bytes = [0x3c; 16];
    let block = Aes128Block::new(bytes);
    assert_eq!(block.as_bytes(), &bytes);
    assert_eq!(block.into_bytes(), bytes);
}

#[test]
fn encryption_undoes_decryption() {
    let cipher = Aes128::new(Aes128Key::new([0x2b; 16]));
    let original = [0x5a_u8; 16];
    let mut block = Aes128Block::new(original);
    cipher.decrypt_block(&mut block);
    assert_ne!(block.as_bytes(), &original);
    cipher.encrypt_block(&mut block);
    assert_eq!(block.into_bytes(), original);
}

#[test]
fn block_bytes_are_reachable_as_slices() {
    let mut block = Aes128Block::new([0; 16]);
    block.as_mut()[3] = 7;
    assert_eq!(block.as_ref()[3], 7);
    assert_eq!(block.as_ref().len(), 16);
}
