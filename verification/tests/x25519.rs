//! X25519 (RFC 7748): field arithmetic, scalar preparation, the ladder, and the typed boundary.

use rsl_crypto::agreement::KeyAgreement;
use rsl_crypto::agreement::x25519::field::FieldElement;
use rsl_crypto::agreement::x25519::ladder::scalar_multiply;
use rsl_crypto::agreement::x25519::scalar::PreparedScalar;
use rsl_crypto::agreement::x25519::{X25519, X25519PrivateKey};

fn hex32(text: &str) -> [u8; 32] {
    let mut bytes = [0u8; 32];
    for (index, byte) in bytes.iter_mut().enumerate() {
        *byte = u8::from_str_radix(&text[2 * index..2 * index + 2], 16).unwrap();
    }
    bytes
}

#[test]
fn little_endian_encoding_round_trips_the_base_coordinate() {
    let mut bytes = [0_u8; 32];
    bytes[0] = 9;

    assert_eq!(FieldElement::from_bytes(&bytes).to_bytes(), bytes);
}

#[test]
fn high_input_bit_is_ignored_as_required_by_rfc_7748() {
    let mut ordinary = [0_u8; 32];
    ordinary[0] = 9;
    let mut high_bit_set = ordinary;
    high_bit_set[31] = 0x80;

    assert_eq!(FieldElement::from_bytes(&ordinary).to_bytes(), FieldElement::from_bytes(&high_bit_set).to_bytes());
}

#[test]
fn noncanonical_modulus_and_modulus_plus_nine_reduce_correctly() {
    let mut modulus = [0xff_u8; 32];
    modulus[0] = 0xed;
    modulus[31] = 0x7f;
    let mut modulus_plus_nine = modulus;
    modulus_plus_nine[0] = 0xf6;
    let mut nine = [0_u8; 32];
    nine[0] = 9;

    assert_eq!(FieldElement::from_bytes(&modulus).to_bytes(), [0_u8; 32]);
    assert_eq!(FieldElement::from_bytes(&modulus_plus_nine).to_bytes(), nine);
}

#[test]
fn small_addition_subtraction_and_multiplication_have_expected_residues() {
    let five = FieldElement::from_u64(5);
    let seven = FieldElement::from_u64(7);

    assert_eq!(five.add(&seven).to_bytes()[0], 12);
    assert_eq!(seven.subtract(&five).to_bytes()[0], 2);
    assert_eq!(five.multiply(&seven).to_bytes()[0], 35);
    assert_eq!(seven.square().to_bytes()[0], 49);
}

#[test]
fn inversion_multiplies_back_to_one() {
    let nine = FieldElement::from_u64(9);
    let inverse = nine.invert();

    assert_eq!(nine.multiply(&inverse).to_bytes(), FieldElement::one().to_bytes());
}

#[test]
fn varied_field_values_obey_cancellation_distributivity_and_inversion() {
    for case in 0_u8..64 {
        let mut left_bytes = [0_u8; 32];
        let mut right_bytes = [0_u8; 32];
        let mut third_bytes = [0_u8; 32];
        for index in 0..32 {
            let index_byte = u8::try_from(index).expect("every field byte index fits in u8");
            left_bytes[index] = case.wrapping_mul(0x53).wrapping_add(index_byte.wrapping_mul(0x1d)).wrapping_add(1);
            right_bytes[index] = case.wrapping_mul(0x71).wrapping_add(index_byte.wrapping_mul(0x2f)).wrapping_add(0x24);
            third_bytes[index] = case.wrapping_mul(0x3d).wrapping_add(index_byte.wrapping_mul(0x17)).wrapping_add(0x5a);
        }
        let left = FieldElement::from_bytes(&left_bytes);
        let right = FieldElement::from_bytes(&right_bytes);
        let third = FieldElement::from_bytes(&third_bytes);

        assert_eq!(left.add(&right).subtract(&right).to_bytes(), left.to_bytes());
        assert_eq!(left.multiply(&right).to_bytes(), right.multiply(&left).to_bytes());
        assert_eq!(
            left.multiply(&right.add(&third)).to_bytes(),
            left.multiply(&right).add(&left.multiply(&third)).to_bytes()
        );

        if left.to_bytes() != [0_u8; 32] {
            assert_eq!(left.multiply(&left.invert()).to_bytes(), FieldElement::one().to_bytes());
        }
    }
}

#[test]
fn conditional_swap_obeys_both_public_control_values() {
    let mut left = FieldElement::from_u64(5);
    let mut right = FieldElement::from_u64(7);
    FieldElement::conditional_swap(0, &mut left, &mut right);
    assert_eq!(left.to_bytes()[0], 5);
    assert_eq!(right.to_bytes()[0], 7);

    FieldElement::conditional_swap(1, &mut left, &mut right);
    assert_eq!(left.to_bytes()[0], 7);
    assert_eq!(right.to_bytes()[0], 5);
}

#[test]
fn first_published_scalar_multiplication_vector() {
    let scalar = hex32("a546e36bf0527c9d3b16154b82465edd62144c0ac1fc5a18506a2244ba449ac4");
    let input = hex32("e6db6867583030db3594c1a424b15f7c726624ec26b3353b10a903a6d0ab1c4c");
    let expected = hex32("c3da55379de9c6908e94ea4df28d084f32eccf03491c71f754b4075577a28552");

    assert_eq!(scalar_multiply(&scalar, &input), expected);
}

#[test]
fn second_published_scalar_multiplication_vector() {
    let scalar = hex32("4b66e9d4d1b4673c5ad22691957d6af5c11b6421e0ea01d42ca4169e7918ba0d");
    let input = hex32("e5210f12786811d3f4b7959d0538ae2c31dbe7106fc03c3efc4cd549c715a493");
    let expected = hex32("95cbde9476e8907d7aade45cb4b873f88b595a68799fa152e6f8f7647aac7957");

    assert_eq!(scalar_multiply(&scalar, &input), expected);
}

#[test]
fn one_iteration_from_the_base_coordinate() {
    let mut nine = [0_u8; 32];
    nine[0] = 9;

    assert_eq!(
        scalar_multiply(&nine, &nine),
        hex32("422c8e7a6227d7bca1350b3e2bb7279f7897b87bb6854b783c60e80311ae3079")
    );
}

#[test]
fn preparation_sets_bit_254_even_for_an_all_zero_input() {
    let scalar = PreparedScalar::new(&[0; 32]);

    assert_eq!(scalar.expose_secret()[0], 0);
    assert_eq!(scalar.expose_secret()[31], 0x40);
    assert_eq!(scalar.bit(254), 1);
    assert_eq!(scalar.bit(255), 0);
}

#[test]
fn published_exchange_between_alice_and_bob() {
    let alice_private = X25519PrivateKey::new(hex32("77076d0a7318a57d3c16c17251b26645df4c2f87ebc0992ab177fba51db92c2a"));
    let bob_private = X25519PrivateKey::new(hex32("5dab087e624a8a4b79e17f8b83800ee66f3bb1292618b6fd1c2f8b27ff88e0eb"));
    let alice_public = X25519::public_key(&alice_private);
    let bob_public = X25519::public_key(&bob_private);

    assert_eq!(alice_public.into_bytes(), hex32("8520f0098930a754748b7ddcb43ef75a0dbf3a0d26381af4eba4a98eaa9b4e6a"));
    assert_eq!(bob_public.into_bytes(), hex32("de9edb7d7b7dc1b4d35b61c2ece435373f8343c85b78674dadfc7e146f882b4f"));

    let shared = hex32("4a5d9d5ba4ce2de1728e3bf480350f25e07e21c947d19e3376f09b3c1e161742");
    assert_eq!(*X25519::agree(&alice_private, &bob_public).unwrap().expose_secret(), shared);
    assert_eq!(X25519::agree(&bob_private, &alice_public).unwrap().into_inner(), shared);
}

#[test]
fn both_parties_agree_through_the_generic_trait() {
    let alice_private = X25519PrivateKey::new([0x11; 32]);
    let bob_private = X25519PrivateKey::new([0x22; 32]);
    let alice_public = <X25519 as KeyAgreement>::public_key(&alice_private);
    let bob_public = <X25519 as KeyAgreement>::public_key(&bob_private);

    let alice_shared = <X25519 as KeyAgreement>::agree(&alice_private, &bob_public).unwrap();
    let bob_shared = <X25519 as KeyAgreement>::agree(&bob_private, &alice_public).unwrap();
    assert_eq!(alice_shared.expose_secret(), bob_shared.expose_secret());
    assert_eq!(alice_shared.debug_text(), "X25519SharedSecret([REDACTED])");
}
