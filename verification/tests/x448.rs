//! X448 (RFC 7748): field arithmetic, the ladder, and published exchanges.

use rsl_crypto::agreement::KeyAgreement;
use rsl_crypto::agreement::x448::field::FieldElement;
use rsl_crypto::agreement::x448::ladder::scalar_multiply;
use rsl_crypto::agreement::x448::{X448, X448PrivateKey};

fn hex56(text: &str) -> [u8; 56] {
    let mut bytes = [0u8; 56];
    for (index, byte) in bytes.iter_mut().enumerate() {
        *byte = u8::from_str_radix(&text[2 * index..2 * index + 2], 16).unwrap();
    }
    bytes
}

fn p_bytes() -> [u8; 56] {
    let mut p = [0xff_u8; 56];
    p[28] = 0xfe;
    p
}

#[test]
fn noncanonical_inputs_reduce_modulo_p() {
    assert_eq!(FieldElement::from_bytes(&p_bytes()).to_bytes(), [0; 56]);
    // p + 5 = 2^448 - 2^224 + 4: byte 0 is 0x04, bytes 1..28 are zero, bytes 28..56 are 0xff.
    let mut p_plus_five = [0_u8; 56];
    p_plus_five[0] = 0x04;
    for byte in p_plus_five[28..].iter_mut() {
        *byte = 0xff;
    }
    let mut five = [0_u8; 56];
    five[0] = 5;
    assert_eq!(FieldElement::from_bytes(&p_plus_five).to_bytes(), five);
    let reduced = FieldElement::from_bytes(&[0xff; 56]).to_bytes();
    let mut two_pow_224 = [0_u8; 56];
    two_pow_224[28] = 1;
    assert_eq!(reduced, two_pow_224);
}

#[test]
fn multiplication_inversion_and_subtraction_agree_on_small_values() {
    let mut seven = [0_u8; 56];
    seven[0] = 7;
    let x = FieldElement::from_bytes(&seven);
    let mut one = [0_u8; 56];
    one[0] = 1;
    assert_eq!(x.multiply(&x.invert()).to_bytes(), one);
    assert_eq!(x.subtract(&x).to_bytes(), [0; 56]);
    let mut forty_nine = [0_u8; 56];
    forty_nine[0] = 49;
    assert_eq!(x.square().to_bytes(), forty_nine);
    assert_eq!(x.multiply_small(39_081).to_bytes()[..3], (7_u64 * 39_081).to_le_bytes()[..3]);
}

#[test]
fn p_minus_one_squared_is_one() {
    let mut p_minus_one = p_bytes();
    p_minus_one[0] = 0xfe;
    let x = FieldElement::from_bytes(&p_minus_one);
    let mut one = [0_u8; 56];
    one[0] = 1;
    assert_eq!(x.square().to_bytes(), one);
}

#[test]
fn first_published_x448_vector() {
    let scalar = hex56("3d262fddf9ec8e88495266fea19a34d28882acef045104d0d1aae121700a779c984c24f8cdd78fbff44943eba368f54b29259a4f1c600ad3");
    let input = hex56("06fce640fa3487bfda5f6cf2d5263f8aad88334cbd07437f020f08f9814dc031ddbdc38c19c6da2583fa5429db94ada18aa7a7fb4ef8a086");
    let expected = hex56("ce3e4ff95a60dc6697da1db1d85e6afbdf79b50a2412d7546d5f239fe14fbaadeb445fc66a01b0779d98223961111e21766282f73dd96b6f");

    assert_eq!(scalar_multiply(&scalar, &input), expected);
}

#[test]
fn published_x448_exchange_between_alice_and_bob() {
    let alice_private = X448PrivateKey::new(hex56("9a8f4925d1519f5775cf46b04b5800d4ee9ee8bae8bc5565d498c28dd9c9baf574a9419744897391006382a6f127ab1d9ac2d8c0a598726b"));
    let bob_private = X448PrivateKey::new(hex56("1c306a7ac2a0e2e0990b294470cba339e6453772b075811d8fad0d1d6927c120bb5ee8972b0d3e21374c9c921b09d1b0366f10b65173992d"));
    let alice_public = X448::public_key(&alice_private);
    let bob_public = X448::public_key(&bob_private);

    assert_eq!(&alice_public.as_bytes()[..4], &[0x9b, 0x08, 0xf7, 0xcc]);
    assert_eq!(alice_public.into_bytes(), hex56("9b08f7cc31b7e3e67d22d5aea121074a273bd2b83de09c63faa73d2c22c5d9bbc836647241d953d40c5b12da88120d53177f80e532c41fa0"));
    assert_eq!(bob_public.into_bytes(), hex56("3eb7a829b0cd20f5bcfc0b599b6feccf6da4627107bdb0d4f345b43027d8b972fc3e34fb4232a13ca706dcb57aec3dae07bdc1c67bf33609"));

    let shared = hex56("07fff4181ac6cc95ec1c16a94a0f74d12da232ce40a77552281d282bb60c0b56fd2464c335543936521c24403085d59a449a5037514a879d");
    assert_eq!(*X448::agree(&alice_private, &bob_public).unwrap().expose_secret(), shared);
    assert_eq!(X448::agree(&bob_private, &alice_public).unwrap().into_inner(), shared);
}

#[test]
fn both_x448_parties_agree_through_the_generic_trait() {
    let alice_private = X448PrivateKey::new([0x11; 56]);
    let bob_private = X448PrivateKey::new([0x22; 56]);
    let alice_public = <X448 as KeyAgreement>::public_key(&alice_private);
    let bob_public = <X448 as KeyAgreement>::public_key(&bob_private);

    let alice_shared = <X448 as KeyAgreement>::agree(&alice_private, &bob_public).unwrap();
    let bob_shared = <X448 as KeyAgreement>::agree(&bob_private, &alice_public).unwrap();
    assert_eq!(alice_shared.expose_secret(), bob_shared.expose_secret());
    assert_eq!(alice_shared.debug_text(), "X448SharedSecret([REDACTED])");
}
