//! The detached AEAD result.

use rsl_crypto::aead::Sealed;


#[test]
fn detached_result_preserves_both_outputs() {
    let sealed = Sealed::new(vec![1, 2, 3], [4, 5]);
    assert_eq!(sealed.ciphertext(), &[1, 2, 3]);
    assert_eq!(sealed.tag(), &[4, 5]);
    assert_eq!(sealed.into_parts(), (vec![1, 2, 3], [4, 5]));
}
