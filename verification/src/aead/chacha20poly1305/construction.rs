//! RFC 8439 §2.6 one-time key derivation and §2.8 composition: the Poly1305 key is the first 32
//! bytes of ChaCha20 block zero, the ciphertext is ChaCha20 from block one, and the tag is
//! Poly1305 over `AAD || pad16(AAD) || ciphertext || pad16(ciphertext) || len64(AAD) ||
//! len64(ciphertext)`, lengths little-endian. Decryption checks the tag before producing
//! plaintext.

use vstd::prelude::*;

use super::limits::{MAX_PAYLOAD_BYTES, validate_input_lengths};
use crate::cipher::chacha20::api::{KEYSTREAM_LIMIT, lemma_xor_keystream_twice, xor_keystream_spec};
use crate::cipher::chacha20::block::keystream_block_spec;
use crate::cipher::chacha20::{ChaCha20, ChaCha20Nonce};
use crate::error::{CryptoError, CryptoResult};
use crate::bits::{le_bytes_spec, lemma_pow256_positive, pow256_spec};
use crate::mac::poly1305::{Poly1305, Poly1305Key, Poly1305Tag, poly1305_spec};
use crate::wipe::wipe_array;

verus! {

/// Zero bytes needed to reach the next 16-byte boundary.
pub open spec fn pad16_spec(len: int) -> int {
    (16 - len % 16) % 16
}

/// The Poly1305 input for associated data `a` and ciphertext `c`.
pub open spec fn mac_data_spec(a: Seq<u8>, c: Seq<u8>) -> Seq<u8> {
    a + Seq::new(pad16_spec(a.len() as int) as nat, |i: int| 0u8) + c
        + Seq::new(pad16_spec(c.len() as int) as nat, |i: int| 0u8)
        + le_bytes_spec(a.len() as int, 8) + le_bytes_spec(c.len() as int, 8)
}

/// Padding a length up to a multiple of sixteen: fewer than sixteen zero bytes, none when the
/// length already is a multiple.
pub proof fn lemma_pad16(len: nat)
    ensures
        0 <= pad16_spec(len as int) < 16,
        len + pad16_spec(len as int) == 16 * ((len + 15) / 16),
        len % 16 == 0 <==> pad16_spec(len as int) == 0,
{
    assert(len + pad16_spec(len as int) == 16 * ((len + 15) / 16)) by (nonlinear_arith);
}

/// The Poly1305 input of RFC 8439 §2.8 laid out byte by byte: the associated data, zero bytes up
/// to the next multiple of sixteen (none when its length already is one), the ciphertext padded
/// the same way, then the two lengths as 64-bit little-endian integers. When both parts fill
/// whole blocks the input holds no padding at all.
pub proof fn lemma_mac_data_layout(a: Seq<u8>, c: Seq<u8>)
    ensures
        ({
            let m = mac_data_spec(a, c);
            let ra: int = 16 * ((a.len() as int + 15) / 16);
            let rc: int = 16 * ((c.len() as int + 15) / 16);
            &&& a.len() <= ra < a.len() + 16
            &&& c.len() <= rc < c.len() + 16
            &&& m.len() == ra + rc + 16
            &&& m.subrange(0, a.len() as int) == a
            &&& forall|i: int| a.len() <= i < ra ==> m[i] == 0
            &&& m.subrange(ra, ra + c.len()) == c
            &&& forall|i: int| ra + c.len() <= i < ra + rc ==> m[i] == 0
            &&& m.subrange(ra + rc, ra + rc + 8) == le_bytes_spec(a.len() as int, 8)
            &&& m.subrange(ra + rc + 8, ra + rc + 16) == le_bytes_spec(c.len() as int, 8)
        }),
        a.len() % 16 == 0 && c.len() % 16 == 0 ==> mac_data_spec(a, c)
            == a + c + le_bytes_spec(a.len() as int, 8) + le_bytes_spec(c.len() as int, 8),
{
    lemma_pad16(a.len());
    lemma_pad16(c.len());
    let m = mac_data_spec(a, c);
    let pa = Seq::new(pad16_spec(a.len() as int) as nat, |i: int| 0u8);
    let pc = Seq::new(pad16_spec(c.len() as int) as nat, |i: int| 0u8);
    let la = le_bytes_spec(a.len() as int, 8);
    let lc = le_bytes_spec(c.len() as int, 8);
    let ra: int = 16 * ((a.len() as int + 15) / 16);
    let rc: int = 16 * ((c.len() as int + 15) / 16);
    assert(m == a + pa + c + pc + la + lc);
    assert(m.subrange(0, a.len() as int) =~= a);
    assert(m.subrange(ra, ra + c.len()) =~= c);
    assert(m.subrange(ra + rc, ra + rc + 8) =~= la);
    assert(m.subrange(ra + rc + 8, ra + rc + 16) =~= lc);
    if a.len() % 16 == 0 && c.len() % 16 == 0 {
        assert(pa =~= Seq::<u8>::empty());
        assert(pc =~= Seq::<u8>::empty());
        assert(m =~= a + c + la + lc);
    }
}

/// When the associated data and the ciphertext both fill whole 16-byte blocks, the tag is
/// Poly1305, under the first 32 bytes of ChaCha20 block zero, over the two parts and their
/// little-endian lengths, with no padding between them.
pub proof fn lemma_aligned_tag(key: Seq<u8>, nonce: Seq<u8>, a: Seq<u8>, c: Seq<u8>)
    requires
        a.len() % 16 == 0,
        c.len() % 16 == 0,
    ensures
        aead_tag_spec(key, nonce, a, c) == poly1305_spec(
            keystream_block_spec(key, 0, nonce).take(32),
            a + c + le_bytes_spec(a.len() as int, 8) + le_bytes_spec(c.len() as int, 8),
        ),
{
    lemma_mac_data_layout(a, c);
}

/// The one-time Poly1305 key for `key` and `nonce`: the first 32 bytes of block zero.
pub open spec fn one_time_key_spec(key: Seq<u8>, nonce: Seq<u8>) -> Seq<u8> {
    keystream_block_spec(key, 0, nonce).take(32)
}

/// The tag of ciphertext `c` with associated data `a`.
pub open spec fn aead_tag_spec(key: Seq<u8>, nonce: Seq<u8>, a: Seq<u8>, c: Seq<u8>) -> Seq<u8> {
    poly1305_spec(one_time_key_spec(key, nonce), mac_data_spec(a, c))
}

/// The ciphertext of plaintext `p`: the keystream from block one.
pub open spec fn aead_ciphertext_spec(key: Seq<u8>, nonce: Seq<u8>, p: Seq<u8>) -> Seq<u8> {
    xor_keystream_spec(key, nonce, 64, p)
}

/// Decrypting the ciphertext of a plaintext under the same key and nonce gives it back.
pub proof fn lemma_decryption_inverts_encryption(key: Seq<u8>, nonce: Seq<u8>, p: Seq<u8>)
    ensures
        xor_keystream_spec(key, nonce, 64, aead_ciphertext_spec(key, nonce, p)) == p,
{
    lemma_xor_keystream_twice(key, nonce, 64, p);
}

/// The one-time Poly1305 key from ChaCha20 block zero.
pub fn one_time_key(cipher: &ChaCha20, nonce: &ChaCha20Nonce) -> (key: Poly1305Key)
    ensures
        key@ == one_time_key_spec(cipher.spec_key(), nonce@),
{
    let mut block = cipher.keystream_block(0, nonce);
    let mut key_bytes = [0u8; 32];
    let mut index: usize = 0;
    while index < 32
        invariant
            index <= 32,
            block@ == keystream_block_spec(cipher.spec_key(), 0, nonce@),
            forall|j: int| 0 <= j < index ==> key_bytes[j] == block@[j],
        decreases 32 - index,
    {
        key_bytes[index] = block[index];
        index = index + 1;
    }
    assert(key_bytes@ =~= one_time_key_spec(cipher.spec_key(), nonce@));
    wipe_array(&mut block);
    Poly1305Key::new(key_bytes)
}

/// Zero bytes needed to reach the next 16-byte boundary (none when already aligned).
pub fn pad16_len(len: usize) -> (pad: usize)
    ensures
        pad == pad16_spec(len as int),
{
    (16 - len % 16) % 16
}

/// The eight-byte little-endian encoding of a length.
fn le64_bytes(value: u64) -> (bytes: [u8; 8])
    ensures
        bytes@ == le_bytes_spec(value as int, 8),
{
    let mut bytes = [0u8; 8];
    let mut remaining = value;
    let mut index: usize = 0;
    while index < 8
        invariant
            index <= 8,
            remaining == (value as int) / pow256_spec(index as nat),
            forall|j: int| 0 <= j < index ==> bytes[j] == le_bytes_spec(value as int, 8)[j],
        decreases 8 - index,
    {
        proof {
            lemma_pow256_positive(index as nat);
            vstd::arithmetic::div_mod::lemma_div_denominator(value as int, pow256_spec(index as nat), 256);
            assert(pow256_spec((index + 1) as nat) == pow256_spec(index as nat) * 256);
        }
        bytes[index] = (remaining % 256) as u8;
        remaining = remaining / 256;
        index = index + 1;
    }
    assert(bytes@ =~= le_bytes_spec(value as int, 8));
    bytes
}

/// Feed the Poly1305 input for `associated_data` and `ciphertext` to a fresh authenticator.
pub fn authenticate(key: Poly1305Key, associated_data: &[u8], ciphertext: &[u8]) -> (mac: Poly1305)
    ensures
        mac.wf(),
        mac.spec_key() == key@,
        mac.spec_message() == mac_data_spec(associated_data@, ciphertext@),
{
    let zero_pad = [0u8; 16];
    let mut mac = Poly1305::new(key);
    mac.update(associated_data);
    let pad = vstd::slice::slice_subrange(zero_pad.as_slice(), 0, pad16_len(associated_data.len()));
    mac.update(pad);
    mac.update(ciphertext);
    let pad2 = vstd::slice::slice_subrange(zero_pad.as_slice(), 0, pad16_len(ciphertext.len()));
    mac.update(pad2);
    let aad_len = le64_bytes(associated_data.len() as u64);
    mac.update(aad_len.as_slice());
    let ciphertext_len = le64_bytes(ciphertext.len() as u64);
    mac.update(ciphertext_len.as_slice());
    assert(pad@ =~= Seq::new(pad16_spec(associated_data@.len() as int) as nat, |i: int| 0u8));
    assert(pad2@ =~= Seq::new(pad16_spec(ciphertext@.len() as int) as nat, |i: int| 0u8));
    assert(mac.spec_message() =~= mac_data_spec(associated_data@, ciphertext@));
    mac
}

/// Encrypt and authenticate: the ciphertext and its tag, or [`CryptoError::MessageTooLong`]
/// exactly when the plaintext exceeds `2^38 - 64` bytes.
pub fn seal(cipher: &ChaCha20, nonce: &ChaCha20Nonce, associated_data: &[u8], plaintext: &[u8]) -> (result: CryptoResult<(Vec<u8>, Poly1305Tag)>)
    ensures
        plaintext@.len() <= MAX_PAYLOAD_BYTES ==> (result matches Ok(sealed)
            && sealed.0@ == aead_ciphertext_spec(cipher.spec_key(), nonce@, plaintext@)
            && sealed.1@ == aead_tag_spec(cipher.spec_key(), nonce@, associated_data@, sealed.0@)),
        plaintext@.len() > MAX_PAYLOAD_BYTES ==> result is Err && result->Err_0 == CryptoError::MessageTooLong,
{
    match validate_input_lengths(associated_data.len(), plaintext.len()) {
        Ok(()) => {},
        Err(error) => return Err(error),
    }
    let key = one_time_key(cipher, nonce);
    let ciphertext = match cipher.encrypt(1, nonce, plaintext) {
        Ok(ciphertext) => ciphertext,
        Err(error) => return Err(error),
    };
    let tag = authenticate(key, associated_data, ciphertext.as_slice()).finalize();
    Ok((ciphertext, tag))
}

/// Verify the tag over the received ciphertext, then decrypt it.
///
/// Fails with [`CryptoError::MessageTooLong`] for a ciphertext beyond the limit, and otherwise
/// with [`CryptoError::AuthenticationFailed`] exactly when the tag differs.
pub fn open(cipher: &ChaCha20, nonce: &ChaCha20Nonce, associated_data: &[u8], ciphertext: &[u8], tag: &Poly1305Tag) -> (result: CryptoResult<Vec<u8>>)
    ensures
        ciphertext@.len() > MAX_PAYLOAD_BYTES ==> result is Err && result->Err_0 == CryptoError::MessageTooLong,
        ciphertext@.len() <= MAX_PAYLOAD_BYTES && tag@ != aead_tag_spec(cipher.spec_key(), nonce@, associated_data@, ciphertext@)
            ==> result is Err && result->Err_0 == CryptoError::AuthenticationFailed,
        ciphertext@.len() <= MAX_PAYLOAD_BYTES && tag@ == aead_tag_spec(cipher.spec_key(), nonce@, associated_data@, ciphertext@)
            ==> (result matches Ok(plaintext) && plaintext@ == xor_keystream_spec(cipher.spec_key(), nonce@, 64, ciphertext@)),
{
    match validate_input_lengths(associated_data.len(), ciphertext.len()) {
        Ok(()) => {},
        Err(error) => return Err(error),
    }
    let key = one_time_key(cipher, nonce);
    match authenticate(key, associated_data, ciphertext).verify(tag.as_bytes()) {
        Ok(()) => {},
        Err(error) => return Err(error),
    }
    cipher.encrypt(1, nonce, ciphertext)
}

} // verus!
