//! Bounded AEAD records: nonce layout, associated-data layout, and sealing and opening streams.

use rsl_crypto::aead::chacha20poly1305::ChaCha20Poly1305Nonce;
use rsl_crypto::aead::gcm::{Aes128GcmNonce, Aes256Gcm, Aes256GcmKey, Aes256GcmNonce, Aes256GcmTag};
use rsl_crypto::aead::record::{
    CounterNonceSequence, DataRecord, FINAL_RECORD, FinalRecord, Nonce96, NonceSequence, RecordBuilder, RecordOpener,
    RecordSealer, RecordSink, RecordWriteError, record_aad,
};
use rsl_crypto::CryptoError;

const DOMAIN_SEPARATOR: &[u8] = b"rsl-crypto/aead-record/v1\0";

#[test]
fn counter_nonce_is_fixed_field_then_big_endian_counter() {
    let sequence = CounterNonceSequence::<Aes256GcmNonce>::new(*b"fixed123");
    assert_eq!(
        sequence.nonce(0x0102_0304).unwrap().as_bytes(),
        b"fixed123\x01\x02\x03\x04"
    );
    assert_eq!(
        sequence.nonce(u64::from(u32::MAX) + 1),
        Err(CryptoError::CounterExhausted)
    );
}

#[test]
fn all_builtin_aead_nonces_implement_nonce96() {
    let bytes = [0x42; 12];
    assert_eq!(Aes128GcmNonce::from_bytes(bytes).as_bytes(), &bytes);
    assert_eq!(Aes256GcmNonce::from_bytes(bytes).as_bytes(), &bytes);
    assert_eq!(ChaCha20Poly1305Nonce::from_bytes(bytes).as_bytes(), &bytes);
}

#[test]
fn aad_encoding_has_fixed_width_boundaries() {
    let aad = record_aad(b"ctx", 0x0102, 0x0304, FINAL_RECORD, 0x0506).unwrap();
    let prefix = DOMAIN_SEPARATOR.len();
    assert_eq!(&aad[..prefix], DOMAIN_SEPARATOR);
    assert_eq!(&aad[prefix..prefix + 8], &3_u64.to_be_bytes());
    assert_eq!(&aad[prefix + 8..prefix + 11], b"ctx");
    assert_eq!(&aad[prefix + 11..prefix + 19], &0x0102_u64.to_be_bytes());
    assert_eq!(&aad[prefix + 19..prefix + 27], &0x0304_u64.to_be_bytes());
    assert_eq!(aad[prefix + 27], FINAL_RECORD);
    assert_eq!(&aad[prefix + 28..], &0x0506_u64.to_be_bytes());
}

fn sealer(record_size: usize) -> RecordSealer<Aes256Gcm, CounterNonceSequence<Aes256GcmNonce>> {
    RecordBuilder::new(Aes256Gcm::new(Aes256GcmKey::new([7; 32])))
        .nonce_sequence(CounterNonceSequence::new(*b"stream01"))
        .record_size(record_size)
        .context(b"test context")
        .build_sealer()
        .unwrap()
}

fn opener(record_size: usize) -> RecordOpener<Aes256Gcm, CounterNonceSequence<Aes256GcmNonce>> {
    RecordBuilder::new(Aes256Gcm::new(Aes256GcmKey::new([7; 32])))
        .nonce_sequence(CounterNonceSequence::new(*b"stream01"))
        .record_size(record_size)
        .context(b"test context")
        .build_opener()
        .unwrap()
}

/// Records written in fragments open back to the whole stream, in order.
#[test]
fn fragmented_writes_open_back_to_the_stream() {
    let stream: Vec<u8> = (0..50_u8).collect();
    let mut sealing = sealer(16);
    let mut records = sealing.write(&stream[..7]).unwrap();
    assert!(records.is_empty());
    records.extend(sealing.write(&stream[7..40]).unwrap());
    assert_eq!(records.len(), 2);
    assert_eq!(sealing.next_record_number(), 2);
    records.extend(sealing.write(&stream[40..]).unwrap());
    assert_eq!(records.len(), 3);
    let final_record = sealing.finish().unwrap();
    assert_eq!(final_record.record_number(), 3);
    assert_eq!(final_record.plaintext_len(), 2);

    let mut opening = opener(16);
    let mut recovered = Vec::new();
    for record in &records {
        recovered.extend(opening.open_data(record).unwrap());
    }
    recovered.extend(opening.open_final(&final_record).unwrap());
    assert_eq!(recovered, stream);
}

/// Reordered, truncated-as-final, and zero-size configurations are refused.
#[test]
fn reordering_and_bad_configuration_are_refused() {
    let mut sealing = sealer(8);
    let records = sealing.write(&[1; 24]).unwrap();
    let final_record = sealing.finish().unwrap();
    assert_eq!(final_record.plaintext_len(), 0);

    let mut opening = opener(8);
    assert_eq!(opening.open_data(&records[1]), Err(CryptoError::AuthenticationFailed));
    assert_eq!(opening.next_record_number(), 0);
    assert_eq!(opening.open_data(&records[0]).unwrap(), vec![1; 8]);
    assert_eq!(opening.open_final(&final_record), Err(CryptoError::AuthenticationFailed));

    let zero_size = RecordBuilder::new(Aes256Gcm::new(Aes256GcmKey::new([7; 32])))
        .nonce_sequence(CounterNonceSequence::<Aes256GcmNonce>::new(*b"stream01"))
        .record_size(0)
        .build_sealer();
    assert!(matches!(
        zero_size,
        Err(CryptoError::InvalidLength { name: "AEAD record size", expected: 1, actual: 0 })
    ));
}

struct RefusingSink;

impl RecordSink<Aes256GcmTag> for RefusingSink {
    type Error = &'static str;

    fn write_data(&mut self, _record: DataRecord<Aes256GcmTag>) -> Result<(), &'static str> {
        Err("sink full")
    }

    fn write_final(&mut self, _record: FinalRecord<Aes256GcmTag>) -> Result<(), &'static str> {
        Err("sink full")
    }
}

#[test]
fn a_refused_record_invalidates_the_sealer() {
    let mut sealing = sealer(8);
    let mut sink = RefusingSink;

    assert_eq!(sealing.write_to(&[3; 8], &mut sink), Err(RecordWriteError::Sink("sink full")));
    assert!(matches!(sealing.write(&[3; 1]), Err(CryptoError::StateInvalidated)));
}
