# rsl_crypto

Readable cryptographic primitives whose behaviour is stated in contracts and proved with Verus.

## Layout

- `src/cipher`: AES-128 and AES-256 (FIPS 197), each layer (field, S-box, state transforms, key
  schedule, rounds) specified on bytes; ChaCha20 (RFC 8439) with a one-shot and a streaming form.
- `src/mac`: Poly1305 (RFC 8439 §2.5) over three 44/44/42-bit limbs.
- `src/aead`: the `Aead` trait, AES-GCM (SP 800-38D) for both key sizes, ChaCha20-Poly1305
  (RFC 8439 §2.8), and bounded records that seal a stream into numbered records.
- `src/agreement`: the `KeyAgreement` trait, X25519 and X448 (RFC 7748) with their field
  arithmetic, scalar preparation and Montgomery ladder, and the P-256 and P-384 ECDH private
  scalars (range checking and generation by testing candidates).
- `src/block_buffer.rs`, `src/bits.rs`, `src/secret.rs`, `src/error.rs`, `src/random.rs`: shared
  buffering, byte encodings, secret owners, errors and the caller-supplied randomness source.
- `tests/`: published vectors and behaviour checks, run against the compiled library.

Secret temporaries are cleared with the `zeroize` crate, reached through two small trusted
wrappers in `src/wipe.rs`.
