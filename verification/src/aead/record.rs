//! Bounded AEAD records: a stream cut into fixed-size data records and one shorter final record.
//!
//! Record `i` is sealed under the nonce the sequence assigns to `i`, with associated data that
//! binds a domain separator, the caller's context, the record size, the record number, the
//! record kind (data or final), and the plaintext length. An opener accepts records only in
//! order, data records only at the full record size, and the final record only shorter than it,
//! so reordering, truncation, or extension is detected.

use vstd::prelude::*;
use vstd::std_specs::convert::FromSpecImpl;

use super::{Aead, Sealed, opened_outcome, sealed_outcome};
use crate::bits::{be64_spec, push_be64};
use crate::error::{CryptoError, CryptoResult};

verus! {

/// The kind byte of a data record.
pub const DATA_RECORD: u8 = 0;

/// The kind byte of the final record.
pub const FINAL_RECORD: u8 = 1;

/// Bytes of fixed-width metadata in the associated data: context length, record size, record
/// number, kind, and plaintext length.
pub const RECORD_METADATA_BYTES: usize = 33;

/// Bytes in the domain separator.
pub const DOMAIN_SEPARATOR_LEN: usize = 26;

/// The domain separator `"rsl-crypto/aead-record/v1\0"`.
pub open spec fn domain_separator_spec() -> Seq<u8> {
    seq![
        0x72u8, 0x73, 0x6c, 0x2d, 0x63, 0x72, 0x79, 0x70, 0x74, 0x6f, 0x2f, 0x61, 0x65,
        0x61, 0x64, 0x2d, 0x72, 0x65, 0x63, 0x6f, 0x72, 0x64, 0x2f, 0x76, 0x31, 0x00,
    ]
}

/// The domain separator bytes.
pub fn domain_separator() -> (bytes: [u8; DOMAIN_SEPARATOR_LEN])
    ensures
        bytes@ == domain_separator_spec(),
{
    let bytes = [
        0x72u8, 0x73, 0x6c, 0x2d, 0x63, 0x72, 0x79, 0x70, 0x74, 0x6f, 0x2f, 0x61, 0x65,
        0x61, 0x64, 0x2d, 0x72, 0x65, 0x63, 0x6f, 0x72, 0x64, 0x2f, 0x76, 0x31, 0x00,
    ];
    assert(bytes@ =~= domain_separator_spec());
    bytes
}

/// The associated data of one record, or [`CryptoError::OutputTooLong`] when its length cannot
/// be represented.
pub open spec fn record_aad_spec(context: Seq<u8>, record_size: usize, record_number: u64, kind: u8, plaintext_len: usize) -> CryptoResult<Seq<u8>> {
    if DOMAIN_SEPARATOR_LEN + RECORD_METADATA_BYTES + context.len() > usize::MAX {
        Err(CryptoError::OutputTooLong)
    } else {
        Ok(domain_separator_spec() + be64_spec(context.len() as u64) + context + be64_spec(record_size as u64)
            + be64_spec(record_number) + seq![kind] + be64_spec(plaintext_len as u64))
    }
}

/// Encode the associated data of one record.
pub fn record_aad(context: &[u8], record_size: usize, record_number: u64, kind: u8, plaintext_len: usize) -> (result: CryptoResult<Vec<u8>>)
    ensures
        opened_outcome(result) == record_aad_spec(context@, record_size, record_number, kind, plaintext_len),
{
    if context.len() > usize::MAX - (DOMAIN_SEPARATOR_LEN + RECORD_METADATA_BYTES) {
        return Err(CryptoError::OutputTooLong);
    }
    let separator = domain_separator();
    let mut aad: Vec<u8> = Vec::new();
    let mut index: usize = 0;
    while index < DOMAIN_SEPARATOR_LEN
        invariant
            index <= 26,
            separator@ == domain_separator_spec(),
            aad@ == separator@.take(index as int),
        decreases 26 - index,
    {
        aad.push(separator[index]);
        assert(separator@.take(index + 1) =~= separator@.take(index as int).push(separator@[index as int]));
        index = index + 1;
    }
    assert(separator@.take(26) =~= separator@);
    push_be64(&mut aad, context.len() as u64);
    let mut index: usize = 0;
    let ghost before = aad@;
    while index < context.len()
        invariant
            index <= context@.len(),
            aad@ == before + context@.take(index as int),
        decreases context@.len() - index,
    {
        aad.push(context[index]);
        assert(context@.take(index + 1) =~= context@.take(index as int).push(context@[index as int]));
        index = index + 1;
    }
    assert(context@.take(context@.len() as int) =~= context@);
    push_be64(&mut aad, record_size as u64);
    push_be64(&mut aad, record_number);
    aad.push(kind);
    push_be64(&mut aad, plaintext_len as u64);
    assert(aad@ =~= record_aad_spec(context@, record_size, record_number, kind, plaintext_len)->Ok_0);
    Ok(aad)
}

/// A 96-bit AEAD nonce type that can be built from twelve bytes.
pub trait Nonce96: Sized + View<V = Seq<u8>> {
    /// The nonce built from twelve bytes.
    spec fn spec_from_bytes(bytes: Seq<u8>) -> Self;

    /// Build the nonce from twelve bytes.
    fn from_bytes(bytes: [u8; 12]) -> (nonce: Self)
        ensures
            nonce == Self::spec_from_bytes(bytes@),
            nonce@ == bytes@,
    ;
}

/// A deterministic assignment of a nonce to each record number.
pub trait NonceSequence<N> {
    /// The nonce of record `record_number`, or the reason the sequence has none.
    spec fn spec_nonce(&self, record_number: u64) -> CryptoResult<N>;

    /// The nonce of record `record_number`.
    fn nonce(&self, record_number: u64) -> (result: CryptoResult<N>)
        ensures
            result == self.spec_nonce(record_number),
    ;
}

/// The twelve nonce bytes `fixed || BE32(record_number)`.
pub open spec fn counter_nonce_bytes_spec(fixed: Seq<u8>, record_number: u64) -> Seq<u8> {
    fixed + seq![
        (record_number / 0x100_0000) as u8,
        ((record_number / 0x1_0000) % 0x100) as u8,
        ((record_number / 0x100) % 0x100) as u8,
        (record_number % 0x100) as u8,
    ]
}

/// Nonces made of an eight-byte fixed field followed by the 32-bit big-endian record number;
/// record numbers past `2^32 - 1` have no nonce.
#[derive(Debug)]
pub struct CounterNonceSequence<N> {
    fixed: [u8; 8],
    nonce: core::marker::PhantomData<N>,
}

impl<N> Clone for CounterNonceSequence<N> {
    /// A copy with the same fixed field.
    fn clone(&self) -> (copy: Self)
        ensures
            copy == *self,
    {
        CounterNonceSequence { fixed: self.fixed, nonce: core::marker::PhantomData }
    }
}

impl<N> Copy for CounterNonceSequence<N> {}

impl<N> CounterNonceSequence<N> {
    /// The fixed field.
    pub closed spec fn spec_fixed(&self) -> [u8; 8] {
        self.fixed
    }

    /// Use `fixed` as the leading eight bytes of every nonce.
    pub fn new(fixed: [u8; 8]) -> (sequence: Self)
        ensures
            sequence.spec_fixed() == fixed,
    {
        Self { fixed, nonce: core::marker::PhantomData }
    }

    /// Borrow the fixed field.
    pub fn fixed_field(&self) -> (fixed: &[u8; 8])
        ensures
            *fixed == self.spec_fixed(),
    {
        &self.fixed
    }
}

impl<N: Nonce96> NonceSequence<N> for CounterNonceSequence<N> {
    open spec fn spec_nonce(&self, record_number: u64) -> CryptoResult<N> {
        if record_number <= u32::MAX {
            Ok(N::spec_from_bytes(counter_nonce_bytes_spec(self.spec_fixed()@, record_number)))
        } else {
            Err(CryptoError::CounterExhausted)
        }
    }

    fn nonce(&self, record_number: u64) -> (result: CryptoResult<N>) {
        if record_number > u32::MAX as u64 {
            return Err(CryptoError::CounterExhausted);
        }
        let mut bytes = [0u8; 12];
        let mut index: usize = 0;
        while index < 8
            invariant
                index <= 8,
                forall|j: int| 0 <= j < index ==> bytes[j] == self.fixed[j],
            decreases 8 - index,
        {
            bytes[index] = self.fixed[index];
            index = index + 1;
        }
        bytes[8] = (record_number / 0x100_0000) as u8;
        bytes[9] = ((record_number / 0x1_0000) % 0x100) as u8;
        bytes[10] = ((record_number / 0x100) % 0x100) as u8;
        bytes[11] = (record_number % 0x100) as u8;
        assert(bytes@ =~= counter_nonce_bytes_spec(self.spec_fixed()@, record_number));
        Ok(N::from_bytes(bytes))
    }
}

/// Every entry of a sink log from `from` up to `to` was accepted.
pub open spec fn accepted_spec<T, E>(log: Seq<(T, Result<(), E>)>, from: int, to: int) -> bool {
    forall|i: int| from <= i < to ==> #[trigger] log[i].1 is Ok
}

/// The outcome of validating a configuration.
pub open spec fn configuration_spec<N, S: NonceSequence<N>>(record_size: usize, nonces: &S) -> CryptoResult<()> {
    if record_size == 0 {
        Err(CryptoError::InvalidLength { name: "AEAD record size", expected: 1, actual: 0 })
    } else {
        match nonces.spec_nonce(0) {
            Ok(_) => Ok(()),
            Err(error) => Err(error),
        }
    }
}

/// Refuse a zero record size and a nonce sequence without a nonce for record zero.
fn validate_configuration<N, S: NonceSequence<N>>(record_size: usize, nonces: &S) -> (result: CryptoResult<()>)
    ensures
        result == configuration_spec::<N, S>(record_size, nonces),
{
    if record_size == 0 {
        return Err(CryptoError::InvalidLength { name: "AEAD record size", expected: 1, actual: 0 });
    }
    match nonces.nonce(0) {
        Ok(_) => Ok(()),
        Err(error) => Err(error),
    }
}

/// Sealing one record's plaintext: its nonce, its associated data, then the algorithm.
#[verifier::opaque]
pub open spec fn record_seal_spec<A: Aead, S: NonceSequence<A::Nonce>>(
    algorithm: &A,
    nonces: &S,
    context: Seq<u8>,
    record_size: usize,
    record_number: u64,
    kind: u8,
    plaintext: Seq<u8>,
) -> CryptoResult<(Seq<u8>, Seq<u8>)> {
    match nonces.spec_nonce(record_number) {
        Err(error) => Err(error),
        Ok(nonce) => match record_aad_spec(context, record_size, record_number, kind, plaintext.len() as usize) {
            Err(error) => Err(error),
            Ok(aad) => algorithm.seal_spec(nonce@, aad, plaintext),
        },
    }
}

/// Opening one record: its nonce, its associated data, then the algorithm.
#[verifier::opaque]
pub open spec fn record_open_spec<A: Aead, S: NonceSequence<A::Nonce>>(
    algorithm: &A,
    nonces: &S,
    context: Seq<u8>,
    record_size: usize,
    record_number: u64,
    kind: u8,
    plaintext_len: usize,
    ciphertext: Seq<u8>,
    tag: Seq<u8>,
) -> CryptoResult<Seq<u8>> {
    match nonces.spec_nonce(record_number) {
        Err(error) => Err(error),
        Ok(nonce) => match record_aad_spec(context, record_size, record_number, kind, plaintext_len) {
            Err(error) => Err(error),
            Ok(aad) => algorithm.open_spec(nonce@, aad, ciphertext, tag),
        },
    }
}

/// Sealing one record: the sequence's nonce for the record number, or the sequence's error; then
/// the algorithm, under associated data that binds in order the domain separator, the context's
/// length and bytes, the record size, the record number, the kind byte, and the length of this
/// record's own plaintext, each number as eight big-endian bytes. A final record shorter than
/// the record size is therefore bound to its own length.
pub proof fn lemma_record_seal_binds_metadata<A: Aead, S: NonceSequence<A::Nonce>>(
    algorithm: &A,
    nonces: &S,
    context: Seq<u8>,
    record_size: usize,
    record_number: u64,
    kind: u8,
    plaintext: Seq<u8>,
)
    requires
        DOMAIN_SEPARATOR_LEN + RECORD_METADATA_BYTES + context.len() <= usize::MAX,
        plaintext.len() <= usize::MAX,
    ensures
        nonces.spec_nonce(record_number) matches Err(error) ==> record_seal_spec(
            algorithm, nonces, context, record_size, record_number, kind, plaintext,
        ) == Err::<(Seq<u8>, Seq<u8>), CryptoError>(error),
        nonces.spec_nonce(record_number) matches Ok(nonce) ==> record_seal_spec(
            algorithm, nonces, context, record_size, record_number, kind, plaintext,
        ) == algorithm.seal_spec(
            nonce@,
            domain_separator_spec() + be64_spec(context.len() as u64) + context + be64_spec(record_size as u64)
                + be64_spec(record_number) + seq![kind] + be64_spec(plaintext.len() as u64),
            plaintext,
        ),
{
    reveal(record_seal_spec);
}

/// Opening one record: the sequence's nonce for the record number, or the sequence's error; then
/// the algorithm, under associated data that binds in order the domain separator, the context's
/// length and bytes, the record size, the record number, the kind byte, and the plaintext length
/// the record declares, each number as eight big-endian bytes.
pub proof fn lemma_record_open_binds_metadata<A: Aead, S: NonceSequence<A::Nonce>>(
    algorithm: &A,
    nonces: &S,
    context: Seq<u8>,
    record_size: usize,
    record_number: u64,
    kind: u8,
    plaintext_len: usize,
    ciphertext: Seq<u8>,
    tag: Seq<u8>,
)
    requires
        DOMAIN_SEPARATOR_LEN + RECORD_METADATA_BYTES + context.len() <= usize::MAX,
    ensures
        nonces.spec_nonce(record_number) matches Err(error) ==> record_open_spec(
            algorithm, nonces, context, record_size, record_number, kind, plaintext_len, ciphertext, tag,
        ) == Err::<Seq<u8>, CryptoError>(error),
        nonces.spec_nonce(record_number) matches Ok(nonce) ==> record_open_spec(
            algorithm, nonces, context, record_size, record_number, kind, plaintext_len, ciphertext, tag,
        ) == algorithm.open_spec(
            nonce@,
            domain_separator_spec() + be64_spec(context.len() as u64) + context + be64_spec(record_size as u64)
                + be64_spec(record_number) + seq![kind] + be64_spec(plaintext_len as u64),
            ciphertext,
            tag,
        ),
{
    reveal(record_open_spec);
}

/// Seal one record's plaintext.
fn seal_payload<A: Aead, S: NonceSequence<A::Nonce>>(
    algorithm: &A,
    nonces: &S,
    context: &[u8],
    record_size: usize,
    record_number: u64,
    kind: u8,
    plaintext: &[u8],
) -> (result: CryptoResult<Sealed<A::Tag>>)
    ensures
        sealed_outcome(result) == record_seal_spec(algorithm, nonces, context@, record_size, record_number, kind, plaintext@),
{
    proof {
        reveal(record_seal_spec);
    }
    let nonce = match nonces.nonce(record_number) {
        Ok(nonce) => nonce,
        Err(error) => return Err(error),
    };
    let aad = match record_aad(context, record_size, record_number, kind, plaintext.len()) {
        Ok(aad) => aad,
        Err(error) => return Err(error),
    };
    algorithm.seal(&nonce, aad.as_slice(), plaintext)
}

/// Open one record.
fn open_payload<A: Aead, S: NonceSequence<A::Nonce>>(
    algorithm: &A,
    nonces: &S,
    context: &[u8],
    record_size: usize,
    record_number: u64,
    kind: u8,
    plaintext_len: usize,
    ciphertext: &[u8],
    tag: &A::Tag,
) -> (result: CryptoResult<Vec<u8>>)
    ensures
        opened_outcome(result) == record_open_spec(algorithm, nonces, context@, record_size, record_number, kind, plaintext_len, ciphertext@, tag@),
{
    proof {
        reveal(record_open_spec);
    }
    reveal(record_open_spec);
    let nonce = match nonces.nonce(record_number) {
        Ok(nonce) => nonce,
        Err(error) => return Err(error),
    };
    let aad = match record_aad(context, record_size, record_number, kind, plaintext_len) {
        Ok(aad) => aad,
        Err(error) => return Err(error),
    };
    algorithm.open(&nonce, aad.as_slice(), ciphertext, tag)
}

/// The first step of configuring a record stream: the algorithm.
pub struct RecordBuilder<A> {
    algorithm: A,
}

impl<A> RecordBuilder<A> {
    /// The algorithm.
    pub closed spec fn spec_algorithm(&self) -> A {
        self.algorithm
    }

    /// Start a configuration with `algorithm`.
    pub fn new(algorithm: A) -> (builder: Self)
        ensures
            builder.spec_algorithm() == algorithm,
    {
        Self { algorithm }
    }

    /// Choose the nonce sequence.
    pub fn nonce_sequence<S>(self, nonces: S) -> (builder: RecordBuilderWithSequence<A, S>)
        ensures
            builder.spec_algorithm() == self.spec_algorithm(),
            builder.spec_nonces() == nonces,
    {
        RecordBuilderWithSequence { algorithm: self.algorithm, nonces }
    }
}

/// A configuration with its algorithm and nonce sequence.
pub struct RecordBuilderWithSequence<A, S> {
    algorithm: A,
    nonces: S,
}

impl<A, S> RecordBuilderWithSequence<A, S> {
    /// The algorithm.
    pub closed spec fn spec_algorithm(&self) -> A {
        self.algorithm
    }

    /// The nonce sequence.
    pub closed spec fn spec_nonces(&self) -> S {
        self.nonces
    }

    /// Choose the plaintext bytes of every data record.
    pub fn record_size(self, bytes: usize) -> (builder: ReadyRecordBuilder<A, S>)
        ensures
            builder.spec_algorithm() == self.spec_algorithm(),
            builder.spec_nonces() == self.spec_nonces(),
            builder.spec_record_size() == bytes,
            builder.spec_context() == Seq::<u8>::empty(),
    {
        ReadyRecordBuilder { algorithm: self.algorithm, nonces: self.nonces, record_size: bytes, context: Vec::new() }
    }
}

/// A complete configuration; the context is optional.
pub struct ReadyRecordBuilder<A, S> {
    algorithm: A,
    nonces: S,
    record_size: usize,
    context: Vec<u8>,
}

impl<A, S> ReadyRecordBuilder<A, S> {
    /// The algorithm.
    pub closed spec fn spec_algorithm(&self) -> A {
        self.algorithm
    }

    /// The nonce sequence.
    pub closed spec fn spec_nonces(&self) -> S {
        self.nonces
    }

    /// The record size.
    pub closed spec fn spec_record_size(&self) -> usize {
        self.record_size
    }

    /// The context bound into every record's associated data.
    pub closed spec fn spec_context(&self) -> Seq<u8> {
        self.context@
    }

    /// Replace the context bound into every record's associated data.
    pub fn context(self, context: &[u8]) -> (builder: Self)
        ensures
            builder.spec_algorithm() == self.spec_algorithm(),
            builder.spec_nonces() == self.spec_nonces(),
            builder.spec_record_size() == self.spec_record_size(),
            builder.spec_context() == context@,
    {
        let ReadyRecordBuilder { algorithm, nonces, record_size, context: _ } = self;
        Self { algorithm, nonces, record_size, context: vstd::slice::slice_to_vec(context) }
    }
}

impl<A: Aead, S: NonceSequence<A::Nonce>> ReadyRecordBuilder<A, S> {
    /// Validate the configuration and start sealing at record zero.
    ///
    /// Fails with [`CryptoError::InvalidLength`] for a zero record size, or with the sequence's
    /// error when it has no nonce for record zero.
    pub fn build_sealer(self) -> (result: CryptoResult<RecordSealer<A, S>>)
        ensures
            configuration_spec::<A::Nonce, S>(self.spec_record_size(), &self.spec_nonces()) is Err
                ==> result is Err && result->Err_0 == configuration_spec::<A::Nonce, S>(self.spec_record_size(), &self.spec_nonces())->Err_0,
            configuration_spec::<A::Nonce, S>(self.spec_record_size(), &self.spec_nonces()) is Ok ==> (result matches Ok(sealer)
                && sealer.wf()
                && sealer.spec_algorithm() == self.spec_algorithm()
                && sealer.spec_nonces() == self.spec_nonces()
                && sealer.spec_record_size() == self.spec_record_size()
                && sealer.spec_context() == self.spec_context()
                && sealer.spec_pending() == Seq::<u8>::empty()
                && sealer.spec_next_record() == 0
                && sealer.spec_failure() == None::<CryptoError>),
    {
        match validate_configuration::<A::Nonce, S>(self.record_size, &self.nonces) {
            Ok(()) => {},
            Err(error) => return Err(error),
        }
        Ok(RecordSealer {
            algorithm: self.algorithm,
            nonces: self.nonces,
            record_size: self.record_size,
            context: self.context,
            pending: Vec::new(),
            next_record: 0,
            failure: None,
        })
    }

    /// Validate the configuration and start opening at record zero.
    pub fn build_opener(self) -> (result: CryptoResult<RecordOpener<A, S>>)
        ensures
            configuration_spec::<A::Nonce, S>(self.spec_record_size(), &self.spec_nonces()) is Err
                ==> result is Err && result->Err_0 == configuration_spec::<A::Nonce, S>(self.spec_record_size(), &self.spec_nonces())->Err_0,
            configuration_spec::<A::Nonce, S>(self.spec_record_size(), &self.spec_nonces()) is Ok ==> (result matches Ok(opener)
                && opener.spec_algorithm() == self.spec_algorithm()
                && opener.spec_nonces() == self.spec_nonces()
                && opener.spec_record_size() == self.spec_record_size()
                && opener.spec_context() == self.spec_context()
                && opener.spec_next_record() == 0
                && opener.spec_failure() == None::<CryptoError>),
    {
        match validate_configuration::<A::Nonce, S>(self.record_size, &self.nonces) {
            Ok(()) => {},
            Err(error) => return Err(error),
        }
        Ok(RecordOpener {
            algorithm: self.algorithm,
            nonces: self.nonces,
            record_size: self.record_size,
            context: self.context,
            next_record: 0,
            failure: None,
        })
    }
}

/// One sealed data record of exactly the record size.
#[derive(Clone, Debug, Eq, PartialEq)]
pub struct DataRecord<Tag> {
    record_number: u64,
    plaintext_len: usize,
    ciphertext: Vec<u8>,
    tag: Tag,
}

impl<Tag> DataRecord<Tag> {
    /// The record number.
    pub closed spec fn spec_record_number(&self) -> u64 {
        self.record_number
    }

    /// The plaintext length.
    pub closed spec fn spec_plaintext_len(&self) -> usize {
        self.plaintext_len
    }

    /// The ciphertext bytes.
    pub closed spec fn spec_ciphertext(&self) -> Seq<u8> {
        self.ciphertext@
    }

    /// The tag.
    pub closed spec fn spec_tag(&self) -> Tag {
        self.tag
    }

    /// Rebuild a record received from the wire.
    pub fn from_parts(record_number: u64, plaintext_len: usize, ciphertext: Vec<u8>, tag: Tag) -> (record: Self)
        ensures
            record.spec_record_number() == record_number,
            record.spec_plaintext_len() == plaintext_len,
            record.spec_ciphertext() == ciphertext@,
            record.spec_tag() == tag,
    {
        Self { record_number, plaintext_len, ciphertext, tag }
    }

    /// The record number.
    pub fn record_number(&self) -> (record_number: u64)
        ensures
            record_number == self.spec_record_number(),
    {
        self.record_number
    }

    /// The plaintext length.
    pub fn plaintext_len(&self) -> (plaintext_len: usize)
        ensures
            plaintext_len == self.spec_plaintext_len(),
    {
        self.plaintext_len
    }

    /// Borrow the ciphertext.
    pub fn ciphertext(&self) -> (ciphertext: &[u8])
        ensures
            ciphertext@ == self.spec_ciphertext(),
    {
        self.ciphertext.as_slice()
    }

    /// Borrow the tag.
    pub fn tag(&self) -> (tag: &Tag)
        ensures
            *tag == self.spec_tag(),
    {
        &self.tag
    }

    /// Transfer every field.
    pub fn into_parts(self) -> (parts: (u64, usize, Vec<u8>, Tag))
        ensures
            parts.0 == self.spec_record_number(),
            parts.1 == self.spec_plaintext_len(),
            parts.2@ == self.spec_ciphertext(),
            parts.3 == self.spec_tag(),
    {
        (self.record_number, self.plaintext_len, self.ciphertext, self.tag)
    }
}

/// The sealed final record, shorter than the record size.
#[derive(Clone, Debug, Eq, PartialEq)]
pub struct FinalRecord<Tag> {
    record_number: u64,
    plaintext_len: usize,
    ciphertext: Vec<u8>,
    tag: Tag,
}

impl<Tag> FinalRecord<Tag> {
    /// The record number.
    pub closed spec fn spec_record_number(&self) -> u64 {
        self.record_number
    }

    /// The plaintext length.
    pub closed spec fn spec_plaintext_len(&self) -> usize {
        self.plaintext_len
    }

    /// The ciphertext bytes.
    pub closed spec fn spec_ciphertext(&self) -> Seq<u8> {
        self.ciphertext@
    }

    /// The tag.
    pub closed spec fn spec_tag(&self) -> Tag {
        self.tag
    }

    /// Rebuild a record received from the wire.
    pub fn from_parts(record_number: u64, plaintext_len: usize, ciphertext: Vec<u8>, tag: Tag) -> (record: Self)
        ensures
            record.spec_record_number() == record_number,
            record.spec_plaintext_len() == plaintext_len,
            record.spec_ciphertext() == ciphertext@,
            record.spec_tag() == tag,
    {
        Self { record_number, plaintext_len, ciphertext, tag }
    }

    /// The record number.
    pub fn record_number(&self) -> (record_number: u64)
        ensures
            record_number == self.spec_record_number(),
    {
        self.record_number
    }

    /// The plaintext length.
    pub fn plaintext_len(&self) -> (plaintext_len: usize)
        ensures
            plaintext_len == self.spec_plaintext_len(),
    {
        self.plaintext_len
    }

    /// Borrow the ciphertext.
    pub fn ciphertext(&self) -> (ciphertext: &[u8])
        ensures
            ciphertext@ == self.spec_ciphertext(),
    {
        self.ciphertext.as_slice()
    }

    /// Borrow the tag.
    pub fn tag(&self) -> (tag: &Tag)
        ensures
            *tag == self.spec_tag(),
    {
        &self.tag
    }

    /// Transfer every field.
    pub fn into_parts(self) -> (parts: (u64, usize, Vec<u8>, Tag))
        ensures
            parts.0 == self.spec_record_number(),
            parts.1 == self.spec_plaintext_len(),
            parts.2@ == self.spec_ciphertext(),
            parts.3 == self.spec_tag(),
    {
        (self.record_number, self.plaintext_len, self.ciphertext, self.tag)
    }
}

/// A caller-supplied destination for sealed records.
///
/// An implementation keeps, as its specification, the log of every record it has been handed
/// together with the answer it gave. Verified code sees only what the methods state of the logs.
/// The empty default bodies exist so that implementations written outside verified code compile;
/// they do not meet the method contracts, and such an implementation is not checked against them.
pub trait RecordSink<Tag> {
    /// The destination's own failure.
    type Error;

    /// Every data record handed to this sink, in order, with the sink's answer.
    closed spec fn data_log(&self) -> Seq<(DataRecord<Tag>, Result<(), Self::Error>)> {
        Seq::empty()
    }

    /// Every final record handed to this sink, in order, with the sink's answer.
    closed spec fn final_log(&self) -> Seq<(FinalRecord<Tag>, Result<(), Self::Error>)> {
        Seq::empty()
    }

    /// Accept one data record.
    fn write_data(&mut self, record: DataRecord<Tag>) -> (result: Result<(), Self::Error>)
        ensures
            final(self).data_log() == old(self).data_log().push((record, result)),
            final(self).final_log() == old(self).final_log(),
    ;

    /// Accept the final record.
    fn write_final(&mut self, record: FinalRecord<Tag>) -> (result: Result<(), Self::Error>)
        ensures
            final(self).final_log() == old(self).final_log().push((record, result)),
            final(self).data_log() == old(self).data_log(),
    ;
}

/// A failure while sealing records into a sink.
#[derive(Debug, Eq, PartialEq)]
#[non_exhaustive]
pub enum RecordWriteError<E> {
    /// Protection failed.
    Crypto(CryptoError),
    /// The sink refused a record.
    Sink(E),
}

impl<E> From<CryptoError> for RecordWriteError<E> {
    fn from(error: CryptoError) -> (converted: Self) {
        Self::Crypto(error)
    }
}

impl<E> FromSpecImpl<CryptoError> for RecordWriteError<E> {
    open spec fn obeys_from_spec() -> bool {
        true
    }

    open spec fn from_spec(error: CryptoError) -> Self {
        Self::Crypto(error)
    }
}

/// A sink that keeps every record it is handed and never refuses one.
struct RecordCollector<Tag> {
    data: Vec<DataRecord<Tag>>,
    finals: Vec<FinalRecord<Tag>>,
}

impl<Tag> RecordCollector<Tag> {
    fn new() -> (collector: Self)
        ensures
            collector.data_log() == Seq::<(DataRecord<Tag>, Result<(), ()>)>::empty(),
    {
        Self { data: Vec::new(), finals: Vec::new() }
    }
}

impl<Tag> RecordSink<Tag> for RecordCollector<Tag> {
    type Error = ();

    closed spec fn data_log(&self) -> Seq<(DataRecord<Tag>, Result<(), ()>)> {
        self.data@.map_values(|record: DataRecord<Tag>| (record, Ok::<(), ()>(())))
    }

    closed spec fn final_log(&self) -> Seq<(FinalRecord<Tag>, Result<(), ()>)> {
        self.finals@.map_values(|record: FinalRecord<Tag>| (record, Ok::<(), ()>(())))
    }

    fn write_data(&mut self, record: DataRecord<Tag>) -> (result: Result<(), ()>) {
        self.data.push(record);
        assert(self.data_log() =~= old(self).data_log().push((record, Ok::<(), ()>(()))));
        Ok(())
    }

    fn write_final(&mut self, record: FinalRecord<Tag>) -> (result: Result<(), ()>) {
        self.finals.push(record);
        assert(self.final_log() =~= old(self).final_log().push((record, Ok::<(), ()>(()))));
        Ok(())
    }
}

impl<Tag> RecordCollector<Tag> {
    /// Every answer in the data log is an acceptance, and the kept records are the logged ones.
    proof fn lemma_collected(&self)
        ensures
            forall|i: int| 0 <= i < self.data_log().len() ==> (#[trigger] self.data_log()[i]).1 is Ok,
            self.data@ == self.data_log().map_values(|entry: (DataRecord<Tag>, Result<(), ()>)| entry.0),
    {
        assert(self.data@ =~= self.data_log().map_values(|entry: (DataRecord<Tag>, Result<(), ()>)| entry.0));
    }
}

/// A caller-supplied destination for opened plaintext.
///
/// An implementation keeps, as its specification, the log of every plaintext it has been
/// handed together with the answer it gave. Verified code sees only what the methods state of
/// the logs. The empty default bodies exist so that implementations written outside verified code
/// compile; they do not meet the method contracts, and such an implementation is not checked
/// against them.
pub trait RecordPlaintextSink {
    /// The destination's own failure.
    type Error;

    /// The plaintext of every data record handed to this sink, in order, with the sink's answer.
    closed spec fn data_log(&self) -> Seq<(Seq<u8>, Result<(), Self::Error>)> {
        Seq::empty()
    }

    /// The plaintext of every final record handed to this sink, in order, with the sink's answer.
    closed spec fn final_log(&self) -> Seq<(Seq<u8>, Result<(), Self::Error>)> {
        Seq::empty()
    }

    /// Accept the plaintext of one data record.
    fn write_data(&mut self, plaintext: Vec<u8>) -> (result: Result<(), Self::Error>)
        ensures
            final(self).data_log() == old(self).data_log().push((plaintext@, result)),
            final(self).final_log() == old(self).final_log(),
    ;

    /// Accept the plaintext of the final record.
    fn write_final(&mut self, plaintext: Vec<u8>) -> (result: Result<(), Self::Error>)
        ensures
            final(self).final_log() == old(self).final_log().push((plaintext@, result)),
            final(self).data_log() == old(self).data_log(),
    ;
}

/// A failure while opening records into a sink.
#[derive(Debug, Eq, PartialEq)]
#[non_exhaustive]
pub enum RecordOpenError<E> {
    /// Authentication or configuration failed.
    Crypto(CryptoError),
    /// The sink refused the plaintext.
    Sink(E),
}

impl<E> From<CryptoError> for RecordOpenError<E> {
    fn from(error: CryptoError) -> (converted: Self) {
        Self::Crypto(error)
    }
}

impl<E> FromSpecImpl<CryptoError> for RecordOpenError<E> {
    open spec fn obeys_from_spec() -> bool {
        true
    }

    open spec fn from_spec(error: CryptoError) -> Self {
        Self::Crypto(error)
    }
}

/// Seals a stream into data records of exactly the record size and one final record.
pub struct RecordSealer<A, S> {
    algorithm: A,
    nonces: S,
    record_size: usize,
    context: Vec<u8>,
    pending: Vec<u8>,
    next_record: u64,
    failure: Option<CryptoError>,
}

impl<A, S> RecordSealer<A, S> {
    /// The algorithm.
    pub closed spec fn spec_algorithm(&self) -> A {
        self.algorithm
    }

    /// The nonce sequence.
    pub closed spec fn spec_nonces(&self) -> S {
        self.nonces
    }

    /// The record size.
    pub closed spec fn spec_record_size(&self) -> usize {
        self.record_size
    }

    /// The context.
    pub closed spec fn spec_context(&self) -> Seq<u8> {
        self.context@
    }

    /// Plaintext buffered for the next record.
    pub closed spec fn spec_pending(&self) -> Seq<u8> {
        self.pending@
    }

    /// The number of the next record.
    pub closed spec fn spec_next_record(&self) -> u64 {
        self.next_record
    }

    /// The failure that made the sealer unusable, if any.
    pub closed spec fn spec_failure(&self) -> Option<CryptoError> {
        self.failure
    }

    /// The record size is positive and less than one record is buffered.
    pub open spec fn wf(&self) -> bool {
        self.spec_record_size() > 0 && self.spec_pending().len() < self.spec_record_size()
    }

    /// The plaintext bytes of every data record.
    pub fn record_size(&self) -> (record_size: usize)
        ensures
            record_size == self.spec_record_size(),
    {
        self.record_size
    }

    /// The number the next record will carry.
    pub fn next_record_number(&self) -> (next: u64)
        ensures
            next == self.spec_next_record(),
    {
        self.next_record
    }
}

/// Opens records in order, accepting data records of exactly the record size and one final
/// record shorter than it.
pub struct RecordOpener<A, S> {
    algorithm: A,
    nonces: S,
    record_size: usize,
    context: Vec<u8>,
    next_record: u64,
    failure: Option<CryptoError>,
}

impl<A, S> RecordOpener<A, S> {
    /// The algorithm.
    pub closed spec fn spec_algorithm(&self) -> A {
        self.algorithm
    }

    /// The nonce sequence.
    pub closed spec fn spec_nonces(&self) -> S {
        self.nonces
    }

    /// The record size.
    pub closed spec fn spec_record_size(&self) -> usize {
        self.record_size
    }

    /// The context.
    pub closed spec fn spec_context(&self) -> Seq<u8> {
        self.context@
    }

    /// The number of the next expected record.
    pub closed spec fn spec_next_record(&self) -> u64 {
        self.next_record
    }

    /// The failure that made the opener unusable, if any.
    pub closed spec fn spec_failure(&self) -> Option<CryptoError> {
        self.failure
    }

    /// The plaintext bytes of every data record.
    pub fn record_size(&self) -> (record_size: usize)
        ensures
            record_size == self.spec_record_size(),
    {
        self.record_size
    }

    /// The number the next record must carry.
    pub fn next_record_number(&self) -> (next: u64)
        ensures
            next == self.spec_next_record(),
    {
        self.next_record
    }
}

/// Append `bytes` to `output`.
fn append_bytes(output: &mut Vec<u8>, bytes: &[u8])
    ensures
        final(output)@ == old(output)@ + bytes@,
{
    let mut index: usize = 0;
    while index < bytes.len()
        invariant
            index <= bytes@.len(),
            output@ == old(output)@ + bytes@.take(index as int),
        decreases bytes@.len() - index,
    {
        output.push(bytes[index]);
        assert(bytes@.take(index + 1) =~= bytes@.take(index as int).push(bytes@[index as int]));
        index = index + 1;
    }
    assert(bytes@.take(bytes@.len() as int) =~= bytes@);
}

/// Record `k` of `data` cut into records of `record_size` bytes.
pub open spec fn data_chunk_spec(data: Seq<u8>, record_size: int, k: int) -> Seq<u8> {
    data.subrange(k * record_size, k * record_size + record_size)
}

impl<A: Aead, S: NonceSequence<A::Nonce>> RecordSealer<A, S> {
    /// The number of complete records a write of `input_len` bytes produces, or the reason it is
    /// refused before anything changes.
    pub open spec fn preflight_spec(&self, input_len: int) -> CryptoResult<usize> {
        match self.spec_failure() {
            Some(error) => Err(error),
            None => {
                let total = self.spec_pending().len() + input_len;
                if total > usize::MAX {
                    Err(CryptoError::MessageTooLong)
                } else {
                    let count = total / (self.spec_record_size() as int);
                    if self.spec_next_record() + count > u64::MAX {
                        Err(CryptoError::CounterExhausted)
                    } else {
                        match self.spec_nonces().spec_nonce((self.spec_next_record() + count) as u64) {
                            Err(error) => Err(error),
                            Ok(_) => Ok(count as usize),
                        }
                    }
                }
            },
        }
    }

    /// Sealing data record `k` of a write whose buffered-plus-input bytes are `data`.
    pub open spec fn chunk_seal_spec(&self, data: Seq<u8>, k: int) -> CryptoResult<(Seq<u8>, Seq<u8>)> {
        record_seal_spec(
            &self.spec_algorithm(),
            &self.spec_nonces(),
            self.spec_context(),
            self.spec_record_size(),
            (self.spec_next_record() + k) as u64,
            DATA_RECORD,
            data_chunk_spec(data, self.spec_record_size() as int, k),
        )
    }

    /// The sink log `after` is `before` followed by entries holding data records `0, 1, ...` of a
    /// write whose buffered-plus-input bytes are `data`.
    pub open spec fn handed_spec<E>(
        &self,
        data: Seq<u8>,
        before: Seq<(DataRecord<A::Tag>, Result<(), E>)>,
        after: Seq<(DataRecord<A::Tag>, Result<(), E>)>,
    ) -> bool {
        &&& before.len() <= after.len()
        &&& forall|j: int| 0 <= j < before.len() ==> #[trigger] after[j] == before[j]
        &&& forall|i: int| before.len() <= i < after.len() ==> self.is_chunk_record(data, i - before.len(), #[trigger] after[i].0)
    }

    /// `record` is data record `k` of a write whose buffered-plus-input bytes are `data`.
    pub open spec fn is_chunk_record(&self, data: Seq<u8>, k: int, record: DataRecord<A::Tag>) -> bool {
        &&& record.spec_record_number() == self.spec_next_record() + k
        &&& record.spec_plaintext_len() == self.spec_record_size()
        &&& self.chunk_seal_spec(data, k) == Ok::<(Seq<u8>, Seq<u8>), CryptoError>((record.spec_ciphertext(), record.spec_tag()@))
    }

    /// Check the failure state, the total length, the record counter, and the nonce of the
    /// final record before anything changes.
    fn preflight_write(&self, input_len: usize) -> (result: CryptoResult<usize>)
        requires
            self.wf(),
        ensures
            result == self.preflight_spec(input_len as int),
    {
        if let Some(error) = self.failure {
            return Err(error);
        }
        let total = match self.pending.len().checked_add(input_len) {
            Some(total) => total,
            None => return Err(CryptoError::MessageTooLong),
        };
        let record_count = total / self.record_size;
        let final_record_number = match self.next_record.checked_add(record_count as u64) {
            Some(number) => number,
            None => return Err(CryptoError::CounterExhausted),
        };
        match self.nonces.nonce(final_record_number) {
            Ok(_) => Ok(record_count),
            Err(error) => Err(error),
        }
    }

    /// Seal the bytes of one data record with the next record number.
    fn seal_data(&self, plaintext: &[u8]) -> (result: CryptoResult<DataRecord<A::Tag>>)
        requires
            plaintext@.len() == self.spec_record_size(),
        ensures
            match result {
                Ok(record) => record.spec_record_number() == self.spec_next_record()
                    && record.spec_plaintext_len() == self.spec_record_size()
                    && record_seal_spec(&self.spec_algorithm(), &self.spec_nonces(), self.spec_context(), self.spec_record_size(),
                        self.spec_next_record(), DATA_RECORD, plaintext@)
                        == Ok::<(Seq<u8>, Seq<u8>), CryptoError>((record.spec_ciphertext(), record.spec_tag()@)),
                Err(error) => record_seal_spec(&self.spec_algorithm(), &self.spec_nonces(), self.spec_context(), self.spec_record_size(),
                    self.spec_next_record(), DATA_RECORD, plaintext@) == Err::<(Seq<u8>, Seq<u8>), CryptoError>(error),
            },
    {
        let sequence = self.next_record;
        let sealed = match seal_payload(&self.algorithm, &self.nonces, self.context.as_slice(), self.record_size, sequence, DATA_RECORD, plaintext) {
            Ok(sealed) => sealed,
            Err(error) => return Err(error),
        };
        let (ciphertext, tag) = sealed.into_parts();
        Ok(DataRecord::from_parts(sequence, self.record_size, ciphertext, tag))
    }

    /// Buffer `input` and seal every record it completes, returning the data records in order.
    ///
    /// Nothing changes when the sealer has failed before, when the buffered length overflows
    /// ([`CryptoError::MessageTooLong`]), when the record number would overflow
    /// ([`CryptoError::CounterExhausted`]), or when the sequence has no nonce left for a final
    /// record after these records. If sealing record `k` fails, the records before it are
    /// dropped, the buffer is cleared, and the sealer keeps the error.
    pub fn write(&mut self, input: &[u8]) -> (result: CryptoResult<Vec<DataRecord<A::Tag>>>)
        requires
            old(self).wf(),
        ensures
            final(self).wf(),
            final(self).spec_algorithm() == old(self).spec_algorithm(),
            final(self).spec_nonces() == old(self).spec_nonces(),
            final(self).spec_record_size() == old(self).spec_record_size(),
            final(self).spec_context() == old(self).spec_context(),
            old(self).preflight_spec(input@.len() as int) is Err ==> result is Err
                && result->Err_0 == old(self).preflight_spec(input@.len() as int)->Err_0
                && final(self).spec_pending() == old(self).spec_pending()
                && final(self).spec_next_record() == old(self).spec_next_record()
                && final(self).spec_failure() == old(self).spec_failure(),
            old(self).preflight_spec(input@.len() as int) is Ok ==> ({
                let data = old(self).spec_pending() + input@;
                let count = old(self).preflight_spec(input@.len() as int)->Ok_0 as int;
                &&& result is Ok <==> (forall|k: int| 0 <= k < count ==> #[trigger] old(self).chunk_seal_spec(data, k) is Ok)
                &&& result matches Ok(records) ==> (records@.len() == count
                    && (forall|k: int| 0 <= k < count ==> old(self).is_chunk_record(data, k, #[trigger] records@[k]))
                    && final(self).spec_pending() == data.subrange(count * old(self).spec_record_size(), data.len() as int)
                    && final(self).spec_next_record() == old(self).spec_next_record() + count
                    && final(self).spec_failure() == None::<CryptoError>)
                &&& result is Err ==> exists|k: int| 0 <= k < count
                    && (forall|j: int| 0 <= j < k ==> #[trigger] old(self).chunk_seal_spec(data, j) is Ok)
                    && old(self).chunk_seal_spec(data, k) == Err::<(Seq<u8>, Seq<u8>), CryptoError>(result->Err_0)
                    && final(self).spec_next_record() == old(self).spec_next_record() + k
                    && final(self).spec_pending() == Seq::<u8>::empty()
                    && final(self).spec_failure() == Some(result->Err_0)
            }),
    {
        let mut collector: RecordCollector<A::Tag> = RecordCollector::new();
        let outcome = self.write_to(input, &mut collector);
        proof {
            collector.lemma_collected();
        }
        match outcome {
            Ok(()) => {
                let records = collector.data;
                proof {
                    let data = old(self).spec_pending() + input@;
                    let log = collector.data_log();
                    assert(records@.len() == log.len());
                    assert forall|k: int| 0 <= k < records@.len() implies old(self).is_chunk_record(data, k, #[trigger] records@[k]) by {
                        assert(records@[k] == log[k].0);
                        assert(old(self).is_chunk_record(data, k - 0, log[k].0));
                    }
                    assert forall|k: int| 0 <= k < records@.len() implies #[trigger] old(self).chunk_seal_spec(data, k) is Ok by {
                        assert(old(self).is_chunk_record(data, k, records@[k]));
                    }
                }
                Ok(records)
            },
            Err(RecordWriteError::Crypto(error)) => Err(error),
            Err(RecordWriteError::Sink(_)) => {
                proof {
                    let log = collector.data_log();
                    assert(log[log.len() - 1].1 is Ok);
                }
                Err(CryptoError::StateInvalidated)
            },
        }
    }
}

/// The final record's outcome: the sealed bytes of the buffered plaintext, or the error.
pub open spec fn finish_spec<A: Aead, S: NonceSequence<A::Nonce>>(sealer: &RecordSealer<A, S>) -> CryptoResult<(Seq<u8>, Seq<u8>)> {
    match sealer.spec_failure() {
        Some(error) => Err(error),
        None => record_seal_spec(
            &sealer.spec_algorithm(),
            &sealer.spec_nonces(),
            sealer.spec_context(),
            sealer.spec_record_size(),
            sealer.spec_next_record(),
            FINAL_RECORD,
            sealer.spec_pending(),
        ),
    }
}

impl<A: Aead, S: NonceSequence<A::Nonce>> RecordSealer<A, S> {
    /// Hand one data record to the sink. The sealer counts as failed while the sink runs and
    /// stays failed if the sink refuses.
    fn emit_data<R: RecordSink<A::Tag>>(&mut self, record: DataRecord<A::Tag>, sink: &mut R) -> (result: Result<(), RecordWriteError<R::Error>>)
        ensures
            final(self).spec_algorithm() == old(self).spec_algorithm(),
            final(self).spec_nonces() == old(self).spec_nonces(),
            final(self).spec_record_size() == old(self).spec_record_size(),
            final(self).spec_context() == old(self).spec_context(),
            final(self).spec_pending() == old(self).spec_pending(),
            final(self).spec_next_record() == old(self).spec_next_record(),
            result is Ok ==> final(self).spec_failure() == None::<CryptoError>,
            result is Err ==> result->Err_0 is Sink && final(self).spec_failure() == Some(CryptoError::StateInvalidated),
            final(sink).data_log() == old(sink).data_log().push((record, final(sink).data_log().last().1)),
            final(sink).final_log() == old(sink).final_log(),
            final(sink).data_log().last().1 is Ok ==> result == Ok::<(), RecordWriteError<R::Error>>(()),
            final(sink).data_log().last().1 matches Err(error) ==> result == Err::<(), RecordWriteError<R::Error>>(RecordWriteError::Sink(error)),
    {
        self.failure = Some(CryptoError::StateInvalidated);
        match sink.write_data(record) {
            Ok(()) => {
                self.failure = None;
                Ok(())
            },
            Err(error) => Err(RecordWriteError::Sink(error)),
        }
    }

    /// Buffer `input`, seal every record it completes, and hand each to `sink` as soon as it is
    /// sealed.
    ///
    /// Refusals before any change are those of [`RecordSealer::write`]. A sealing failure
    /// clears the buffer and keeps the error; a sink failure leaves the sealer failed with
    /// [`CryptoError::StateInvalidated`].
    #[verifier::rlimit(40)]
    pub fn write_to<R: RecordSink<A::Tag>>(&mut self, input: &[u8], sink: &mut R) -> (result: Result<(), RecordWriteError<R::Error>>)
        requires
            old(self).wf(),
        ensures
            final(self).wf(),
            final(self).spec_algorithm() == old(self).spec_algorithm(),
            final(self).spec_nonces() == old(self).spec_nonces(),
            final(self).spec_record_size() == old(self).spec_record_size(),
            final(self).spec_context() == old(self).spec_context(),
            old(self).preflight_spec(input@.len() as int) is Err ==> result == Err::<(), RecordWriteError<R::Error>>(
                RecordWriteError::Crypto(old(self).preflight_spec(input@.len() as int)->Err_0))
                && final(self).spec_pending() == old(self).spec_pending()
                && final(self).spec_next_record() == old(self).spec_next_record()
                && final(self).spec_failure() == old(self).spec_failure()
                && *final(sink) == *old(sink),
            old(self).preflight_spec(input@.len() as int) is Ok ==> ({
                let data = old(self).spec_pending() + input@;
                let count = old(self).preflight_spec(input@.len() as int)->Ok_0 as int;
                let before = old(sink).data_log();
                let after = final(sink).data_log();
                let handed = after.len() - before.len();
                &&& old(self).handed_spec(data, before, after)
                &&& final(sink).final_log() == old(sink).final_log()
                &&& result is Ok ==> final(self).spec_pending() == data.subrange(count * old(self).spec_record_size(), data.len() as int)
                    && final(self).spec_next_record() == old(self).spec_next_record() + count
                    && final(self).spec_failure() == None::<CryptoError>
                    && handed == count
                    && accepted_spec(after, before.len() as int, after.len() as int)
                &&& result matches Err(RecordWriteError::Crypto(error)) ==> exists|k: int| 0 <= k < count
                    && (forall|j: int| 0 <= j < k ==> #[trigger] old(self).chunk_seal_spec(data, j) is Ok)
                    && old(self).chunk_seal_spec(data, k) == Err::<(Seq<u8>, Seq<u8>), CryptoError>(error)
                    && final(self).spec_next_record() == old(self).spec_next_record() + k
                    && final(self).spec_pending() == Seq::<u8>::empty()
                    && final(self).spec_failure() == Some(error)
                    && handed == k
                    && accepted_spec(after, before.len() as int, after.len() as int)
                &&& result matches Err(RecordWriteError::Sink(error)) ==> final(self).spec_failure() == Some(CryptoError::StateInvalidated)
                    && 1 <= handed <= count
                    && accepted_spec(after, before.len() as int, after.len() - 1)
                    && after.last().1 == Err::<(), R::Error>(error)
            }),
    {
        let count = match self.preflight_write(input.len()) {
            Ok(count) => count,
            Err(error) => return Err(RecordWriteError::Crypto(error)),
        };
        let ghost old_self = *self;
        assert(old_self == *old(self));
        let ghost data = self.pending@ + input@;
        let ghost p0 = self.pending@.len();
        let ghost next0 = self.next_record;
        let record_size = self.record_size;
        let mut offset: usize = 0;
        let mut k: usize = 0;
        if self.pending.len() > 0 {
            let needed = record_size - self.pending.len();
            let copied = if needed < input.len() { needed } else { input.len() };
            append_bytes(&mut self.pending, vstd::slice::slice_subrange(input, 0, copied));
            offset = copied;
            if self.pending.len() == record_size {
                assert(self.pending@ =~= data_chunk_spec(data, record_size as int, 0));
                assert(count >= 1) by (nonlinear_arith)
                    requires count == (data.len() as int) / (record_size as int), data.len() >= record_size, record_size > 0;
                let record = match self.seal_data(self.pending.as_slice()) {
                    Ok(record) => record,
                    Err(error) => {
                        crate::wipe::wipe_vec(&mut self.pending);
                        self.failure = Some(error);
                        assert(old_self.chunk_seal_spec(data, 0) == Err::<(Seq<u8>, Seq<u8>), CryptoError>(error));
                        return Err(RecordWriteError::Crypto(error));
                    },
                };
                proof {
                    assert(old_self.is_chunk_record(data, 0, record));
                }
                self.next_record = self.next_record + 1;
                crate::wipe::wipe_vec(&mut self.pending);
                k = 1;
                match self.emit_data(record, sink) {
                    Ok(()) => {},
                    Err(error) => return Err(error),
                }
            } else {
                assert(count == 0) by (nonlinear_arith)
                    requires count == (data.len() as int) / (record_size as int), data.len() < record_size, record_size > 0;
                assert(self.pending@ =~= data.subrange(0, data.len() as int));
                return Ok(());
            }
        }
        assert(k * record_size == p0 + offset) by (nonlinear_arith)
            requires k == 0 && p0 == 0 && offset == 0 || k == 1 && p0 + offset == record_size;
        while k < count
            invariant
                old_self == *old(self),
                old_self.preflight_spec(input@.len() as int) is Ok,
                data.len() == p0 + input@.len(),
                self.wf(),
                self.spec_algorithm() == old_self.spec_algorithm(),
                self.spec_nonces() == old_self.spec_nonces(),
                self.spec_record_size() == record_size,
                self.spec_context() == old_self.spec_context(),
                self.spec_failure() == None::<CryptoError>,
                self.spec_pending() == Seq::<u8>::empty(),
                record_size == old_self.spec_record_size(),
                old_self.wf(),
                data == old_self.spec_pending() + input@,
                p0 == old_self.spec_pending().len(),
                count == old_self.preflight_spec(input@.len() as int)->Ok_0,
                count == (data.len() as int) / (record_size as int),
                next0 == old_self.spec_next_record(),
                next0 + count <= u64::MAX,
                k <= count,
                k * record_size == p0 + offset,
                offset <= input@.len(),
                self.spec_next_record() == next0 + k,
                forall|j: int| 0 <= j < k ==> #[trigger] old_self.chunk_seal_spec(data, j) is Ok,
                old_self.handed_spec(data, old(sink).data_log(), sink.data_log()),
                sink.data_log().len() == old(sink).data_log().len() + k,
                accepted_spec(sink.data_log(), old(sink).data_log().len() as int, sink.data_log().len() as int),
                sink.final_log() == old(sink).final_log(),
            decreases count - k,
        {
            assert(k * record_size + record_size <= data.len()) by (nonlinear_arith)
                requires k < count, count == (data.len() as int) / (record_size as int), record_size > 0;
            assert((k + 1) * record_size == k * record_size + record_size) by (nonlinear_arith);
            assert(offset + record_size <= input@.len());
            let chunk = vstd::slice::slice_subrange(input, offset, offset + record_size);
            assert(chunk@ =~= data_chunk_spec(data, record_size as int, k as int));
            let record = match self.seal_data(chunk) {
                Ok(record) => record,
                Err(error) => {
                    assert(old_self.chunk_seal_spec(data, k as int) == Err::<(Seq<u8>, Seq<u8>), CryptoError>(error));
                    crate::wipe::wipe_vec(&mut self.pending);
                    self.failure = Some(error);
                    return Err(RecordWriteError::Crypto(error));
                },
            };
            proof {
                assert(old_self.is_chunk_record(data, k as int, record));
            }
            self.next_record = self.next_record + 1;
            offset = offset + record_size;
            k = k + 1;
            match self.emit_data(record, sink) {
                Ok(()) => {},
                Err(error) => return Err(error),
            }
        }
        let rest = vstd::slice::slice_subrange(input, offset, input.len());
        append_bytes(&mut self.pending, rest);
        assert(self.pending@ =~= data.subrange(count * record_size, data.len() as int));
        assert(self.pending@.len() < record_size) by (nonlinear_arith)
            requires self.pending@.len() == data.len() - count * record_size, count == (data.len() as int) / (record_size as int), record_size > 0;
        Ok(())
    }

    /// Seal the buffered plaintext, shorter than the record size, as the final record.
    pub fn finish(self) -> (result: CryptoResult<FinalRecord<A::Tag>>)
        ensures
            finish_spec(&self) is Err ==> result is Err && result->Err_0 == finish_spec(&self)->Err_0,
            finish_spec(&self) is Ok ==> (result matches Ok(record)
                && record.spec_record_number() == self.spec_next_record()
                && record.spec_plaintext_len() == self.spec_pending().len()
                && finish_spec(&self) == Ok::<(Seq<u8>, Seq<u8>), CryptoError>((record.spec_ciphertext(), record.spec_tag()@))),
    {
        if let Some(error) = self.failure {
            return Err(error);
        }
        let sequence = self.next_record;
        let plaintext_len = self.pending.len();
        let sealed = match seal_payload(&self.algorithm, &self.nonces, self.context.as_slice(), self.record_size, sequence, FINAL_RECORD, self.pending.as_slice()) {
            Ok(sealed) => sealed,
            Err(error) => return Err(error),
        };
        let (ciphertext, tag) = sealed.into_parts();
        Ok(FinalRecord::from_parts(sequence, plaintext_len, ciphertext, tag))
    }

    /// Seal the final record and hand it to `sink`.
    pub fn finish_to<R: RecordSink<A::Tag>>(self, sink: &mut R) -> (result: Result<(), RecordWriteError<R::Error>>)
        ensures
            finish_spec(&self) is Err ==> result == Err::<(), RecordWriteError<R::Error>>(RecordWriteError::Crypto(finish_spec(&self)->Err_0))
                && *final(sink) == *old(sink),
            finish_spec(&self) is Ok ==> ({
                let (record, answer) = final(sink).final_log().last();
                &&& final(sink).final_log() == old(sink).final_log().push((record, answer))
                &&& final(sink).data_log() == old(sink).data_log()
                &&& record.spec_record_number() == self.spec_next_record()
                &&& record.spec_plaintext_len() == self.spec_pending().len()
                &&& finish_spec(&self) == Ok::<(Seq<u8>, Seq<u8>), CryptoError>((record.spec_ciphertext(), record.spec_tag()@))
                &&& answer is Ok ==> result == Ok::<(), RecordWriteError<R::Error>>(())
                &&& answer matches Err(error) ==> result == Err::<(), RecordWriteError<R::Error>>(RecordWriteError::Sink(error))
            }),
    {
        let record = match self.finish() {
            Ok(record) => record,
            Err(error) => return Err(RecordWriteError::Crypto(error)),
        };
        match sink.write_final(record) {
            Ok(()) => Ok(()),
            Err(error) => Err(RecordWriteError::Sink(error)),
        }
    }
}

/// Opening a data record: the failure state, the record's position and length, room for the
/// final record, then authentication.
pub open spec fn open_data_spec<A: Aead, S: NonceSequence<A::Nonce>>(opener: &RecordOpener<A, S>, record: &DataRecord<A::Tag>) -> CryptoResult<Seq<u8>> {
    match opener.spec_failure() {
        Some(error) => Err(error),
        None => if record.spec_record_number() != opener.spec_next_record()
            || record.spec_plaintext_len() != opener.spec_record_size() {
            Err(CryptoError::AuthenticationFailed)
        } else if opener.spec_next_record() + 1 > u64::MAX {
            Err(CryptoError::CounterExhausted)
        } else {
            match opener.spec_nonces().spec_nonce((opener.spec_next_record() + 1) as u64) {
                Err(error) => Err(error),
                Ok(_) => match record_open_spec(
                    &opener.spec_algorithm(),
                    &opener.spec_nonces(),
                    opener.spec_context(),
                    opener.spec_record_size(),
                    record.spec_record_number(),
                    DATA_RECORD,
                    record.spec_plaintext_len(),
                    record.spec_ciphertext(),
                    record.spec_tag()@,
                ) {
                    Err(error) => Err(error),
                    Ok(plaintext) => if plaintext.len() != record.spec_plaintext_len() {
                        Err(CryptoError::AuthenticationFailed)
                    } else {
                        Ok(plaintext)
                    },
                },
            }
        },
    }
}

/// Opening the final record: the failure state, the record's position and a length shorter
/// than the record size, then authentication.
pub open spec fn open_final_spec<A: Aead, S: NonceSequence<A::Nonce>>(opener: &RecordOpener<A, S>, record: &FinalRecord<A::Tag>) -> CryptoResult<Seq<u8>> {
    match opener.spec_failure() {
        Some(error) => Err(error),
        None => if record.spec_record_number() != opener.spec_next_record()
            || record.spec_plaintext_len() >= opener.spec_record_size() {
            Err(CryptoError::AuthenticationFailed)
        } else {
            match record_open_spec(
                &opener.spec_algorithm(),
                &opener.spec_nonces(),
                opener.spec_context(),
                opener.spec_record_size(),
                record.spec_record_number(),
                FINAL_RECORD,
                record.spec_plaintext_len(),
                record.spec_ciphertext(),
                record.spec_tag()@,
            ) {
                Err(error) => Err(error),
                Ok(plaintext) => if plaintext.len() != record.spec_plaintext_len() {
                    Err(CryptoError::AuthenticationFailed)
                } else {
                    Ok(plaintext)
                },
            }
        },
    }
}

impl<A: Aead, S: NonceSequence<A::Nonce>> RecordOpener<A, S> {
    /// Check and authenticate the next data record, without advancing.
    fn authenticate_data(&self, record: &DataRecord<A::Tag>) -> (result: CryptoResult<Vec<u8>>)
        ensures
            opened_outcome(result) == open_data_spec(self, record),
    {
        if let Some(error) = self.failure {
            return Err(error);
        }
        if record.record_number != self.next_record || record.plaintext_len != self.record_size {
            return Err(CryptoError::AuthenticationFailed);
        }
        let next = match self.next_record.checked_add(1) {
            Some(next) => next,
            None => return Err(CryptoError::CounterExhausted),
        };
        match self.nonces.nonce(next) {
            Ok(_) => {},
            Err(error) => return Err(error),
        }
        let mut plaintext = match open_payload(
            &self.algorithm,
            &self.nonces,
            self.context.as_slice(),
            self.record_size,
            record.record_number,
            DATA_RECORD,
            record.plaintext_len,
            record.ciphertext.as_slice(),
            &record.tag,
        ) {
            Ok(plaintext) => plaintext,
            Err(error) => return Err(error),
        };
        if plaintext.len() != record.plaintext_len {
            crate::wipe::wipe_vec(&mut plaintext);
            return Err(CryptoError::AuthenticationFailed);
        }
        Ok(plaintext)
    }

    /// Authenticate the next data record and return its plaintext.
    ///
    /// A record out of order, or not of the record size, is refused with
    /// [`CryptoError::AuthenticationFailed`]. Nothing changes on any failure.
    pub fn open_data(&mut self, record: &DataRecord<A::Tag>) -> (result: CryptoResult<Vec<u8>>)
        ensures
            opened_outcome(result) == open_data_spec(old(self), record),
            final(self).spec_algorithm() == old(self).spec_algorithm(),
            final(self).spec_nonces() == old(self).spec_nonces(),
            final(self).spec_record_size() == old(self).spec_record_size(),
            final(self).spec_context() == old(self).spec_context(),
            final(self).spec_failure() == old(self).spec_failure(),
            result is Ok ==> final(self).spec_next_record() == old(self).spec_next_record() + 1,
            result is Err ==> final(self).spec_next_record() == old(self).spec_next_record(),
    {
        let plaintext = match self.authenticate_data(record) {
            Ok(plaintext) => plaintext,
            Err(error) => return Err(error),
        };
        self.next_record = self.next_record + 1;
        Ok(plaintext)
    }

    /// Authenticate the next data record and hand its plaintext to `sink`.
    ///
    /// Crypto refusals are those of [`RecordOpener::open_data`] and change nothing. Once the
    /// record is authenticated the opener advances; if the sink refuses, the opener stays failed
    /// with [`CryptoError::StateInvalidated`].
    pub fn open_data_to<R: RecordPlaintextSink>(&mut self, record: &DataRecord<A::Tag>, sink: &mut R) -> (result: Result<(), RecordOpenError<R::Error>>)
        ensures
            final(self).spec_algorithm() == old(self).spec_algorithm(),
            final(self).spec_nonces() == old(self).spec_nonces(),
            final(self).spec_record_size() == old(self).spec_record_size(),
            final(self).spec_context() == old(self).spec_context(),
            open_data_spec(old(self), record) is Err ==> result == Err::<(), RecordOpenError<R::Error>>(
                RecordOpenError::Crypto(open_data_spec(old(self), record)->Err_0))
                && final(self).spec_next_record() == old(self).spec_next_record()
                && final(self).spec_failure() == old(self).spec_failure()
                && *final(sink) == *old(sink),
            open_data_spec(old(self), record) is Ok ==> ({
                let answer = final(sink).data_log().last().1;
                &&& final(sink).data_log() == old(sink).data_log().push((open_data_spec(old(self), record)->Ok_0, answer))
                &&& final(sink).final_log() == old(sink).final_log()
                &&& final(self).spec_next_record() == old(self).spec_next_record() + 1
                &&& answer is Ok ==> result == Ok::<(), RecordOpenError<R::Error>>(()) && final(self).spec_failure() == None::<CryptoError>
                &&& answer matches Err(error) ==> result == Err::<(), RecordOpenError<R::Error>>(RecordOpenError::Sink(error))
                    && final(self).spec_failure() == Some(CryptoError::StateInvalidated)
            }),
    {
        let plaintext = match self.authenticate_data(record) {
            Ok(plaintext) => plaintext,
            Err(error) => return Err(RecordOpenError::Crypto(error)),
        };
        self.next_record = self.next_record + 1;
        self.failure = Some(CryptoError::StateInvalidated);
        match sink.write_data(plaintext) {
            Ok(()) => {
                self.failure = None;
                Ok(())
            },
            Err(error) => Err(RecordOpenError::Sink(error)),
        }
    }

    /// Authenticate the final record and return its plaintext.
    ///
    /// A record out of order, or not shorter than the record size, is refused with
    /// [`CryptoError::AuthenticationFailed`].
    pub fn open_final(self, record: &FinalRecord<A::Tag>) -> (result: CryptoResult<Vec<u8>>)
        ensures
            opened_outcome(result) == open_final_spec(&self, record),
    {
        if let Some(error) = self.failure {
            return Err(error);
        }
        if record.record_number != self.next_record || record.plaintext_len >= self.record_size {
            return Err(CryptoError::AuthenticationFailed);
        }
        let mut plaintext = match open_payload(
            &self.algorithm,
            &self.nonces,
            self.context.as_slice(),
            self.record_size,
            record.record_number,
            FINAL_RECORD,
            record.plaintext_len,
            record.ciphertext.as_slice(),
            &record.tag,
        ) {
            Ok(plaintext) => plaintext,
            Err(error) => return Err(error),
        };
        if plaintext.len() != record.plaintext_len {
            crate::wipe::wipe_vec(&mut plaintext);
            return Err(CryptoError::AuthenticationFailed);
        }
        Ok(plaintext)
    }

    /// Authenticate the final record and hand its plaintext to `sink`.
    pub fn open_final_to<R: RecordPlaintextSink>(self, record: &FinalRecord<A::Tag>, sink: &mut R) -> (result: Result<(), RecordOpenError<R::Error>>)
        ensures
            open_final_spec(&self, record) is Err ==> result == Err::<(), RecordOpenError<R::Error>>(
                RecordOpenError::Crypto(open_final_spec(&self, record)->Err_0)) && *final(sink) == *old(sink),
            open_final_spec(&self, record) is Ok ==> ({
                let answer = final(sink).final_log().last().1;
                &&& final(sink).final_log() == old(sink).final_log().push((open_final_spec(&self, record)->Ok_0, answer))
                &&& final(sink).data_log() == old(sink).data_log()
                &&& answer is Ok ==> result == Ok::<(), RecordOpenError<R::Error>>(())
                &&& answer matches Err(error) ==> result == Err::<(), RecordOpenError<R::Error>>(RecordOpenError::Sink(error))
            }),
    {
        let plaintext = match self.open_final(record) {
            Ok(plaintext) => plaintext,
            Err(error) => return Err(RecordOpenError::Crypto(error)),
        };
        match sink.write_final(plaintext) {
            Ok(()) => Ok(()),
            Err(error) => Err(RecordOpenError::Sink(error)),
        }
    }
}

/// Opening a record that sealing produced, under the same algorithm, nonce sequence, context,
/// record size, record number and kind, gives back its plaintext.
pub proof fn lemma_record_open_inverts_seal<A: Aead, S: NonceSequence<A::Nonce>>(
    algorithm: &A,
    nonces: &S,
    context: Seq<u8>,
    record_size: usize,
    record_number: u64,
    kind: u8,
    plaintext: Seq<u8>,
)
    requires
        record_seal_spec(algorithm, nonces, context, record_size, record_number, kind, plaintext) is Ok,
    ensures
        ({
            let (ciphertext, tag) = record_seal_spec(algorithm, nonces, context, record_size, record_number, kind, plaintext)->Ok_0;
            record_open_spec(algorithm, nonces, context, record_size, record_number, kind, plaintext.len() as usize, ciphertext, tag)
                == Ok::<Seq<u8>, CryptoError>(plaintext)
        }),
{
    reveal(record_seal_spec);
    reveal(record_open_spec);
    let nonce = nonces.spec_nonce(record_number)->Ok_0;
    let aad = record_aad_spec(context, record_size, record_number, kind, plaintext.len() as usize)->Ok_0;
    algorithm.lemma_open_inverts_seal(nonce@, aad, plaintext);
}

/// A data record that a sealer wrote opens, at an opener configured alike and standing at that
/// record, to the chunk of plaintext it was sealed from.
pub proof fn lemma_open_data_inverts_write<A: Aead, S: NonceSequence<A::Nonce>>(
    sealer: &RecordSealer<A, S>,
    opener: &RecordOpener<A, S>,
    data: Seq<u8>,
    k: int,
    record: DataRecord<A::Tag>,
)
    requires
        sealer.is_chunk_record(data, k, record),
        0 <= k,
        k * sealer.spec_record_size() + sealer.spec_record_size() <= data.len(),
        opener.spec_algorithm() == sealer.spec_algorithm(),
        opener.spec_nonces() == sealer.spec_nonces(),
        opener.spec_context() == sealer.spec_context(),
        opener.spec_record_size() == sealer.spec_record_size(),
        opener.spec_failure() is None,
        opener.spec_next_record() == record.spec_record_number(),
        opener.spec_next_record() + 1 <= u64::MAX,
        opener.spec_nonces().spec_nonce((opener.spec_next_record() + 1) as u64) is Ok,
    ensures
        open_data_spec(opener, &record) == Ok::<Seq<u8>, CryptoError>(data_chunk_spec(data, sealer.spec_record_size() as int, k)),
{
    let size = sealer.spec_record_size() as int;
    assert(0 <= k * size) by (nonlinear_arith)
        requires 0 <= k, 0 <= size;
    let chunk = data_chunk_spec(data, size, k);
    assert(chunk.len() == size);
    lemma_record_open_inverts_seal(
        &sealer.spec_algorithm(),
        &sealer.spec_nonces(),
        sealer.spec_context(),
        sealer.spec_record_size(),
        (sealer.spec_next_record() + k) as u64,
        DATA_RECORD,
        chunk,
    );
}

/// The final record that `finish` sealed opens, at an opener configured alike and standing at
/// that record, to the buffered plaintext it was sealed from.
pub proof fn lemma_open_final_inverts_finish<A: Aead, S: NonceSequence<A::Nonce>>(
    sealer: &RecordSealer<A, S>,
    opener: &RecordOpener<A, S>,
    record: FinalRecord<A::Tag>,
)
    requires
        sealer.wf(),
        record.spec_record_number() == sealer.spec_next_record(),
        record.spec_plaintext_len() == sealer.spec_pending().len(),
        finish_spec(sealer) == Ok::<(Seq<u8>, Seq<u8>), CryptoError>((record.spec_ciphertext(), record.spec_tag()@)),
        opener.spec_algorithm() == sealer.spec_algorithm(),
        opener.spec_nonces() == sealer.spec_nonces(),
        opener.spec_context() == sealer.spec_context(),
        opener.spec_record_size() == sealer.spec_record_size(),
        opener.spec_failure() is None,
        opener.spec_next_record() == record.spec_record_number(),
    ensures
        open_final_spec(opener, &record) == Ok::<Seq<u8>, CryptoError>(sealer.spec_pending()),
{
    lemma_record_open_inverts_seal(
        &sealer.spec_algorithm(),
        &sealer.spec_nonces(),
        sealer.spec_context(),
        sealer.spec_record_size(),
        sealer.spec_next_record(),
        FINAL_RECORD,
        sealer.spec_pending(),
    );
}

} // verus!
