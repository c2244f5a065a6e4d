//! The wire envelope and the recursive migration decoder.
//!
//! An envelope is a 4-byte little-endian revision header followed by payload
//! bytes. Decoding against a target type compares the wire revision with the
//! target's revision: an exact match decodes the payload directly, an older
//! wire decodes as the predecessor schema and migrates the result forward,
//! and a newer wire is rejected. Every lineage member carries this control
//! flow as proof obligations ([`Lineage::lemma_decode_shape`],
//! [`Revise::lemma_decode_older`]), so the laws at the bottom of this module
//! hold for every schema, not just the ones in this crate.

use vstd::prelude::*;

use crate::codec::{dec_u32, enc_u32, lemma_le_u32_enc, spec_enc_u32, spec_le_u32, CodecError};

verus! {

/// Why a wire envelope failed to decode.
#[derive(Debug, Clone, Copy, PartialEq, Eq)]
pub enum WireError {
    /// The buffer is shorter than the fixed-width revision header.
    HeaderReadFailed,
    /// The wire revision is newer than the target type understands.
    FutureSchema,
    /// The predecessor value decoded, but the migration declined to map it.
    MigrationFailed,
    /// The payload bytes did not decode as the expected schema type.
    Codec(CodecError),
}

/// A schema type the codec can write and read back.
///
/// The type's mathematical model is its [`View`]; `spec_enc` and `spec_dec`
/// say exactly which byte strings stand for which models, and
/// `lemma_enc_dec` obliges every implementation to make decoding the exact
/// inverse of encoding on well-formed models.
pub trait Payload: View + Sized {
    /// The byte string that encodes the model `m`.
    spec fn spec_enc(m: Self::V) -> Seq<u8>;

    /// The model encoded by `bytes`, if `bytes` is exactly one encoding.
    spec fn spec_dec(bytes: Seq<u8>) -> Option<Self::V>;

    /// Models whose sequence lengths fit the codec's length prefixes; the
    /// view of every executable value is well formed.
    spec fn model_wf(m: Self::V) -> bool;

    /// Decoding is the exact inverse of encoding on well-formed models.
    proof fn lemma_enc_dec(m: Self::V)
        ensures
            Self::model_wf(m) ==> Self::spec_dec(Self::spec_enc(m)) == Option::Some(m),
    ;

    /// Encode `self` as payload bytes.
    fn encode_payload(&self) -> (r: Vec<u8>)
        ensures
            r@ == Self::spec_enc(self@),
    ;

    /// Decode a whole buffer as a value of this type.
    fn decode_payload(bytes: &[u8]) -> (r: Result<Self, CodecError>)
        ensures
            match r {
                Result::Ok(v) => Self::spec_dec(bytes@) == Option::Some(v@),
                Result::Err(_) => Self::spec_dec(bytes@) is None,
            },
    ;
}

/// A member of a schema lineage: it knows its own revision and can resolve
/// any wire revision against itself, walking its predecessor chain.
///
/// `spec_decode_rev` is each member's statement of what the walk yields;
/// `lemma_decode_shape` pins its two non-recursive arms to the shared
/// control flow, and [`Revise::lemma_decode_older`] pins the third, so no
/// implementation can stray from the algorithm.
pub trait Lineage: Payload {
    /// This type's schema revision.
    spec fn spec_revision() -> u32;

    /// What decoding payload bytes whose header declared `wire_rev` against
    /// this target yields.
    spec fn spec_decode_rev(wire_rev: u32, payload: Seq<u8>) -> Result<Self::V, WireError>;

    /// This type's schema revision.
    fn revision() -> (r: u32)
        ensures
            r == Self::spec_revision(),
    ;

    /// The recursive step of the decoder: resolve payload bytes whose header
    /// (already stripped) declared `wire_rev`.
    fn decode_rev(wire_rev: u32, payload: &[u8]) -> (r: Result<Self, WireError>)
        ensures
            match r {
                Result::Ok(v) => Self::spec_decode_rev(wire_rev, payload@) == Result::Ok::<
                    _,
                    WireError,
                >(v@),
                Result::Err(e) => Self::spec_decode_rev(wire_rev, payload@) == Result::Err::<
                    Self::V,
                    _,
                >(e),
            },
    ;

    /// The two non-recursive arms of the shared control flow: an exact
    /// revision match decodes the payload directly and propagates its codec
    /// error verbatim; a newer wire revision is always rejected.
    proof fn lemma_decode_shape(wire_rev: u32, payload: Seq<u8>)
        ensures
            wire_rev == Self::spec_revision() ==> Self::spec_decode_rev(wire_rev, payload)
                == (match Self::spec_dec(payload) {
                Option::Some(m) => Result::Ok::<_, WireError>(m),
                Option::None => Result::Err::<Self::V, _>(WireError::Codec(CodecError)),
            }),
            wire_rev > Self::spec_revision() ==> Self::spec_decode_rev(wire_rev, payload)
                == Result::Err::<Self::V, WireError>(WireError::FutureSchema),
    ;
}

/// A lineage member with an immediately-older predecessor schema and a
/// migration from it.
pub trait Revise: Lineage {
    /// The immediately-older schema type; the oldest revision points at
    /// [`NoPrevious`].
    type Previous: Lineage;

    /// The model this type assigns to a migrated predecessor model, or
    /// `None` when the predecessor value has no mapping here.
    spec fn spec_migrate(prev: <Self::Previous as View>::V) -> Option<Self::V>;

    /// Lineage well-formedness: revisions strictly decrease along the
    /// predecessor chain until the revision-0 terminus.
    proof fn lemma_lineage()
        ensures
            Self::spec_revision() > 0 ==> <Self::Previous as Lineage>::spec_revision()
                < Self::spec_revision(),
    ;

    /// The third arm of the shared control flow: an older wire revision
    /// resolves as the predecessor — on the same payload bytes, unchanged —
    /// and migrates the result forward, failing with `MigrationFailed` when
    /// the migration declines and propagating the predecessor's error
    /// otherwise.
    proof fn lemma_decode_older(wire_rev: u32, payload: Seq<u8>)
        ensures
            wire_rev < Self::spec_revision() ==> Self::spec_decode_rev(wire_rev, payload)
                == (match <Self::Previous as Lineage>::spec_decode_rev(wire_rev, payload) {
                Result::Ok(p) => match Self::spec_migrate(p) {
                    Option::Some(m) => Result::Ok::<_, WireError>(m),
                    Option::None => Result::Err::<Self::V, _>(WireError::MigrationFailed),
                },
                Result::Err(e) => Result::Err::<Self::V, _>(e),
            }),
    ;

    /// Map a value of the predecessor schema into this schema, or decline.
    fn migrate_from_previous(prev: Self::Previous) -> (r: Option<Self>)
        ensures
            match r {
                Option::Some(v) => Self::spec_migrate(prev@) == Option::Some(v@),
                Option::None => Self::spec_migrate(prev@) is None,
            },
    ;
}

/// The terminus type ending every lineage. It reports revision 0, and its
/// payload codec rejects every buffer, so it is never the target of a
/// successful decode; the private field keeps callers from ever constructing
/// one.
#[derive(Debug, Clone, Copy, PartialEq, Eq)]
pub struct NoPrevious {
    _reserved: (),
}

impl View for NoPrevious {
    type V = NoPrevious;

    open spec fn view(&self) -> NoPrevious {
        *self
    }
}

impl Payload for NoPrevious {
    open spec fn spec_enc(m: NoPrevious) -> Seq<u8> {
        Seq::empty()
    }

    open spec fn spec_dec(bytes: Seq<u8>) -> Option<NoPrevious> {
        Option::None
    }

    /// The terminus is never encoded: no model of it is well formed.
    open spec fn model_wf(m: NoPrevious) -> bool {
        false
    }

    proof fn lemma_enc_dec(m: NoPrevious) {
    }

    fn encode_payload(&self) -> (r: Vec<u8>) {
        Vec::new()
    }

    fn decode_payload(bytes: &[u8]) -> (r: Result<Self, CodecError>) {
        Result::Err(CodecError)
    }
}

impl Lineage for NoPrevious {
    open spec fn spec_revision() -> u32 {
        0
    }

    open spec fn spec_decode_rev(wire_rev: u32, payload: Seq<u8>) -> Result<NoPrevious, WireError> {
        if wire_rev == 0 {
            Result::Err(WireError::Codec(CodecError))
        } else {
            Result::Err(WireError::FutureSchema)
        }
    }

    fn revision() -> (r: u32) {
        0
    }

    fn decode_rev(wire_rev: u32, payload: &[u8]) -> (r: Result<Self, WireError>) {
        if wire_rev == 0 {
            Result::Err(WireError::Codec(CodecError))
        } else {
            Result::Err(WireError::FutureSchema)
        }
    }

    proof fn lemma_decode_shape(wire_rev: u32, payload: Seq<u8>) {
    }
}

/// The envelope that carries model `m`: the target revision as a 4-byte
/// little-endian header, then the payload encoding.
pub open spec fn spec_serialize<T: Lineage>(m: <T as View>::V) -> Seq<u8> {
    spec_enc_u32(T::spec_revision()) + T::spec_enc(m)
}

/// The model an envelope decodes to against target type `T`, or the error.
pub open spec fn spec_deserialize<T: Lineage>(bytes: Seq<u8>) -> Result<<T as View>::V, WireError> {
    if bytes.len() < 4 {
        Result::Err(WireError::HeaderReadFailed)
    } else {
        T::spec_decode_rev(spec_le_u32(bytes.take(4)), bytes.skip(4))
    }
}

/// Encode a value as a wire envelope: its type's revision header, then its
/// payload bytes.
pub fn serialize_revision<T: Lineage>(value: &T) -> (r: Result<Vec<u8>, WireError>)
    ensures
        r is Ok,
        r matches Result::Ok(buf) ==> buf@ == spec_serialize::<T>(value@),
{
    let mut buf: Vec<u8> = Vec::new();
    enc_u32(&mut buf, T::revision());
    let mut payload = value.encode_payload();
    buf.append(&mut payload);
    Result::Ok(buf)
}

/// Decode a wire envelope against target type `T`: read the revision header,
/// then resolve the remaining payload bytes against `T`'s lineage.
pub fn deserialize_revision<T: Lineage>(bytes: &[u8]) -> (r: Result<T, WireError>)
    ensures
        bytes@.len() < 4 ==> r == Result::Err::<T, WireError>(WireError::HeaderReadFailed),
        match r {
            Result::Ok(v) => spec_deserialize::<T>(bytes@) == Result::Ok::<_, WireError>(v@),
            Result::Err(e) => spec_deserialize::<T>(bytes@) == Result::Err::<<T as View>::V, _>(e),
        },
{
    match dec_u32(bytes, 0) {
        Result::Ok((rev, after)) => {
            proof {
                assert(bytes@.skip(0) =~= bytes@);
                assert(bytes@.skip(0).take(4) =~= bytes@.take(4));
            }
            let payload = vstd::slice::slice_subrange(bytes, after, bytes.len());
            proof {
                assert(payload@ =~= bytes@.skip(4));
            }
            T::decode_rev(rev, payload)
        },
        Result::Err(_) => {
            proof {
                assert(bytes@.skip(0) =~= bytes@);
            }
            Result::Err(WireError::HeaderReadFailed)
        },
    }
}

// ---------------------------------------------------------------------------
// Laws of the envelope.
// ---------------------------------------------------------------------------

/// Round trip: for every well-formed model of the target type, decoding its
/// own envelope yields it back exactly.
pub proof fn lemma_round_trip<T: Lineage>(m: <T as View>::V)
    requires
        T::model_wf(m),
    ensures
        spec_deserialize::<T>(spec_serialize::<T>(m)) == Result::Ok::<_, WireError>(m),
{
    let bytes = spec_serialize::<T>(m);
    assert(bytes.take(4) =~= spec_enc_u32(T::spec_revision()));
    assert(bytes.skip(4) =~= T::spec_enc(m));
    lemma_le_u32_enc(T::spec_revision());
    T::lemma_decode_shape(T::spec_revision(), T::spec_enc(m));
    T::lemma_enc_dec(m);
}

/// Migration correctness: an envelope encoded at the predecessor's own
/// revision, decoded against `T`, yields exactly the migration of the
/// predecessor value when the migration is defined, and fails with
/// `MigrationFailed` when it is not.
pub proof fn lemma_migration<T: Revise>(p: <T::Previous as View>::V)
    requires
        <T::Previous as Payload>::model_wf(p),
        T::spec_revision() > 0,
    ensures
        spec_deserialize::<T>(spec_serialize::<T::Previous>(p)) == (match T::spec_migrate(p) {
            Option::Some(m) => Result::Ok::<_, WireError>(m),
            Option::None => Result::Err::<<T as View>::V, _>(WireError::MigrationFailed),
        }),
{
    T::lemma_lineage();
    let prev_rev = <T::Previous as Lineage>::spec_revision();
    let payload = <T::Previous as Payload>::spec_enc(p);
    let bytes = spec_serialize::<T::Previous>(p);
    assert(bytes.take(4) =~= spec_enc_u32(prev_rev));
    assert(bytes.skip(4) =~= payload);
    lemma_le_u32_enc(prev_rev);
    T::lemma_decode_older(prev_rev, payload);
    <T::Previous as Lineage>::lemma_decode_shape(prev_rev, payload);
    <T::Previous as Payload>::lemma_enc_dec(p);
}

/// Future rejection: a wire revision beyond the target's own always fails
/// with `FutureSchema`, whatever the payload bytes hold — no payload decode
/// is ever consulted.
pub proof fn lemma_future_rejection<T: Lineage>(wire_rev: u32, payload: Seq<u8>)
    requires
        wire_rev > T::spec_revision(),
    ensures
        T::spec_decode_rev(wire_rev, payload) == Result::Err::<<T as View>::V, WireError>(
            WireError::FutureSchema,
        ),
{
    T::lemma_decode_shape(wire_rev, payload);
}

/// Truncated header: a buffer shorter than the header width always fails
/// with `HeaderReadFailed`, whatever it holds.
pub proof fn lemma_truncated_header<T: Lineage>(bytes: Seq<u8>)
    requires
        bytes.len() < 4,
    ensures
        spec_deserialize::<T>(bytes) == Result::Err::<<T as View>::V, WireError>(
            WireError::HeaderReadFailed,
        ),
{
}

/// Sentinel unreachability: no decode against the terminus type ever
/// succeeds; an exact revision-0 match fails as a codec error (the terminus
/// payload codec rejects every buffer), anything newer as a future schema.
pub proof fn lemma_sentinel_unreachable(wire_rev: u32, payload: Seq<u8>)
    ensures
        !(<NoPrevious as Lineage>::spec_decode_rev(wire_rev, payload) is Ok),
        wire_rev == 0 ==> <NoPrevious as Lineage>::spec_decode_rev(wire_rev, payload)
            == Result::Err::<NoPrevious, WireError>(WireError::Codec(CodecError)),
        wire_rev > 0 ==> <NoPrevious as Lineage>::spec_decode_rev(wire_rev, payload)
            == Result::Err::<NoPrevious, WireError>(WireError::FutureSchema),
{
}

} // verus!
