//! The two-axis variant of the envelope: a schema is identified by a
//! `(version, revision)` pair with two independent predecessor links — one
//! revision back within the same version, and the newest schema of the
//! previous version. The decoder's check order is fixed and significant:
//! an exact match on both axes decodes directly; a revision lag within the
//! same version is resolved before a version lag; either axis ahead is
//! rejected.

use vstd::prelude::*;

use crate::codec::{
    dec_u32, enc_u32, lemma_le_u32_enc, lemma_rt_u32, spec_dec_u32, spec_enc_u32, spec_le_u32,
    CodecError,
};
use crate::wire::{NoPrevious, Payload, WireError};

verus! {

/// A member of a two-axis schema lineage: it knows its version and revision
/// and can resolve any wire identity pair against itself.
///
/// `spec_decode_ver` is each member's statement of what the walk yields;
/// `lemma_decode_ver_shape` pins its non-recursive arms, and
/// [`ReviseVersioned`]'s obligations pin the two recursive arms, so no
/// implementation can stray from the shared control flow.
pub trait VersionedLineage: Payload {
    /// This type's major schema version.
    spec fn spec_version() -> u32;

    /// This type's schema revision within its version.
    spec fn spec_revision() -> u32;

    /// What decoding payload bytes whose header declared the pair
    /// `(wire_ver, wire_rev)` against this target yields.
    spec fn spec_decode_ver(wire_ver: u32, wire_rev: u32, payload: Seq<u8>) -> Result<
        Self::V,
        WireError,
    >;

    /// This type's major schema version.
    fn version() -> (r: u32)
        ensures
            r == Self::spec_version(),
    ;

    /// This type's schema revision within its version.
    fn revision() -> (r: u32)
        ensures
            r == Self::spec_revision(),
    ;

    /// The recursive step of the two-axis decoder.
    fn decode_ver(wire_ver: u32, wire_rev: u32, payload: &[u8]) -> (r: Result<Self, WireError>)
        ensures
            match r {
                Result::Ok(v) => Self::spec_decode_ver(wire_ver, wire_rev, payload@)
                    == Result::Ok::<_, WireError>(v@),
                Result::Err(e) => Self::spec_decode_ver(wire_ver, wire_rev, payload@)
                    == Result::Err::<Self::V, _>(e),
            },
    ;

    /// The non-recursive arms of the shared control flow: an exact match on
    /// both axes decodes the payload directly and propagates its codec error
    /// verbatim; a wire identity ahead on either axis is always rejected.
    proof fn lemma_decode_ver_shape(wire_ver: u32, wire_rev: u32, payload: Seq<u8>)
        ensures
            wire_ver == Self::spec_version() && wire_rev == Self::spec_revision()
                ==> Self::spec_decode_ver(wire_ver, wire_rev, payload) == (match Self::spec_dec(
                payload,
            ) {
                Option::Some(m) => Result::Ok::<_, WireError>(m),
                Option::None => Result::Err::<Self::V, _>(WireError::Codec(CodecError)),
            }),
            wire_ver > Self::spec_version() || (wire_ver == Self::spec_version() && wire_rev
                > Self::spec_revision()) ==> Self::spec_decode_ver(wire_ver, wire_rev, payload)
                == Result::Err::<Self::V, WireError>(WireError::FutureSchema),
    ;
}

/// A two-axis lineage member with its two predecessor links and migrations.
pub trait ReviseVersioned: VersionedLineage {
    /// Same version, one revision back; the revision-0 member points at
    /// [`NoPrevious`].
    type RevisionPrevious: VersionedLineage;

    /// The newest schema of the previous major version; the version-0 member
    /// points at [`NoPrevious`].
    type VersionPrevious: VersionedLineage;

    /// The model this type assigns to a predecessor one revision back.
    spec fn spec_migrate_from_revision(prev: <Self::RevisionPrevious as View>::V) -> Option<
        Self::V,
    >;

    /// The model this type assigns to a predecessor one version back.
    spec fn spec_migrate_from_version(prev: <Self::VersionPrevious as View>::V) -> Option<Self::V>;

    /// Two-axis lineage well-formedness: the revision link stays within the
    /// version and goes strictly back; the version link goes strictly back.
    proof fn lemma_two_axis_lineage()
        ensures
            Self::spec_revision() > 0 ==> <Self::RevisionPrevious as VersionedLineage>::spec_version()
                == Self::spec_version()
                && <Self::RevisionPrevious as VersionedLineage>::spec_revision()
                < Self::spec_revision(),
            Self::spec_version() > 0 ==> <Self::VersionPrevious as VersionedLineage>::spec_version()
                < Self::spec_version(),
    ;

    /// Revision lag, checked before version lag: the same pair resolves as
    /// the revision predecessor — on the same payload bytes, unchanged — and
    /// migrates forward.
    proof fn lemma_decode_ver_older_revision(wire_ver: u32, wire_rev: u32, payload: Seq<u8>)
        ensures
            wire_ver == Self::spec_version() && wire_rev < Self::spec_revision()
                ==> Self::spec_decode_ver(wire_ver, wire_rev, payload) == (match <
            Self::RevisionPrevious as VersionedLineage>::spec_decode_ver(
                wire_ver,
                wire_rev,
                payload,
            ) {
                Result::Ok(p) => match Self::spec_migrate_from_revision(p) {
                    Option::Some(m) => Result::Ok::<_, WireError>(m),
                    Option::None => Result::Err::<Self::V, _>(WireError::MigrationFailed),
                },
                Result::Err(e) => Result::Err::<Self::V, _>(e),
            }),
    ;

    /// Version lag, whatever the wire revision claims: the same pair
    /// resolves as the version predecessor and migrates forward.
    proof fn lemma_decode_ver_older_version(wire_ver: u32, wire_rev: u32, payload: Seq<u8>)
        ensures
            wire_ver < Self::spec_version() ==> Self::spec_decode_ver(wire_ver, wire_rev, payload)
                == (match <Self::VersionPrevious as VersionedLineage>::spec_decode_ver(
                wire_ver,
                wire_rev,
                payload,
            ) {
                Result::Ok(p) => match Self::spec_migrate_from_version(p) {
                    Option::Some(m) => Result::Ok::<_, WireError>(m),
                    Option::None => Result::Err::<Self::V, _>(WireError::MigrationFailed),
                },
                Result::Err(e) => Result::Err::<Self::V, _>(e),
            }),
    ;

    /// Map a value one revision back into this schema, or decline.
    fn migrate_from_revision(prev: Self::RevisionPrevious) -> (r: Option<Self>)
        ensures
            match r {
                Option::Some(v) => Self::spec_migrate_from_revision(prev@) == Option::Some(v@),
                Option::None => Self::spec_migrate_from_revision(prev@) is None,
            },
    ;

    /// Map a value one version back into this schema, or decline.
    fn migrate_from_version(prev: Self::VersionPrevious) -> (r: Option<Self>)
        ensures
            match r {
                Option::Some(v) => Self::spec_migrate_from_version(prev@) == Option::Some(v@),
                Option::None => Self::spec_migrate_from_version(prev@) is None,
            },
    ;
}

impl VersionedLineage for NoPrevious {
    open spec fn spec_version() -> u32 {
        0
    }

    open spec fn spec_revision() -> u32 {
        0
    }

    open spec fn spec_decode_ver(wire_ver: u32, wire_rev: u32, payload: Seq<u8>) -> Result<
        NoPrevious,
        WireError,
    > {
        if wire_ver == 0 && wire_rev == 0 {
            Result::Err(WireError::Codec(CodecError))
        } else {
            Result::Err(WireError::FutureSchema)
        }
    }

    fn version() -> (r: u32) {
        0
    }

    fn revision() -> (r: u32) {
        0
    }

    fn decode_ver(wire_ver: u32, wire_rev: u32, payload: &[u8]) -> (r: Result<Self, WireError>) {
        if wire_ver == 0 && wire_rev == 0 {
            Result::Err(WireError::Codec(CodecError))
        } else {
            Result::Err(WireError::FutureSchema)
        }
    }

    proof fn lemma_decode_ver_shape(wire_ver: u32, wire_rev: u32, payload: Seq<u8>) {
    }
}

/// The two-axis envelope that carries model `m`: the target's version and
/// revision as two consecutive 4-byte little-endian headers, then the
/// payload encoding.
pub open spec fn spec_serialize_versioned<T: VersionedLineage>(m: <T as View>::V) -> Seq<u8> {
    spec_enc_u32(T::spec_version()) + spec_enc_u32(T::spec_revision()) + T::spec_enc(m)
}

/// The model a two-axis envelope decodes to against target type `T`.
pub open spec fn spec_deserialize_versioned<T: VersionedLineage>(bytes: Seq<u8>) -> Result<
    <T as View>::V,
    WireError,
> {
    if bytes.len() < 8 {
        Result::Err(WireError::HeaderReadFailed)
    } else {
        T::spec_decode_ver(
            spec_le_u32(bytes.take(4)),
            spec_le_u32(bytes.skip(4).take(4)),
            bytes.skip(8),
        )
    }
}

/// Encode a value as a two-axis wire envelope.
pub fn serialize_versioned<T: VersionedLineage>(value: &T) -> (r: Result<Vec<u8>, WireError>)
    ensures
        r is Ok,
        r matches Result::Ok(buf) ==> buf@ == spec_serialize_versioned::<T>(value@),
{
    let mut buf: Vec<u8> = Vec::new();
    enc_u32(&mut buf, T::version());
    enc_u32(&mut buf, T::revision());
    let mut payload = value.encode_payload();
    buf.append(&mut payload);
    Result::Ok(buf)
}

/// Decode a two-axis wire envelope against target type `T`: read the version
/// and revision headers, then resolve the remaining payload bytes.
pub fn deserialize_versioned<T: VersionedLineage>(bytes: &[u8]) -> (r: Result<T, WireError>)
    ensures
        bytes@.len() < 8 ==> r == Result::Err::<T, WireError>(WireError::HeaderReadFailed),
        match r {
            Result::Ok(v) => spec_deserialize_versioned::<T>(bytes@) == Result::Ok::<_, WireError>(
                v@,
            ),
            Result::Err(e) => spec_deserialize_versioned::<T>(bytes@) == Result::Err::<
                <T as View>::V,
                _,
            >(e),
        },
{
    if bytes.len() < 8 {
        return Result::Err(WireError::HeaderReadFailed);
    }
    match dec_u32(bytes, 0) {
        Result::Ok((ver, p1)) => {
            proof {
                assert(bytes@.skip(0) =~= bytes@);
                assert(bytes@.skip(0).take(4) =~= bytes@.take(4));
            }
            match dec_u32(bytes, p1) {
                Result::Ok((rev, p2)) => {
                    proof {
                        assert(bytes@.skip(4).take(4) =~= bytes@.skip(p1 as int).take(4));
                        assert(bytes@.skip(p2 as int) =~= bytes@.skip(8));
                    }
                    let payload = vstd::slice::slice_subrange(bytes, p2, bytes.len());
                    proof {
                        assert(payload@ =~= bytes@.skip(8));
                    }
                    T::decode_ver(ver, rev, payload)
                },
                Result::Err(_) => Result::Err(WireError::HeaderReadFailed),
            }
        },
        Result::Err(_) => Result::Err(WireError::HeaderReadFailed),
    }
}

// ---------------------------------------------------------------------------
// Laws of the two-axis envelope.
// ---------------------------------------------------------------------------

/// Round trip: for every well-formed model of the target type, decoding its
/// own two-axis envelope yields it back exactly.
pub proof fn lemma_versioned_round_trip<T: VersionedLineage>(m: <T as View>::V)
    requires
        T::model_wf(m),
    ensures
        spec_deserialize_versioned::<T>(spec_serialize_versioned::<T>(m)) == Result::Ok::<
            _,
            WireError,
        >(m),
{
    let bytes = spec_serialize_versioned::<T>(m);
    assert(bytes.take(4) =~= spec_enc_u32(T::spec_version()));
    assert(bytes.skip(4).take(4) =~= spec_enc_u32(T::spec_revision()));
    assert(bytes.skip(8) =~= T::spec_enc(m));
    lemma_le_u32_enc(T::spec_version());
    lemma_le_u32_enc(T::spec_revision());
    T::lemma_decode_ver_shape(T::spec_version(), T::spec_revision(), T::spec_enc(m));
    T::lemma_enc_dec(m);
}

/// Revision-lag migration: an envelope encoded by the predecessor one
/// revision back, decoded against `T`, yields exactly `T`'s revision
/// migration of the value, or `MigrationFailed` where it declines.
pub proof fn lemma_versioned_migration_revision<T: ReviseVersioned>(
    p: <T::RevisionPrevious as View>::V,
)
    requires
        <T::RevisionPrevious as Payload>::model_wf(p),
        T::spec_revision() > 0,
    ensures
        spec_deserialize_versioned::<T>(spec_serialize_versioned::<T::RevisionPrevious>(p))
            == (match T::spec_migrate_from_revision(p) {
            Option::Some(m) => Result::Ok::<_, WireError>(m),
            Option::None => Result::Err::<<T as View>::V, _>(WireError::MigrationFailed),
        }),
{
    T::lemma_two_axis_lineage();
    let pv = <T::RevisionPrevious as VersionedLineage>::spec_version();
    let pr = <T::RevisionPrevious as VersionedLineage>::spec_revision();
    let payload = <T::RevisionPrevious as Payload>::spec_enc(p);
    let bytes = spec_serialize_versioned::<T::RevisionPrevious>(p);
    assert(bytes.take(4) =~= spec_enc_u32(pv));
    assert(bytes.skip(4).take(4) =~= spec_enc_u32(pr));
    assert(bytes.skip(8) =~= payload);
    lemma_le_u32_enc(pv);
    lemma_le_u32_enc(pr);
    T::lemma_decode_ver_older_revision(pv, pr, payload);
    <T::RevisionPrevious as VersionedLineage>::lemma_decode_ver_shape(pv, pr, payload);
    <T::RevisionPrevious as Payload>::lemma_enc_dec(p);
}

/// Version-lag migration: an envelope encoded by the predecessor one version
/// back, decoded against `T`, yields exactly `T`'s version migration of the
/// value, or `MigrationFailed` where it declines.
pub proof fn lemma_versioned_migration_version<T: ReviseVersioned>(
    p: <T::VersionPrevious as View>::V,
)
    requires
        <T::VersionPrevious as Payload>::model_wf(p),
        <T::VersionPrevious as VersionedLineage>::spec_version() < T::spec_version(),
    ensures
        spec_deserialize_versioned::<T>(spec_serialize_versioned::<T::VersionPrevious>(p))
            == (match T::spec_migrate_from_version(p) {
            Option::Some(m) => Result::Ok::<_, WireError>(m),
            Option::None => Result::Err::<<T as View>::V, _>(WireError::MigrationFailed),
        }),
{
    let pv = <T::VersionPrevious as VersionedLineage>::spec_version();
    let pr = <T::VersionPrevious as VersionedLineage>::spec_revision();
    let payload = <T::VersionPrevious as Payload>::spec_enc(p);
    let bytes = spec_serialize_versioned::<T::VersionPrevious>(p);
    assert(bytes.take(4) =~= spec_enc_u32(pv));
    assert(bytes.skip(4).take(4) =~= spec_enc_u32(pr));
    assert(bytes.skip(8) =~= payload);
    lemma_le_u32_enc(pv);
    lemma_le_u32_enc(pr);
    T::lemma_decode_ver_older_version(pv, pr, payload);
    <T::VersionPrevious as VersionedLineage>::lemma_decode_ver_shape(pv, pr, payload);
    <T::VersionPrevious as Payload>::lemma_enc_dec(p);
}

/// Future rejection: a wire identity ahead on either axis always fails with
/// `FutureSchema`, whatever the payload bytes hold.
pub proof fn lemma_versioned_future_rejection<T: VersionedLineage>(
    wire_ver: u32,
    wire_rev: u32,
    payload: Seq<u8>,
)
    requires
        wire_ver > T::spec_version() || (wire_ver == T::spec_version() && wire_rev
            > T::spec_revision()),
    ensures
        T::spec_decode_ver(wire_ver, wire_rev, payload) == Result::Err::<<T as View>::V, WireError>(
            WireError::FutureSchema,
        ),
{
    T::lemma_decode_ver_shape(wire_ver, wire_rev, payload);
}

// ---------------------------------------------------------------------------
// A small two-axis sample lineage: version 1 has two revisions, version 2
// starts over at revision 0 and migrates from the newest revision of
// version 1.
// ---------------------------------------------------------------------------

/// Oldest two-axis sample schema: version 1, revision 0.
#[derive(Debug, Clone, Copy, PartialEq, Eq)]
pub struct SampleV1R0 {
    pub a: u32,
}

/// Version 1, revision 1: adds an optional field; the revision migration
/// leaves it absent.
#[derive(Debug, Clone, Copy, PartialEq, Eq)]
pub struct SampleV1R1 {
    pub a: u32,
    pub b: Option<u32>,
}

/// Version 2, revision 0: requires the once-optional field; the version
/// migration declines values that lack it.
#[derive(Debug, Clone, Copy, PartialEq, Eq)]
pub struct SampleV2R0 {
    pub a: u32,
    pub b: u32,
}

/// The revision migration [`SampleV1R1`] applies to a [`SampleV1R0`] value.
pub open spec fn spec_vmigrate_to_v1r1(prev: SampleV1R0) -> Option<SampleV1R1> {
    Option::Some(SampleV1R1 { a: prev.a, b: Option::None })
}

/// The version migration [`SampleV2R0`] applies to a [`SampleV1R1`] value:
/// defined only when the optional field is present.
pub open spec fn spec_vmigrate_to_v2r0(prev: SampleV1R1) -> Option<SampleV2R0> {
    match prev.b {
        Option::Some(b) => Option::Some(SampleV2R0 { a: prev.a, b }),
        Option::None => Option::None,
    }
}

impl View for SampleV1R0 {
    type V = SampleV1R0;

    open spec fn view(&self) -> SampleV1R0 {
        *self
    }
}

impl Payload for SampleV1R0 {
    open spec fn spec_enc(m: SampleV1R0) -> Seq<u8> {
        spec_enc_u32(m.a)
    }

    open spec fn spec_dec(bytes: Seq<u8>) -> Option<SampleV1R0> {
        match spec_dec_u32(bytes) {
            Option::Some((a, rest)) => if rest.len() == 0 {
                Option::Some(SampleV1R0 { a })
            } else {
                Option::None
            },
            Option::None => Option::None,
        }
    }

    open spec fn model_wf(m: SampleV1R0) -> bool {
        true
    }

    proof fn lemma_enc_dec(m: SampleV1R0) {
        lemma_rt_u32(m.a, Seq::empty());
        assert(spec_enc_u32(m.a) + Seq::<u8>::empty() =~= spec_enc_u32(m.a));
    }

    fn encode_payload(&self) -> (r: Vec<u8>) {
        let mut out: Vec<u8> = Vec::new();
        enc_u32(&mut out, self.a);
        out
    }

    fn decode_payload(bytes: &[u8]) -> (r: Result<Self, CodecError>) {
        proof {
            assert(bytes@.skip(0) =~= bytes@);
        }
        match dec_u32(bytes, 0) {
            Result::Ok((a, p)) => {
                if p == bytes.len() {
                    Result::Ok(SampleV1R0 { a })
                } else {
                    Result::Err(CodecError)
                }
            },
            Result::Err(e) => Result::Err(e),
        }
    }
}

impl VersionedLineage for SampleV1R0 {
    open spec fn spec_version() -> u32 {
        1
    }

    open spec fn spec_revision() -> u32 {
        0
    }

    open spec fn spec_decode_ver(wire_ver: u32, wire_rev: u32, payload: Seq<u8>) -> Result<
        SampleV1R0,
        WireError,
    > {
        if wire_ver == 1 && wire_rev == 0 {
            match Self::spec_dec(payload) {
                Option::Some(m) => Result::Ok(m),
                Option::None => Result::Err(WireError::Codec(CodecError)),
            }
        } else if wire_ver < 1 {
            match <NoPrevious as VersionedLineage>::spec_decode_ver(wire_ver, wire_rev, payload) {
                Result::Ok(p) => Result::Err(WireError::MigrationFailed),
                Result::Err(e) => Result::Err(e),
            }
        } else {
            Result::Err(WireError::FutureSchema)
        }
    }

    fn version() -> (r: u32) {
        1
    }

    fn revision() -> (r: u32) {
        0
    }

    fn decode_ver(wire_ver: u32, wire_rev: u32, payload: &[u8]) -> (r: Result<Self, WireError>) {
        if wire_ver == 1 && wire_rev == 0 {
            match Self::decode_payload(payload) {
                Result::Ok(v) => Result::Ok(v),
                Result::Err(e) => Result::Err(WireError::Codec(e)),
            }
        } else if wire_ver < 1 {
            match <NoPrevious as VersionedLineage>::decode_ver(wire_ver, wire_rev, payload) {
                Result::Ok(p) => Result::Err(WireError::MigrationFailed),
                Result::Err(e) => Result::Err(e),
            }
        } else {
            Result::Err(WireError::FutureSchema)
        }
    }

    proof fn lemma_decode_ver_shape(wire_ver: u32, wire_rev: u32, payload: Seq<u8>) {
    }
}

impl ReviseVersioned for SampleV1R0 {
    type RevisionPrevious = NoPrevious;

    type VersionPrevious = NoPrevious;

    open spec fn spec_migrate_from_revision(prev: NoPrevious) -> Option<SampleV1R0> {
        Option::None
    }

    open spec fn spec_migrate_from_version(prev: NoPrevious) -> Option<SampleV1R0> {
        Option::None
    }

    proof fn lemma_two_axis_lineage() {
    }

    proof fn lemma_decode_ver_older_revision(wire_ver: u32, wire_rev: u32, payload: Seq<u8>) {
    }

    proof fn lemma_decode_ver_older_version(wire_ver: u32, wire_rev: u32, payload: Seq<u8>) {
    }

    fn migrate_from_revision(prev: NoPrevious) -> (r: Option<Self>) {
        Option::None
    }

    fn migrate_from_version(prev: NoPrevious) -> (r: Option<Self>) {
        Option::None
    }
}

impl View for SampleV1R1 {
    type V = SampleV1R1;

    open spec fn view(&self) -> SampleV1R1 {
        *self
    }
}

impl Payload for SampleV1R1 {
    open spec fn spec_enc(m: SampleV1R1) -> Seq<u8> {
        spec_enc_u32(m.a) + crate::codec::spec_enc_opt_u32(m.b)
    }

    open spec fn spec_dec(bytes: Seq<u8>) -> Option<SampleV1R1> {
        match spec_dec_u32(bytes) {
            Option::Some((a, r1)) => match crate::codec::spec_dec_opt_u32(r1) {
                Option::Some((b, r2)) => if r2.len() == 0 {
                    Option::Some(SampleV1R1 { a, b })
                } else {
                    Option::None
                },
                Option::None => Option::None,
            },
            Option::None => Option::None,
        }
    }

    open spec fn model_wf(m: SampleV1R1) -> bool {
        true
    }

    proof fn lemma_enc_dec(m: SampleV1R1) {
        lemma_rt_u32(m.a, crate::codec::spec_enc_opt_u32(m.b));
        crate::codec::lemma_rt_opt_u32(m.b, Seq::empty());
        assert(crate::codec::spec_enc_opt_u32(m.b) + Seq::<u8>::empty()
            =~= crate::codec::spec_enc_opt_u32(m.b));
    }

    fn encode_payload(&self) -> (r: Vec<u8>) {
        let mut out: Vec<u8> = Vec::new();
        enc_u32(&mut out, self.a);
        crate::codec::enc_opt_u32(&mut out, &self.b);
        out
    }

    fn decode_payload(bytes: &[u8]) -> (r: Result<Self, CodecError>) {
        proof {
            assert(bytes@.skip(0) =~= bytes@);
        }
        match dec_u32(bytes, 0) {
            Result::Ok((a, p1)) => match crate::codec::dec_opt_u32(bytes, p1) {
                Result::Ok((b, p2)) => {
                    if p2 == bytes.len() {
                        Result::Ok(SampleV1R1 { a, b })
                    } else {
                        Result::Err(CodecError)
                    }
                },
                Result::Err(e) => Result::Err(e),
            },
            Result::Err(e) => Result::Err(e),
        }
    }
}

impl VersionedLineage for SampleV1R1 {
    open spec fn spec_version() -> u32 {
        1
    }

    open spec fn spec_revision() -> u32 {
        1
    }

    open spec fn spec_decode_ver(wire_ver: u32, wire_rev: u32, payload: Seq<u8>) -> Result<
        SampleV1R1,
        WireError,
    > {
        if wire_ver == 1 && wire_rev == 1 {
            match Self::spec_dec(payload) {
                Option::Some(m) => Result::Ok(m),
                Option::None => Result::Err(WireError::Codec(CodecError)),
            }
        } else if wire_ver == 1 && wire_rev < 1 {
            match <SampleV1R0 as VersionedLineage>::spec_decode_ver(wire_ver, wire_rev, payload) {
                Result::Ok(p) => match spec_vmigrate_to_v1r1(p) {
                    Option::Some(m) => Result::Ok(m),
                    Option::None => Result::Err(WireError::MigrationFailed),
                },
                Result::Err(e) => Result::Err(e),
            }
        } else if wire_ver < 1 {
            match <NoPrevious as VersionedLineage>::spec_decode_ver(wire_ver, wire_rev, payload) {
                Result::Ok(p) => Result::Err(WireError::MigrationFailed),
                Result::Err(e) => Result::Err(e),
            }
        } else {
            Result::Err(WireError::FutureSchema)
        }
    }

    fn version() -> (r: u32) {
        1
    }

    fn revision() -> (r: u32) {
        1
    }

    fn decode_ver(wire_ver: u32, wire_rev: u32, payload: &[u8]) -> (r: Result<Self, WireError>) {
        if wire_ver == 1 && wire_rev == 1 {
            match Self::decode_payload(payload) {
                Result::Ok(v) => Result::Ok(v),
                Result::Err(e) => Result::Err(WireError::Codec(e)),
            }
        } else if wire_ver == 1 && wire_rev < 1 {
            match <SampleV1R0 as VersionedLineage>::decode_ver(wire_ver, wire_rev, payload) {
                Result::Ok(p) => match Self::migrate_from_revision(p) {
                    Option::Some(v) => Result::Ok(v),
                    Option::None => Result::Err(WireError::MigrationFailed),
                },
                Result::Err(e) => Result::Err(e),
            }
        } else if wire_ver < 1 {
            match <NoPrevious as VersionedLineage>::decode_ver(wire_ver, wire_rev, payload) {
                Result::Ok(p) => Result::Err(WireError::MigrationFailed),
                Result::Err(e) => Result::Err(e),
            }
        } else {
            Result::Err(WireError::FutureSchema)
        }
    }

    proof fn lemma_decode_ver_shape(wire_ver: u32, wire_rev: u32, payload: Seq<u8>) {
    }
}

impl ReviseVersioned for SampleV1R1 {
    type RevisionPrevious = SampleV1R0;

    type VersionPrevious = NoPrevious;

    open spec fn spec_migrate_from_revision(prev: SampleV1R0) -> Option<SampleV1R1> {
        spec_vmigrate_to_v1r1(prev)
    }

    open spec fn spec_migrate_from_version(prev: NoPrevious) -> Option<SampleV1R1> {
        Option::None
    }

    proof fn lemma_two_axis_lineage() {
    }

    proof fn lemma_decode_ver_older_revision(wire_ver: u32, wire_rev: u32, payload: Seq<u8>) {
    }

    proof fn lemma_decode_ver_older_version(wire_ver: u32, wire_rev: u32, payload: Seq<u8>) {
    }

    fn migrate_from_revision(prev: SampleV1R0) -> (r: Option<Self>) {
        Option::Some(SampleV1R1 { a: prev.a, b: Option::None })
    }

    fn migrate_from_version(prev: NoPrevious) -> (r: Option<Self>) {
        Option::None
    }
}

impl View for SampleV2R0 {
    type V = SampleV2R0;

    open spec fn view(&self) -> SampleV2R0 {
        *self
    }
}

impl Payload for SampleV2R0 {
    open spec fn spec_enc(m: SampleV2R0) -> Seq<u8> {
        spec_enc_u32(m.a) + spec_enc_u32(m.b)
    }

    open spec fn spec_dec(bytes: Seq<u8>) -> Option<SampleV2R0> {
        match spec_dec_u32(bytes) {
            Option::Some((a, r1)) => match spec_dec_u32(r1) {
                Option::Some((b, r2)) => if r2.len() == 0 {
                    Option::Some(SampleV2R0 { a, b })
                } else {
                    Option::None
                },
                Option::None => Option::None,
            },
            Option::None => Option::None,
        }
    }

    open spec fn model_wf(m: SampleV2R0) -> bool {
        true
    }

    proof fn lemma_enc_dec(m: SampleV2R0) {
        lemma_rt_u32(m.a, spec_enc_u32(m.b));
        lemma_rt_u32(m.b, Seq::empty());
        assert(spec_enc_u32(m.b) + Seq::<u8>::empty() =~= spec_enc_u32(m.b));
    }

    fn encode_payload(&self) -> (r: Vec<u8>) {
        let mut out: Vec<u8> = Vec::new();
        enc_u32(&mut out, self.a);
        enc_u32(&mut out, self.b);
        out
    }

    fn decode_payload(bytes: &[u8]) -> (r: Result<Self, CodecError>) {
        proof {
            assert(bytes@.skip(0) =~= bytes@);
        }
        match dec_u32(bytes, 0) {
            Result::Ok((a, p1)) => match dec_u32(bytes, p1) {
                Result::Ok((b, p2)) => {
                    if p2 == bytes.len() {
                        Result::Ok(SampleV2R0 { a, b })
                    } else {
                        Result::Err(CodecError)
                    }
                },
                Result::Err(e) => Result::Err(e),
            },
            Result::Err(e) => Result::Err(e),
        }
    }
}

impl VersionedLineage for SampleV2R0 {
    open spec fn spec_version() -> u32 {
        2
    }

    open spec fn spec_revision() -> u32 {
        0
    }

    open spec fn spec_decode_ver(wire_ver: u32, wire_rev: u32, payload: Seq<u8>) -> Result<
        SampleV2R0,
        WireError,
    > {
        if wire_ver == 2 && wire_rev == 0 {
            match Self::spec_dec(payload) {
                Option::Some(m) => Result::Ok(m),
                Option::None => Result::Err(WireError::Codec(CodecError)),
            }
        } else if wire_ver < 2 {
            match <SampleV1R1 as VersionedLineage>::spec_decode_ver(wire_ver, wire_rev, payload) {
                Result::Ok(p) => match spec_vmigrate_to_v2r0(p) {
                    Option::Some(m) => Result::Ok(m),
                    Option::None => Result::Err(WireError::MigrationFailed),
                },
                Result::Err(e) => Result::Err(e),
            }
        } else {
            Result::Err(WireError::FutureSchema)
        }
    }

    fn version() -> (r: u32) {
        2
    }

    fn revision() -> (r: u32) {
        0
    }

    fn decode_ver(wire_ver: u32, wire_rev: u32, payload: &[u8]) -> (r: Result<Self, WireError>) {
        if wire_ver == 2 && wire_rev == 0 {
            match Self::decode_payload(payload) {
                Result::Ok(v) => Result::Ok(v),
                Result::Err(e) => Result::Err(WireError::Codec(e)),
            }
        } else if wire_ver < 2 {
            match <SampleV1R1 as VersionedLineage>::decode_ver(wire_ver, wire_rev, payload) {
                Result::Ok(p) => match Self::migrate_from_version(p) {
                    Option::Some(v) => Result::Ok(v),
                    Option::None => Result::Err(WireError::MigrationFailed),
                },
                Result::Err(e) => Result::Err(e),
            }
        } else {
            Result::Err(WireError::FutureSchema)
        }
    }

    proof fn lemma_decode_ver_shape(wire_ver: u32, wire_rev: u32, payload: Seq<u8>) {
    }
}

impl ReviseVersioned for SampleV2R0 {
    type RevisionPrevious = NoPrevious;

    type VersionPrevious = SampleV1R1;

    open spec fn spec_migrate_from_revision(prev: NoPrevious) -> Option<SampleV2R0> {
        Option::None
    }

    open spec fn spec_migrate_from_version(prev: SampleV1R1) -> Option<SampleV2R0> {
        spec_vmigrate_to_v2r0(prev)
    }

    proof fn lemma_two_axis_lineage() {
    }

    proof fn lemma_decode_ver_older_revision(wire_ver: u32, wire_rev: u32, payload: Seq<u8>) {
    }

    proof fn lemma_decode_ver_older_version(wire_ver: u32, wire_rev: u32, payload: Seq<u8>) {
    }

    fn migrate_from_revision(prev: NoPrevious) -> (r: Option<Self>) {
        Option::None
    }

    fn migrate_from_version(prev: SampleV1R1) -> (r: Option<Self>) {
        match prev.b {
            Option::Some(b) => Option::Some(SampleV2R0 { a: prev.a, b }),
            Option::None => Option::None,
        }
    }
}

} // verus!
