//! A small three-revision lineage exercising the envelope end to end:
//! `SampleV0` is the oldest schema, `SampleV1` adds an optional field that
//! migration leaves absent, and `SampleV2` requires that field and declines
//! to migrate values that lack it.

use vstd::prelude::*;

use crate::codec::{
    dec_opt_u32, dec_u32, enc_opt_u32, enc_u32, lemma_rt_opt_u32, lemma_rt_u32, spec_dec_opt_u32,
    spec_dec_u32, spec_enc_opt_u32, spec_enc_u32, CodecError,
};
use crate::wire::{
    spec_deserialize, spec_serialize, Lineage, NoPrevious, Payload, Revise, WireError,
};

verus! {

/// Oldest sample schema: a single counter.
#[derive(Debug, Clone, Copy, PartialEq, Eq)]
pub struct SampleV0 {
    pub a: u32,
}

/// Adds an optional field; migrating from [`SampleV0`] leaves it absent.
#[derive(Debug, Clone, Copy, PartialEq, Eq)]
pub struct SampleV1 {
    pub a: u32,
    pub b: Option<u32>,
}

/// Requires the once-optional field; migrating a [`SampleV1`] that lacks it
/// declines.
#[derive(Debug, Clone, Copy, PartialEq, Eq)]
pub struct SampleV2 {
    pub a: u32,
    pub b: u32,
}

/// The migration [`SampleV1`] applies to a [`SampleV0`] value: the new
/// optional field starts out absent.
pub open spec fn spec_migrate_to_v1(prev: SampleV0) -> Option<SampleV1> {
    Option::Some(SampleV1 { a: prev.a, b: Option::None })
}

/// The migration [`SampleV2`] applies to a [`SampleV1`] value: defined only
/// when the optional field is present.
pub open spec fn spec_migrate_to_v2(prev: SampleV1) -> Option<SampleV2> {
    match prev.b {
        Option::Some(b) => Option::Some(SampleV2 { a: prev.a, b }),
        Option::None => Option::None,
    }
}

// ---------------------------------------------------------------------------
// SampleV0
// ---------------------------------------------------------------------------

impl View for SampleV0 {
    type V = SampleV0;

    open spec fn view(&self) -> SampleV0 {
        *self
    }
}

impl Payload for SampleV0 {
    open spec fn spec_enc(m: SampleV0) -> Seq<u8> {
        spec_enc_u32(m.a)
    }

    open spec fn spec_dec(bytes: Seq<u8>) -> Option<SampleV0> {
        match spec_dec_u32(bytes) {
            Option::Some((a, rest)) => if rest.len() == 0 {
                Option::Some(SampleV0 { a })
            } else {
                Option::None
            },
            Option::None => Option::None,
        }
    }

    open spec fn model_wf(m: SampleV0) -> bool {
        true
    }

    proof fn lemma_enc_dec(m: SampleV0) {
        lemma_rt_u32(m.a, Seq::empty());
        assert(spec_enc_u32(m.a) + Seq::<u8>::empty() =~= spec_enc_u32(m.a));
    }

    fn encode_payload(&self) -> (r: Vec<u8>) {
        let mut out: Vec<u8> = Vec::new();
        enc_u32(&mut out, self.a);
        out
    }

    fn decode_payload(bytes: &[u8]) -> (r: Result<Self, CodecError>) {
        proof {
            assert(bytes@.skip(0) =~= bytes@);
        }
        match dec_u32(bytes, 0) {
            Result::Ok((a, p)) => {
                if p == bytes.len() {
                    Result::Ok(SampleV0 { a })
                } else {
                    Result::Err(CodecError)
                }
            },
            Result::Err(e) => Result::Err(e),
        }
    }
}

impl Lineage for SampleV0 {
    open spec fn spec_revision() -> u32 {
        0
    }

    open spec fn spec_decode_rev(wire_rev: u32, payload: Seq<u8>) -> Result<SampleV0, WireError> {
        if wire_rev == 0 {
            match Self::spec_dec(payload) {
                Option::Some(m) => Result::Ok(m),
                Option::None => Result::Err(WireError::Codec(CodecError)),
            }
        } else {
            Result::Err(WireError::FutureSchema)
        }
    }

    fn revision() -> (r: u32) {
        0
    }

    fn decode_rev(wire_rev: u32, payload: &[u8]) -> (r: Result<Self, WireError>) {
        if wire_rev == Self::revision() {
            match Self::decode_payload(payload) {
                Result::Ok(v) => Result::Ok(v),
                Result::Err(e) => Result::Err(WireError::Codec(e)),
            }
        } else {
            Result::Err(WireError::FutureSchema)
        }
    }

    proof fn lemma_decode_shape(wire_rev: u32, payload: Seq<u8>) {
    }
}

impl Revise for SampleV0 {
    type Previous = NoPrevious;

    open spec fn spec_migrate(prev: NoPrevious) -> Option<SampleV0> {
        Option::None
    }

    proof fn lemma_lineage() {
    }

    proof fn lemma_decode_older(wire_rev: u32, payload: Seq<u8>) {
    }

    fn migrate_from_previous(prev: NoPrevious) -> (r: Option<Self>) {
        Option::None
    }
}

// ---------------------------------------------------------------------------
// SampleV1
// ---------------------------------------------------------------------------

impl View for SampleV1 {
    type V = SampleV1;

    open spec fn view(&self) -> SampleV1 {
        *self
    }
}

impl Payload for SampleV1 {
    open spec fn spec_enc(m: SampleV1) -> Seq<u8> {
        spec_enc_u32(m.a) + spec_enc_opt_u32(m.b)
    }

    open spec fn spec_dec(bytes: Seq<u8>) -> Option<SampleV1> {
        match spec_dec_u32(bytes) {
            Option::Some((a, r1)) => match spec_dec_opt_u32(r1) {
                Option::Some((b, r2)) => if r2.len() == 0 {
                    Option::Some(SampleV1 { a, b })
                } else {
                    Option::None
                },
                Option::None => Option::None,
            },
            Option::None => Option::None,
        }
    }

    open spec fn model_wf(m: SampleV1) -> bool {
        true
    }

    proof fn lemma_enc_dec(m: SampleV1) {
        lemma_rt_u32(m.a, spec_enc_opt_u32(m.b));
        lemma_rt_opt_u32(m.b, Seq::empty());
        assert(spec_enc_opt_u32(m.b) + Seq::<u8>::empty() =~= spec_enc_opt_u32(m.b));
    }

    fn encode_payload(&self) -> (r: Vec<u8>) {
        let mut out: Vec<u8> = Vec::new();
        enc_u32(&mut out, self.a);
        enc_opt_u32(&mut out, &self.b);
        out
    }

    fn decode_payload(bytes: &[u8]) -> (r: Result<Self, CodecError>) {
        proof {
            assert(bytes@.skip(0) =~= bytes@);
        }
        match dec_u32(bytes, 0) {
            Result::Ok((a, p1)) => match dec_opt_u32(bytes, p1) {
                Result::Ok((b, p2)) => {
                    if p2 == bytes.len() {
                        Result::Ok(SampleV1 { a, b })
                    } else {
                        Result::Err(CodecError)
                    }
                },
                Result::Err(e) => Result::Err(e),
            },
            Result::Err(e) => Result::Err(e),
        }
    }
}

impl Lineage for SampleV1 {
    open spec fn spec_revision() -> u32 {
        1
    }

    open spec fn spec_decode_rev(wire_rev: u32, payload: Seq<u8>) -> Result<SampleV1, WireError> {
        if wire_rev == 1 {
            match Self::spec_dec(payload) {
                Option::Some(m) => Result::Ok(m),
                Option::None => Result::Err(WireError::Codec(CodecError)),
            }
        } else if wire_rev < 1 {
            match <SampleV0 as Lineage>::spec_decode_rev(wire_rev, payload) {
                Result::Ok(p) => match spec_migrate_to_v1(p) {
                    Option::Some(m) => Result::Ok(m),
                    Option::None => Result::Err(WireError::MigrationFailed),
                },
                Result::Err(e) => Result::Err(e),
            }
        } else {
            Result::Err(WireError::FutureSchema)
        }
    }

    fn revision() -> (r: u32) {
        1
    }

    fn decode_rev(wire_rev: u32, payload: &[u8]) -> (r: Result<Self, WireError>) {
        let target = Self::revision();
        if wire_rev == target {
            match Self::decode_payload(payload) {
                Result::Ok(v) => Result::Ok(v),
                Result::Err(e) => Result::Err(WireError::Codec(e)),
            }
        } else if wire_rev < target {
            match <SampleV0 as Lineage>::decode_rev(wire_rev, payload) {
                Result::Ok(p) => match Self::migrate_from_previous(p) {
                    Option::Some(v) => Result::Ok(v),
                    Option::None => Result::Err(WireError::MigrationFailed),
                },
                Result::Err(e) => Result::Err(e),
            }
        } else {
            Result::Err(WireError::FutureSchema)
        }
    }

    proof fn lemma_decode_shape(wire_rev: u32, payload: Seq<u8>) {
    }
}

impl Revise for SampleV1 {
    type Previous = SampleV0;

    open spec fn spec_migrate(prev: SampleV0) -> Option<SampleV1> {
        spec_migrate_to_v1(prev)
    }

    proof fn lemma_lineage() {
    }

    proof fn lemma_decode_older(wire_rev: u32, payload: Seq<u8>) {
    }

    fn migrate_from_previous(prev: SampleV0) -> (r: Option<Self>) {
        Option::Some(SampleV1 { a: prev.a, b: Option::None })
    }
}

// ---------------------------------------------------------------------------
// SampleV2
// ---------------------------------------------------------------------------

impl View for SampleV2 {
    type V = SampleV2;

    open spec fn view(&self) -> SampleV2 {
        *self
    }
}

impl Payload for SampleV2 {
    open spec fn spec_enc(m: SampleV2) -> Seq<u8> {
        spec_enc_u32(m.a) + spec_enc_u32(m.b)
    }

    open spec fn spec_dec(bytes: Seq<u8>) -> Option<SampleV2> {
        match spec_dec_u32(bytes) {
            Option::Some((a, r1)) => match spec_dec_u32(r1) {
                Option::Some((b, r2)) => if r2.len() == 0 {
                    Option::Some(SampleV2 { a, b })
                } else {
                    Option::None
                },
                Option::None => Option::None,
            },
            Option::None => Option::None,
        }
    }

    open spec fn model_wf(m: SampleV2) -> bool {
        true
    }

    proof fn lemma_enc_dec(m: SampleV2) {
        lemma_rt_u32(m.a, spec_enc_u32(m.b));
        lemma_rt_u32(m.b, Seq::empty());
        assert(spec_enc_u32(m.b) + Seq::<u8>::empty() =~= spec_enc_u32(m.b));
    }

    fn encode_payload(&self) -> (r: Vec<u8>) {
        let mut out: Vec<u8> = Vec::new();
        enc_u32(&mut out, self.a);
        enc_u32(&mut out, self.b);
        out
    }

    fn decode_payload(bytes: &[u8]) -> (r: Result<Self, CodecError>) {
        proof {
            assert(bytes@.skip(0) =~= bytes@);
        }
        match dec_u32(bytes, 0) {
            Result::Ok((a, p1)) => match dec_u32(bytes, p1) {
                Result::Ok((b, p2)) => {
                    if p2 == bytes.len() {
                        Result::Ok(SampleV2 { a, b })
                    } else {
                        Result::Err(CodecError)
                    }
                },
                Result::Err(e) => Result::Err(e),
            },
            Result::Err(e) => Result::Err(e),
        }
    }
}

impl Lineage for SampleV2 {
    open spec fn spec_revision() -> u32 {
        2
    }

    open spec fn spec_decode_rev(wire_rev: u32, payload: Seq<u8>) -> Result<SampleV2, WireError> {
        if wire_rev == 2 {
            match Self::spec_dec(payload) {
                Option::Some(m) => Result::Ok(m),
                Option::None => Result::Err(WireError::Codec(CodecError)),
            }
        } else if wire_rev < 2 {
            match <SampleV1 as Lineage>::spec_decode_rev(wire_rev, payload) {
                Result::Ok(p) => match spec_migrate_to_v2(p) {
                    Option::Some(m) => Result::Ok(m),
                    Option::None => Result::Err(WireError::MigrationFailed),
                },
                Result::Err(e) => Result::Err(e),
            }
        } else {
            Result::Err(WireError::FutureSchema)
        }
    }

    fn revision() -> (r: u32) {
        2
    }

    fn decode_rev(wire_rev: u32, payload: &[u8]) -> (r: Result<Self, WireError>) {
        let target = Self::revision();
        if wire_rev == target {
            match Self::decode_payload(payload) {
                Result::Ok(v) => Result::Ok(v),
                Result::Err(e) => Result::Err(WireError::Codec(e)),
            }
        } else if wire_rev < target {
            match <SampleV1 as Lineage>::decode_rev(wire_rev, payload) {
                Result::Ok(p) => match Self::migrate_from_previous(p) {
                    Option::Some(v) => Result::Ok(v),
                    Option::None => Result::Err(WireError::MigrationFailed),
                },
                Result::Err(e) => Result::Err(e),
            }
        } else {
            Result::Err(WireError::FutureSchema)
        }
    }

    proof fn lemma_decode_shape(wire_rev: u32, payload: Seq<u8>) {
    }
}

impl Revise for SampleV2 {
    type Previous = SampleV1;

    open spec fn spec_migrate(prev: SampleV1) -> Option<SampleV2> {
        spec_migrate_to_v2(prev)
    }

    proof fn lemma_lineage() {
    }

    proof fn lemma_decode_older(wire_rev: u32, payload: Seq<u8>) {
    }

    fn migrate_from_previous(prev: SampleV1) -> (r: Option<Self>) {
        match prev.b {
            Option::Some(b) => Option::Some(SampleV2 { a: prev.a, b }),
            Option::None => Option::None,
        }
    }
}

/// Chain depth: resolving the oldest sample revision against the newest
/// target follows exactly the two predecessor links the revision distance
/// dictates — the payload decodes once, as `SampleV0`, and both migrations
/// run on the result; here the second declines, so the walk surfaces
/// `MigrationFailed`.
pub proof fn lemma_sample_chain_depth(p: SampleV0)
    ensures
        spec_deserialize::<SampleV2>(spec_serialize::<SampleV0>(p)) == Result::Err::<
            SampleV2,
            WireError,
        >(WireError::MigrationFailed),
{
    crate::wire::lemma_migration::<SampleV1>(p);
    let bytes = spec_serialize::<SampleV0>(p);
    let payload = <SampleV0 as Payload>::spec_enc(p);
    assert(bytes.take(4) =~= crate::codec::spec_enc_u32(0));
    assert(bytes.skip(4) =~= payload);
    crate::codec::lemma_le_u32_enc(0);
    <SampleV2 as Revise>::lemma_decode_older(0, payload);
    <SampleV1 as Revise>::lemma_decode_older(0, payload);
    <SampleV0 as Lineage>::lemma_decode_shape(0, payload);
    <SampleV0 as Payload>::lemma_enc_dec(p);
}

} // verus!
