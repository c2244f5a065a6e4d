use revise::codec::CodecError;
use revise::versioned::{
    deserialize_versioned, serialize_versioned, SampleV1R0, SampleV1R1, SampleV2R0,
    VersionedLineage,
};
use revise::wire::NoPrevious;
use revise::WireError;

fn envelope<T: VersionedLineage>(v: &T) -> Vec<u8> {
    serialize_versioned(v).expect("encoding cannot fail")
}

#[test]
fn two_axis_header_is_version_then_revision() {
    let bytes = envelope(&SampleV1R1 { a: 7, b: None });
    assert_eq!(&bytes[..8], &[1, 0, 0, 0, 1, 0, 0, 0]);
    let bytes = envelope(&SampleV2R0 { a: 7, b: 1 });
    assert_eq!(&bytes[..8], &[2, 0, 0, 0, 0, 0, 0, 0]);
}

#[test]
fn two_axis_round_trip() {
    let v0 = SampleV1R0 { a: 11 };
    assert_eq!(deserialize_versioned::<SampleV1R0>(&envelope(&v0)).unwrap(), v0);
    let v1 = SampleV1R1 { a: 11, b: Some(5) };
    assert_eq!(deserialize_versioned::<SampleV1R1>(&envelope(&v1)).unwrap(), v1);
    let v2 = SampleV2R0 { a: 11, b: 5 };
    assert_eq!(deserialize_versioned::<SampleV2R0>(&envelope(&v2)).unwrap(), v2);
}

#[test]
fn revision_lag_migrates_within_version() {
    let bytes = envelope(&SampleV1R0 { a: 7 });
    let up: SampleV1R1 = deserialize_versioned(&bytes).unwrap();
    assert_eq!(up, SampleV1R1 { a: 7, b: None });
}

#[test]
fn version_lag_migrates_across_versions() {
    let bytes = envelope(&SampleV1R1 { a: 7, b: Some(3) });
    let up: SampleV2R0 = deserialize_versioned(&bytes).unwrap();
    assert_eq!(up, SampleV2R0 { a: 7, b: 3 });

    let bytes = envelope(&SampleV1R1 { a: 7, b: None });
    let err = deserialize_versioned::<SampleV2R0>(&bytes).unwrap_err();
    assert_eq!(err, WireError::MigrationFailed);
}

#[test]
fn both_axes_behind_walks_revision_then_version() {
    // (version 1, revision 0) against version 2: the version predecessor is
    // consulted with the same pair, which resolves its own revision lag
    // first; the migrated value lacks the required field, so the version
    // migration declines.
    let bytes = envelope(&SampleV1R0 { a: 7 });
    let err = deserialize_versioned::<SampleV2R0>(&bytes).unwrap_err();
    assert_eq!(err, WireError::MigrationFailed);
}

#[test]
fn two_axis_future_schema_rejected() {
    let newer_version = envelope(&SampleV2R0 { a: 1, b: 2 });
    let err = deserialize_versioned::<SampleV1R1>(&newer_version).unwrap_err();
    assert_eq!(err, WireError::FutureSchema);

    // Same version, newer revision.
    let mut crafted = vec![1, 0, 0, 0, 2, 0, 0, 0];
    crafted.extend_from_slice(&[0, 0, 0, 0]);
    let err = deserialize_versioned::<SampleV1R1>(&crafted).unwrap_err();
    assert_eq!(err, WireError::FutureSchema);
}

#[test]
fn two_axis_truncated_header_fails() {
    for len in 0..8 {
        let buf = vec![0u8; len];
        let err = deserialize_versioned::<SampleV1R1>(&buf).unwrap_err();
        assert_eq!(err, WireError::HeaderReadFailed);
    }
}

#[test]
fn two_axis_sentinel_never_decodes() {
    let err = deserialize_versioned::<NoPrevious>(&[0, 0, 0, 0, 0, 0, 0, 0]).unwrap_err();
    assert_eq!(err, WireError::Codec(CodecError));
    let err = deserialize_versioned::<NoPrevious>(&[0, 0, 0, 0, 1, 0, 0, 0]).unwrap_err();
    assert_eq!(err, WireError::FutureSchema);
}
