use byteorder::{LittleEndian, WriteBytesExt};
use revise::codec::CodecError;
use revise::sample::{SampleV0, SampleV1, SampleV2};
use revise::wire::NoPrevious;
use revise::{deserialize_revision, serialize_revision, WireError};

fn envelope<T: revise::Lineage>(v: &T) -> Vec<u8> {
    serialize_revision(v).expect("encoding cannot fail")
}

#[test]
fn header_is_little_endian_revision() {
    let bytes = envelope(&SampleV1 { a: 7, b: None });
    assert_eq!(&bytes[..4], &[1, 0, 0, 0]);

    let mut expected = Vec::new();
    expected.write_u32::<LittleEndian>(1).unwrap();
    assert_eq!(&bytes[..4], &expected[..]);

    let bytes0 = envelope(&SampleV0 { a: 7 });
    assert_eq!(&bytes0[..4], &[0, 0, 0, 0]);
}

#[test]
fn round_trip_current_revision() {
    let v = SampleV1 { a: 7, b: Some(3) };
    let bytes = envelope(&v);
    let back: SampleV1 = deserialize_revision(&bytes).unwrap();
    assert_eq!(back, v);

    let v2 = SampleV2 { a: 1, b: 2 };
    let back2: SampleV2 = deserialize_revision(&envelope(&v2)).unwrap();
    assert_eq!(back2, v2);

    let v0 = SampleV0 { a: 0xdead_beef };
    let back0: SampleV0 = deserialize_revision(&envelope(&v0)).unwrap();
    assert_eq!(back0, v0);
}

#[test]
fn old_revision_migrates_forward() {
    // The scenario from the lineage's documentation: a value encoded at the
    // oldest revision decodes at the next one with the new field absent.
    let bytes = envelope(&SampleV0 { a: 7 });
    let migrated: SampleV1 = deserialize_revision(&bytes).unwrap();
    assert_eq!(migrated, SampleV1 { a: 7, b: None });

    let bytes1 = envelope(&SampleV1 { a: 7, b: Some(3) });
    let same: SampleV1 = deserialize_revision(&bytes1).unwrap();
    assert_eq!(same, SampleV1 { a: 7, b: Some(3) });
}

#[test]
fn migration_defined_exactly_when_field_present() {
    let with_field = envelope(&SampleV1 { a: 4, b: Some(9) });
    let up: SampleV2 = deserialize_revision(&with_field).unwrap();
    assert_eq!(up, SampleV2 { a: 4, b: 9 });

    let without_field = envelope(&SampleV1 { a: 4, b: None });
    let err = deserialize_revision::<SampleV2>(&without_field).unwrap_err();
    assert_eq!(err, WireError::MigrationFailed);
}

#[test]
fn chain_walks_two_links() {
    // Oldest revision against the newest target: the payload decodes once,
    // both migrations run, and the second declines.
    let bytes = envelope(&SampleV0 { a: 4 });
    let err = deserialize_revision::<SampleV2>(&bytes).unwrap_err();
    assert_eq!(err, WireError::MigrationFailed);
}

#[test]
fn future_revision_is_rejected() {
    let newer = envelope(&SampleV2 { a: 1, b: 2 });
    let err = deserialize_revision::<SampleV1>(&newer).unwrap_err();
    assert_eq!(err, WireError::FutureSchema);

    // A wildly newer revision is rejected whatever the payload holds.
    let mut crafted = vec![99, 0, 0, 0];
    crafted.extend_from_slice(&[1, 2, 3]);
    let err = deserialize_revision::<SampleV1>(&crafted).unwrap_err();
    assert_eq!(err, WireError::FutureSchema);
}

#[test]
fn truncated_header_fails() {
    for len in 0..4 {
        let buf = vec![0u8; len];
        let err = deserialize_revision::<SampleV1>(&buf).unwrap_err();
        assert_eq!(err, WireError::HeaderReadFailed);
    }
}

#[test]
fn malformed_payload_is_a_codec_error() {
    // Correct header, payload too short for the field.
    let err = deserialize_revision::<SampleV0>(&[0, 0, 0, 0, 7]).unwrap_err();
    assert_eq!(err, WireError::Codec(CodecError));

    // Trailing bytes after the payload are rejected.
    let mut bytes = envelope(&SampleV0 { a: 7 });
    bytes.push(0);
    let err = deserialize_revision::<SampleV0>(&bytes).unwrap_err();
    assert_eq!(err, WireError::Codec(CodecError));

    // A bad option tag is rejected.
    let err = deserialize_revision::<SampleV1>(&[1, 0, 0, 0, 7, 0, 0, 0, 2]).unwrap_err();
    assert_eq!(err, WireError::Codec(CodecError));
}

#[test]
fn sentinel_never_decodes() {
    // Even a revision-0 envelope fails against the terminus type, as a codec
    // error, not a success.
    let err = deserialize_revision::<NoPrevious>(&[0, 0, 0, 0]).unwrap_err();
    assert_eq!(err, WireError::Codec(CodecError));

    let err = deserialize_revision::<NoPrevious>(&[0, 0, 0, 0, 1, 2]).unwrap_err();
    assert_eq!(err, WireError::Codec(CodecError));

    let err = deserialize_revision::<NoPrevious>(&[1, 0, 0, 0]).unwrap_err();
    assert_eq!(err, WireError::FutureSchema);
}

#[test]
fn payload_codec_matches_bincode_for_scalars_and_options() {
    // The structural codec uses the same fixed-width little-endian layout
    // bincode's legacy defaults produce for these shapes.
    let bytes = envelope(&SampleV0 { a: 7 });
    assert_eq!(&bytes[4..], &bincode::serialize(&7u32).unwrap()[..]);

    let bytes = envelope(&SampleV1 { a: 7, b: Some(3) });
    assert_eq!(
        &bytes[4..],
        &bincode::serialize(&(7u32, Some(3u32))).unwrap()[..]
    );

    let bytes = envelope(&SampleV1 { a: 7, b: None });
    assert_eq!(
        &bytes[4..],
        &bincode::serialize(&(7u32, Option::<u32>::None)).unwrap()[..]
    );
}
