use byteorder::{LittleEndian, WriteBytesExt};
use revise::codec::{
    dec_bool, dec_bytes, dec_opt_u32, dec_str, dec_u16, dec_u32, dec_u64, enc_bool, enc_bytes,
    enc_str, enc_u16, enc_u32, enc_u64,
};

#[test]
fn scalars_are_little_endian() {
    let mut out: Vec<u8> = Vec::new();
    enc_u16(&mut out, 0x1234);
    enc_u32(&mut out, 0xdead_beef);
    enc_u64(&mut out, 0x0102_0304_0506_0708);
    enc_bool(&mut out, true);
    enc_bool(&mut out, false);

    let mut expected: Vec<u8> = Vec::new();
    expected.write_u16::<LittleEndian>(0x1234).unwrap();
    expected.write_u32::<LittleEndian>(0xdead_beef).unwrap();
    expected.write_u64::<LittleEndian>(0x0102_0304_0506_0708).unwrap();
    expected.push(1);
    expected.push(0);
    assert_eq!(out, expected);

    assert_eq!(dec_u16(&out, 0), Ok((0x1234, 2)));
    assert_eq!(dec_u32(&out, 2), Ok((0xdead_beef, 6)));
    assert_eq!(dec_u64(&out, 6), Ok((0x0102_0304_0506_0708, 14)));
    assert_eq!(dec_bool(&out, 14), Ok((true, 15)));
    assert_eq!(dec_bool(&out, 15), Ok((false, 16)));
}

#[test]
fn truncated_scalars_fail() {
    assert!(dec_u32(&[1, 2, 3], 0).is_err());
    assert!(dec_u64(&[1, 2, 3, 4, 5, 6, 7], 0).is_err());
    assert!(dec_u16(&[1, 2], 1).is_err());
}

#[test]
fn bool_rejects_other_bytes() {
    assert!(dec_bool(&[2], 0).is_err());
    assert!(dec_bool(&[255], 0).is_err());
}

#[test]
fn option_layout_is_tag_then_value() {
    let mut out: Vec<u8> = Vec::new();
    enc_u32(&mut out, 0);
    assert_eq!(dec_opt_u32(&[0], 0), Ok((None, 1)));
    assert_eq!(dec_opt_u32(&[1, 7, 0, 0, 0], 0), Ok((Some(7), 5)));
    assert!(dec_opt_u32(&[3], 0).is_err());
    assert_eq!(
        bincode::serialize(&Some(7u32)).unwrap(),
        vec![1, 7, 0, 0, 0]
    );
}

#[test]
fn byte_strings_carry_a_u64_count() {
    let mut out: Vec<u8> = Vec::new();
    enc_bytes(&mut out, &[9, 8, 7]);
    assert_eq!(out, vec![3, 0, 0, 0, 0, 0, 0, 0, 9, 8, 7]);
    let (v, p) = dec_bytes(&out, 0).unwrap();
    assert_eq!((v.as_slice(), p), (&[9u8, 8, 7][..], 11));

    // A count running past the end of the buffer is rejected.
    assert!(dec_bytes(&[4, 0, 0, 0, 0, 0, 0, 0, 1], 0).is_err());
}

#[test]
fn strings_are_utf8_bytes() {
    let mut out: Vec<u8> = Vec::new();
    enc_str(&mut out, "héllo");
    assert_eq!(out, bincode::serialize("héllo").unwrap());
    let (s, p) = dec_str(&out, 0).unwrap();
    assert_eq!(s, "héllo");
    assert_eq!(p, out.len());

    // Invalid UTF-8 under a correct count is rejected.
    assert!(dec_str(&[2, 0, 0, 0, 0, 0, 0, 0, 0xff, 0xfe], 0).is_err());
}
