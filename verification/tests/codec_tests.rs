use esp_bluedroid::codec::{
    codec_check, Attribute, BoolAttr, BytesAttr, CodecKind, I16Attr, I32Attr, I8Attr,
    StringAttr, U16Attr, U32Attr, U8Attr,
};
use esp_bluedroid::error::Error;

#[test]
fn u8_round_trip() {
    let v = U8Attr(0xAB);
    let bytes = v.get_bytes();
    assert_eq!(bytes, vec![0xAB]);
    assert_eq!(U8Attr::from_bytes(&bytes).unwrap(), v);
}

#[test]
fn u16_round_trip_little_endian() {
    let v = U16Attr(0x1234);
    let bytes = v.get_bytes();
    assert_eq!(bytes, vec![0x34, 0x12]);
    assert_eq!(U16Attr::from_bytes(&bytes).unwrap(), v);
}

#[test]
fn u32_round_trip_little_endian() {
    let v = U32Attr(0xDEADBEEF);
    let bytes = v.get_bytes();
    assert_eq!(bytes, vec![0xEF, 0xBE, 0xAD, 0xDE]);
    assert_eq!(U32Attr::from_bytes(&bytes).unwrap(), v);
}

#[test]
fn i8_round_trip_negative() {
    let v = I8Attr(-2);
    let bytes = v.get_bytes();
    assert_eq!(bytes, vec![0xFE]);
    assert_eq!(I8Attr::from_bytes(&bytes).unwrap(), v);
}

#[test]
fn i16_round_trip_negative() {
    let v = I16Attr(-2);
    let bytes = v.get_bytes();
    assert_eq!(bytes, vec![0xFE, 0xFF]);
    assert_eq!(I16Attr::from_bytes(&bytes).unwrap(), v);
}

#[test]
fn i32_round_trip_negative() {
    let v = I32Attr(-305419896);
    let bytes = v.get_bytes();
    assert_eq!(I32Attr::from_bytes(&bytes).unwrap(), v);
}

#[test]
fn bool_round_trip() {
    assert_eq!(BoolAttr(true).get_bytes(), vec![1]);
    assert_eq!(BoolAttr(false).get_bytes(), vec![0]);
    assert_eq!(BoolAttr::from_bytes(&[1]).unwrap(), BoolAttr(true));
    assert_eq!(BoolAttr::from_bytes(&[0]).unwrap(), BoolAttr(false));
    // Any nonzero byte decodes as true.
    assert_eq!(BoolAttr::from_bytes(&[7]).unwrap(), BoolAttr(true));
}

#[test]
fn string_round_trip_multibyte() {
    let v = StringAttr(String::from("caf\u{e9}"));
    let bytes = v.get_bytes();
    // UTF-8: the accented character takes two bytes.
    assert_eq!(bytes, vec![0x63, 0x61, 0x66, 0xC3, 0xA9]);
    assert_eq!(StringAttr::from_bytes(&bytes).unwrap(), v);
}

#[test]
fn string_rejects_invalid_utf8() {
    assert_eq!(StringAttr::from_bytes(&[0xFF, 0xFE]), Err(Error::CodecError));
}

#[test]
fn bytes_round_trip() {
    let v = BytesAttr(vec![9, 8, 7]);
    let bytes = v.get_bytes();
    assert_eq!(bytes, vec![9, 8, 7]);
    assert_eq!(BytesAttr::from_bytes(&bytes).unwrap(), v);
}

#[test]
fn fixed_width_codecs_reject_wrong_length() {
    assert_eq!(U8Attr::from_bytes(&[]), Err(Error::CodecError));
    assert_eq!(U8Attr::from_bytes(&[1, 2]), Err(Error::CodecError));
    assert_eq!(U16Attr::from_bytes(&[1]), Err(Error::CodecError));
    assert_eq!(U16Attr::from_bytes(&[1, 2, 3]), Err(Error::CodecError));
    assert_eq!(U32Attr::from_bytes(&[1, 2, 3]), Err(Error::CodecError));
    assert_eq!(I8Attr::from_bytes(&[1, 2]), Err(Error::CodecError));
    assert_eq!(I16Attr::from_bytes(&[1, 2, 3]), Err(Error::CodecError));
    assert_eq!(I32Attr::from_bytes(&[1, 2, 3, 4, 5]), Err(Error::CodecError));
    assert_eq!(BoolAttr::from_bytes(&[]), Err(Error::CodecError));
}

#[test]
fn codec_check_mirrors_decoding() {
    assert!(codec_check(CodecKind::U16, &[1, 2]));
    assert!(!codec_check(CodecKind::U16, &[1]));
    assert!(codec_check(CodecKind::Utf8, &[0x68, 0x69]));
    assert!(!codec_check(CodecKind::Utf8, &[0xFF]));
    assert!(codec_check(CodecKind::Bytes, &[]));
}
