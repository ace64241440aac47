use ebml::{
    get_data, Cursor, EbmlBinary, EbmlError, EbmlString, EbmlUnsignedInteger, VarInt,
};

#[test]
fn test_string_plain() {
    let s = EbmlString::new(b"matroska").unwrap();
    assert_eq!(s.text(), "matroska");
    assert_eq!(s.terminator_offset(), 8);
    assert_eq!(s.full_length(), 8);
}

#[test]
fn test_string_with_terminator_and_padding() {
    // The first NUL ends the text; padding behind it is retained but not
    // part of the text, even when it is not printable.
    let s = EbmlString::new(b"abc\0\xFFxyz").unwrap();
    assert_eq!(s.text(), "abc");
    assert_eq!(s.terminator_offset(), 3);
    assert_eq!(s.full_length(), 8);
}

#[test]
fn test_string_empty() {
    let s = EbmlString::new(b"").unwrap();
    assert_eq!(s.text(), "");
    assert_eq!(s.terminator_offset(), 0);
    assert_eq!(s.full_length(), 0);
}

#[test]
fn test_string_invalid_byte() {
    assert!(matches!(
        EbmlString::new(b"ab\x01c"),
        Err(EbmlError::InvalidString)
    ));
    assert!(matches!(
        EbmlString::new(b"\x7Fok"),
        Err(EbmlError::InvalidString)
    ));
}

#[test]
fn test_unsigned_integer_big_endian() {
    let u = EbmlUnsignedInteger::new(&[0x01, 0x02]).unwrap();
    assert_eq!(u.value, 258);
    let u = EbmlUnsignedInteger::new(&[0xDE, 0xAD, 0xBE, 0xEF]).unwrap();
    assert_eq!(u.value, 0xDEADBEEF);
}

#[test]
fn test_unsigned_integer_zero_extended() {
    let u = EbmlUnsignedInteger::new(&[]).unwrap();
    assert_eq!(u.value, 0);
    let u = EbmlUnsignedInteger::new(&[0x07]).unwrap();
    assert_eq!(u.value, 7);
}

#[test]
fn test_unsigned_integer_full_width() {
    let u = EbmlUnsignedInteger::new(&[0xFF; 8]).unwrap();
    assert_eq!(u.value, u64::MAX);
}

#[test]
fn test_unsigned_integer_too_wide() {
    assert!(matches!(
        EbmlUnsignedInteger::new(&[0x01; 9]),
        Err(EbmlError::OverMaximumSize(8))
    ));
}

#[test]
fn test_get_data_consumes() {
    let data = [1u8, 2, 3, 4, 5];
    let mut c = Cursor::new(&data[..]);
    let d = get_data(3, &mut c).unwrap();
    assert_eq!(d, &[1u8, 2, 3][..]);
    let d = get_data(2, &mut c).unwrap();
    assert_eq!(d, &[4u8, 5][..]);
}

#[test]
fn test_get_data_out_of_range() {
    let data = [1u8, 2, 3];
    let mut c = Cursor::new(&data[..]);
    assert_eq!(get_data(4, &mut c), Err(EbmlError::NoData));
    // The failed read did not move the cursor.
    assert_eq!(get_data(3, &mut c).unwrap(), &[1u8, 2, 3][..]);
}

#[test]
fn test_binary_zero_copy_range() {
    let data = [0x84u8, 9, 8, 7, 6, 5];
    let mut c = Cursor::new(&data[..]);
    let size = VarInt::get_var_int(&mut c).unwrap();
    let b = EbmlBinary::new(&size, &mut c).unwrap();
    assert_eq!(b.index, 1);
    assert_eq!(b.size, 4);
    assert_eq!(b.data, &[9u8, 8, 7, 6][..]);
}

#[test]
fn test_binary_over_buffer() {
    let data = [0x84u8, 9, 8];
    let mut c = Cursor::new(&data[..]);
    let size = VarInt::get_var_int(&mut c).unwrap();
    assert!(matches!(
        EbmlBinary::new(&size, &mut c),
        Err(EbmlError::NoData)
    ));
}
