use ebml::{Cursor, EbmlError, VarInt, VarIntLength};

#[test]
fn test_length_order() {
    assert!(VarIntLength::One < VarIntLength::Two);
}

#[test]
fn test_2_byte() {
    let data = [0b01000010, 0b00000001];
    let mut c = Cursor::new(&data[..]);
    let vi = VarInt::get_var_int(&mut c).unwrap();
    assert_eq!(vi.value, 513);
}

#[test]
fn test_back_to_back() {
    let data = [0b01000010, 0b00000001, 0b10000001];
    let mut c = Cursor::new(&data[..]);
    let vi = VarInt::get_var_int(&mut c).unwrap();
    assert_eq!(vi.value, 513);
    let vi = VarInt::get_var_int(&mut c).unwrap();
    assert_eq!(vi.value, 1);
}

#[test]
fn test_larger_context() {
    let data = [
        0b01000010, 0b00000001, 0b10000001, 0b10000001, 0b10000001, 0b10000001, 0b10000001,
        0b10000001,
    ];
    let mut c = Cursor::new(&data[..]);
    let vi = VarInt::get_var_int(&mut c).unwrap();
    assert_eq!(vi.value, 513);
}

#[test]
fn test_reserved_space() {
    let data = [0b00000001, 0b0, 0b0, 0b0, 0b0, 0b0, 0b0, 0b00000011];
    let mut c = Cursor::new(&data[..]);
    let vi = VarInt::get_var_int(&mut c).unwrap();
    assert_eq!(vi.value, 3);
}

#[test]
fn test_simple() {
    let data = [0b10000010];
    let mut c = Cursor::new(&data[..]);
    let vi = VarInt::get_var_int(&mut c).unwrap();
    assert_eq!(vi.value, 2);
}

#[test]
fn test_get_var_int_incorrect() {
    let data = [0b01000010];
    let mut c = Cursor::new(&data[..]);
    match VarInt::get_var_int(&mut c) {
        Ok(_) => panic!("Should have returned an error"),
        Err(e) => match e {
            EbmlError::VarIntEndedEarly => {}
            _ => panic!("Incorrect error: {:#?}", e),
        },
    }
}

#[test]
fn test_no_data() {
    let data: [u8; 0] = [];
    let mut c = Cursor::new(&data[..]);
    assert_eq!(VarInt::get_var_int(&mut c), Err(EbmlError::NoData));
}

#[test]
fn test_no_marker_bit() {
    let data = [0b00000000, 0b11111111];
    let mut c = Cursor::new(&data[..]);
    assert_eq!(VarInt::get_var_int(&mut c), Err(EbmlError::VarIntNoLength));
}

#[test]
fn test_all_ones_every_length() {
    // The maximum-value bit pattern of each length class decodes to the
    // all-ones sentinel of that class.
    let patterns: [&[u8]; 8] = [
        &[0xFF],
        &[0x7F, 0xFF],
        &[0x3F, 0xFF, 0xFF],
        &[0x1F, 0xFF, 0xFF, 0xFF],
        &[0x0F, 0xFF, 0xFF, 0xFF, 0xFF],
        &[0x07, 0xFF, 0xFF, 0xFF, 0xFF, 0xFF],
        &[0x03, 0xFF, 0xFF, 0xFF, 0xFF, 0xFF, 0xFF],
        &[0x01, 0xFF, 0xFF, 0xFF, 0xFF, 0xFF, 0xFF, 0xFF],
    ];
    let maxima: [u64; 8] = [
        127,
        16383,
        2097151,
        268435455,
        34359738367,
        4398046511103,
        562949953421311,
        72057594037927935,
    ];
    for (i, pattern) in patterns.iter().enumerate() {
        let mut c = Cursor::new(pattern);
        let vi = VarInt::get_var_int(&mut c).unwrap();
        assert_eq!(vi.length.octets() as usize, i + 1, "length class {}", i + 1);
        assert_eq!(vi.value, maxima[i], "maximum of length class {}", i + 1);
        assert!(vi.all_ones(), "all_ones at length {}", i + 1);
    }
}

#[test]
fn test_round_trip_boundaries() {
    // Each boundary value fits its length class while the next value up
    // needs one more octet: 127 at one octet, 128 at two, 16383 at two,
    // 16384 at three, and the analogous doublings through eight octets.
    let cases: [(&[u8], u64, usize); 15] = [
        (&[0xFF], 127, 1),
        (&[0x40, 0x80], 128, 2),
        (&[0x7F, 0xFF], 16383, 2),
        (&[0x20, 0x40, 0x00], 16384, 3),
        (&[0x3F, 0xFF, 0xFF], 2097151, 3),
        (&[0x10, 0x20, 0x00, 0x00], 2097152, 4),
        (&[0x1F, 0xFF, 0xFF, 0xFF], 268435455, 4),
        (&[0x08, 0x10, 0x00, 0x00, 0x00], 268435456, 5),
        (&[0x0F, 0xFF, 0xFF, 0xFF, 0xFF], 34359738367, 5),
        (&[0x04, 0x08, 0x00, 0x00, 0x00, 0x00], 34359738368, 6),
        (&[0x07, 0xFF, 0xFF, 0xFF, 0xFF, 0xFF], 4398046511103, 6),
        (&[0x02, 0x04, 0x00, 0x00, 0x00, 0x00, 0x00], 4398046511104, 7),
        (&[0x03, 0xFF, 0xFF, 0xFF, 0xFF, 0xFF, 0xFF], 562949953421311, 7),
        (
            &[0x01, 0x02, 0x00, 0x00, 0x00, 0x00, 0x00, 0x00],
            562949953421312,
            8,
        ),
        (
            &[0x01, 0xFF, 0xFF, 0xFF, 0xFF, 0xFF, 0xFF, 0xFF],
            72057594037927935,
            8,
        ),
    ];
    for (bytes, value, length) in cases.iter() {
        let mut c = Cursor::new(bytes);
        let vi = VarInt::get_var_int(&mut c).unwrap();
        assert_eq!(vi.value, *value);
        assert_eq!(vi.length.octets() as usize, *length);
    }
}

#[test]
fn test_raw_value_keeps_marker() {
    let data = [0b10000010];
    let mut c = Cursor::new(&data[..]);
    let vi = VarInt::get_var_int(&mut c).unwrap();
    assert_eq!(vi.raw_value, 0x82);
    let data = [0x42, 0x86];
    let mut c = Cursor::new(&data[..]);
    let vi = VarInt::get_var_int(&mut c).unwrap();
    assert_eq!(vi.raw_value, 0x4286);
    assert_eq!(vi.value, 0x0286);
}
