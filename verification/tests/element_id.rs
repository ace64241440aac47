use ebml::{get_data_size, get_element_id, Cursor, EbmlError};

#[test]
fn test_basic() {
    let data = [0b00011000, 0b0, 0b0, 0b0];
    let mut c = Cursor::new(&data[..]);
    let id = get_element_id(&mut c).unwrap();
    assert_eq!(id, 402653184);
}

#[test]
fn test_invalid_ids() {
    let data = [u8::MAX];
    let mut c = Cursor::new(&data[..]);
    match get_element_id(&mut c) {
        Ok(_) => panic!("Should have returned an error"),
        Err(e) => match e {
            EbmlError::ElementIdAllOnes => {}
            _ => panic!("Incorrect error: {:#?}", e),
        },
    }

    let data = [0b10000000];
    let mut c = Cursor::new(&data[..]);
    match get_element_id(&mut c) {
        Ok(_) => panic!("Should have returned an error"),
        Err(e) => match e {
            EbmlError::ElementIdAllZeros => {}
            _ => panic!("Incorrect error: {:#?}", e),
        },
    }
}

#[test]
fn test_too_large() {
    let data = [0b00001000, 0b0, 0b0, 0b0, 0b1];
    let mut c = Cursor::new(&data[..]);
    match get_element_id(&mut c) {
        Ok(_) => panic!("Should have returned an error"),
        Err(e) => match e {
            EbmlError::InvalidElementIdSize => {}
            _ => panic!("Incorrect error: {:#?}", e),
        },
    }
}

#[test]
fn test_all_ones() {
    let data = [0b01111111, 0b11111111];
    let mut c = Cursor::new(&data[..]);
    match get_element_id(&mut c) {
        Ok(_) => panic!("Should have returned an error"),
        Err(e) => match e {
            EbmlError::ElementIdAllOnes => {}
            _ => panic!("Incorrect error: {:#?}", e),
        },
    }
}

#[test]
fn test_all_zeros() {
    let data = [0b01000000, 0b0];
    let mut c = Cursor::new(&data[..]);
    match get_element_id(&mut c) {
        Ok(_) => panic!("Should have returned an error"),
        Err(e) => match e {
            EbmlError::ElementIdAllZeros => {}
            _ => panic!("Incorrect error: {:#?}", e),
        },
    }
}

#[test]
fn test_longer_than_needed() {
    // The value 1 fits one octet, so a two-octet encoding breaks the
    // shortest-form rule.
    let data = [0x40, 0x01];
    let mut c = Cursor::new(&data[..]);
    assert_eq!(
        get_element_id(&mut c),
        Err(EbmlError::ElementIdLongerThanNeeded)
    );
}

#[test]
fn test_id_keeps_marker_bit() {
    let data = [0x42, 0x86];
    let mut c = Cursor::new(&data[..]);
    assert_eq!(get_element_id(&mut c).unwrap(), 0x4286);
}

#[test]
fn test_data_size_plain() {
    let data = [0x9B];
    let mut c = Cursor::new(&data[..]);
    let size = get_data_size(&mut c).unwrap();
    assert_eq!(size.value, 0x1B);
    assert!(!size.all_ones());
}

#[test]
fn test_data_size_unknown_sentinel() {
    // The all-ones pattern is a legal size whose sentinel meaning is kept.
    let data = [0xFF];
    let mut c = Cursor::new(&data[..]);
    let size = get_data_size(&mut c).unwrap();
    assert_eq!(size.value, 127);
    assert!(size.all_ones());
}
