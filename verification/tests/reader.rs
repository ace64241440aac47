use ebml::{BaseParser, Cursor, EbmlError, ElementReader, HeaderElement};

fn stream_buffer() -> Vec<u8> {
    let mut buf = vec![
        0x1A, 0x45, 0xDF, 0xA3, // EBML root ID
        0x88, // root body size: 8 octets
        0x42, 0x86, 0x81, 0x01, // EBMLVersion 1
        0x42, 0xF7, 0x81, 0x01, // EBMLReadVersion 1
    ];
    buf.extend_from_slice(&[0xEC, 0x82, 0x00, 0x00]); // Void, 2 padding octets
    buf.extend_from_slice(&[0xBF, 0x84, 1, 2, 3, 4]); // CRC-32, 4 octets
    buf
}

#[test]
fn test_reader_walks_top_level_elements() {
    let buf = stream_buffer();
    let cursor = Cursor::new(&buf[..]);
    let mut reader = ElementReader::new(cursor, BaseParser);

    match reader.next_element() {
        Some(Ok(HeaderElement::Ebml(h))) => {
            assert_eq!(h.version.unwrap().value, 1);
            assert_eq!(h.read_version.unwrap().value, 1);
        }
        other => panic!("expected the EBML header, got {:?}", other),
    }
    match reader.next_element() {
        Some(Ok(HeaderElement::Void(v))) => assert_eq!(v.size.value, 2),
        other => panic!("expected Void, got {:?}", other),
    }
    match reader.next_element() {
        Some(Ok(HeaderElement::Crc32(c))) => {
            assert_eq!(c.binary.data, &[1u8, 2, 3, 4][..]);
            assert_eq!(c.size.value, 4);
        }
        other => panic!("expected Crc32, got {:?}", other),
    }
    assert!(reader.next_element().is_none());
}

#[test]
fn test_reader_empty_buffer() {
    let buf: [u8; 0] = [];
    let cursor = Cursor::new(&buf[..]);
    let mut reader = ElementReader::new(cursor, BaseParser);
    assert!(reader.next_element().is_none());
}

#[test]
fn test_reader_unknown_element_is_terminal() {
    // An ID outside the base vocabulary: the reader reports it and does not
    // move past it, so a further pull meets the same element again.
    let buf = [0x42, 0x80, 0x81, 0x00];
    let cursor = Cursor::new(&buf[..]);
    let mut reader = ElementReader::new(cursor, BaseParser);
    match reader.next_element() {
        Some(Err(EbmlError::UnknownHeaderElement(id, size))) => {
            assert_eq!(id, 0x4280);
            assert_eq!(size.value, 1);
        }
        other => panic!("expected UnknownHeaderElement, got {:?}", other),
    }
    assert!(matches!(
        reader.next_element(),
        Some(Err(EbmlError::UnknownHeaderElement(_, _)))
    ));
}

#[test]
fn test_reader_top_level_scalar() {
    // A header child met at top level decodes as itself.
    let buf = [0x42, 0x82, 0x83, b'a', b'b', b'c'];
    let cursor = Cursor::new(&buf[..]);
    let mut reader = ElementReader::new(cursor, BaseParser);
    match reader.next_element() {
        Some(Ok(HeaderElement::DocType(s))) => assert_eq!(s.text(), "abc"),
        other => panic!("expected DocType, got {:?}", other),
    }
    assert!(reader.next_element().is_none());
}

#[test]
fn test_reader_malformed_header_is_reported() {
    // A truncated VINT at top level surfaces as the terminal error.
    let buf = [0x42];
    let cursor = Cursor::new(&buf[..]);
    let mut reader = ElementReader::new(cursor, BaseParser);
    assert!(matches!(
        reader.next_element(),
        Some(Err(EbmlError::VarIntEndedEarly))
    ));
}
