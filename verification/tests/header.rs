use ebml::{Cursor, EbmlError, EbmlHeader};

/// A minimal well-formed EBML header: root wrapping version fields and
/// DocType "matroska".
fn minimal_header() -> Vec<u8> {
    let mut buf = vec![
        0x1A, 0x45, 0xDF, 0xA3, // EBML root ID
        0x9B, // root body size: 27 octets
    ];
    buf.extend_from_slice(&[0x42, 0x86, 0x81, 0x01]); // EBMLVersion 1
    buf.extend_from_slice(&[0x42, 0xF7, 0x81, 0x01]); // EBMLReadVersion 1
    buf.extend_from_slice(&[0x42, 0x82, 0x88]); // DocType, 8 octets
    buf.extend_from_slice(b"matroska");
    buf.extend_from_slice(&[0x42, 0x87, 0x81, 0x04]); // DocTypeVersion 4
    buf.extend_from_slice(&[0x42, 0x85, 0x81, 0x02]); // DocTypeReadVersion 2
    buf
}

#[test]
fn test_minimal_header() {
    let buf = minimal_header();
    let mut c = Cursor::new(&buf[..]);
    let h = EbmlHeader::parse_header(&mut c).unwrap();
    assert_eq!(h.version.unwrap().value, 1);
    assert_eq!(h.read_version.unwrap().value, 1);
    assert_eq!(h.doc_type.unwrap().text(), "matroska");
    assert_eq!(h.doc_type_version.unwrap().value, 4);
    assert_eq!(h.doc_type_read_version.unwrap().value, 2);
    assert!(h.max_id_length.is_none());
    assert!(h.max_size_length.is_none());
    assert!(h.doc_type_extensions.is_none());
    assert_eq!(c.position, buf.len());
}

#[test]
fn test_unknown_child_id_is_an_error() {
    // 0x4280 is a well-formed element ID outside the closed header
    // vocabulary: the assembler reports it rather than skipping it.
    let mut buf = vec![0x1A, 0x45, 0xDF, 0xA3, 0x84];
    buf.extend_from_slice(&[0x42, 0x80, 0x81, 0x00]);
    let mut c = Cursor::new(&buf[..]);
    match EbmlHeader::parse_header(&mut c) {
        Err(EbmlError::InvalidElement(id)) => assert_eq!(id, 0x4280),
        other => panic!("expected InvalidElement, got {:?}", other),
    }
}

#[test]
fn test_bad_root_id() {
    // A well-formed element that is not the EBML root.
    let buf = [0x42, 0x86, 0x81, 0x01];
    let mut c = Cursor::new(&buf[..]);
    match EbmlHeader::parse_header(&mut c) {
        Err(EbmlError::InvalidElement(id)) => assert_eq!(id, 0x4286),
        other => panic!("expected InvalidElement, got {:?}", other),
    }
}

#[test]
fn test_root_must_be_sized() {
    // The unknown-size sentinel on the root element is refused.
    let buf = [0x1A, 0x45, 0xDF, 0xA3, 0xFF];
    let mut c = Cursor::new(&buf[..]);
    assert!(matches!(
        EbmlHeader::parse_header(&mut c),
        Err(EbmlError::MustBeSized)
    ));
}

fn extension_header(name_first: bool) -> Vec<u8> {
    // DocTypeExtension group: Name "ext1" (7 octets) and Version 3
    // (4 octets), in either order.
    let name_child: &[u8] = &[0x42, 0x83, 0x84, b'e', b'x', b't', b'1'];
    let version_child: &[u8] = &[0x42, 0x84, 0x81, 0x03];
    let mut buf = vec![
        0x1A, 0x45, 0xDF, 0xA3, // EBML root ID
        0x8E, // root body size: 14 octets
        0x42, 0x81, 0x8B, // DocTypeExtension, announced size 11
    ];
    if name_first {
        buf.extend_from_slice(name_child);
        buf.extend_from_slice(version_child);
    } else {
        buf.extend_from_slice(version_child);
        buf.extend_from_slice(name_child);
    }
    buf
}

#[test]
fn test_extension_order_independent() {
    let b1 = extension_header(true);
    let b2 = extension_header(false);
    let mut c1 = Cursor::new(&b1[..]);
    let mut c2 = Cursor::new(&b2[..]);
    let h1 = EbmlHeader::parse_header(&mut c1).unwrap();
    let h2 = EbmlHeader::parse_header(&mut c2).unwrap();
    let e1 = &h1.doc_type_extensions.unwrap()[0];
    let e2 = &h2.doc_type_extensions.unwrap()[0];
    assert_eq!(e1.name.text(), "ext1");
    assert_eq!(e2.name.text(), e1.name.text());
    assert_eq!(e1.version.value, 3);
    assert_eq!(e2.version.value, e1.version.value);
}

#[test]
fn test_malformed_extension_pair() {
    // Two version children: neither order of roles fits.
    let mut buf = vec![0x1A, 0x45, 0xDF, 0xA3, 0x8B, 0x42, 0x81, 0x88];
    buf.extend_from_slice(&[0x42, 0x84, 0x81, 0x03]);
    buf.extend_from_slice(&[0x42, 0x84, 0x81, 0x05]);
    let mut c = Cursor::new(&buf[..]);
    assert!(matches!(
        EbmlHeader::parse_header(&mut c),
        Err(EbmlError::InvalidElement(_))
    ));
}

#[test]
fn test_repeated_child_overwrites() {
    // A repeated field is not an error; the later occurrence wins.
    let mut buf = vec![0x1A, 0x45, 0xDF, 0xA3, 0x88];
    buf.extend_from_slice(&[0x42, 0x86, 0x81, 0x01]);
    buf.extend_from_slice(&[0x42, 0x86, 0x81, 0x07]);
    let mut c = Cursor::new(&buf[..]);
    let h = EbmlHeader::parse_header(&mut c).unwrap();
    assert_eq!(h.version.unwrap().value, 7);
}

#[test]
fn test_truncated_child_payload() {
    // A child whose announced payload runs past the buffer.
    let mut buf = vec![0x1A, 0x45, 0xDF, 0xA3, 0x88];
    buf.extend_from_slice(&[0x42, 0x86, 0x84, 0x01]);
    let mut c = Cursor::new(&buf[..]);
    assert!(matches!(
        EbmlHeader::parse_header(&mut c),
        Err(EbmlError::NoData)
    ));
}

#[test]
fn test_parse_twice_identical() {
    // Fresh cursors over the same immutable buffer give structurally equal
    // results.
    let buf = minimal_header();
    let mut c1 = Cursor::new(&buf[..]);
    let mut c2 = Cursor::new(&buf[..]);
    let h1 = EbmlHeader::parse_header(&mut c1).unwrap();
    let h2 = EbmlHeader::parse_header(&mut c2).unwrap();
    assert_eq!(c1.position, c2.position);
    assert_eq!(
        h1.version.as_ref().unwrap().value,
        h2.version.as_ref().unwrap().value
    );
    assert_eq!(
        h1.read_version.as_ref().unwrap().value,
        h2.read_version.as_ref().unwrap().value
    );
    assert_eq!(
        h1.doc_type.as_ref().unwrap().text(),
        h2.doc_type.as_ref().unwrap().text()
    );
    assert_eq!(
        h1.doc_type_version.as_ref().unwrap().value,
        h2.doc_type_version.as_ref().unwrap().value
    );
    assert_eq!(
        h1.doc_type_read_version.as_ref().unwrap().value,
        h2.doc_type_read_version.as_ref().unwrap().value
    );
    assert!(h1.max_id_length.is_none() && h2.max_id_length.is_none());
    assert!(h1.max_size_length.is_none() && h2.max_size_length.is_none());
    assert!(h1.doc_type_extensions.is_none() && h2.doc_type_extensions.is_none());
}

#[test]
fn test_header_clone_keeps_fields() {
    let buf = minimal_header();
    let mut c = Cursor::new(&buf[..]);
    let h = EbmlHeader::parse_header(&mut c).unwrap();
    let copy = h.clone();
    assert_eq!(copy.doc_type.unwrap().text(), "matroska");
    assert_eq!(copy.version.unwrap().value, 1);
}
