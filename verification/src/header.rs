use vstd::prelude::*;
use crate::cursor::Cursor;
use crate::element::{EbmlElement, ElementModel, get_data, header_decode, lemma_header_decode_bounds};
use crate::error::EbmlError;
use crate::scalars::{EbmlString, EbmlUnsignedInteger, StringModel, str_decode, uint_decode};
use crate::varint::{VarInt, vint_max};

verus! {

// ---------------------------------------------------------------------------
// The EBML header vocabulary.
// ---------------------------------------------------------------------------

/// The EBML root element: the master element that wraps the whole header.
pub struct Ebml {
    pub size: VarInt,
}

impl Ebml {
    pub const ID: u64 = 0x1A45DFA3;
}

/// The EBMLVersion child: the EBML version the document was written with.
#[derive(Debug, Clone)]
pub struct EbmlVersion {
    pub size: VarInt,
    pub value: EbmlUnsignedInteger,
}

impl EbmlVersion {
    pub const ID: u64 = 0x4286;

    pub fn new(size: VarInt, value: EbmlUnsignedInteger) -> (r: Self)
        ensures
            r.size == size,
            r.value == value,
    {
        EbmlVersion { size, value }
    }
}

/// The EBMLReadVersion child: the minimum version a reader must support.
#[derive(Debug, Clone)]
pub struct EbmlReadVersion {
    pub size: VarInt,
    pub value: EbmlUnsignedInteger,
}

impl EbmlReadVersion {
    pub const ID: u64 = 0x42F7;

    pub fn new(size: VarInt, value: EbmlUnsignedInteger) -> (r: Self)
        ensures
            r.size == size,
            r.value == value,
    {
        EbmlReadVersion { size, value }
    }
}

/// The EBMLMaxIDLength child: the widest element ID the document uses.
#[derive(Debug, Clone)]
pub struct EbmlMaxIdLength {
    pub size: VarInt,
    pub value: EbmlUnsignedInteger,
}

impl EbmlMaxIdLength {
    pub const ID: u64 = 0x42F2;

    pub fn new(size: VarInt, value: EbmlUnsignedInteger) -> (r: Self)
        ensures
            r.size == size,
            r.value == value,
    {
        EbmlMaxIdLength { size, value }
    }
}

/// The EBMLMaxSizeLength child: the widest data size the document uses.
#[derive(Debug, Clone)]
pub struct EbmlMaxSizeLength {
    pub size: VarInt,
    pub value: EbmlUnsignedInteger,
}

impl EbmlMaxSizeLength {
    pub const ID: u64 = 0x42F3;

    pub fn new(size: VarInt, value: EbmlUnsignedInteger) -> (r: Self)
        ensures
            r.size == size,
            r.value == value,
    {
        EbmlMaxSizeLength { size, value }
    }
}

/// The DocType child: which schema governs the elements after the header.
#[derive(Debug, Clone)]
pub struct DocType {
    pub size: VarInt,
    pub value: EbmlString,
}

impl DocType {
    pub const ID: u64 = 0x4282;

    pub fn new(size: VarInt, value: EbmlString) -> (r: Self)
        ensures
            r.size == size,
            r.value == value,
    {
        DocType { size, value }
    }
}

/// The DocTypeVersion child: the schema version the document was written with.
#[derive(Debug, Clone)]
pub struct DocTypeVersion {
    pub size: VarInt,
    pub value: EbmlUnsignedInteger,
}

impl DocTypeVersion {
    pub const ID: u64 = 0x4287;

    pub fn new(size: VarInt, value: EbmlUnsignedInteger) -> (r: Self)
        ensures
            r.size == size,
            r.value == value,
    {
        DocTypeVersion { size, value }
    }
}

/// The DocTypeReadVersion child: the minimum schema version a reader needs.
#[derive(Debug, Clone)]
pub struct DocTypeReadVersion {
    pub size: VarInt,
    pub value: EbmlUnsignedInteger,
}

impl DocTypeReadVersion {
    pub const ID: u64 = 0x4285;

    pub fn new(size: VarInt, value: EbmlUnsignedInteger) -> (r: Self)
        ensures
            r.size == size,
            r.value == value,
    {
        DocTypeReadVersion { size, value }
    }
}

/// The name half of a DocTypeExtension pair.
#[derive(Debug, Clone)]
pub struct DocTypeExtensionName {
    pub size: VarInt,
    pub value: EbmlString,
}

impl DocTypeExtensionName {
    pub const ID: u64 = 0x4283;

    pub fn new(size: VarInt, value: EbmlString) -> (r: Self)
        ensures
            r.size == size,
            r.value == value,
    {
        DocTypeExtensionName { size, value }
    }
}

/// The version half of a DocTypeExtension pair.
#[derive(Debug, Clone)]
pub struct DocTypeExtensionVersion {
    pub size: VarInt,
    pub value: EbmlUnsignedInteger,
}

impl DocTypeExtensionVersion {
    pub const ID: u64 = 0x4284;

    pub fn new(size: VarInt, value: EbmlUnsignedInteger) -> (r: Self)
        ensures
            r.size == size,
            r.value == value,
    {
        DocTypeExtensionVersion { size, value }
    }
}

/// One DocTypeExtension: a named schema extension with its version. The pair
/// of children that carries it may arrive in either order on the wire.
#[derive(Debug, Clone)]
pub struct DocTypeExtension {
    pub name: EbmlString,
    pub version: EbmlUnsignedInteger,
}

/// The mathematical reading of one DocTypeExtension.
pub struct ExtensionModel {
    pub name: StringModel,
    pub version: int,
}

impl View for DocTypeExtension {
    type V = ExtensionModel;

    open spec fn view(&self) -> ExtensionModel {
        ExtensionModel { name: self.name@, version: self.version.value as int }
    }
}

impl DocTypeExtension {
    pub const ID: u64 = 0x4281;

    pub fn new(name: EbmlString, version: EbmlUnsignedInteger) -> (r: Self)
        ensures
            r.name == name,
            r.version == version,
    {
        DocTypeExtension { name, version }
    }
}

// ---------------------------------------------------------------------------
// The assembled header and its mathematical model.
// ---------------------------------------------------------------------------

/// The mathematical reading of an assembled EBML header: each optional field
/// as the value it decoded to, and the extension list in arrival order.
pub struct HeaderModel {
    pub version: Option<int>,
    pub read_version: Option<int>,
    pub max_id_length: Option<int>,
    pub max_size_length: Option<int>,
    pub doc_type: Option<StringModel>,
    pub doc_type_version: Option<int>,
    pub doc_type_read_version: Option<int>,
    pub doc_type_extensions: Option<Seq<ExtensionModel>>,
}

/// The model of a header with no field populated yet.
pub open spec fn empty_header_model() -> HeaderModel {
    HeaderModel {
        version: None,
        read_version: None,
        max_id_length: None,
        max_size_length: None,
        doc_type: None,
        doc_type_version: None,
        doc_type_read_version: None,
        doc_type_extensions: None,
    }
}

/// One more extension appended to a header model's list; a first extension
/// turns the absent list into a list of one.
pub open spec fn with_extension(h: HeaderModel, ext: ExtensionModel) -> HeaderModel {
    HeaderModel {
        doc_type_extensions: Some(
            match h.doc_type_extensions {
                Some(s) => s.push(ext),
                None => seq![ext],
            },
        ),
        ..h
    }
}

/// The assembled EBML header. Fields are populated as the root element's
/// children arrive; a repeated child silently overwrites the earlier value.
#[derive(Debug, Clone)]
pub struct EbmlHeader {
    pub version: Option<EbmlUnsignedInteger>,
    pub read_version: Option<EbmlUnsignedInteger>,
    pub max_id_length: Option<EbmlUnsignedInteger>,
    pub max_size_length: Option<EbmlUnsignedInteger>,
    pub doc_type: Option<EbmlString>,
    pub doc_type_version: Option<EbmlUnsignedInteger>,
    pub doc_type_read_version: Option<EbmlUnsignedInteger>,
    pub doc_type_extensions: Option<Vec<DocTypeExtension>>,
}

impl View for EbmlHeader {
    type V = HeaderModel;

    open spec fn view(&self) -> HeaderModel {
        HeaderModel {
            version: match self.version {
                Some(u) => Some(u.value as int),
                None => None,
            },
            read_version: match self.read_version {
                Some(u) => Some(u.value as int),
                None => None,
            },
            max_id_length: match self.max_id_length {
                Some(u) => Some(u.value as int),
                None => None,
            },
            max_size_length: match self.max_size_length {
                Some(u) => Some(u.value as int),
                None => None,
            },
            doc_type: match self.doc_type {
                Some(s) => Some(s@),
                None => None,
            },
            doc_type_version: match self.doc_type_version {
                Some(u) => Some(u.value as int),
                None => None,
            },
            doc_type_read_version: match self.doc_type_read_version {
                Some(u) => Some(u.value as int),
                None => None,
            },
            doc_type_extensions: match self.doc_type_extensions {
                Some(v) => Some(v@.map_values(|e: DocTypeExtension| e@)),
                None => None,
            },
        }
    }
}

impl EbmlHeader {
    /// A well-formed header: every string it holds is well formed.
    pub open spec fn wf(self) -> bool {
        &&& (self.doc_type matches Some(s) ==> s.wf())
        &&& (self.doc_type_extensions matches Some(v) ==> forall|i: int|
            0 <= i < v@.len() ==> (#[trigger] v@[i]).name.wf())
    }

    /// Assembles the EBML header at the cursor: reads the root element,
    /// checks its identity and that it carries a known size, then folds each
    /// child into the header's fields until the root's body is exhausted.
    pub fn parse_header(cursor: &mut Cursor) -> (r: Result<EbmlHeader, EbmlError>)
        requires
            old(cursor).wf(),
        ensures
            final(cursor).wf(),
            final(cursor).data == old(cursor).data,
            match header_parse(old(cursor).data@, old(cursor).position as int) {
                Ok((m, q)) => {
                    &&& r matches Ok(h) && h@ == m && h.wf()
                    &&& final(cursor).position == q
                },
                Err(e) => r == Err::<EbmlHeader, EbmlError>(e),
            },
    {
        let ebml = match EbmlElement::read_header(cursor) {
            Ok(el) => el,
            Err(e) => {
                return Err(e);
            },
        };
        if ebml.id != Ebml::ID {
            return Err(EbmlError::InvalidElement(ebml.id));
        }
        if ebml.size.all_ones() {
            return Err(EbmlError::MustBeSized);
        }
        Self::parse_body(cursor, ebml.size.value)
    }

    /// Scans a fully sized EBML master body of `size` octets at the cursor
    /// and folds its children into a fresh header.
    pub fn parse_body(cursor: &mut Cursor, size: u64) -> (r: Result<EbmlHeader, EbmlError>)
        requires
            old(cursor).wf(),
        ensures
            final(cursor).wf(),
            final(cursor).data == old(cursor).data,
            match scan_children(
                old(cursor).data@,
                old(cursor).position as int,
                old(cursor).position + size,
                empty_header_model(),
            ) {
                Ok(step) => {
                    &&& r matches Ok(h) && h@ == step.0 && h.wf()
                    &&& final(cursor).position == step.1
                },
                Err(e) => r == Err::<EbmlHeader, EbmlError>(e),
            },
    {
        let ghost data = cursor.data@;
        let mut header = EbmlHeader::default();
        let body_start = cursor.position;
        let ghost endp = body_start as int + size as int;
        let ghost target = scan_children(data, body_start as int, endp, empty_header_model());
        while ((cursor.position - body_start) as u64) < size
            invariant
                cursor.wf(),
                cursor.data@ == data,
                cursor.data == old(cursor).data,
                data == old(cursor).data@,
                body_start == old(cursor).position,
                target == scan_children(data, body_start as int, endp, empty_header_model()),
                body_start <= cursor.position,
                header.wf(),
                endp == body_start as int + size as int,
                scan_children(data, cursor.position as int, endp, header@) == target,
            decreases (if endp - cursor.position >= 0 {
                endp - cursor.position
            } else {
                0
            }),
        {
            let ghost p_i = cursor.position as int;
            let ghost h_i = header@;
            proof {
                lemma_scan_step_progress(data, p_i, h_i);
            }
            match Self::parse_child(cursor, &mut header) {
                Ok(()) => {},
                Err(e) => {
                    return Err(e);
                },
            }
            proof {
                assert(scan_children(data, p_i, endp, h_i) == scan_children(
                    data,
                    cursor.position as int,
                    endp,
                    header@,
                ));
            }
        }
        Ok(header)
    }

    /// Reads one child element of the EBML root and folds it into the
    /// header's fields, exactly as one step of the scan.
    fn parse_child(cursor: &mut Cursor, header: &mut EbmlHeader) -> (r: Result<(), EbmlError>)
        requires
            old(cursor).wf(),
            old(header).wf(),
        ensures
            final(cursor).wf(),
            final(cursor).data == old(cursor).data,
            final(header).wf(),
            match scan_step(old(cursor).data@, old(cursor).position as int, old(header)@) {
                Ok(step) => {
                    &&& r matches Ok(u) && u == ()
                    &&& final(header)@ == step.0
                    &&& final(cursor).position == step.1
                },
                Err(e) => r == Err::<(), EbmlError>(e),
            },
    {
        let ghost data = cursor.data@;
        let ghost p_i = cursor.position as int;
        let ghost h_i = header@;
        proof {
            reveal(scan_step);
            lemma_header_decode_bounds(data, p_i);
        }
        let element = match EbmlElement::read_header(cursor) {
            Ok(el) => el,
            Err(e) => {
                return Err(e);
            },
        };
        if element.id == EbmlVersion::ID {
            let d = match get_data(element.size.value, cursor) {
                Ok(d) => d,
                Err(e) => {
                    return Err(e);
                },
            };
            let v = match EbmlUnsignedInteger::new(d) {
                Ok(v) => v,
                Err(e) => {
                    return Err(e);
                },
            };
            header.version = Some(v);
            Ok(())
        } else if element.id == DocType::ID {
            let d = match get_data(element.size.value, cursor) {
                Ok(d) => d,
                Err(e) => {
                    return Err(e);
                },
            };
            let s = match EbmlString::new(d) {
                Ok(s) => s,
                Err(e) => {
                    return Err(e);
                },
            };
            header.doc_type = Some(s);
            Ok(())
        } else if element.id == DocTypeVersion::ID {
            let d = match get_data(element.size.value, cursor) {
                Ok(d) => d,
                Err(e) => {
                    return Err(e);
                },
            };
            let v = match EbmlUnsignedInteger::new(d) {
                Ok(v) => v,
                Err(e) => {
                    return Err(e);
                },
            };
            header.doc_type_version = Some(v);
            Ok(())
        } else if element.id == DocTypeReadVersion::ID {
            let d = match get_data(element.size.value, cursor) {
                Ok(d) => d,
                Err(e) => {
                    return Err(e);
                },
            };
            let v = match EbmlUnsignedInteger::new(d) {
                Ok(v) => v,
                Err(e) => {
                    return Err(e);
                },
            };
            header.doc_type_read_version = Some(v);
            Ok(())
        } else if element.id == EbmlReadVersion::ID {
            let d = match get_data(element.size.value, cursor) {
                Ok(d) => d,
                Err(e) => {
                    return Err(e);
                },
            };
            let v = match EbmlUnsignedInteger::new(d) {
                Ok(v) => v,
                Err(e) => {
                    return Err(e);
                },
            };
            header.read_version = Some(v);
            Ok(())
        } else if element.id == EbmlMaxIdLength::ID {
            let d = match get_data(element.size.value, cursor) {
                Ok(d) => d,
                Err(e) => {
                    return Err(e);
                },
            };
            let v = match EbmlUnsignedInteger::new(d) {
                Ok(v) => v,
                Err(e) => {
                    return Err(e);
                },
            };
            header.max_id_length = Some(v);
            Ok(())
        } else if element.id == EbmlMaxSizeLength::ID {
            let d = match get_data(element.size.value, cursor) {
                Ok(d) => d,
                Err(e) => {
                    return Err(e);
                },
            };
            let v = match EbmlUnsignedInteger::new(d) {
                Ok(v) => v,
                Err(e) => {
                    return Err(e);
                },
            };
            header.max_size_length = Some(v);
            Ok(())
        } else if element.id == DocTypeExtension::ID {
            let extension = match Self::parse_extension_pair(cursor) {
                Ok(x) => x,
                Err(e) => {
                    return Err(e);
                },
            };
            let exts_opt = header.doc_type_extensions.take();
            let mut exts = match exts_opt {
                Some(v) => v,
                None => Vec::new(),
            };
            exts.push(extension);
            header.doc_type_extensions = Some(exts);
            proof {
                let f = |e: DocTypeExtension| e@;
                match h_i.doc_type_extensions {
                    Some(s) => {
                        assert(exts@.map_values(f) =~= s.push(extension@));
                    },
                    None => {
                        assert(exts@.map_values(f) =~= seq![extension@]);
                    },
                }
                assert(header@ == with_extension(h_i, extension@));
            }
            Ok(())
        } else {
            Err(EbmlError::InvalidElement(element.id))
        }
    }

    /// Reads one DocTypeExtension group: exactly two child elements that
    /// carry the extension's name and version, in either order, told apart
    /// by ID.
    pub(crate) fn parse_extension_pair(cursor: &mut Cursor) -> (r: Result<DocTypeExtension, EbmlError>)
        requires
            old(cursor).wf(),
        ensures
            final(cursor).wf(),
            final(cursor).data == old(cursor).data,
            match ext_pair_decode(old(cursor).data@, old(cursor).position as int) {
                Ok(pair) => {
                    &&& r matches Ok(x) && x@ == pair.0 && x.name.wf()
                    &&& final(cursor).position == pair.1
                },
                Err(e) => r == Err::<DocTypeExtension, EbmlError>(e),
            },
    {
        let ghost data = cursor.data@;
        let ghost ext_pos = cursor.position as int;
        proof {
            reveal(ext_pair_decode);
            lemma_header_decode_bounds(data, ext_pos);
        }
        let first_element = match EbmlElement::read_header(cursor) {
            Ok(el) => el,
            Err(e) => {
                return Err(e);
            },
        };
        let first_data = match get_data(first_element.size.value, cursor) {
            Ok(d) => d,
            Err(e) => {
                return Err(e);
            },
        };
        proof {
            lemma_header_decode_bounds(data, cursor.position as int);
        }
        let second_element = match EbmlElement::read_header(cursor) {
            Ok(el) => el,
            Err(e) => {
                return Err(e);
            },
        };
        let second_data = match get_data(second_element.size.value, cursor) {
            Ok(d) => d,
            Err(e) => {
                return Err(e);
            },
        };
        if first_element.id == DocTypeExtensionName::ID && second_element.id
            == DocTypeExtensionVersion::ID {
            let name = match EbmlString::new(first_data) {
                Ok(s) => s,
                Err(e) => {
                    return Err(e);
                },
            };
            let version = match EbmlUnsignedInteger::new(second_data) {
                Ok(v) => v,
                Err(e) => {
                    return Err(e);
                },
            };
            Ok(DocTypeExtension::new(name, version))
        } else if first_element.id == DocTypeExtensionVersion::ID && second_element.id
            == DocTypeExtensionName::ID {
            let name = match EbmlString::new(second_data) {
                Ok(s) => s,
                Err(e) => {
                    return Err(e);
                },
            };
            let version = match EbmlUnsignedInteger::new(first_data) {
                Ok(v) => v,
                Err(e) => {
                    return Err(e);
                },
            };
            Ok(DocTypeExtension::new(name, version))
        } else {
            Err(EbmlError::InvalidElement(first_element.id))
        }
    }
}


impl Default for EbmlHeader {
    /// A header with no field populated.
    fn default() -> (h: Self)
        ensures
            h@ == empty_header_model(),
            h.wf(),
    {
        EbmlHeader {
            version: None,
            read_version: None,
            max_id_length: None,
            max_size_length: None,
            doc_type: None,
            doc_type_version: None,
            doc_type_read_version: None,
            doc_type_extensions: None,
        }
    }
}

// ---------------------------------------------------------------------------
// Specification of the header assembly.
// ---------------------------------------------------------------------------

/// The payload of an element whose header model is `el` and whose header
/// starts at `pos`: the announced body range, when it lies in the buffer.
pub open spec fn scalar_payload(data: Seq<u8>, pos: int, el: ElementModel) -> Result<
    Seq<u8>,
    EbmlError,
> {
    let body = pos + el.header_len;
    if body + el.size.value > data.len() {
        Err(EbmlError::NoData)
    } else {
        Ok(data.subrange(body, body + el.size.value))
    }
}

/// What decoding one DocTypeExtension group at `pos` yields: exactly two
/// child elements, a name and a version in either order, and the position
/// right behind the pair. The group's roles are told apart by ID, never by
/// position.
#[verifier::opaque]
pub open spec fn ext_pair_decode(data: Seq<u8>, pos: int) -> Result<
    (ExtensionModel, int),
    EbmlError,
> {
    match header_decode(data, pos) {
        Err(e) => Err(e),
        Ok(c1) => match scalar_payload(data, pos, c1) {
            Err(e) => Err(e),
            Ok(p1) => {
                let pos2 = pos + c1.header_len + c1.size.value;
                match header_decode(data, pos2) {
                    Err(e) => Err(e),
                    Ok(c2) => match scalar_payload(data, pos2, c2) {
                        Err(e) => Err(e),
                        Ok(p2) => {
                            let end = pos2 + c2.header_len + c2.size.value;
                            if c1.id == DocTypeExtensionName::ID as int && c2.id
                                == DocTypeExtensionVersion::ID as int {
                                match str_decode(p1) {
                                    Err(e) => Err(e),
                                    Ok(nm) => match uint_decode(p2) {
                                        Err(e) => Err(e),
                                        Ok(ver) => Ok(
                                            (ExtensionModel { name: nm, version: ver }, end),
                                        ),
                                    },
                                }
                            } else if c1.id == DocTypeExtensionVersion::ID as int && c2.id
                                == DocTypeExtensionName::ID as int {
                                match str_decode(p2) {
                                    Err(e) => Err(e),
                                    Ok(nm) => match uint_decode(p1) {
                                        Err(e) => Err(e),
                                        Ok(ver) => Ok(
                                            (ExtensionModel { name: nm, version: ver }, end),
                                        ),
                                    },
                                }
                            } else {
                                Err(EbmlError::InvalidElement(c1.id as u64))
                            }
                        },
                    },
                }
            },
        },
    }
}

/// What processing exactly one child element at `pos` yields: the header
/// model with the child folded in and the position right behind the child.
/// An ID outside the closed header vocabulary is an error, never a silent
/// skip.
#[verifier::opaque]
pub open spec fn scan_step(data: Seq<u8>, pos: int, h: HeaderModel) -> Result<
    (HeaderModel, int),
    EbmlError,
> {
    match header_decode(data, pos) {
        Err(e) => Err(e),
        Ok(el) => {
            let next = pos + el.header_len + el.size.value;
            if el.id == EbmlVersion::ID as int {
                match scalar_payload(data, pos, el) {
                    Err(e) => Err(e),
                    Ok(p) => match uint_decode(p) {
                        Err(e) => Err(e),
                        Ok(v) => Ok((HeaderModel { version: Some(v), ..h }, next)),
                    },
                }
            } else if el.id == DocType::ID as int {
                match scalar_payload(data, pos, el) {
                    Err(e) => Err(e),
                    Ok(p) => match str_decode(p) {
                        Err(e) => Err(e),
                        Ok(sm) => Ok((HeaderModel { doc_type: Some(sm), ..h }, next)),
                    },
                }
            } else if el.id == DocTypeVersion::ID as int {
                match scalar_payload(data, pos, el) {
                    Err(e) => Err(e),
                    Ok(p) => match uint_decode(p) {
                        Err(e) => Err(e),
                        Ok(v) => Ok((HeaderModel { doc_type_version: Some(v), ..h }, next)),
                    },
                }
            } else if el.id == DocTypeReadVersion::ID as int {
                match scalar_payload(data, pos, el) {
                    Err(e) => Err(e),
                    Ok(p) => match uint_decode(p) {
                        Err(e) => Err(e),
                        Ok(v) => Ok((HeaderModel { doc_type_read_version: Some(v), ..h }, next)),
                    },
                }
            } else if el.id == EbmlReadVersion::ID as int {
                match scalar_payload(data, pos, el) {
                    Err(e) => Err(e),
                    Ok(p) => match uint_decode(p) {
                        Err(e) => Err(e),
                        Ok(v) => Ok((HeaderModel { read_version: Some(v), ..h }, next)),
                    },
                }
            } else if el.id == EbmlMaxIdLength::ID as int {
                match scalar_payload(data, pos, el) {
                    Err(e) => Err(e),
                    Ok(p) => match uint_decode(p) {
                        Err(e) => Err(e),
                        Ok(v) => Ok((HeaderModel { max_id_length: Some(v), ..h }, next)),
                    },
                }
            } else if el.id == EbmlMaxSizeLength::ID as int {
                match scalar_payload(data, pos, el) {
                    Err(e) => Err(e),
                    Ok(p) => match uint_decode(p) {
                        Err(e) => Err(e),
                        Ok(v) => Ok((HeaderModel { max_size_length: Some(v), ..h }, next)),
                    },
                }
            } else if el.id == DocTypeExtension::ID as int {
                match ext_pair_decode(data, pos + el.header_len) {
                    Err(e) => Err(e),
                    Ok(pair) => Ok((with_extension(h, pair.0), pair.1)),
                }
            } else {
                Err(EbmlError::InvalidElement(el.id as u64))
            }
        },
    }
}

/// What scanning a master element's body yields, child by child, starting
/// from the partial header `h`: the populated header model and the position
/// where the scan stopped. The scan ends as soon as the position reaches or
/// passes `end_pos`. The guard that answers CouldntSeek exists to make the
/// recursion well founded; a decoded child always advances the position, so
/// it can never fire.
pub open spec fn scan_children(data: Seq<u8>, pos: int, end_pos: int, h: HeaderModel) -> Result<
    (HeaderModel, int),
    EbmlError,
>
    decreases (if end_pos - pos >= 0 { end_pos - pos } else { 0 }),
{
    if pos >= end_pos {
        Ok((h, pos))
    } else {
        match scan_step(data, pos, h) {
            Err(e) => Err(e),
            Ok(step) => if step.1 <= pos {
                Err(EbmlError::CouldntSeek)
            } else {
                scan_children(data, step.1, end_pos, step.0)
            },
        }
    }
}

/// A scanned child always advances the position: the guard inside
/// scan_children can never fire.
pub proof fn lemma_scan_step_progress(data: Seq<u8>, pos: int, h: HeaderModel)
    ensures
        scan_step(data, pos, h) matches Ok(step) ==> step.1 > pos,
{
    reveal(scan_step);
    reveal(ext_pair_decode);
    if let Ok(step) = scan_step(data, pos, h) {
        lemma_header_decode_bounds(data, pos);
        if let Ok(el) = header_decode(data, pos) {
            if el.id == DocTypeExtension::ID as int {
                let body = pos + el.header_len;
                lemma_header_decode_bounds(data, body);
                if let Ok(c1) = header_decode(data, body) {
                    let pos2 = body + c1.header_len + c1.size.value;
                    lemma_header_decode_bounds(data, pos2);
                }
            }
        }
    }
}

/// What assembling the EBML header at `pos` yields: the root element must
/// carry the EBML root ID and a known size; its body is then scanned child
/// by child. On success the position is where the scan stopped, right behind
/// the root's body.
pub open spec fn header_parse(data: Seq<u8>, pos: int) -> Result<(HeaderModel, int), EbmlError> {
    match header_decode(data, pos) {
        Err(e) => Err(e),
        Ok(root) => {
            if root.id != Ebml::ID as int {
                Err(EbmlError::InvalidElement(root.id as u64))
            } else if root.size.value == vint_max(root.size.len) as int {
                Err(EbmlError::MustBeSized)
            } else {
                let body = pos + root.header_len;
                scan_children(data, body, body + root.size.value, empty_header_model())
            }
        },
    }
}


// ---------------------------------------------------------------------------
// Laws of the header assembly.
// ---------------------------------------------------------------------------

/// One child of a candidate extension group: its ID, its payload and the
/// position right behind it, when header and payload lie in the buffer.
pub open spec fn group_child(data: Seq<u8>, pos: int) -> Option<(int, Seq<u8>, int)> {
    match header_decode(data, pos) {
        Err(_) => None,
        Ok(c) => match scalar_payload(data, pos, c) {
            Err(_) => None,
            Ok(p) => Some((c.id, p, pos + c.header_len + c.size.value)),
        },
    }
}

/// A DocTypeExtension group's two children may arrive in either order: when
/// one buffer carries the name child first and another carries the version
/// child first, with the same name payload and the same version payload,
/// decoding the two groups produces the identical extension, and failures,
/// if any, agree as well.
pub proof fn lemma_extension_order_independent(
    d1: Seq<u8>,
    p1: int,
    d2: Seq<u8>,
    p2: int,
    name_payload: Seq<u8>,
    version_payload: Seq<u8>,
)
    requires
        (group_child(d1, p1) matches Some(c1) && c1.0 == DocTypeExtensionName::ID as int && c1.1
            == name_payload && (group_child(d1, c1.2) matches Some(c2) && c2.0
            == DocTypeExtensionVersion::ID as int && c2.1 == version_payload)),
        (group_child(d2, p2) matches Some(k1) && k1.0 == DocTypeExtensionVersion::ID as int && k1.1
            == version_payload && (group_child(d2, k1.2) matches Some(k2) && k2.0
            == DocTypeExtensionName::ID as int && k2.1 == name_payload)),
    ensures
        match (ext_pair_decode(d1, p1), ext_pair_decode(d2, p2)) {
            (Ok(a), Ok(b)) => a.0 == b.0,
            (Err(e1), Err(e2)) => e1 == e2,
            _ => false,
        },
{
    reveal(ext_pair_decode);
}

/// Parsing is a function of the buffer and start position alone: two parses
/// of equal buffers from equal positions yield equal outcomes, so reading
/// the same immutable buffer twice from fresh cursors reproduces the same
/// header, field for field.
pub proof fn lemma_parse_deterministic(d1: Seq<u8>, p1: int, d2: Seq<u8>, p2: int)
    requires
        d1 == d2,
        p1 == p2,
    ensures
        header_parse(d1, p1) == header_parse(d2, p2),
{
}

} // verus!


