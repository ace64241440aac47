use vstd::prelude::*;
use crate::cursor::Cursor;
use crate::element::{EbmlElement, get_data, header_decode};
use crate::error::EbmlError;
use crate::header::{
    DocType, DocTypeExtension, DocTypeReadVersion, DocTypeVersion, Ebml, EbmlHeader,
    EbmlMaxIdLength, EbmlMaxSizeLength, EbmlReadVersion, EbmlVersion, ExtensionModel, HeaderModel,
    empty_header_model, ext_pair_decode, scan_children,
};
use crate::scalars::{
    EbmlBinary, EbmlString, EbmlUnsignedInteger, StringModel, str_decode, uint_decode,
};
use crate::varint::{VarInt, vint_max};

verus! {

// ---------------------------------------------------------------------------
// The two global elements.
// ---------------------------------------------------------------------------

/// The CRC-32 global element: an opaque binary payload covering its parent's
/// other children.
#[derive(Debug, Clone)]
pub struct Crc32<'a> {
    pub size: VarInt,
    pub binary: EbmlBinary<'a>,
}

impl<'a> Crc32<'a> {
    pub const ID: u64 = 0xBF;

    pub fn new(size: VarInt, binary: EbmlBinary<'a>) -> (r: Self)
        ensures
            r.size == size,
            r.binary == binary,
    {
        Crc32 { size, binary }
    }
}

/// The Void global element: padding whose body carries no meaning and is
/// skipped unread.
#[derive(Debug, Clone)]
pub struct Void {
    pub size: VarInt,
}

impl Void {
    pub const ID: u64 = 0xEC;

    pub fn new(size: VarInt) -> (r: Self)
        ensures
            r.size == size,
    {
        Void { size }
    }
}

// ---------------------------------------------------------------------------
// The base vocabulary's outputs and their model.
// ---------------------------------------------------------------------------

/// One decoded top-level element of the base vocabulary: the whole EBML
/// header, one of its children met at top level, a global element, or
/// nothing more once the vocabulary is exhausted.
#[derive(Debug, Clone)]
pub enum HeaderElement<'a> {
    Ebml(EbmlHeader),
    Version(EbmlUnsignedInteger),
    ReadVersion(EbmlUnsignedInteger),
    MaxIdLength(EbmlUnsignedInteger),
    MaxSizeLength(EbmlUnsignedInteger),
    DocType(EbmlString),
    DocTypeVersion(EbmlUnsignedInteger),
    DocTypeReadVersion(EbmlUnsignedInteger),
    DocTypeExtension(DocTypeExtension),
    Crc32(Crc32<'a>),
    Void(Void),
}

/// The mathematical reading of one decoded top-level element.
pub enum ElementValueModel {
    Ebml(HeaderModel),
    Version(int),
    ReadVersion(int),
    MaxIdLength(int),
    MaxSizeLength(int),
    DocType(StringModel),
    DocTypeVersion(int),
    DocTypeReadVersion(int),
    DocTypeExtension(ExtensionModel),
    Crc32(Seq<u8>),
    Void,
}

impl<'a> View for HeaderElement<'a> {
    type V = ElementValueModel;

    open spec fn view(&self) -> ElementValueModel {
        match self {
            HeaderElement::Ebml(h) => ElementValueModel::Ebml(h@),
            HeaderElement::Version(u) => ElementValueModel::Version(u.value as int),
            HeaderElement::ReadVersion(u) => ElementValueModel::ReadVersion(u.value as int),
            HeaderElement::MaxIdLength(u) => ElementValueModel::MaxIdLength(u.value as int),
            HeaderElement::MaxSizeLength(u) => ElementValueModel::MaxSizeLength(u.value as int),
            HeaderElement::DocType(s) => ElementValueModel::DocType(s@),
            HeaderElement::DocTypeVersion(u) => ElementValueModel::DocTypeVersion(u.value as int),
            HeaderElement::DocTypeReadVersion(u) => ElementValueModel::DocTypeReadVersion(
                u.value as int,
            ),
            HeaderElement::DocTypeExtension(x) => ElementValueModel::DocTypeExtension(x@),
            HeaderElement::Crc32(c) => ElementValueModel::Crc32(c.binary.data@),
            HeaderElement::Void(_) => ElementValueModel::Void,
        }
    }
}

// ---------------------------------------------------------------------------
// Specification of the base parser.
// ---------------------------------------------------------------------------

/// What the base parser makes of one top-level element whose ID and size
/// have been read and whose body starts at `pos`: the decoded element and
/// the next top-level boundary, or the exact error. An ID outside the base
/// vocabulary is reported as unknown together with its announced size.
#[verifier::opaque]
pub open spec fn base_parse(data: Seq<u8>, pos: int, id: u64, size: VarInt) -> Result<
    (ElementValueModel, int),
    EbmlError,
> {
    let next = pos + size.value;
    if id == Ebml::ID {
        if size.value == vint_max(size.length.count()) {
            Err(EbmlError::MustBeSized)
        } else {
            match scan_children(data, pos, next, empty_header_model()) {
                Err(e) => Err(e),
                Ok(step) => Ok((ElementValueModel::Ebml(step.0), step.1)),
            }
        }
    } else if id == DocTypeExtension::ID {
        match ext_pair_decode(data, pos) {
            Err(e) => Err(e),
            Ok(pair) => Ok((ElementValueModel::DocTypeExtension(pair.0), pair.1)),
        }
    } else if next > data.len() && (id == EbmlVersion::ID || id == EbmlReadVersion::ID || id
        == EbmlMaxIdLength::ID || id == EbmlMaxSizeLength::ID || id == DocType::ID || id
        == DocTypeVersion::ID || id == DocTypeReadVersion::ID || id == Crc32::ID || id
        == Void::ID) {
        Err(EbmlError::NoData)
    } else if id == DocType::ID {
        match str_decode(data.subrange(pos, next)) {
            Err(e) => Err(e),
            Ok(sm) => Ok((ElementValueModel::DocType(sm), next)),
        }
    } else if id == EbmlVersion::ID {
        match uint_decode(data.subrange(pos, next)) {
            Err(e) => Err(e),
            Ok(v) => Ok((ElementValueModel::Version(v), next)),
        }
    } else if id == EbmlReadVersion::ID {
        match uint_decode(data.subrange(pos, next)) {
            Err(e) => Err(e),
            Ok(v) => Ok((ElementValueModel::ReadVersion(v), next)),
        }
    } else if id == EbmlMaxIdLength::ID {
        match uint_decode(data.subrange(pos, next)) {
            Err(e) => Err(e),
            Ok(v) => Ok((ElementValueModel::MaxIdLength(v), next)),
        }
    } else if id == EbmlMaxSizeLength::ID {
        match uint_decode(data.subrange(pos, next)) {
            Err(e) => Err(e),
            Ok(v) => Ok((ElementValueModel::MaxSizeLength(v), next)),
        }
    } else if id == DocTypeVersion::ID {
        match uint_decode(data.subrange(pos, next)) {
            Err(e) => Err(e),
            Ok(v) => Ok((ElementValueModel::DocTypeVersion(v), next)),
        }
    } else if id == DocTypeReadVersion::ID {
        match uint_decode(data.subrange(pos, next)) {
            Err(e) => Err(e),
            Ok(v) => Ok((ElementValueModel::DocTypeReadVersion(v), next)),
        }
    } else if id == Crc32::ID {
        Ok((ElementValueModel::Crc32(data.subrange(pos, next)), next))
    } else if id == Void::ID {
        Ok((ElementValueModel::Void, next))
    } else {
        Err(EbmlError::UnknownHeaderElement(id, size))
    }
}

// ---------------------------------------------------------------------------
// The pluggable parser contract and the base parser.
// ---------------------------------------------------------------------------

/// The element-parser contract a schema plugs into the reader: given one
/// top-level element's ID and announced size, with the cursor standing at
/// the element's body, decode the element. On success the cursor stands at
/// the next top-level boundary; on failure it has not moved, so the caller
/// may report the error and stop without losing its place.
pub trait ElementParse<'a> {
    type Output;

    fn parse_element(&mut self, id: u64, size: &VarInt, cursor: &mut Cursor<'a>) -> (r: Result<
        Self::Output,
        EbmlError,
    >)
        requires
            old(cursor).wf(),
        ensures
            final(cursor).wf(),
            final(cursor).data == old(cursor).data,
            !(r matches Ok(_)) ==> final(cursor).position == old(cursor).position,
    ;
}

/// The base element parser: the full EBML header vocabulary plus the two
/// global elements. A schema built on top handles its own IDs and delegates
/// the rest here.
pub struct BaseParser;

impl BaseParser {
    /// Decodes one top-level element of the base vocabulary at the cursor.
    pub fn parse_base_element<'a>(&self, id: u64, size: &VarInt, cursor: &mut Cursor<'a>) -> (r:
        Result<HeaderElement<'a>, EbmlError>)
        requires
            old(cursor).wf(),
        ensures
            final(cursor).wf(),
            final(cursor).data == old(cursor).data,
            match base_parse(old(cursor).data@, old(cursor).position as int, id, *size) {
                Ok(step) => {
                    &&& r matches Ok(out) && out@ == step.0
                    &&& final(cursor).position == step.1
                },
                Err(e) => {
                    &&& r == Err::<HeaderElement<'a>, EbmlError>(e)
                    &&& final(cursor).position == old(cursor).position
                },
            },
    {
        proof {
            reveal(base_parse);
        }
        let start = cursor.position;
        if id == Ebml::ID {
            if size.all_ones() {
                return Err(EbmlError::MustBeSized);
            }
            match EbmlHeader::parse_body(cursor, size.value) {
                Ok(h) => Ok(HeaderElement::Ebml(h)),
                Err(e) => {
                    cursor.set_position(start);
                    Err(e)
                },
            }
        } else if id == DocTypeExtension::ID {
            match EbmlHeader::parse_extension_pair(cursor) {
                Ok(x) => Ok(HeaderElement::DocTypeExtension(x)),
                Err(e) => {
                    cursor.set_position(start);
                    Err(e)
                },
            }
        } else if id == DocType::ID {
            let d = match get_data(size.value, cursor) {
                Ok(d) => d,
                Err(e) => {
                    return Err(e);
                },
            };
            match EbmlString::new(d) {
                Ok(s) => Ok(HeaderElement::DocType(s)),
                Err(e) => {
                    cursor.set_position(start);
                    Err(e)
                },
            }
        } else if id == EbmlVersion::ID || id == EbmlReadVersion::ID || id == EbmlMaxIdLength::ID
            || id == EbmlMaxSizeLength::ID || id == DocTypeVersion::ID || id
            == DocTypeReadVersion::ID {
            let d = match get_data(size.value, cursor) {
                Ok(d) => d,
                Err(e) => {
                    return Err(e);
                },
            };
            let u = match EbmlUnsignedInteger::new(d) {
                Ok(u) => u,
                Err(e) => {
                    cursor.set_position(start);
                    return Err(e);
                },
            };
            if id == EbmlVersion::ID {
                Ok(HeaderElement::Version(u))
            } else if id == EbmlReadVersion::ID {
                Ok(HeaderElement::ReadVersion(u))
            } else if id == EbmlMaxIdLength::ID {
                Ok(HeaderElement::MaxIdLength(u))
            } else if id == EbmlMaxSizeLength::ID {
                Ok(HeaderElement::MaxSizeLength(u))
            } else if id == DocTypeVersion::ID {
                Ok(HeaderElement::DocTypeVersion(u))
            } else {
                Ok(HeaderElement::DocTypeReadVersion(u))
            }
        } else if id == Crc32::ID {
            let binary = match EbmlBinary::new(size, cursor) {
                Ok(b) => b,
                Err(e) => {
                    return Err(e);
                },
            };
            Ok(HeaderElement::Crc32(Crc32::new(*size, binary)))
        } else if id == Void::ID {
            let _buf_len = cursor.data.len();
            let rem = cursor.remaining();
            if size.value > rem as u64 {
                return Err(EbmlError::NoData);
            }
            let skip = size.value as usize;
            proof {
                assert(skip as int == size.value as int);
                assert(start + skip <= cursor.data@.len());
            }
            cursor.set_position(start + skip);
            Ok(HeaderElement::Void(Void::new(*size)))
        } else {
            Err(EbmlError::UnknownHeaderElement(id, *size))
        }
    }
}

impl<'a> ElementParse<'a> for BaseParser {
    type Output = HeaderElement<'a>;

    fn parse_element(&mut self, id: u64, size: &VarInt, cursor: &mut Cursor<'a>) -> (r: Result<
        HeaderElement<'a>,
        EbmlError,
    >) {
        self.parse_base_element(id, size, cursor)
    }
}

// ---------------------------------------------------------------------------
// The lazy, single-pass element reader.
// ---------------------------------------------------------------------------

/// A lazy, forward-only reader of top-level elements: each pull reads one
/// element header and hands the element's body to the active parser. The
/// sequence ends when the buffer does; re-reading needs a fresh cursor.
pub struct ElementReader<'a, P> {
    pub cursor: Cursor<'a>,
    pub parser: P,
}

impl<'a, P: ElementParse<'a>> ElementReader<'a, P> {
    /// A reader that pulls elements from `cursor` and decodes each through
    /// `parser`.
    pub fn new(cursor: Cursor<'a>, parser: P) -> (r: Self)
        ensures
            r.cursor == cursor,
            r.parser == parser,
    {
        ElementReader { cursor, parser }
    }

    /// Pulls the next top-level element. Nothing comes once the buffer is
    /// exhausted. Otherwise one element header is read and the parser
    /// decodes the body; on any failure the cursor is restored to the
    /// element's start, so the reader does not skip past the offender and a
    /// further pull meets it again.
    pub fn next_element(&mut self) -> (r: Option<Result<P::Output, EbmlError>>)
        requires
            old(self).cursor.wf(),
        ensures
            final(self).cursor.wf(),
            final(self).cursor.data == old(self).cursor.data,
            match r {
                None => {
                    &&& old(self).cursor.position == old(self).cursor.data@.len()
                    &&& final(self).cursor.position == old(self).cursor.position
                },
                Some(Ok(_)) => {
                    &&& old(self).cursor.position < old(self).cursor.data@.len()
                    &&& (header_decode(
                        old(self).cursor.data@,
                        old(self).cursor.position as int,
                    ) matches Ok(_))
                },
                Some(Err(e)) => {
                    &&& final(self).cursor.position == old(self).cursor.position
                    &&& (match header_decode(
                        old(self).cursor.data@,
                        old(self).cursor.position as int,
                    ) {
                        Err(e2) => e == e2,
                        Ok(_) => true,
                    })
                },
            },
    {
        if self.cursor.remaining() == 0 {
            return None;
        }
        let start = self.cursor.position;
        let element = match EbmlElement::read_header(&mut self.cursor) {
            Ok(el) => el,
            Err(e) => {
                self.cursor.set_position(start);
                return Some(Err(e));
            },
        };
        match self.parser.parse_element(element.id, &element.size, &mut self.cursor) {
            Ok(out) => Some(Ok(out)),
            Err(e) => {
                self.cursor.set_position(start);
                Some(Err(e))
            },
        }
    }
}

} // verus!
