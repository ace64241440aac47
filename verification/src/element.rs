use vstd::prelude::*;
use crate::cursor::Cursor;
use crate::error::EbmlError;
use crate::varint::{VarInt, VintModel, vint_decode, vint_max};

verus! {

// ---------------------------------------------------------------------------
// Specification of element IDs and element headers.
// ---------------------------------------------------------------------------

/// What decoding one element ID at `pos` yields: the VINT it spans when every
/// ID-specific rule holds, or the exact rule that was broken. An ID is a VINT
/// of at most four octets whose value is neither the all-zeros nor the
/// all-ones pattern and which uses the shortest capable octet count.
pub open spec fn elem_id_decode(data: Seq<u8>, pos: int) -> Result<VintModel, EbmlError> {
    match vint_decode(data, pos) {
        Err(e) => Err(e),
        Ok(m) => if m.len > 4 {
            Err(EbmlError::InvalidElementIdSize)
        } else if m.value == 0 {
            Err(EbmlError::ElementIdAllZeros)
        } else if m.value == vint_max(m.len) as int {
            Err(EbmlError::ElementIdAllOnes)
        } else if !(m.len == 1 || m.value > vint_max(m.len - 1) as int) {
            Err(EbmlError::ElementIdLongerThanNeeded)
        } else {
            Ok(m)
        },
    }
}

/// The decoded model of one element header: the ID's raw wire value, the
/// announced body size and the octet count of the id+size encoding itself.
pub struct ElementModel {
    pub id: int,
    pub size: VintModel,
    pub header_len: int,
}

/// What reading one element header at `pos` yields: its ID, then its size.
pub open spec fn header_decode(data: Seq<u8>, pos: int) -> Result<ElementModel, EbmlError> {
    match elem_id_decode(data, pos) {
        Err(e) => Err(e),
        Ok(id) => match vint_decode(data, pos + id.len) {
            Err(e) => Err(e),
            Ok(sz) => Ok(
                ElementModel { id: id.raw, size: sz, header_len: id.len + sz.len },
            ),
        },
    }
}

/// A successfully decoded element header occupies two to sixteen octets that
/// lie in the buffer, and the size it announces is at most the eight-octet
/// maximum.
pub proof fn lemma_header_decode_bounds(data: Seq<u8>, pos: int)
    ensures
        header_decode(data, pos) matches Ok(el) ==> {
            &&& 2 <= el.header_len <= 16
            &&& 1 <= el.size.len <= 8
            &&& 0 <= el.size.value <= vint_max(8) as int
            &&& el.size.raw == el.size.value + vint_max(el.size.len) + 1
            &&& 0 <= pos
            &&& pos + el.header_len <= data.len()
        },
{
    crate::varint::lemma_vint_decode_bounds(data, pos);
    if let Ok(id) = vint_decode(data, pos) {
        crate::varint::lemma_vint_decode_bounds(data, pos + id.len);
    }
}

// ---------------------------------------------------------------------------
// Executable decoders.
// ---------------------------------------------------------------------------

/// Decodes one element ID at the cursor and returns its raw wire value,
/// marker bit retained, as element IDs are conventionally stored. On success
/// the cursor has consumed the ID's octets; when an ID-specific rule is
/// broken the whole VINT has still been consumed.
pub fn get_element_id(cursor: &mut Cursor) -> (r: Result<u64, EbmlError>)
    requires
        old(cursor).wf(),
    ensures
        final(cursor).wf(),
        final(cursor).data == old(cursor).data,
        match elem_id_decode(old(cursor).data@, old(cursor).position as int) {
            Ok(m) => {
                &&& r matches Ok(id) && id as int == m.raw
                &&& final(cursor).position == old(cursor).position + m.len
            },
            Err(e) => {
                &&& r == Err::<u64, EbmlError>(e)
                &&& (match vint_decode(old(cursor).data@, old(cursor).position as int) {
                    Ok(m) => final(cursor).position == old(cursor).position + m.len,
                    Err(_) => (match e {
                        EbmlError::NoData => final(cursor).position == old(cursor).position,
                        EbmlError::VarIntNoLength => final(cursor).position == old(
                            cursor,
                        ).position + 1,
                        _ => final(cursor).position == old(cursor).data@.len(),
                    }),
                })
            },
        },
{
    let varint = match VarInt::get_var_int(cursor) {
        Ok(v) => v,
        Err(e) => {
            return Err(e);
        },
    };
    if varint.length.octets() > 4 {
        return Err(EbmlError::InvalidElementIdSize);
    }
    if varint.value == 0 {
        return Err(EbmlError::ElementIdAllZeros);
    }
    if varint.all_ones() {
        return Err(EbmlError::ElementIdAllOnes);
    }
    if varint.is_shortest_valid_element_id_length() {
        Ok(varint.raw_value)
    } else {
        Err(EbmlError::ElementIdLongerThanNeeded)
    }
}

/// Decodes one data size at the cursor: plain VINT mechanics with no extra
/// validation. The all-ones value of the VINT's length class is the
/// unknown-size sentinel; telling it apart is the caller's concern.
pub fn get_data_size(cursor: &mut Cursor) -> (r: Result<VarInt, EbmlError>)
    requires
        old(cursor).wf(),
    ensures
        final(cursor).wf(),
        final(cursor).data == old(cursor).data,
        match vint_decode(old(cursor).data@, old(cursor).position as int) {
            Ok(m) => {
                &&& r matches Ok(v) && v.wf() && v.model() == m
                &&& final(cursor).position == old(cursor).position + m.len
            },
            Err(e) => {
                &&& r == Err::<VarInt, EbmlError>(e)
                &&& (match e {
                    EbmlError::NoData => final(cursor).position == old(cursor).position,
                    EbmlError::VarIntNoLength => final(cursor).position == old(cursor).position
                        + 1,
                    _ => final(cursor).position == old(cursor).data@.len(),
                })
            },
        },
{
    VarInt::get_var_int(cursor)
}

/// Hands out the next `size` octets of the buffer and consumes them. When
/// fewer octets remain the call fails and the cursor does not move: a body
/// range is checked against the buffer before it is trusted.
pub fn get_data<'a>(size: u64, cursor: &mut Cursor<'a>) -> (r: Result<&'a [u8], EbmlError>)
    requires
        old(cursor).wf(),
    ensures
        final(cursor).wf(),
        final(cursor).data == old(cursor).data,
        if old(cursor).position + size <= old(cursor).data@.len() {
            &&& r matches Ok(d) && d@ == old(cursor).data@.subrange(
                old(cursor).position as int,
                old(cursor).position + size,
            )
            &&& final(cursor).position == old(cursor).position + size
        } else {
            &&& r == Err::<&'a [u8], EbmlError>(EbmlError::NoData)
            &&& final(cursor).position == old(cursor).position
        },
{
    let remaining = cursor.data.len() - cursor.position;
    if size > remaining as u64 {
        return Err(EbmlError::NoData);
    }
    let s = size as usize;
    let start = cursor.position;
    let end = start + s;
    let d = &cursor.data[start..end];
    cursor.position = end;
    Ok(d)
}

/// One element header: the ID as it appears on the wire, the announced body
/// size and how many octets the id+size encoding occupied. The body of the
/// element starts right behind the header and spans `size.value` octets when
/// the size is known.
pub struct EbmlElement {
    pub id: u64,
    pub size: VarInt,
    pub length: u64,
}

impl EbmlElement {
    /// The mathematical reading of this header.
    pub open spec fn model(self) -> ElementModel {
        ElementModel {
            id: self.id as int,
            size: self.size.model(),
            header_len: self.length as int,
        }
    }

    /// Reads one element header, ID then size, at the cursor. On failure
    /// the octets consumed before the failure stay consumed and are not
    /// rewound.
    pub fn read_header(cursor: &mut Cursor) -> (r: Result<EbmlElement, EbmlError>)
        requires
            old(cursor).wf(),
        ensures
            final(cursor).wf(),
            final(cursor).data == old(cursor).data,
            old(cursor).position <= final(cursor).position,
            match header_decode(old(cursor).data@, old(cursor).position as int) {
                Ok(m) => {
                    &&& r matches Ok(el) && el.model() == m && el.size.wf()
                    &&& final(cursor).position == old(cursor).position + m.header_len
                },
                Err(e) => {
                    &&& r == Err::<EbmlElement, EbmlError>(e)
                    &&& (match elem_id_decode(old(cursor).data@, old(cursor).position as int) {
                        Err(_) => (match vint_decode(
                            old(cursor).data@,
                            old(cursor).position as int,
                        ) {
                            Ok(m) => final(cursor).position == old(cursor).position + m.len,
                            Err(_) => (match e {
                                EbmlError::NoData => final(cursor).position == old(
                                    cursor,
                                ).position,
                                EbmlError::VarIntNoLength => final(cursor).position == old(
                                    cursor,
                                ).position + 1,
                                _ => final(cursor).position == old(cursor).data@.len(),
                            }),
                        }),
                        Ok(id_m) => (match e {
                            EbmlError::NoData => final(cursor).position == old(cursor).position
                                + id_m.len,
                            EbmlError::VarIntNoLength => final(cursor).position == old(
                                cursor,
                            ).position + id_m.len + 1,
                            _ => final(cursor).position == old(cursor).data@.len(),
                        }),
                    })
                },
            },
    {
        let start = cursor.position;
        let id = match get_element_id(cursor) {
            Ok(v) => v,
            Err(e) => {
                return Err(e);
            },
        };
        let size = match get_data_size(cursor) {
            Ok(v) => v,
            Err(e) => {
                return Err(e);
            },
        };
        let end = cursor.position;
        Ok(EbmlElement { id, size, length: (end - start) as u64 })
    }

    /// Hands out this element's body: the next `size.value` octets.
    pub fn get_data<'a>(&self, cursor: &mut Cursor<'a>) -> (r: Result<&'a [u8], EbmlError>)
        requires
            old(cursor).wf(),
        ensures
            final(cursor).wf(),
            final(cursor).data == old(cursor).data,
            if old(cursor).position + self.size.value <= old(cursor).data@.len() {
                &&& r matches Ok(d) && d@ == old(cursor).data@.subrange(
                    old(cursor).position as int,
                    old(cursor).position + self.size.value,
                )
                &&& final(cursor).position == old(cursor).position + self.size.value
            } else {
                &&& r == Err::<&'a [u8], EbmlError>(EbmlError::NoData)
                &&& final(cursor).position == old(cursor).position
            },
    {
        get_data(self.size.value, cursor)
    }

    /// Reads the next child element header at the cursor.
    pub fn get_child(&self, cursor: &mut Cursor) -> (r: Result<EbmlElement, EbmlError>)
        requires
            old(cursor).wf(),
        ensures
            final(cursor).wf(),
            final(cursor).data == old(cursor).data,
            old(cursor).position <= final(cursor).position,
            match header_decode(old(cursor).data@, old(cursor).position as int) {
                Ok(m) => {
                    &&& r matches Ok(el) && el.model() == m && el.size.wf()
                    &&& final(cursor).position == old(cursor).position + m.header_len
                },
                Err(e) => r == Err::<EbmlElement, EbmlError>(e),
            },
    {
        EbmlElement::read_header(cursor)
    }
}

} // verus!
