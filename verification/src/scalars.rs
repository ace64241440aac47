use vstd::prelude::*;
use compact_str::CompactString;
use crate::cursor::Cursor;
use crate::element::get_data;
use crate::error::EbmlError;
use crate::varint::{VarInt, be_value, lemma_pow256_mono, lemma_pow256_values, pow256};

verus! {

// ---------------------------------------------------------------------------
// The compact string that holds decoded text, taken on trust.
// ---------------------------------------------------------------------------

/// compact_str's CompactString, declared so that the verifier accepts it in
/// fields and signatures. Its contents are reachable only through the
/// trusted items below.
#[verifier::external_type_specification]
#[verifier::external_body]
pub struct ExCompactString(CompactString);

/// The bytes a CompactString holds: its UTF-8 contents in order.
pub uninterp spec fn compact_str_bytes(s: CompactString) -> Seq<u8>;

/// Relies on CompactString::clone: the clone holds the same bytes.
pub assume_specification[ <CompactString as Clone>::clone ](s: &CompactString) -> (r:
    CompactString)
    ensures
        compact_str_bytes(r) == compact_str_bytes(*s),
;

/// Relies on CompactString::from_utf8: for printable ASCII input, which is
/// valid UTF-8, it returns the string holding exactly those bytes.
#[verifier::external_body]
fn compact_from_ascii(data: &[u8]) -> (r: CompactString)
    requires
        forall|i: int| 0 <= i < data@.len() ==> 0x20 <= #[trigger] data@[i] <= 0x7e,
    ensures
        compact_str_bytes(r) == data@,
{
    CompactString::from_utf8(data).unwrap()
}

/// Relies on CompactString::as_str: hands out the held bytes as text. For
/// ASCII contents every byte is one character of the same code point.
#[verifier::external_body]
fn compact_to_string(s: &CompactString) -> (r: String)
    requires
        forall|i: int|
            0 <= i < compact_str_bytes(*s).len() ==> #[trigger] compact_str_bytes(*s)[i] < 0x80,
    ensures
        r@.len() == compact_str_bytes(*s).len(),
        forall|i: int|
            0 <= i < r@.len() ==> r@[i] as u32 == compact_str_bytes(*s)[i] as u32,
{
    s.as_str().to_string()
}

// ---------------------------------------------------------------------------
// Specification of the scalar payloads.
// ---------------------------------------------------------------------------

/// The first index of a NUL byte in `data`, or the payload length when none
/// occurs: where the logical text ends.
pub open spec fn str_end(data: Seq<u8>) -> int
    decreases data.len(),
{
    if data.len() == 0 {
        0
    } else if data[0] == 0 {
        0
    } else {
        1 + str_end(data.drop_first())
    }
}

/// Whether every byte before the logical end is printable ASCII. Bytes
/// behind the first NUL are padding and are not inspected.
pub open spec fn str_valid(data: Seq<u8>) -> bool {
    forall|i: int| 0 <= i < str_end(data) ==> 0x20 <= #[trigger] data[i] <= 0x7e
}

/// The decoded model of a string payload: the text before the terminator,
/// the terminator's offset and the full payload length.
pub struct StringModel {
    pub text: Seq<u8>,
    pub end: int,
    pub full_end: int,
}

/// What decoding a string payload yields: its printable prefix, or
/// InvalidString when a byte before the first NUL is not printable ASCII.
pub open spec fn str_decode(data: Seq<u8>) -> Result<StringModel, EbmlError> {
    if str_valid(data) {
        Ok(
            StringModel {
                text: data.take(str_end(data)),
                end: str_end(data),
                full_end: data.len() as int,
            },
        )
    } else {
        Err(EbmlError::InvalidString)
    }
}

/// What decoding an unsigned-integer payload yields: the big-endian value of
/// at most eight octets, zero-extended on the most significant side.
pub open spec fn uint_decode(data: Seq<u8>) -> Result<int, EbmlError> {
    if data.len() > 8 {
        Err(EbmlError::OverMaximumSize(8))
    } else {
        Ok(be_value(data, 0, data.len() as int))
    }
}

/// The logical end lies at the first NUL byte, or at the end of the payload
/// when no NUL occurs.
pub proof fn lemma_str_end(data: Seq<u8>)
    ensures
        0 <= str_end(data) <= data.len(),
        str_end(data) < data.len() ==> data[str_end(data)] == 0,
        forall|i: int| 0 <= i < str_end(data) ==> data[i] != 0,
    decreases data.len(),
{
    if data.len() > 0 && data[0] != 0 {
        lemma_str_end(data.drop_first());
        assert forall|i: int| 0 <= i < str_end(data) implies data[i] != 0 by {
            if i > 0 {
                assert(data.drop_first()[i - 1] == data[i]);
            }
        }
        if str_end(data) < data.len() {
            assert(data.drop_first()[str_end(data.drop_first())] == data[str_end(data)]);
        }
    }
}

// ---------------------------------------------------------------------------
// Executable scalar decoders.
// ---------------------------------------------------------------------------

/// A string payload: printable ASCII text up to an optional NUL terminator.
/// Bytes behind the terminator are retained as padding but are not part of
/// the text.
#[derive(Debug, Clone)]
pub struct EbmlString {
    value: CompactString,
    /// The position of the end of the string (null terminator or end).
    end: usize,
    /// The entire length of the payload.
    full_end: usize,
}

impl View for EbmlString {
    type V = StringModel;

    closed spec fn view(&self) -> StringModel {
        StringModel {
            text: compact_str_bytes(self.value),
            end: self.end as int,
            full_end: self.full_end as int,
        }
    }
}

impl EbmlString {
    /// A well-formed string: the text runs up to its logical end, lies within
    /// the payload and is printable ASCII throughout.
    pub open spec fn wf(self) -> bool {
        &&& self@.text.len() == self@.end
        &&& self@.end <= self@.full_end
        &&& forall|i: int| 0 <= i < self@.text.len() ==> 0x20 <= #[trigger] self@.text[i] <= 0x7e
    }

    /// Decodes a string payload.
    pub fn new(data: &[u8]) -> (r: Result<Self, EbmlError>)
        ensures
            match str_decode(data@) {
                Ok(m) => r matches Ok(s) && s@ == m && s.wf(),
                Err(e) => r == Err::<EbmlString, EbmlError>(e),
            },
    {
        proof {
            lemma_str_end(data@);
        }
        let mut end = data.len();
        let mut i: usize = 0;
        let mut found: bool = false;
        while i < data.len() && !found
            invariant
                0 <= i <= data@.len(),
                !found ==> forall|j: int|
                    0 <= j < i ==> #[trigger] data@[j] != 0 && 0x20 <= data@[j] <= 0x7e,
                !found ==> end == data@.len(),
                found ==> {
                    &&& end == str_end(data@)
                    &&& end <= i
                    &&& forall|j: int| 0 <= j < end ==> 0x20 <= #[trigger] data@[j] <= 0x7e
                },
            decreases data@.len() - i + (if found { 0int } else { 1int }),
        {
            let b = data[i];
            if (b < 0x20 || b > 0x7e) && b != 0 {
                proof {
                    lemma_str_end(data@);
                    if str_end(data@) <= i {
                        assert(data@[str_end(data@)] != 0);
                    }
                    assert(!str_valid(data@));
                }
                return Err(EbmlError::InvalidString);
            } else if b == 0 {
                end = i;
                found = true;
                proof {
                    lemma_str_end(data@);
                    if str_end(data@) < i {
                        assert(data@[str_end(data@)] != 0);
                    }
                    if str_end(data@) > i {
                        assert(data@[i as int] != 0);
                    }
                }
            } else {
                i = i + 1;
            }
        }
        proof {
            lemma_str_end(data@);
            if !found && str_end(data@) < data@.len() {
                assert(data@[str_end(data@)] != 0);
            }
            assert(end == str_end(data@));
            assert(str_valid(data@));
        }
        let text = &data[0..end];
        let value = compact_from_ascii(text);
        let r = EbmlString { value, end, full_end: data.len() };
        proof {
            assert(data@.take(str_end(data@)) =~= data@.subrange(0, end as int));
        }
        Ok(r)
    }

    /// The decoded text. Every byte of the text is one ASCII character of
    /// the returned string.
    pub fn text(&self) -> (r: String)
        requires
            self.wf(),
        ensures
            r@.len() == self@.text.len(),
            forall|i: int| 0 <= i < r@.len() ==> r@[i] as u32 == self@.text[i] as u32,
    {
        compact_to_string(&self.value)
    }

    /// The offset of the logical end of the text within the payload.
    pub fn terminator_offset(&self) -> (n: usize)
        ensures
            n == self@.end,
    {
        self.end
    }

    /// The full payload length, padding behind the terminator included.
    pub fn full_length(&self) -> (n: usize)
        ensures
            n == self@.full_end,
    {
        self.full_end
    }
}

/// An unsigned-integer payload: big-endian, zero-extended, at most eight
/// octets wide.
#[derive(Debug, Clone)]
pub struct EbmlUnsignedInteger {
    pub value: u64,
}

impl EbmlUnsignedInteger {
    /// Decodes an unsigned-integer payload.
    pub fn new(data: &[u8]) -> (r: Result<Self, EbmlError>)
        ensures
            match uint_decode(data@) {
                Ok(v) => r matches Ok(u) && u.value as int == v,
                Err(e) => r == Err::<EbmlUnsignedInteger, EbmlError>(e),
            },
    {
        if data.len() > 8 {
            return Err(EbmlError::OverMaximumSize(8));
        }
        proof {
            lemma_pow256_values();
        }
        let mut value: u64 = 0;
        let mut i: usize = 0;
        while i < data.len()
            invariant
                0 <= i <= data@.len() <= 8,
                value as int == be_value(data@, 0, i as int),
                (value as int) < pow256(i as int),
            decreases data@.len() - i,
        {
            let b = data[i];
            proof {
                lemma_pow256_mono(i as int, 7);
                lemma_pow256_values();
                assert(pow256(i + 1) == 256 * pow256(i as int));
                assert(be_value(data@, 0, i + 1) == 256 * be_value(data@, 0, i as int)
                    + data@[i as int]);
            }
            value = value * 256 + (b as u64);
            i = i + 1;
        }
        Ok(EbmlUnsignedInteger { value })
    }
}

/// An opaque binary payload: a zero-copy reference into the source buffer,
/// together with its position and size.
#[derive(Debug, Clone)]
pub struct EbmlBinary<'a> {
    pub index: u64,
    pub size: u64,
    pub data: &'a [u8],
}

impl<'a> EbmlBinary<'a> {
    /// Captures the next `size.value` octets of the buffer as an opaque
    /// payload and consumes them; fails without moving the cursor when the
    /// buffer holds fewer.
    pub fn new(size: &VarInt, cursor: &mut Cursor<'a>) -> (r: Result<Self, EbmlError>)
        requires
            old(cursor).wf(),
        ensures
            final(cursor).wf(),
            final(cursor).data == old(cursor).data,
            if old(cursor).position + size.value <= old(cursor).data@.len() {
                &&& r matches Ok(b) && b.index == old(cursor).position && b.size == size.value
                    && b.data@ == old(cursor).data@.subrange(
                    old(cursor).position as int,
                    old(cursor).position + size.value,
                )
                &&& final(cursor).position == old(cursor).position + size.value
            } else {
                &&& r == Err::<EbmlBinary<'a>, EbmlError>(EbmlError::NoData)
                &&& final(cursor).position == old(cursor).position
            },
    {
        let index = cursor.position as u64;
        let data = match get_data(size.value, cursor) {
            Ok(d) => d,
            Err(e) => {
                return Err(e);
            },
        };
        Ok(EbmlBinary { index, size: size.value, data })
    }
}

} // verus!
