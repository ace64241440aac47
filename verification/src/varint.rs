use vstd::prelude::*;
use crate::cursor::Cursor;
use crate::error::EbmlError;

verus! {

// ---------------------------------------------------------------------------
// Specification of the VINT wire format.
// ---------------------------------------------------------------------------

/// The number of octets a VINT occupies, derived from its leading octet: one
/// plus the number of leading zero bits before the marker bit. Zero means the
/// leading octet carries no marker bit at all and is malformed.
pub open spec fn vint_length_of(b: u8) -> int {
    if b >= 0x80 {
        1
    } else if b >= 0x40 {
        2
    } else if b >= 0x20 {
        3
    } else if b >= 0x10 {
        4
    } else if b >= 0x08 {
        5
    } else if b >= 0x04 {
        6
    } else if b >= 0x02 {
        7
    } else if b >= 0x01 {
        8
    } else {
        0
    }
}

/// The largest value a VINT of the given octet length can carry once its
/// marker bit is stripped. This is also the reserved all-ones sentinel of
/// that length class.
pub open spec fn vint_max(len: int) -> u64 {
    if len == 1 {
        0x7f
    } else if len == 2 {
        0x3fff
    } else if len == 3 {
        0x1f_ffff
    } else if len == 4 {
        0xfff_ffff
    } else if len == 5 {
        0x7_ffff_ffff
    } else if len == 6 {
        0x3ff_ffff_ffff
    } else if len == 7 {
        0x1_ffff_ffff_ffff
    } else if len == 8 {
        0xff_ffff_ffff_ffff
    } else {
        0
    }
}

/// The big-endian value of `n` octets of `data` starting at `pos`.
pub open spec fn be_value(data: Seq<u8>, pos: int, n: int) -> int
    decreases n,
{
    if n <= 0 {
        0
    } else {
        256 * be_value(data, pos, n - 1) + data[pos + n - 1]
    }
}

/// 256 raised to the power `n`.
pub open spec fn pow256(n: int) -> int
    decreases n,
{
    if n <= 0 {
        1
    } else {
        256 * pow256(n - 1)
    }
}

/// The decoded form of one VINT: its octet length, its marker-stripped value
/// and its raw wire value with the marker bit retained.
pub struct VintModel {
    pub len: int,
    pub value: int,
    pub raw: int,
}

/// What decoding one VINT at `pos` of `data` yields: the octets it spans and
/// the value they carry, or the exact error when the buffer refuses it.
pub open spec fn vint_decode(data: Seq<u8>, pos: int) -> Result<VintModel, EbmlError> {
    if !(0 <= pos < data.len()) {
        Err(EbmlError::NoData)
    } else if data[pos] == 0 {
        Err(EbmlError::VarIntNoLength)
    } else if pos + vint_length_of(data[pos]) > data.len() {
        Err(EbmlError::VarIntEndedEarly)
    } else {
        let l = vint_length_of(data[pos]);
        Ok(VintModel {
            len: l,
            value: be_value(data, pos, l) - vint_max(l) - 1,
            raw: be_value(data, pos, l),
        })
    }
}

// ---------------------------------------------------------------------------
// Arithmetic facts about the wire format.
// ---------------------------------------------------------------------------

/// The powers of 256 that an eight-octet VINT can touch.
pub proof fn lemma_pow256_values()
    ensures
        pow256(0) == 1,
        pow256(1) == 0x100,
        pow256(2) == 0x1_0000,
        pow256(3) == 0x100_0000,
        pow256(4) == 0x1_0000_0000,
        pow256(5) == 0x100_0000_0000,
        pow256(6) == 0x1_0000_0000_0000,
        pow256(7) == 0x100_0000_0000_0000,
        pow256(8) == 0x1_0000_0000_0000_0000,
{
    reveal_with_fuel(pow256, 9);
}

/// Powers of 256 are positive.
pub proof fn lemma_pow256_pos(n: int)
    ensures
        pow256(n) >= 1,
    decreases n,
{
    if n > 0 {
        lemma_pow256_pos(n - 1);
    }
}

/// Powers of 256 grow with the exponent.
pub proof fn lemma_pow256_mono(a: int, b: int)
    requires
        a <= b,
    ensures
        pow256(a) <= pow256(b),
    decreases b - a,
{
    if a < b {
        lemma_pow256_mono(a, b - 1);
        lemma_pow256_pos(b - 1);
    }
}

/// A number whose leading octet lies in a given range lies in the range that
/// scaling both bounds by the same power gives.
proof fn lemma_raw_range(fb: int, p: int, r: int, lo: int, hi: int, maxv: int)
    requires
        lo <= fb < hi,
        p >= 1,
        fb * p <= r < (fb + 1) * p,
        lo * p == maxv + 1,
        hi * p == 2 * maxv + 2,
    ensures
        maxv < r <= 2 * maxv + 1,
{
    assert(maxv < r <= 2 * maxv + 1) by (nonlinear_arith)
        requires
            lo <= fb < hi,
            p >= 1,
            fb * p <= r < (fb + 1) * p,
            lo * p == maxv + 1,
            hi * p == 2 * maxv + 2,
    ;
}

/// A big-endian number is bounded by its leading octet: it spans exactly
/// the range that octet allows.
pub proof fn lemma_be_value_bounds(data: Seq<u8>, pos: int, n: int)
    requires
        1 <= n,
        0 <= pos,
        pos + n <= data.len(),
    ensures
        data[pos] * pow256(n - 1) <= be_value(data, pos, n),
        be_value(data, pos, n) < (data[pos] + 1) * pow256(n - 1),
    decreases n,
{
    if n == 1 {
        assert(be_value(data, pos, 0) == 0);
        assert(be_value(data, pos, 1) == 256 * be_value(data, pos, 0) + data[pos]);
        assert(pow256(0) == 1);
        let b = data[pos] as int;
        assert(b * pow256(0) == b && (b + 1) * pow256(0) == b + 1) by (nonlinear_arith)
            requires
                pow256(0) == 1,
        ;
    } else {
        lemma_be_value_bounds(data, pos, n - 1);
        lemma_pow256_pos(n - 2);
        let b = data[pos] as int;
        let p = pow256(n - 2);
        let v = be_value(data, pos, n - 1);
        let last = data[pos + n - 1] as int;
        assert(pow256(n - 1) == 256 * p);
        assert(be_value(data, pos, n) == 256 * v + last);
        assert(b * (256 * p) <= 256 * v + last < (b + 1) * (256 * p)) by (nonlinear_arith)
            requires
                0 <= last < 256,
                p >= 1,
                b * p <= v,
                v < (b + 1) * p,
        ;
    }
}

/// A successfully decoded VINT spans one to eight octets that lie in the
/// buffer, and its value lies within its length class, the marker bit
/// accounting for the difference between raw and stripped value.
pub proof fn lemma_vint_decode_bounds(data: Seq<u8>, pos: int)
    ensures
        vint_decode(data, pos) matches Ok(m) ==> {
            &&& 1 <= m.len <= 8
            &&& 0 <= m.value <= vint_max(m.len) as int
            &&& m.raw == m.value + vint_max(m.len) + 1
            &&& 0 <= pos
            &&& pos + m.len <= data.len()
        },
{
    if let Ok(m) = vint_decode(data, pos) {
        let b = data[pos];
        let n = m.len;
        lemma_be_value_bounds(data, pos, n);
        lemma_pow256_values();
        let fb = b as int;
        let p = pow256(n - 1);
        let r_ = be_value(data, pos, n);
        let mx = vint_max(n) as int;
        if n == 1 {
            lemma_raw_range(fb, p, r_, 0x80, 0x100, mx);
        } else if n == 2 {
            lemma_raw_range(fb, p, r_, 0x40, 0x80, mx);
        } else if n == 3 {
            lemma_raw_range(fb, p, r_, 0x20, 0x40, mx);
        } else if n == 4 {
            lemma_raw_range(fb, p, r_, 0x10, 0x20, mx);
        } else if n == 5 {
            lemma_raw_range(fb, p, r_, 0x08, 0x10, mx);
        } else if n == 6 {
            lemma_raw_range(fb, p, r_, 0x04, 0x08, mx);
        } else if n == 7 {
            lemma_raw_range(fb, p, r_, 0x02, 0x04, mx);
        } else {
            lemma_raw_range(fb, p, r_, 0x01, 0x02, mx);
        }
    }
}

/// The leading octet of the all-ones VINT pattern of a given length: the
/// marker bit with every remaining value bit of the octet set.
pub open spec fn ones_first_octet(len: int) -> u8 {
    if len == 1 {
        0xff
    } else if len == 2 {
        0x7f
    } else if len == 3 {
        0x3f
    } else if len == 4 {
        0x1f
    } else if len == 5 {
        0x0f
    } else if len == 6 {
        0x07
    } else if len == 7 {
        0x03
    } else if len == 8 {
        0x01
    } else {
        0
    }
}

/// A big-endian number whose trailing octets are all ones sits exactly one
/// below the next multiple of its leading octet's weight.
proof fn lemma_be_value_ones(data: Seq<u8>, pos: int, n: int)
    requires
        1 <= n,
        0 <= pos,
        pos + n <= data.len(),
        forall|k: int| 0 < k < n ==> #[trigger] data[pos + k] == 0xff,
    ensures
        be_value(data, pos, n) == (data[pos] + 1) * pow256(n - 1) - 1,
    decreases n,
{
    if n == 1 {
        assert(be_value(data, pos, 0) == 0);
        assert(be_value(data, pos, 1) == 256 * be_value(data, pos, 0) + data[pos]);
        let b = data[pos] as int;
        assert((b + 1) * pow256(0) - 1 == b) by (nonlinear_arith)
            requires
                pow256(0) == 1,
        ;
    } else {
        lemma_be_value_ones(data, pos, n - 1);
        let b = data[pos] as int;
        let p = pow256(n - 2);
        assert(pow256(n - 1) == 256 * p);
        assert(data[pos + n - 1] == 0xff);
        assert(be_value(data, pos, n) == 256 * be_value(data, pos, n - 1) + data[pos + n - 1]);
        assert(256 * ((b + 1) * p - 1) + 0xff == (b + 1) * (256 * p) - 1) by (nonlinear_arith);
    }
}

/// For every length class, the maximum-value bit pattern of that class, the
/// marker bit and every value bit set, decodes to exactly the class maximum:
/// the value that the all-ones sentinel check recognises.
pub proof fn lemma_all_ones_pattern(data: Seq<u8>, pos: int, len: int)
    requires
        1 <= len <= 8,
        0 <= pos,
        pos + len <= data.len(),
        data[pos] == ones_first_octet(len),
        forall|k: int| 0 < k < len ==> #[trigger] data[pos + k] == 0xff,
    ensures
        vint_decode(data, pos) == Ok::<VintModel, EbmlError>(
            VintModel {
                len,
                value: vint_max(len) as int,
                raw: 2 * (vint_max(len) as int) + 1,
            },
        ),
{
    lemma_be_value_ones(data, pos, len);
    lemma_pow256_values();
}

/// Each length class carries seven more value bits than the one before:
/// capacity grows by a factor of 128 per octet, so 127 still fits one octet
/// while 128 needs two, 16383 fits two while 16384 needs three, and so on
/// through eight octets.
pub proof fn lemma_length_boundaries(len: int)
    requires
        2 <= len <= 8,
    ensures
        vint_max(len) as int + 1 == 128 * (vint_max(len - 1) as int + 1),
{
}

/// Checking a value against the next-shorter class alone settles the
/// shortest-form rule: a value exceeds the previous class's maximum exactly
/// when it exceeds every shorter class's maximum, so the check accepts
/// precisely the minimal capable length.
pub proof fn lemma_shortest_length(len: int, value: int)
    requires
        1 <= len <= 8,
        0 <= value,
    ensures
        (len == 1 || value > vint_max(len - 1) as int) <==> (forall|l: int|
            1 <= l < len ==> value > vint_max(l) as int),
{
    if len > 1 && value > vint_max(len - 1) as int {
        assert forall|l: int| 1 <= l < len implies value > vint_max(l) as int by {
            assert(vint_max(l) <= vint_max(len - 1));
        }
    }
}

// ---------------------------------------------------------------------------
// Executable representation.
// ---------------------------------------------------------------------------

/// The octet length of one VINT, between one and eight.
#[derive(Debug, Eq, PartialEq, PartialOrd, Ord, Clone, Copy, Structural)]
pub enum VarIntLength {
    One,
    Two,
    Three,
    Four,
    Five,
    Six,
    Seven,
    Eight,
}

impl VarIntLength {
    /// The number this length stands for.
    pub open spec fn count(self) -> int {
        match self {
            VarIntLength::One => 1,
            VarIntLength::Two => 2,
            VarIntLength::Three => 3,
            VarIntLength::Four => 4,
            VarIntLength::Five => 5,
            VarIntLength::Six => 6,
            VarIntLength::Seven => 7,
            VarIntLength::Eight => 8,
        }
    }

    /// The number of octets this length stands for.
    pub fn octets(&self) -> (n: u8)
        ensures
            n as int == self.count(),
    {
        match self {
            VarIntLength::One => 1,
            VarIntLength::Two => 2,
            VarIntLength::Three => 3,
            VarIntLength::Four => 4,
            VarIntLength::Five => 5,
            VarIntLength::Six => 6,
            VarIntLength::Seven => 7,
            VarIntLength::Eight => 8,
        }
    }

    fn new(num_bytes: usize) -> (r: Result<Self, EbmlError>)
        ensures
            match r {
                Ok(l) => 1 <= num_bytes <= 8 && l.count() == num_bytes,
                Err(e) => e == EbmlError::InvalidVarIntLength && !(1 <= num_bytes <= 8),
            },
    {
        match num_bytes {
            1 => Ok(VarIntLength::One),
            2 => Ok(VarIntLength::Two),
            3 => Ok(VarIntLength::Three),
            4 => Ok(VarIntLength::Four),
            5 => Ok(VarIntLength::Five),
            6 => Ok(VarIntLength::Six),
            7 => Ok(VarIntLength::Seven),
            8 => Ok(VarIntLength::Eight),
            _ => Err(EbmlError::InvalidVarIntLength),
        }
    }

    fn maximum_value(&self) -> (m: u64)
        ensures
            m == vint_max(self.count()),
    {
        match self {
            VarIntLength::One => 127,
            VarIntLength::Two => 16383,
            VarIntLength::Three => 2097151,
            VarIntLength::Four => 268435455,
            VarIntLength::Five => 34359738367,
            VarIntLength::Six => 4398046511103,
            VarIntLength::Seven => 562949953421311,
            VarIntLength::Eight => 72057594037927935,
        }
    }
}

/// One decoded variable-length integer.
#[derive(Debug, Eq, PartialEq, Clone, Copy, Structural)]
pub struct VarInt {
    /// How many octets the VINT occupied on the wire.
    pub length: VarIntLength,
    /// The value with the marker bit stripped.
    pub value: u64,
    /// The value as it appears on the wire, marker bit retained.
    pub raw_value: u64,
}

impl VarInt {
    /// The mathematical reading of this VarInt.
    pub open spec fn model(self) -> VintModel {
        VintModel { len: self.length.count(), value: self.value as int, raw: self.raw_value as int }
    }

    /// A well-formed VarInt: the value fits its length class and the raw wire
    /// value is the value with the marker bit put back in place.
    pub open spec fn wf(self) -> bool {
        &&& self.value <= vint_max(self.length.count())
        &&& self.raw_value == self.value + vint_max(self.length.count()) + 1
    }

    /// Decodes one VINT at the cursor. On success the cursor has consumed
    /// exactly the VINT's octets; on failure it has consumed the octets that
    /// were read before the failure and is not rewound.
    pub fn get_var_int(cursor: &mut Cursor) -> (r: Result<VarInt, EbmlError>)
        requires
            old(cursor).wf(),
        ensures
            final(cursor).wf(),
            final(cursor).data == old(cursor).data,
            match vint_decode(old(cursor).data@, old(cursor).position as int) {
                Ok(m) => {
                    &&& r matches Ok(v) && v.wf() && v.model() == m
                    &&& final(cursor).position == old(cursor).position + m.len
                },
                Err(e) => {
                    &&& r == Err::<VarInt, EbmlError>(e)
                    &&& (match e {
                        EbmlError::NoData => final(cursor).position == old(cursor).position,
                        EbmlError::VarIntNoLength => final(cursor).position == old(
                            cursor,
                        ).position + 1,
                        _ => final(cursor).position == old(cursor).data@.len(),
                    })
                },
            },
    {
        let (num_bytes, first_byte) = match Self::get_var_int_length(cursor) {
            Ok(t) => t,
            Err(e) => {
                return Err(e);
            },
        };
        if num_bytes > 8 || num_bytes == 0 {
            Err(EbmlError::InvalidVarIntLength)
        } else {
            let raw = match Self::get_var_int_value(cursor, first_byte, num_bytes) {
                Ok(v) => v,
                Err(e) => {
                    return Err(e);
                },
            };
            let length = match VarIntLength::new(num_bytes) {
                Ok(l) => l,
                Err(e) => {
                    return Err(e);
                },
            };
            let max = length.maximum_value();
            Ok(VarInt { length, value: raw - max - 1, raw_value: raw })
        }
    }

    /// Reads the leading octet of a VINT and derives the total octet count
    /// from the position of the marker bit.
    fn get_var_int_length(cursor: &mut Cursor) -> (r: Result<(usize, u8), EbmlError>)
        requires
            old(cursor).wf(),
        ensures
            final(cursor).wf(),
            final(cursor).data == old(cursor).data,
            match r {
                Ok((n, b)) => {
                    &&& old(cursor).position < old(cursor).data@.len()
                    &&& b == old(cursor).data@[old(cursor).position as int]
                    &&& b != 0
                    &&& n == vint_length_of(b)
                    &&& final(cursor).position == old(cursor).position + 1
                },
                Err(e) => match e {
                    EbmlError::NoData => {
                        &&& old(cursor).position >= old(cursor).data@.len()
                        &&& final(cursor).position == old(cursor).position
                    },
                    EbmlError::VarIntNoLength => {
                        &&& old(cursor).position < old(cursor).data@.len()
                        &&& old(cursor).data@[old(cursor).position as int] == 0
                        &&& final(cursor).position == old(cursor).position + 1
                    },
                    _ => false,
                },
            },
    {
        if cursor.position >= cursor.data.len() {
            return Err(EbmlError::NoData);
        }
        let b = cursor.data[cursor.position];
        cursor.position = cursor.position + 1;
        if b == 0 {
            return Err(EbmlError::VarIntNoLength);
        }
        let n: usize = if b >= 0x80 {
            1
        } else if b >= 0x40 {
            2
        } else if b >= 0x20 {
            3
        } else if b >= 0x10 {
            4
        } else if b >= 0x08 {
            5
        } else if b >= 0x04 {
            6
        } else if b >= 0x02 {
            7
        } else {
            8
        };
        Ok((n, b))
    }

    /// Reads the VINT's remaining octets and accumulates the raw big-endian
    /// value, marker bit still in place. The leading octet has already been
    /// consumed and is passed in.
    fn get_var_int_value(cursor: &mut Cursor, first_byte: u8, num_bytes: usize) -> (r: Result<
        u64,
        EbmlError,
    >)
        requires
            old(cursor).wf(),
            1 <= num_bytes <= 8,
            old(cursor).position >= 1,
            old(cursor).position - 1 < old(cursor).data@.len(),
            old(cursor).data@[old(cursor).position - 1] == first_byte,
            vint_length_of(first_byte) == num_bytes,
        ensures
            final(cursor).wf(),
            final(cursor).data == old(cursor).data,
            match r {
                Ok(raw) => {
                    &&& old(cursor).position - 1 + num_bytes <= old(cursor).data@.len()
                    &&& final(cursor).position == old(cursor).position - 1 + num_bytes
                    &&& raw as int == be_value(
                        old(cursor).data@,
                        old(cursor).position - 1,
                        num_bytes as int,
                    )
                    &&& vint_max(num_bytes as int) < raw
                    &&& raw as int <= 2 * (vint_max(num_bytes as int) as int) + 1
                },
                Err(e) => {
                    &&& e == EbmlError::VarIntEndedEarly
                    &&& old(cursor).position - 1 + num_bytes > old(cursor).data@.len()
                    &&& final(cursor).position == old(cursor).data@.len()
                },
            },
    {
        let start = cursor.position - 1;
        if cursor.data.len() - cursor.position < num_bytes - 1 {
            cursor.position = cursor.data.len();
            return Err(EbmlError::VarIntEndedEarly);
        }
        let ghost data = cursor.data@;
        let mut raw: u64 = first_byte as u64;
        let mut k: usize = 1;
        proof {
            lemma_pow256_values();
            assert(be_value(data, start as int, 0) == 0);
            assert(be_value(data, start as int, 1) == 256 * be_value(data, start as int, 0)
                + data[start as int]);
        }
        while k < num_bytes
            invariant
                1 <= k <= num_bytes <= 8,
                cursor.data@ == data,
                cursor.data == old(cursor).data,
                start + num_bytes <= data.len(),
                cursor.position == start + k,
                raw as int == be_value(data, start as int, k as int),
                data[start as int] == first_byte,
                (first_byte as int) * pow256(k as int - 1) <= raw as int,
                (raw as int) < ((first_byte as int) + 1) * pow256(k as int - 1),
            decreases num_bytes - k,
        {
            let b = cursor.data[cursor.position];
            cursor.position = cursor.position + 1;
            proof {
                let fb = first_byte as int;
                let p = pow256(k as int - 1);
                lemma_pow256_pos(k as int - 1);
                lemma_pow256_mono(k as int - 1, 6);
                lemma_pow256_values();
                assert(pow256(k as int) == 256 * p);
                assert((raw as int) * 256 + (b as int) < (fb + 1) * (256 * p) && (fb + 1) * (256
                    * p) <= 0x1_0000_0000_0000_0000 && fb * (256 * p) <= (raw as int) * 256 + (
                b as int)) by (nonlinear_arith)
                    requires
                        0 <= b < 256,
                        1 <= p <= 0x1_0000_0000_0000,
                        0 <= fb < 256,
                        fb * p <= raw as int,
                        (raw as int) < (fb + 1) * p,
                ;
                assert(be_value(data, start as int, k + 1) == 256 * be_value(
                    data,
                    start as int,
                    k as int,
                ) + data[start + k as int]);
            }
            raw = raw * 256 + (b as u64);
            k = k + 1;
        }
        proof {
            lemma_pow256_values();
            let fb = first_byte as int;
            let n = num_bytes as int;
            let p = pow256(n - 1);
            let r_ = raw as int;
            let m = vint_max(n) as int;
            if n == 1 {
                lemma_raw_range(fb, p, r_, 0x80, 0x100, m);
            } else if n == 2 {
                lemma_raw_range(fb, p, r_, 0x40, 0x80, m);
            } else if n == 3 {
                lemma_raw_range(fb, p, r_, 0x20, 0x40, m);
            } else if n == 4 {
                lemma_raw_range(fb, p, r_, 0x10, 0x20, m);
            } else if n == 5 {
                lemma_raw_range(fb, p, r_, 0x08, 0x10, m);
            } else if n == 6 {
                lemma_raw_range(fb, p, r_, 0x04, 0x08, m);
            } else if n == 7 {
                lemma_raw_range(fb, p, r_, 0x02, 0x04, m);
            } else {
                lemma_raw_range(fb, p, r_, 0x01, 0x02, m);
            }
        }
        Ok(raw)
    }

    /// Whether the value is the reserved all-ones sentinel of its length
    /// class.
    pub fn all_ones(&self) -> (r: bool)
        ensures
            r == (self.value == vint_max(self.length.count())),
    {
        self.value == self.length.maximum_value()
    }

    /// Whether this VINT's octet count is the smallest that can carry its
    /// value, as element IDs require.
    pub fn is_shortest_valid_element_id_length(&self) -> (r: bool)
        ensures
            r == (self.length.count() == 1 || self.value > vint_max(self.length.count() - 1)),
    {
        match self.length {
            VarIntLength::One => true,
            VarIntLength::Two => self.value > VarIntLength::One.maximum_value(),
            VarIntLength::Three => self.value > VarIntLength::Two.maximum_value(),
            VarIntLength::Four => self.value > VarIntLength::Three.maximum_value(),
            VarIntLength::Five => self.value > VarIntLength::Four.maximum_value(),
            VarIntLength::Six => self.value > VarIntLength::Five.maximum_value(),
            VarIntLength::Seven => self.value > VarIntLength::Six.maximum_value(),
            VarIntLength::Eight => self.value > VarIntLength::Seven.maximum_value(),
        }
    }
}

} // verus!

