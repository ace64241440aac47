use vstd::prelude::*;
use crate::varint::VarInt;

verus! {

/// Everything that can go wrong while decoding an EBML stream.
///
/// Every failure is terminal for the current parse attempt: decoders report
/// the first violation they meet and perform no recovery.
#[derive(Debug, Clone, Copy, PartialEq, Eq, Structural)]
pub enum EbmlError {
    /// An underlying read failed. Never produced by in-memory cursors.
    IoError,
    /// The buffer is exhausted where at least one more octet was needed.
    NoData,
    /// A VINT announced more octets than the buffer still holds.
    VarIntEndedEarly,
    /// The leading octet of a VINT is all zero, so it carries no marker bit.
    VarIntNoLength,
    /// An element ID used more octets than an ID may occupy.
    InvalidElementIdSize,
    /// A VINT carried a value too large for its consumer.
    VarIntTooLarge,
    /// An element ID's value bits are all ones, a reserved pattern.
    ElementIdAllOnes,
    /// An element ID's value bits are all zeros, a reserved pattern.
    ElementIdAllZeros,
    /// A VINT octet count outside 1..=8 was requested.
    InvalidVarIntLength,
    /// An element ID was not encoded in the shortest possible form.
    ElementIdLongerThanNeeded,
    /// An element ID outside the vocabulary known to the active parser,
    /// together with the size that was announced for its body.
    UnknownHeaderElement(u64, VarInt),
    /// A string payload held a byte that is neither printable ASCII nor NUL.
    InvalidString,
    /// An element that must carry a known size used the unknown-size sentinel.
    MustBeSized,
    /// A structural violation; carries the element ID that broke the structure.
    InvalidElement(u64),
    /// An integer payload was wider than the given maximum octet count.
    OverMaximumSize(usize),
    /// Repositioning the cursor failed. Never produced by in-memory cursors.
    CouldntSeek,
}

} // verus!
