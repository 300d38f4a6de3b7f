use vstd::prelude::*;

verus! {

/// Every way a parse can fail. A single fault aborts the whole parse:
/// no partial result is ever returned.
#[derive(Clone, Copy, PartialEq, Eq, Debug)]
pub enum ParseError {
    /// Fewer bytes remain than a read required.
    UnexpectedEnd,
    /// The first eight bytes are not the fixed identifier.
    InvalidMagic,
    /// The 16-bit byte-order marker is neither of the two known values.
    UnsupportedByteOrder,
    /// The encoding selector byte is neither 0 nor 1.
    UnsupportedEncoding,
    /// The known total length is not a multiple of 16.
    Misaligned,
    /// The header's declared file size disagrees with the known total length.
    SizeMismatch,
    /// A section tag is none of the three recognized identifiers.
    UnsupportedSection,
    /// Text or label bytes do not decode under the selected encoding,
    /// or a UTF-16 entry has an odd byte count.
    InvalidText,
    /// A text entry's end offset precedes its start offset.
    OffsetOrder,
}

} // verus!
