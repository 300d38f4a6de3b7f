use vstd::prelude::*;

use crate::bytes::{spec_read_u16, spec_read_u32, spec_read_u8, read_u16, read_u32, read_u8,
    u32_of, ByteOrder};
use crate::error::ParseError;
use crate::Encoding;

verus! {

/// What the fixed 32-byte header declares: the byte order of every later
/// multi-byte field, the text encoding, how many sections follow, and the
/// total file size the header claims.
#[derive(Clone, Copy, PartialEq, Eq, Debug)]
pub struct MessageHeader {
    pub byte_order: ByteOrder,
    pub encoding: Encoding,
    pub sections_count: u16,
    pub file_size: u32,
}

/// True when the first eight bytes are the fixed identifier "MsgStdBn".
pub open spec fn is_magic(bytes: Seq<u8>) -> bool {
    &&& bytes[0] == 0x4Du8
    &&& bytes[1] == 0x73u8
    &&& bytes[2] == 0x67u8
    &&& bytes[3] == 0x53u8
    &&& bytes[4] == 0x74u8
    &&& bytes[5] == 0x64u8
    &&& bytes[6] == 0x42u8
    &&& bytes[7] == 0x6Eu8
}

/// The header parse, field by field from offset 0. The byte-order marker at
/// offset 8 is read big-endian (the order is not yet known there); every
/// later multi-byte field uses the order the marker selected. The encoding
/// byte sits at offset 12, the section count at 14, the declared file size
/// at 18; the reserved bytes between and after them are skipped unread, so a
/// stream of at least 22 bytes suffices, and the cursor afterwards stands at
/// offset 32, where the first section begins.
pub open spec fn spec_header(bytes: Seq<u8>) -> Result<MessageHeader, ParseError> {
    if bytes.len() < 8 {
        Err(ParseError::UnexpectedEnd)
    } else if !is_magic(bytes) {
        Err(ParseError::InvalidMagic)
    } else {
        match spec_read_u16(bytes, 8, ByteOrder::BigEndian) {
            Err(e) => Err(e),
            Ok((marker, _)) => {
                if marker != 0xFFFEu16 && marker != 0xFEFFu16 {
                    Err(ParseError::UnsupportedByteOrder)
                } else {
                    let byte_order = if marker == 0xFFFEu16 {
                        ByteOrder::LittleEndian
                    } else {
                        ByteOrder::BigEndian
                    };
                    match spec_read_u8(bytes, 12) {
                        Err(e) => Err(e),
                        Ok((enc, _)) => {
                            if enc != 0u8 && enc != 1u8 {
                                Err(ParseError::UnsupportedEncoding)
                            } else {
                                let encoding = if enc == 0u8 {
                                    Encoding::Utf8
                                } else {
                                    Encoding::Utf16
                                };
                                match spec_read_u16(bytes, 14, byte_order) {
                                    Err(e) => Err(e),
                                    Ok((sections_count, _)) => match spec_read_u32(
                                        bytes,
                                        18,
                                        byte_order,
                                    ) {
                                        Err(e) => Err(e),
                                        Ok((file_size, _)) => Ok(
                                            MessageHeader {
                                                byte_order,
                                                encoding,
                                                sections_count,
                                                file_size,
                                            },
                                        ),
                                    },
                                }
                            }
                        },
                    }
                }
            },
        }
    }
}

impl MessageHeader {
    /// Decodes the fixed header from the start of the stream. On success the
    /// next section begins at offset 32.
    pub fn from_reader(bytes: &[u8]) -> (r: Result<MessageHeader, ParseError>)
        ensures
            r == spec_header(bytes@),
    {
        if bytes.len() < 8 {
            return Err(ParseError::UnexpectedEnd);
        }
        if !(bytes[0] == 0x4D && bytes[1] == 0x73 && bytes[2] == 0x67 && bytes[3] == 0x53
            && bytes[4] == 0x74 && bytes[5] == 0x64 && bytes[6] == 0x42 && bytes[7] == 0x6E) {
            return Err(ParseError::InvalidMagic);
        }
        let marker = match read_u16(bytes, 8, ByteOrder::BigEndian) {
            Ok(v) => v.0,
            Err(e) => {
                return Err(e);
            },
        };
        let byte_order = if marker == 0xFFFE {
            ByteOrder::LittleEndian
        } else if marker == 0xFEFF {
            ByteOrder::BigEndian
        } else {
            return Err(ParseError::UnsupportedByteOrder);
        };
        let enc = match read_u8(bytes, 12) {
            Ok(v) => v.0,
            Err(e) => {
                return Err(e);
            },
        };
        let encoding = if enc == 0 {
            Encoding::Utf8
        } else if enc == 1 {
            Encoding::Utf16
        } else {
            return Err(ParseError::UnsupportedEncoding);
        };
        let sections_count = match read_u16(bytes, 14, byte_order) {
            Ok(v) => v.0,
            Err(e) => {
                return Err(e);
            },
        };
        let file_size = match read_u32(bytes, 18, byte_order) {
            Ok(v) => v.0,
            Err(e) => {
                return Err(e);
            },
        };
        Ok(MessageHeader { byte_order, encoding, sections_count, file_size })
    }
}

/// Threading the marker's choice through a later field: a header that
/// declares little-endian makes a four-byte field at `pos` decode to the
/// very value that the reversed bytes decode to under a big-endian header.
pub proof fn lemma_header_order_consistent(bytes: Seq<u8>, pos: int, v: u32)
    requires
        0 <= pos,
        pos + 4 <= bytes.len(),
        spec_header(bytes) matches Ok(h) && h.byte_order == ByteOrder::LittleEndian,
        spec_read_u32(bytes, pos, ByteOrder::LittleEndian) == Ok::<(u32, int), ParseError>(
            (v, pos + 4),
        ),
    ensures
        u32_of(bytes[pos + 3], bytes[pos + 2], bytes[pos + 1], bytes[pos], ByteOrder::BigEndian)
            == v,
{
    crate::bytes::lemma_u32_order_swap(bytes[pos], bytes[pos + 1], bytes[pos + 2], bytes[pos + 3]);
}

} // verus!
