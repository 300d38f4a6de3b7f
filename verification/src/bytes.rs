use vstd::prelude::*;

use crate::error::ParseError;

verus! {

/// A generous ceiling on the stream positions the decoders accept as a
/// starting point. Keeping starting positions under it lets every position
/// computation inside a section (at most the body size, a 32-bit value, plus
/// a few fixed offsets and the final padding) stay well below `u64::MAX`.
pub const POS_LIMIT: u64 = 0x0100_0000_0000_0000;

/// The byte order of every multi-byte field after the header's marker.
#[derive(Clone, Copy, PartialEq, Eq, Debug)]
pub enum ByteOrder {
    BigEndian,
    LittleEndian,
}

/// The unsigned 16-bit value held by two adjacent stream bytes under the
/// given byte order.
pub open spec fn u16_of(b0: u8, b1: u8, byte_order: ByteOrder) -> u16 {
    match byte_order {
        ByteOrder::BigEndian => (b0 as int * 0x100 + b1 as int) as u16,
        ByteOrder::LittleEndian => (b1 as int * 0x100 + b0 as int) as u16,
    }
}

/// The unsigned 32-bit value held by four adjacent stream bytes under the
/// given byte order.
pub open spec fn u32_of(b0: u8, b1: u8, b2: u8, b3: u8, byte_order: ByteOrder) -> u32 {
    match byte_order {
        ByteOrder::BigEndian => (b0 as int * 0x1000000 + b1 as int * 0x10000 + b2 as int * 0x100
            + b3 as int) as u32,
        ByteOrder::LittleEndian => (b3 as int * 0x1000000 + b2 as int * 0x10000 + b1 as int
            * 0x100 + b0 as int) as u32,
    }
}

/// Reading one byte at `pos`: the byte and the position after it, or a
/// short-read failure when the stream ends before `pos + 1`.
pub open spec fn spec_read_u8(bytes: Seq<u8>, pos: int) -> Result<(u8, int), ParseError> {
    if 0 <= pos && pos + 1 <= bytes.len() {
        Ok((bytes[pos], pos + 1))
    } else {
        Err(ParseError::UnexpectedEnd)
    }
}

/// Reading two bytes at `pos` as one value of the given byte order.
pub open spec fn spec_read_u16(bytes: Seq<u8>, pos: int, byte_order: ByteOrder) -> Result<
    (u16, int),
    ParseError,
> {
    if 0 <= pos && pos + 2 <= bytes.len() {
        Ok((u16_of(bytes[pos], bytes[pos + 1], byte_order), pos + 2))
    } else {
        Err(ParseError::UnexpectedEnd)
    }
}

/// Reading four bytes at `pos` as one value of the given byte order.
pub open spec fn spec_read_u32(bytes: Seq<u8>, pos: int, byte_order: ByteOrder) -> Result<
    (u32, int),
    ParseError,
> {
    if 0 <= pos && pos + 4 <= bytes.len() {
        Ok((u32_of(bytes[pos], bytes[pos + 1], bytes[pos + 2], bytes[pos + 3], byte_order), pos + 4))
    } else {
        Err(ParseError::UnexpectedEnd)
    }
}

/// The next multiple of 16 at or after `pos`.
pub open spec fn align16(pos: int) -> int {
    if pos % 16 == 0 {
        pos
    } else {
        pos + 16 - pos % 16
    }
}

pub fn read_u8(bytes: &[u8], pos: u64) -> (r: Result<(u8, u64), ParseError>)
    ensures
        match r {
            Ok(v) => spec_read_u8(bytes@, pos as int) == Ok::<(u8, int), ParseError>(
                (v.0, v.1 as int),
            ),
            Err(e) => spec_read_u8(bytes@, pos as int) == Err::<(u8, int), ParseError>(e),
        },
{
    let n = bytes.len() as u64;
    if pos < n {
        Ok((bytes[pos as usize], pos + 1))
    } else {
        Err(ParseError::UnexpectedEnd)
    }
}

pub fn read_u16(bytes: &[u8], pos: u64, byte_order: ByteOrder) -> (r: Result<
    (u16, u64),
    ParseError,
>)
    ensures
        match r {
            Ok(v) => spec_read_u16(bytes@, pos as int, byte_order) == Ok::<(u16, int), ParseError>(
                (v.0, v.1 as int),
            ),
            Err(e) => spec_read_u16(bytes@, pos as int, byte_order) == Err::<(u16, int), ParseError>(
                e,
            ),
        },
{
    let n = bytes.len() as u64;
    if n >= 2 && pos <= n - 2 {
        let b0 = bytes[pos as usize];
        let b1 = bytes[(pos + 1) as usize];
        let v = match byte_order {
            ByteOrder::BigEndian => b0 as u16 * 0x100 + b1 as u16,
            ByteOrder::LittleEndian => b1 as u16 * 0x100 + b0 as u16,
        };
        Ok((v, pos + 2))
    } else {
        Err(ParseError::UnexpectedEnd)
    }
}

pub fn read_u32(bytes: &[u8], pos: u64, byte_order: ByteOrder) -> (r: Result<
    (u32, u64),
    ParseError,
>)
    ensures
        match r {
            Ok(v) => spec_read_u32(bytes@, pos as int, byte_order) == Ok::<(u32, int), ParseError>(
                (v.0, v.1 as int),
            ),
            Err(e) => spec_read_u32(bytes@, pos as int, byte_order) == Err::<(u32, int), ParseError>(
                e,
            ),
        },
{
    let n = bytes.len() as u64;
    if n >= 4 && pos <= n - 4 {
        let b0 = bytes[pos as usize];
        let b1 = bytes[(pos + 1) as usize];
        let b2 = bytes[(pos + 2) as usize];
        let b3 = bytes[(pos + 3) as usize];
        let v = match byte_order {
            ByteOrder::BigEndian => b0 as u32 * 0x1000000 + b1 as u32 * 0x10000 + b2 as u32 * 0x100
                + b3 as u32,
            ByteOrder::LittleEndian => b3 as u32 * 0x1000000 + b2 as u32 * 0x10000 + b1 as u32
                * 0x100 + b0 as u32,
        };
        Ok((v, pos + 4))
    } else {
        Err(ParseError::UnexpectedEnd)
    }
}

/// Advances a stream position to the next 16-byte boundary; an aligned
/// position is left unchanged.
pub fn align_position(pos: u64) -> (r: u64)
    requires
        pos <= 0x0200_0000_0000_0000u64,
    ensures
        r as int == align16(pos as int),
{
    let rem = pos % 16;
    if rem == 0 {
        pos
    } else {
        pos + (16 - rem)
    }
}

/// The value of two bytes under the little-endian order equals the value of
/// the same bytes, reversed, under the big-endian order: the byte order
/// chosen by the header's marker changes only which end of a field comes
/// first, never the value a well-formed field denotes.
pub proof fn lemma_u16_order_swap(b0: u8, b1: u8)
    ensures
        u16_of(b0, b1, ByteOrder::LittleEndian) == u16_of(b1, b0, ByteOrder::BigEndian),
{
}

/// The four-byte analogue of `lemma_u16_order_swap`: a 32-bit field encoded
/// little-endian decodes under the little-endian order to the same value
/// that its reversed bytes decode to under the big-endian order.
pub proof fn lemma_u32_order_swap(b0: u8, b1: u8, b2: u8, b3: u8)
    ensures
        u32_of(b0, b1, b2, b3, ByteOrder::LittleEndian) == u32_of(
            b3,
            b2,
            b1,
            b0,
            ByteOrder::BigEndian,
        ),
{
}

} // verus!
