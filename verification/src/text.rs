use vstd::prelude::*;

use crate::bytes::{u16_of, ByteOrder};

verus! {

/// True of a UTF-16 code unit that opens a surrogate pair.
pub open spec fn is_high_surrogate(unit: u16) -> bool {
    0xD800 <= unit <= 0xDBFF
}

/// True of a UTF-16 code unit that closes a surrogate pair.
pub open spec fn is_low_surrogate(unit: u16) -> bool {
    0xDC00 <= unit <= 0xDFFF
}

/// True when the code units form well-formed UTF-16: every high surrogate is
/// followed by a low surrogate, and no low surrogate stands alone.
pub open spec fn valid_utf16(units: Seq<u16>) -> bool
    decreases units.len(),
{
    if units.len() == 0 {
        true
    } else if is_high_surrogate(units[0]) {
        units.len() >= 2 && is_low_surrogate(units[1]) && valid_utf16(units.skip(2))
    } else if is_low_surrogate(units[0]) {
        false
    } else {
        valid_utf16(units.skip(1))
    }
}

/// The scalar value of a surrogate pair.
pub open spec fn surrogate_scalar(high: u16, low: u16) -> u32 {
    (0x10000 + (high as int - 0xD800) * 0x400 + (low as int - 0xDC00)) as u32
}

/// The characters that well-formed UTF-16 code units denote: a lone unit is
/// its own scalar value, and a surrogate pair assembles one supplementary
/// scalar.
pub open spec fn decode_utf16(units: Seq<u16>) -> Seq<char>
    recommends
        valid_utf16(units),
    decreases units.len(),
    when valid_utf16(units)
{
    if units.len() == 0 {
        seq![]
    } else if is_high_surrogate(units[0]) {
        seq![surrogate_scalar(units[0], units[1]) as char] + decode_utf16(units.skip(2))
    } else {
        seq![units[0] as u32 as char] + decode_utf16(units.skip(1))
    }
}

/// The UTF-16 code units held by a byte sequence of even length, each unit
/// assembled from one adjacent byte pair under the given byte order.
pub open spec fn utf16_units(bytes: Seq<u8>, byte_order: ByteOrder) -> Seq<u16> {
    Seq::new((bytes.len() / 2) as nat, |i: int| u16_of(bytes[2 * i], bytes[2 * i + 1], byte_order))
}

/// The characters that remain after every trailing NUL is removed; characters
/// before the trailing run, NULs among them, are kept.
pub open spec fn strip_trailing_nuls(s: Seq<char>) -> Seq<char>
    decreases s.len(),
{
    if s.len() > 0 && s.last() == '\u{0}' {
        strip_trailing_nuls(s.drop_last())
    } else {
        s
    }
}

/// What stripping trailing NULs means, spelled out: the result is the prefix
/// of `s` up to its last non-NUL character, it never ends in a NUL itself,
/// and everything dropped was a NUL.
pub proof fn lemma_strip_trailing_nuls(s: Seq<char>)
    ensures
        strip_trailing_nuls(s).len() <= s.len(),
        strip_trailing_nuls(s) == s.take(strip_trailing_nuls(s).len() as int),
        strip_trailing_nuls(s).len() > 0 ==> strip_trailing_nuls(s).last() != '\u{0}',
        forall|i: int|
            strip_trailing_nuls(s).len() <= i < s.len() ==> s[i] == '\u{0}',
    decreases s.len(),
{
    if s.len() > 0 && s.last() == '\u{0}' {
        lemma_strip_trailing_nuls(s.drop_last());
        assert(s.drop_last().take(strip_trailing_nuls(s).len() as int) == s.take(
            strip_trailing_nuls(s).len() as int,
        ));
        assert forall|i: int| strip_trailing_nuls(s).len() <= i < s.len() implies s[i] == '\u{0}' by {
            if i < s.len() - 1 {
                assert(s[i] == s.drop_last()[i]);
            }
        }
    } else {
        assert(s.take(s.len() as int) == s);
    }
}

/// Assembles the code units of a byte slice of even length, pairwise, under
/// the given byte order.
pub fn units_from_bytes(bytes: &[u8], byte_order: ByteOrder) -> (r: Vec<u16>)
    requires
        bytes@.len() % 2 == 0,
    ensures
        r@ == utf16_units(bytes@, byte_order),
{
    let n: usize = bytes.len();
    let mut units: Vec<u16> = Vec::new();
    let mut i: usize = 0;
    while i < n / 2
        invariant
            n == bytes@.len(),
            i <= n / 2,
            units@.len() == i,
            forall|j: int| 0 <= j < i ==> units@[j] == utf16_units(bytes@, byte_order)[j],
        decreases n / 2 - i,
    {
        let b0 = bytes[2 * i];
        let b1 = bytes[2 * i + 1];
        let unit = match byte_order {
            ByteOrder::BigEndian => b0 as u16 * 0x100 + b1 as u16,
            ByteOrder::LittleEndian => b1 as u16 * 0x100 + b0 as u16,
        };
        units.push(unit);
        i = i + 1;
    }
    proof {
        assert(units@ =~= utf16_units(bytes@, byte_order));
    }
    units
}

/// Relies on core::str::from_utf8 (through its documented contract): it
/// succeeds exactly on valid UTF-8 and returns the characters those bytes
/// encode, as vstd's UTF-8 model states them.
#[verifier::external_body]
pub fn decode_utf8_bytes(bytes: &[u8]) -> (r: Option<String>)
    ensures
        r is Some <==> vstd::utf8::valid_utf8(bytes@),
        r matches Some(s) ==> s@ == vstd::utf8::decode_utf8(bytes@),
{
    match core::str::from_utf8(bytes) {
        Ok(s) => Some(s.to_owned()),
        Err(_) => None,
    }
}

/// Relies on String::from_utf16: it succeeds exactly on well-formed UTF-16
/// code units and assembles each surrogate pair into one supplementary
/// character.
#[verifier::external_body]
pub fn decode_utf16_units(units: &[u16]) -> (r: Option<String>)
    ensures
        r is Some <==> valid_utf16(units@),
        r matches Some(s) ==> s@ == decode_utf16(units@),
{
    match String::from_utf16(units) {
        Ok(s) => Some(s),
        Err(_) => None,
    }
}

/// Relies on str::trim_end_matches with a NUL pattern: it removes exactly
/// the trailing run of NUL characters.
#[verifier::external_body]
pub fn trim_trailing_nuls(s: String) -> (r: String)
    ensures
        r@ == strip_trailing_nuls(s@),
{
    s.trim_end_matches('\u{0}').to_owned()
}

} // verus!
