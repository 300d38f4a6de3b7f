pub mod bytes;
pub mod error;
pub mod header;
pub mod section;
pub mod text;

use vstd::prelude::*;

use crate::bytes::ByteOrder;
use crate::error::ParseError;
use crate::header::{spec_header, MessageHeader};
use crate::section::{spec_section, AttributeSection, LabelModel, LabelSection, Section,
    SectionModel, TextSection};

verus! {

/// The character encoding of the text section's entries, selected once by a
/// header byte.
#[derive(Clone, Copy, PartialEq, Eq, Debug)]
pub enum Encoding {
    Utf8,
    Utf16,
}

/// The decoded message bundle: whichever of the three section kinds were
/// present, each at most once; when a tag repeats, the last section wins.
/// Built once by the parse and immutable afterwards.
pub struct Message {
    pub attribute_section: Option<AttributeSection>,
    pub label_section: Option<LabelSection>,
    pub text_section: Option<TextSection>,
}

/// The mathematical content of a decoded message bundle.
pub ghost struct MessageModel {
    pub attribute_present: bool,
    pub labels: Option<Seq<Seq<LabelModel>>>,
    pub texts: Option<Seq<Seq<char>>>,
}

impl View for Message {
    type V = MessageModel;

    open spec fn view(&self) -> MessageModel {
        MessageModel {
            attribute_present: self.attribute_section is Some,
            labels: match self.label_section {
                Some(section) => Some(section@),
                None => None,
            },
            texts: match self.text_section {
                Some(section) => Some(section@),
                None => None,
            },
        }
    }
}

/// A bundle with no section decoded yet.
pub open spec fn empty_message() -> MessageModel {
    MessageModel { attribute_present: false, labels: None, texts: None }
}

/// One decoded section folded into the bundle: it fills its own slot and
/// leaves the other two alone, so a repeated tag overwrites the earlier
/// section of its kind.
pub open spec fn apply_section(m: MessageModel, s: SectionModel) -> MessageModel {
    match s {
        SectionModel::Attribute => MessageModel {
            attribute_present: true,
            labels: m.labels,
            texts: m.texts,
        },
        SectionModel::Label(labels) => MessageModel {
            attribute_present: m.attribute_present,
            labels: Some(labels),
            texts: m.texts,
        },
        SectionModel::Text(texts) => MessageModel {
            attribute_present: m.attribute_present,
            labels: m.labels,
            texts: Some(texts),
        },
    }
}

/// `k` consecutive sections parsed from `pos`, folded into `acc` in stream
/// order.
pub open spec fn spec_sections_from(
    bytes: Seq<u8>,
    pos: int,
    k: int,
    byte_order: ByteOrder,
    encoding: Encoding,
    acc: MessageModel,
) -> Result<MessageModel, ParseError>
    decreases k,
{
    if k <= 0 {
        Ok(acc)
    } else {
        match spec_section(bytes, pos, byte_order, encoding) {
            Err(e) => Err(e),
            Ok((section, next)) => spec_sections_from(bytes, next, k - 1, byte_order, encoding,
                apply_section(acc, section)),
        }
    }
}

/// The whole parse. When the total stream length is known it must be a
/// multiple of 16 — checked before any header byte is inspected — and must
/// equal the header's declared file size, checked right after the header.
/// Then exactly `sections_count` sections are parsed from offset 32 onward.
/// A single fault anywhere aborts the parse with that fault and no partial
/// bundle.
pub open spec fn spec_message(bytes: Seq<u8>, total_size_to_check: Option<u64>) -> Result<
    MessageModel,
    ParseError,
> {
    if total_size_to_check matches Some(total) && total % 16 != 0 {
        Err(ParseError::Misaligned)
    } else {
        match spec_header(bytes) {
            Err(e) => Err(e),
            Ok(header) => {
                if total_size_to_check matches Some(total) && total != header.file_size as u64 {
                    Err(ParseError::SizeMismatch)
                } else {
                    spec_sections_from(
                        bytes,
                        32,
                        header.sections_count as int,
                        header.byte_order,
                        header.encoding,
                        empty_message(),
                    )
                }
            },
        }
    }
}

impl Message {
    /// Decodes a message bundle from the whole stream. `total_size_to_check`
    /// is the stream's known total byte length, when the caller has one: it
    /// is held to the 16-byte alignment rule before any header field is
    /// inspected, and to the header's declared file size right after the
    /// header; `None` skips both checks, exactly as a caller without a known
    /// length would.
    #[verifier::loop_isolation(false)]
    pub fn from_reader(bytes: &[u8], total_size_to_check: Option<u64>) -> (r: Result<
        Message,
        ParseError,
    >)
        ensures
            match r {
                Ok(message) => spec_message(bytes@, total_size_to_check) == Ok::<
                    MessageModel,
                    ParseError,
                >(message@),
                Err(e) => spec_message(bytes@, total_size_to_check) == Err::<
                    MessageModel,
                    ParseError,
                >(e),
            },
            (total_size_to_check matches Some(total) && total % 16 != 0) ==> r == Err::<
                Message,
                ParseError,
            >(ParseError::Misaligned),
            match total_size_to_check {
                Some(total) => total % 16 == 0 ==> match spec_header(bytes@) {
                    Ok(header) => header.file_size as u64 != total ==> r == Err::<
                        Message,
                        ParseError,
                    >(ParseError::SizeMismatch),
                    Err(_) => true,
                },
                None => true,
            },
    {
        match total_size_to_check {
            Some(total) => {
                if total % 16 != 0 {
                    return Err(ParseError::Misaligned);
                }
            },
            None => {},
        }
        let header = match MessageHeader::from_reader(bytes) {
            Ok(h) => h,
            Err(e) => {
                return Err(e);
            },
        };
        match total_size_to_check {
            Some(total) => {
                if total != header.file_size as u64 {
                    return Err(ParseError::SizeMismatch);
                }
            },
            None => {},
        }
        let mut message = Message {
            attribute_section: None,
            label_section: None,
            text_section: None,
        };
        let mut pos: u64 = 32;
        let mut k: u16 = 0;
        while k < header.sections_count
            invariant
                k <= header.sections_count,
                pos as int <= 32 + k as int * 0x1_0000_0044,
                spec_sections_from(
                    bytes@,
                    32,
                    header.sections_count as int,
                    header.byte_order,
                    header.encoding,
                    empty_message(),
                ) == spec_sections_from(
                    bytes@,
                    pos as int,
                    header.sections_count - k,
                    header.byte_order,
                    header.encoding,
                    message@,
                ),
            decreases header.sections_count - k,
        {
            let (section, next) = match crate::section::from_reader(
                bytes,
                pos,
                header.byte_order,
                header.encoding,
            ) {
                Ok(v) => v,
                Err(e) => {
                    return Err(e);
                },
            };
            let ghost before = message@;
            match section {
                Section::Attribute(content) => message.attribute_section = Some(content),
                Section::Label(content) => message.label_section = Some(content),
                Section::Text(content) => message.text_section = Some(content),
            }
            proof {
                assert(message@ == apply_section(before, section@));
            }
            pos = next;
            k = k + 1;
        }
        Ok(message)
    }
}

} // verus!
