use vstd::prelude::*;

use vstd::slice::slice_subrange;
use vstd::utf8::{decode_utf8, valid_utf8};

use crate::bytes::{align16, align_position, read_u32, read_u8, spec_read_u32, spec_read_u8,
    ByteOrder, POS_LIMIT};
use crate::error::ParseError;
use crate::text::{decode_utf16, decode_utf16_units, decode_utf8_bytes, strip_trailing_nuls,
    trim_trailing_nuls, units_from_bytes, utf16_units, valid_utf16};
use crate::Encoding;

verus! {

/// Marks that an attribute section was present; its entry schema is not
/// modeled, so it carries no fields.
pub struct AttributeSection {}

/// One label record: a name and the index of the text it refers to. The
/// index is not range-checked against the text section at parse time.
pub struct Label {
    pub name: String,
    pub index: usize,
}

/// The label table: an ordered sequence of buckets, each an ordered sequence
/// of label records. Both orders are kept exactly as encountered, since a
/// bucket's position encodes its hash slot in the source format.
pub struct LabelSection {
    pub labels: Vec<Vec<Label>>,
}

/// The text table: one decoded string per offset-table entry, in offset
/// order, trailing NUL characters stripped.
pub struct TextSection {
    pub texts: Vec<String>,
}

/// One decoded section, whichever of the three kinds its tag named.
pub enum Section {
    Attribute(AttributeSection),
    Label(LabelSection),
    Text(TextSection),
}

/// The mathematical content of a label record.
pub ghost struct LabelModel {
    pub name: Seq<char>,
    pub index: int,
}

/// The mathematical content of a decoded section.
pub ghost enum SectionModel {
    Attribute,
    Label(Seq<Seq<LabelModel>>),
    Text(Seq<Seq<char>>),
}

impl View for Label {
    type V = LabelModel;

    open spec fn view(&self) -> LabelModel {
        LabelModel { name: self.name@, index: self.index as int }
    }
}

/// The bucket sequence a vector of bucket vectors stands for.
pub open spec fn buckets_view(labels: Vec<Vec<Label>>) -> Seq<Seq<LabelModel>> {
    labels@.map_values(|bucket: Vec<Label>| bucket@.map_values(|label: Label| label@))
}

impl View for LabelSection {
    type V = Seq<Seq<LabelModel>>;

    open spec fn view(&self) -> Seq<Seq<LabelModel>> {
        buckets_view(self.labels)
    }
}

impl View for TextSection {
    type V = Seq<Seq<char>>;

    open spec fn view(&self) -> Seq<Seq<char>> {
        self.texts@.map_values(|text: String| text@)
    }
}

impl View for Section {
    type V = SectionModel;

    open spec fn view(&self) -> SectionModel {
        match self {
            Section::Attribute(_) => SectionModel::Attribute,
            Section::Label(section) => SectionModel::Label(section@),
            Section::Text(section) => SectionModel::Text(section@),
        }
    }
}

/// The shared sub-header every section starts with, read right after the
/// four-byte tag: a 32-bit body size, eight reserved bytes, then a 32-bit
/// entry count. The body starts where the entry count stands (the count is
/// the body's first four bytes), and every offset inside the section is
/// relative to that anchor.
pub ghost struct SubHeader {
    pub body_size: u32,
    pub entries_count: u32,
    pub body_start: int,
    pub after: int,
}

/// The sub-header parse at `pos`: body size at `pos`, entry count at
/// `pos + 12`, body anchored at `pos + 12`, cursor left at `pos + 16`.
pub open spec fn spec_subheader(bytes: Seq<u8>, pos: int, byte_order: ByteOrder) -> Result<
    SubHeader,
    ParseError,
> {
    match spec_read_u32(bytes, pos, byte_order) {
        Err(e) => Err(e),
        Ok((body_size, _)) => match spec_read_u32(bytes, pos + 12, byte_order) {
            Err(e) => Err(e),
            Ok((entries_count, after)) => Ok(
                SubHeader { body_size, entries_count, body_start: pos + 12, after },
            ),
        },
    }
}

/// The attribute section parse: its entry schema is unmodeled, so the body
/// is skipped whole and the cursor lands on the next 16-byte boundary after
/// the body's end.
pub open spec fn spec_attribute_section(bytes: Seq<u8>, pos: int, byte_order: ByteOrder) -> Result<
    (SectionModel, int),
    ParseError,
> {
    match spec_subheader(bytes, pos, byte_order) {
        Err(e) => Err(e),
        Ok(sh) => Ok((SectionModel::Attribute, align16(sh.body_start + sh.body_size))),
    }
}

/// The records of one bucket, read consecutively from `pos`: each record is
/// an 8-bit name length, that many UTF-8 name bytes, and a 32-bit index.
/// `acc` holds the records already read; the result carries the cursor after
/// the last record.
pub open spec fn spec_records_from(
    bytes: Seq<u8>,
    pos: int,
    k: int,
    byte_order: ByteOrder,
    acc: Seq<LabelModel>,
) -> Result<(Seq<LabelModel>, int), ParseError>
    decreases k,
{
    if k <= 0 {
        Ok((acc, pos))
    } else {
        match spec_read_u8(bytes, pos) {
            Err(e) => Err(e),
            Ok((name_len, name_start)) => {
                if name_start + name_len > bytes.len() {
                    Err(ParseError::UnexpectedEnd)
                } else {
                    let name_bytes = bytes.subrange(name_start, name_start + name_len);
                    if !valid_utf8(name_bytes) {
                        Err(ParseError::InvalidText)
                    } else {
                        match spec_read_u32(bytes, name_start + name_len, byte_order) {
                            Err(e) => Err(e),
                            Ok((index, next)) => spec_records_from(
                                bytes,
                                next,
                                k - 1,
                                byte_order,
                                acc.push(
                                    LabelModel { name: decode_utf8(name_bytes), index: index as int },
                                ),
                            ),
                        }
                    }
                }
            },
        }
    }
}

/// The bucket list, one descriptor pair (record count, body-relative offset)
/// per bucket at `desc_pos`, each bucket's records read where its offset
/// points; the cursor returns to the descriptor table between buckets.
pub open spec fn spec_buckets_from(
    bytes: Seq<u8>,
    desc_pos: int,
    body_start: int,
    k: int,
    byte_order: ByteOrder,
    acc: Seq<Seq<LabelModel>>,
) -> Result<Seq<Seq<LabelModel>>, ParseError>
    decreases k,
{
    if k <= 0 {
        Ok(acc)
    } else {
        match spec_read_u32(bytes, desc_pos, byte_order) {
            Err(e) => Err(e),
            Ok((count, mid)) => match spec_read_u32(bytes, mid, byte_order) {
                Err(e) => Err(e),
                Ok((offset, next_desc)) => match spec_records_from(
                    bytes,
                    body_start + offset,
                    count as int,
                    byte_order,
                    Seq::empty(),
                ) {
                    Err(e) => Err(e),
                    Ok((records, _)) => spec_buckets_from(
                        bytes,
                        next_desc,
                        body_start,
                        k - 1,
                        byte_order,
                        acc.push(records),
                    ),
                },
            },
        }
    }
}

/// The label section parse: the entry count is the bucket count, and after
/// the buckets the cursor lands on the next 16-byte boundary after the body.
pub open spec fn spec_label_section(bytes: Seq<u8>, pos: int, byte_order: ByteOrder) -> Result<
    (SectionModel, int),
    ParseError,
> {
    match spec_subheader(bytes, pos, byte_order) {
        Err(e) => Err(e),
        Ok(sh) => match spec_buckets_from(
            bytes,
            sh.after,
            sh.body_start,
            sh.entries_count as int,
            byte_order,
            Seq::empty(),
        ) {
            Err(e) => Err(e),
            Ok(buckets) => Ok(
                (SectionModel::Label(buckets), align16(sh.body_start + sh.body_size)),
            ),
        },
    }
}

/// The offset table of a text section: `k` 32-bit offsets read in a row.
pub open spec fn spec_offsets_from(
    bytes: Seq<u8>,
    pos: int,
    k: int,
    byte_order: ByteOrder,
    acc: Seq<int>,
) -> Result<(Seq<int>, int), ParseError>
    decreases k,
{
    if k <= 0 {
        Ok((acc, pos))
    } else {
        match spec_read_u32(bytes, pos, byte_order) {
            Err(e) => Err(e),
            Ok((offset, next)) => spec_offsets_from(bytes, next, k - 1, byte_order,
                acc.push(offset as int)),
        }
    }
}

/// One text entry between two adjacent offsets: its bytes run from
/// `body_start + start` to `body_start + end`, are decoded under the
/// selected encoding, and lose their trailing NULs. A decreasing offset pair
/// and an odd UTF-16 byte count are faults of their own.
pub open spec fn spec_text_entry(
    bytes: Seq<u8>,
    body_start: int,
    start: int,
    end: int,
    byte_order: ByteOrder,
    encoding: Encoding,
) -> Result<Seq<char>, ParseError> {
    if end < start {
        Err(ParseError::OffsetOrder)
    } else if body_start + end > bytes.len() {
        Err(ParseError::UnexpectedEnd)
    } else {
        let text_bytes = bytes.subrange(body_start + start, body_start + end);
        match encoding {
            Encoding::Utf8 => {
                if valid_utf8(text_bytes) {
                    Ok(strip_trailing_nuls(decode_utf8(text_bytes)))
                } else {
                    Err(ParseError::InvalidText)
                }
            },
            Encoding::Utf16 => {
                if text_bytes.len() % 2 != 0 {
                    Err(ParseError::InvalidText)
                } else if valid_utf16(utf16_units(text_bytes, byte_order)) {
                    Ok(strip_trailing_nuls(decode_utf16(utf16_units(text_bytes, byte_order))))
                } else {
                    Err(ParseError::InvalidText)
                }
            },
        }
    }
}

/// The decoded texts, one per adjacent offset pair from index `i` on.
pub open spec fn spec_texts_from(
    bytes: Seq<u8>,
    offsets: Seq<int>,
    i: int,
    body_start: int,
    byte_order: ByteOrder,
    encoding: Encoding,
    acc: Seq<Seq<char>>,
) -> Result<Seq<Seq<char>>, ParseError>
    decreases offsets.len() - i,
{
    if i + 1 >= offsets.len() {
        Ok(acc)
    } else {
        match spec_text_entry(bytes, body_start, offsets[i], offsets[i + 1], byte_order, encoding) {
            Err(e) => Err(e),
            Ok(text) => spec_texts_from(bytes, offsets, i + 1, body_start, byte_order, encoding,
                acc.push(text)),
        }
    }
}

/// The text section parse: the entry count is the number of offsets, one
/// synthetic trailing offset equal to the body size closes the last entry,
/// and the cursor lands on the next 16-byte boundary after the body.
pub open spec fn spec_text_section(
    bytes: Seq<u8>,
    pos: int,
    byte_order: ByteOrder,
    encoding: Encoding,
) -> Result<(SectionModel, int), ParseError> {
    match spec_subheader(bytes, pos, byte_order) {
        Err(e) => Err(e),
        Ok(sh) => match spec_offsets_from(
            bytes,
            sh.after,
            sh.entries_count as int,
            byte_order,
            Seq::empty(),
        ) {
            Err(e) => Err(e),
            Ok((offsets, _)) => match spec_texts_from(
                bytes,
                offsets.push(sh.body_size as int),
                0,
                sh.body_start,
                byte_order,
                encoding,
                Seq::empty(),
            ) {
                Err(e) => Err(e),
                Ok(texts) => Ok(
                    (SectionModel::Text(texts), align16(sh.body_start + sh.body_size)),
                ),
            },
        },
    }
}

/// True when the four bytes at `pos` are the attribute tag "ATR1".
pub open spec fn is_attribute_tag(bytes: Seq<u8>, pos: int) -> bool {
    bytes[pos] == 0x41u8 && bytes[pos + 1] == 0x54u8 && bytes[pos + 2] == 0x52u8 && bytes[pos + 3]
        == 0x31u8
}

/// True when the four bytes at `pos` are the label tag "LBL1".
pub open spec fn is_label_tag(bytes: Seq<u8>, pos: int) -> bool {
    bytes[pos] == 0x4Cu8 && bytes[pos + 1] == 0x42u8 && bytes[pos + 2] == 0x4Cu8 && bytes[pos + 3]
        == 0x31u8
}

/// True when the four bytes at `pos` are the text tag "TXT2".
pub open spec fn is_text_tag(bytes: Seq<u8>, pos: int) -> bool {
    bytes[pos] == 0x54u8 && bytes[pos + 1] == 0x58u8 && bytes[pos + 2] == 0x54u8 && bytes[pos + 3]
        == 0x32u8
}

/// One section parse at `pos`: a four-byte tag dispatches to one of the
/// three decoders; any other tag is a hard fault, since a section's length
/// is only discoverable after tag-specific dispatch and an unknown section
/// cannot be skipped safely.
pub open spec fn spec_section(
    bytes: Seq<u8>,
    pos: int,
    byte_order: ByteOrder,
    encoding: Encoding,
) -> Result<(SectionModel, int), ParseError> {
    if pos < 0 || pos + 4 > bytes.len() {
        Err(ParseError::UnexpectedEnd)
    } else if is_attribute_tag(bytes, pos) {
        spec_attribute_section(bytes, pos + 4, byte_order)
    } else if is_label_tag(bytes, pos) {
        spec_label_section(bytes, pos + 4, byte_order)
    } else if is_text_tag(bytes, pos) {
        spec_text_section(bytes, pos + 4, byte_order, encoding)
    } else {
        Err(ParseError::UnsupportedSection)
    }
}

/// Reads the shared sub-header at `pos`: (body size, entry count, body
/// start, cursor after the count).
fn read_subheader(bytes: &[u8], pos: u64, byte_order: ByteOrder) -> (r: Result<
    (u32, u32, u64, u64),
    ParseError,
>)
    requires
        pos <= POS_LIMIT + 4,
    ensures
        match r {
            Ok(v) => spec_subheader(bytes@, pos as int, byte_order) == Ok::<SubHeader, ParseError>(
                SubHeader {
                    body_size: v.0,
                    entries_count: v.1,
                    body_start: v.2 as int,
                    after: v.3 as int,
                },
            ) && v.2 == pos + 12 && v.3 == pos + 16,
            Err(e) => spec_subheader(bytes@, pos as int, byte_order) == Err::<SubHeader, ParseError>(
                e,
            ),
        },
{
    let body_size = match read_u32(bytes, pos, byte_order) {
        Ok(v) => v.0,
        Err(e) => {
            return Err(e);
        },
    };
    let body_start = pos + 12;
    let (entries_count, after) = match read_u32(bytes, body_start, byte_order) {
        Ok(v) => v,
        Err(e) => {
            return Err(e);
        },
    };
    Ok((body_size, entries_count, body_start, after))
}

impl AttributeSection {
    /// Decodes an attribute section at `pos` (right after its tag): the body
    /// is skipped whole, since its entry schema is not modeled, and the
    /// returned position sits on the next 16-byte boundary after the body.
    pub fn from_reader(bytes: &[u8], pos: u64, byte_order: ByteOrder) -> (r: Result<
        (AttributeSection, u64),
        ParseError,
    >)
        requires
            pos <= POS_LIMIT + 4,
        ensures
            match r {
                Ok(v) => spec_attribute_section(bytes@, pos as int, byte_order) == Ok::<
                    (SectionModel, int),
                    ParseError,
                >((SectionModel::Attribute, v.1 as int)) && v.1 <= pos + 0x1_0000_0040,
                Err(e) => spec_attribute_section(bytes@, pos as int, byte_order) == Err::<
                    (SectionModel, int),
                    ParseError,
                >(e),
            },
    {
        let (body_size, _entries_count, body_start, _after) = match read_subheader(
            bytes,
            pos,
            byte_order,
        ) {
            Ok(v) => v,
            Err(e) => {
                return Err(e);
            },
        };
        let end = align_position(body_start + body_size as u64);
        Ok((AttributeSection {  }, end))
    }
}

/// The record sequence a vector of labels stands for.
pub open spec fn records_view(entries: Vec<Label>) -> Seq<LabelModel> {
    entries@.map_values(|label: Label| label@)
}

impl LabelSection {
    /// Decodes a label section at `pos` (right after its tag). The entry
    /// count is the bucket count; each bucket descriptor names a record
    /// count and a body-relative offset where its records lie, and both the
    /// bucket order and each bucket's record order are kept exactly as
    /// encountered. The returned position sits on the next 16-byte boundary
    /// after the body. An empty entry count yields an empty bucket sequence;
    /// in general the bucket count equals the entry count.
    #[verifier::loop_isolation(false)]
    pub fn from_reader(bytes: &[u8], pos: u64, byte_order: ByteOrder) -> (r: Result<
        (LabelSection, u64),
        ParseError,
    >)
        requires
            pos <= POS_LIMIT + 4,
        ensures
            match r {
                Ok(v) => spec_label_section(bytes@, pos as int, byte_order) == Ok::<
                    (SectionModel, int),
                    ParseError,
                >((SectionModel::Label(v.0@), v.1 as int)) && v.1 <= pos + 0x1_0000_0040,
                Err(e) => spec_label_section(bytes@, pos as int, byte_order) == Err::<
                    (SectionModel, int),
                    ParseError,
                >(e),
            },
            match r {
                Ok(v) => match spec_subheader(bytes@, pos as int, byte_order) {
                    Ok(sh) => v.0.labels@.len() == sh.entries_count,
                    Err(_) => true,
                },
                Err(_) => true,
            },
    {
        let (body_size, entries_count, body_start, after) = match read_subheader(
            bytes,
            pos,
            byte_order,
        ) {
            Ok(v) => v,
            Err(e) => {
                return Err(e);
            },
        };
        let mut labels: Vec<Vec<Label>> = Vec::new();
        proof {
            assert(buckets_view(labels) =~= Seq::<Seq<LabelModel>>::empty());
        }
        let mut desc_pos: u64 = after;
        let mut k: u32 = 0;
        while k < entries_count
            invariant
                k <= entries_count,
                pos <= POS_LIMIT + 4,
                body_start == pos + 12,
                desc_pos == after + 8 * k,
                after == pos + 16,
                labels@.len() == k,
                spec_buckets_from(
                    bytes@,
                    after as int,
                    body_start as int,
                    entries_count as int,
                    byte_order,
                    Seq::empty(),
                ) == spec_buckets_from(
                    bytes@,
                    desc_pos as int,
                    body_start as int,
                    entries_count - k,
                    byte_order,
                    buckets_view(labels),
                ),
            decreases entries_count - k,
        {
            let (count, mid) = match read_u32(bytes, desc_pos, byte_order) {
                Ok(v) => v,
                Err(e) => {
                    return Err(e);
                },
            };
            let (offset, next_desc) = match read_u32(bytes, mid, byte_order) {
                Ok(v) => v,
                Err(e) => {
                    return Err(e);
                },
            };
            let rec_start: u64 = body_start + offset as u64;
            let mut entries: Vec<Label> = Vec::new();
            proof {
                assert(records_view(entries) =~= Seq::<LabelModel>::empty());
            }
            let mut rpos: u64 = rec_start;
            let mut j: u32 = 0;
            while j < count
                invariant
                    j <= count,
                    entries@.len() == j,
                    spec_records_from(
                        bytes@,
                        rec_start as int,
                        count as int,
                        byte_order,
                        Seq::empty(),
                    ) == spec_records_from(
                        bytes@,
                        rpos as int,
                        count - j,
                        byte_order,
                        records_view(entries),
                    ),
                decreases count - j,
            {
                let (name_len, name_start) = match read_u8(bytes, rpos) {
                    Ok(v) => v,
                    Err(e) => {
                        return Err(e);
                    },
                };
                if name_len as u64 > bytes.len() as u64 - name_start {
                    return Err(ParseError::UnexpectedEnd);
                }
                let name_end: u64 = name_start + name_len as u64;
                let name_slice = slice_subrange(bytes, name_start as usize, name_end as usize);
                let name = match decode_utf8_bytes(name_slice) {
                    Some(s) => s,
                    None => {
                        return Err(ParseError::InvalidText);
                    },
                };
                let (index, next) = match read_u32(bytes, name_end, byte_order) {
                    Ok(v) => v,
                    Err(e) => {
                        return Err(e);
                    },
                };
                let ghost prev = records_view(entries);
                entries.push(Label { name, index: index as usize });
                proof {
                    assert(records_view(entries) =~= prev.push(
                        LabelModel {
                            name: decode_utf8(bytes@.subrange(name_start as int, name_end as int)),
                            index: index as int,
                        },
                    ));
                }
                rpos = next;
                j = j + 1;
            }
            let ghost prev_buckets = buckets_view(labels);
            let ghost bucket = records_view(entries);
            labels.push(entries);
            proof {
                assert(buckets_view(labels) =~= prev_buckets.push(bucket));
            }
            desc_pos = next_desc;
            k = k + 1;
        }
        let end = align_position(body_start + body_size as u64);
        Ok((LabelSection { labels }, end))
    }
}

/// The offset sequence a vector of offsets stands for.
pub open spec fn offsets_view(offsets: Vec<u64>) -> Seq<int> {
    offsets@.map_values(|offset: u64| offset as int)
}

/// The text sequence a vector of strings stands for.
pub open spec fn texts_view(texts: Vec<String>) -> Seq<Seq<char>> {
    texts@.map_values(|text: String| text@)
}

impl TextSection {
    /// Decodes a text section at `pos` (right after its tag). The entry
    /// count is the number of offset-table entries, and exactly that many
    /// strings come out: one per adjacent offset pair, the last entry closed
    /// by a synthetic trailing boundary equal to the body size. Each entry's
    /// bytes are decoded under the selected encoding and stripped of
    /// trailing NULs. The returned position sits on the next 16-byte
    /// boundary after the body.
    #[verifier::loop_isolation(false)]
    pub fn from_reader(bytes: &[u8], pos: u64, byte_order: ByteOrder, encoding: Encoding) -> (r:
        Result<(TextSection, u64), ParseError>)
        requires
            pos <= POS_LIMIT + 4,
        ensures
            match r {
                Ok(v) => spec_text_section(bytes@, pos as int, byte_order, encoding) == Ok::<
                    (SectionModel, int),
                    ParseError,
                >((SectionModel::Text(v.0@), v.1 as int)) && v.1 <= pos + 0x1_0000_0040,
                Err(e) => spec_text_section(bytes@, pos as int, byte_order, encoding) == Err::<
                    (SectionModel, int),
                    ParseError,
                >(e),
            },
            match r {
                Ok(v) => match spec_subheader(bytes@, pos as int, byte_order) {
                    Ok(sh) => v.0.texts@.len() == sh.entries_count,
                    Err(_) => true,
                },
                Err(_) => true,
            },
    {
        let (body_size, entries_count, body_start, after) = match read_subheader(
            bytes,
            pos,
            byte_order,
        ) {
            Ok(v) => v,
            Err(e) => {
                return Err(e);
            },
        };
        let mut offsets: Vec<u64> = Vec::new();
        proof {
            assert(offsets_view(offsets) =~= Seq::<int>::empty());
        }
        let mut opos: u64 = after;
        let mut k: u32 = 0;
        while k < entries_count
            invariant
                k <= entries_count,
                offsets@.len() == k,
                forall|j: int| 0 <= j < offsets@.len() ==> offsets@[j] <= 0xFFFF_FFFFu64,
                spec_offsets_from(
                    bytes@,
                    after as int,
                    entries_count as int,
                    byte_order,
                    Seq::empty(),
                ) == spec_offsets_from(
                    bytes@,
                    opos as int,
                    entries_count - k,
                    byte_order,
                    offsets_view(offsets),
                ),
            decreases entries_count - k,
        {
            let (offset, next) = match read_u32(bytes, opos, byte_order) {
                Ok(v) => v,
                Err(e) => {
                    return Err(e);
                },
            };
            let ghost prev = offsets_view(offsets);
            offsets.push(offset as u64);
            proof {
                assert(offsets_view(offsets) =~= prev.push(offset as int));
            }
            opos = next;
            k = k + 1;
        }
        let ghost prev = offsets_view(offsets);
        offsets.push(body_size as u64);
        proof {
            assert(offsets_view(offsets) =~= prev.push(body_size as int));
        }
        let ghost all = offsets_view(offsets);
        let mut texts: Vec<String> = Vec::new();
        proof {
            assert(texts_view(texts) =~= Seq::<Seq<char>>::empty());
        }
        let boundary_count: usize = offsets.len();
        let mut i: usize = 0;
        while i + 1 < boundary_count
            invariant
                i + 1 <= boundary_count,
                texts@.len() == i,
                all == offsets_view(offsets),
                boundary_count == offsets@.len(),
                forall|j: int| 0 <= j < offsets@.len() ==> offsets@[j] <= 0xFFFF_FFFFu64,
                spec_texts_from(bytes@, all, 0, body_start as int, byte_order, encoding,
                    Seq::empty()) == spec_texts_from(
                    bytes@,
                    all,
                    i as int,
                    body_start as int,
                    byte_order,
                    encoding,
                    texts_view(texts),
                ),
            decreases boundary_count - i,
        {
            let start: u64 = offsets[i];
            let end: u64 = offsets[i + 1];
            if end < start {
                return Err(ParseError::OffsetOrder);
            }
            let abs_end: u64 = body_start + end;
            if abs_end > bytes.len() as u64 {
                return Err(ParseError::UnexpectedEnd);
            }
            let abs_start: u64 = body_start + start;
            let text_bytes = slice_subrange(bytes, abs_start as usize, abs_end as usize);
            let decoded = match encoding {
                Encoding::Utf8 => match decode_utf8_bytes(text_bytes) {
                    Some(s) => s,
                    None => {
                        return Err(ParseError::InvalidText);
                    },
                },
                Encoding::Utf16 => {
                    if text_bytes.len() % 2 != 0 {
                        return Err(ParseError::InvalidText);
                    }
                    let units = units_from_bytes(text_bytes, byte_order);
                    match decode_utf16_units(units.as_slice()) {
                        Some(s) => s,
                        None => {
                            return Err(ParseError::InvalidText);
                        },
                    }
                },
            };
            let text = trim_trailing_nuls(decoded);
            let ghost prev_texts = texts_view(texts);
            let ghost entry = text@;
            texts.push(text);
            proof {
                assert(texts_view(texts) =~= prev_texts.push(entry));
            }
            i = i + 1;
        }
        let end = align_position(body_start + body_size as u64);
        Ok((TextSection { texts }, end))
    }
}

/// Reads one section at `pos`: the four-byte tag picks the decoder, and any
/// unrecognized tag aborts the parse with an unsupported-section fault — the
/// format offers no safe way to skip a section whose layout is unknown.
pub fn from_reader(bytes: &[u8], pos: u64, byte_order: ByteOrder, encoding: Encoding) -> (r:
    Result<(Section, u64), ParseError>)
    requires
        pos + 4 <= POS_LIMIT,
    ensures
        match r {
            Ok(v) => spec_section(bytes@, pos as int, byte_order, encoding) == Ok::<
                (SectionModel, int),
                ParseError,
            >((v.0@, v.1 as int)) && v.1 <= pos + 0x1_0000_0044,
            Err(e) => spec_section(bytes@, pos as int, byte_order, encoding) == Err::<
                (SectionModel, int),
                ParseError,
            >(e),
        },
        (pos + 4 <= bytes@.len() && !is_attribute_tag(bytes@, pos as int) && !is_label_tag(
            bytes@,
            pos as int,
        ) && !is_text_tag(bytes@, pos as int)) ==> r == Err::<(Section, u64), ParseError>(
            ParseError::UnsupportedSection,
        ),
{
    let n = bytes.len() as u64;
    if n < 4 || pos > n - 4 {
        return Err(ParseError::UnexpectedEnd);
    }
    let t0 = bytes[pos as usize];
    let t1 = bytes[(pos + 1) as usize];
    let t2 = bytes[(pos + 2) as usize];
    let t3 = bytes[(pos + 3) as usize];
    if t0 == 0x41 && t1 == 0x54 && t2 == 0x52 && t3 == 0x31 {
        match AttributeSection::from_reader(bytes, pos + 4, byte_order) {
            Ok(v) => Ok((Section::Attribute(v.0), v.1)),
            Err(e) => Err(e),
        }
    } else if t0 == 0x4C && t1 == 0x42 && t2 == 0x4C && t3 == 0x31 {
        match LabelSection::from_reader(bytes, pos + 4, byte_order) {
            Ok(v) => Ok((Section::Label(v.0), v.1)),
            Err(e) => Err(e),
        }
    } else if t0 == 0x54 && t1 == 0x58 && t2 == 0x54 && t3 == 0x32 {
        match TextSection::from_reader(bytes, pos + 4, byte_order, encoding) {
            Ok(v) => Ok((Section::Text(v.0), v.1)),
            Err(e) => Err(e),
        }
    } else {
        Err(ParseError::UnsupportedSection)
    }
}

} // verus!
