//! Directory entries: 12-byte records of a tag, a type code, a component
//! count, and a value held inline or at an offset in the metadata segment.
use crate::bytes::{be32, le16, le32, le64, read_be32, read_le16, read_le32, read_le64};
use crate::jpg::ExifError;
use crate::timestamp::{all_ascii, ascii_chars, lossy_text, utf8_lossy};
use vstd::prelude::*;

verus! {

/// A decoded entry value. Floating-point values are kept as their bit
/// patterns; the single-precision one is read big-endian, unlike every other
/// value of the directory. Whether files store it that way is unconfirmed:
/// no sample exercises it.
#[derive(Clone, Debug, PartialEq)]
pub enum IfdValue {
    UnsignedByte(u8),
    AsciiStrings(String),
    UnsignedShort(u16),
    UnsignedLong(u32),
    UnsignedRational,
    SignedByte(i8),
    Undefined(Vec<u8>),
    SignedShort(i16),
    SignedLong(i32),
    SignedRational,
    SingleFloatBits(u32),
    DoubleFloatBits(u64),
}

#[derive(Clone, Debug, PartialEq)]
pub struct IfdEntry {
    pub tag: u16,
    pub value: IfdValue,
}

/// Type code of ASCII strings.
pub const ASCII_STRINGS: u16 = 2;

/// The bytes per component of a type code, or `None` for an unknown code.
pub open spec fn component_width(code: int) -> Option<int> {
    if code == 1 || code == 2 || code == 6 || code == 7 {
        Some(1)
    } else if code == 3 || code == 8 {
        Some(2)
    } else if code == 4 || code == 9 || code == 11 {
        Some(4)
    } else if code == 5 || code == 10 || code == 12 {
        Some(8)
    } else {
        None
    }
}

/// The leading value bytes that decoding a value of a type code reads.
pub open spec fn bytes_decoded(code: int) -> int {
    if code == 1 || code == 6 {
        1
    } else if code == 3 || code == 8 {
        2
    } else if code == 4 || code == 9 || code == 11 {
        4
    } else if code == 12 {
        8
    } else {
        0
    }
}

pub open spec fn record_tag(r: Seq<u8>) -> int {
    le16(r, 0)
}

pub open spec fn record_type(r: Seq<u8>) -> int {
    le16(r, 2)
}

pub open spec fn record_count(r: Seq<u8>) -> int {
    le32(r, 4)
}

/// The last four bytes of a record, read as an offset.
pub open spec fn record_offset(r: Seq<u8>) -> int {
    le32(r, 8)
}

/// The byte length of a record's value (its type code must be known).
pub open spec fn value_length(r: Seq<u8>) -> int {
    component_width(record_type(r))->Some_0 * record_count(r)
}

/// A value of at most four bytes is held inline in the record; a longer one
/// lies in `segment` at the record's offset plus 8 (the segment starts 8
/// bytes before the TIFF header that offsets count from). `None` where that
/// range leaves the segment, or where decoding needs more bytes than held.
pub open spec fn value_bytes(r: Seq<u8>, segment: Seq<u8>) -> Option<Seq<u8>> {
    let len = value_length(r);
    let start = record_offset(r) + 8;
    let b = if len <= 4 {
        r.subrange(8, 12)
    } else {
        segment.subrange(start, start + len)
    };
    if len > 4 && start + len > segment.len() {
        None
    } else if b.len() < bytes_decoded(record_type(r)) {
        None
    } else {
        Some(b)
    }
}

/// Two's complement reading of an unsigned value of `bits` bits.
pub open spec fn signed(v: int, bits: nat) -> int {
    if v < pow2(bits) / 2 { v } else { v - pow2(bits) }
}

pub open spec fn pow2(bits: nat) -> int {
    if bits == 8 { 0x100 } else if bits == 16 { 0x10000 } else { 0x1_0000_0000 }
}

/// `v` is the value of type `code` that the bytes `b` hold.
pub open spec fn decodes_to(code: int, b: Seq<u8>, v: IfdValue) -> bool {
    match v {
        IfdValue::UnsignedByte(x) => code == 1 && x == b[0],
        IfdValue::AsciiStrings(s) => code == 2 && s@ == lossy_text(b),
        IfdValue::UnsignedShort(x) => code == 3 && x == le16(b, 0),
        IfdValue::UnsignedLong(x) => code == 4 && x == le32(b, 0),
        IfdValue::UnsignedRational => code == 5,
        IfdValue::SignedByte(x) => code == 6 && x == signed(b[0] as int, 8),
        IfdValue::Undefined(x) => code == 7 && x@ == b,
        IfdValue::SignedShort(x) => code == 8 && x == signed(le16(b, 0), 16),
        IfdValue::SignedLong(x) => code == 9 && x == signed(le32(b, 0), 32),
        IfdValue::SignedRational => code == 10,
        IfdValue::SingleFloatBits(x) => code == 11 && x == be32(b, 0),
        IfdValue::DoubleFloatBits(x) => code == 12 && x == le64(b, 0),
    }
}

/// The bytes per component of type `code`, from the table of known types.
pub fn bytes_per_component(code: u16) -> (r: Option<u32>)
    ensures
        r matches Some(w) ==> component_width(code as int) == Some(w as int),
        r is None ==> component_width(code as int) is None,
{
    match code {
        1 => Some(1),
        2 => Some(1),
        3 => Some(2),
        4 => Some(4),
        5 => Some(8),
        6 => Some(1),
        7 => Some(1),
        8 => Some(2),
        9 => Some(4),
        10 => Some(8),
        11 => Some(4),
        12 => Some(8),
        _ => None,
    }
}

/// Decodes the value of type `code` held in `b`.
pub fn decode_value(code: u16, b: &[u8]) -> (r: IfdValue)
    requires
        component_width(code as int) is Some,
        b@.len() >= bytes_decoded(code as int),
    ensures
        decodes_to(code as int, b@, r),
        code == ASCII_STRINGS && all_ascii(b@) ==> (r matches IfdValue::AsciiStrings(s) && s@
            == ascii_chars(b@)),
{
    match code {
        1 => IfdValue::UnsignedByte(b[0]),
        2 => IfdValue::AsciiStrings(utf8_lossy(b)),
        3 => IfdValue::UnsignedShort(read_le16(b, 0)),
        4 => IfdValue::UnsignedLong(read_le32(b, 0)),
        5 => IfdValue::UnsignedRational,
        6 => {
            let x = b[0];
            IfdValue::SignedByte(if x < 0x80 { x as i8 } else { (x as i16 - 0x100) as i8 })
        },
        7 => IfdValue::Undefined(vstd::slice::slice_to_vec(b)),
        8 => {
            let x = read_le16(b, 0);
            IfdValue::SignedShort(if x < 0x8000 { x as i16 } else { (x as i32 - 0x10000) as i16 })
        },
        9 => {
            let x = read_le32(b, 0);
            IfdValue::SignedLong(
                if x < 0x8000_0000 { x as i32 } else { (x as i64 - 0x1_0000_0000) as i32 },
            )
        },
        10 => IfdValue::SignedRational,
        11 => IfdValue::SingleFloatBits(read_be32(b, 0)),
        _ => IfdValue::DoubleFloatBits(read_le64(b, 0)),
    }
}

/// Decodes one 12-byte directory record. An unknown type code gives
/// `Ok(None)`; a value that lies outside `segment`, or is too short for its
/// type, gives `Truncated`.
pub fn parse_ifd_entry(record: &[u8], segment: &[u8]) -> (r: Result<Option<IfdEntry>, ExifError>)
    requires
        record@.len() == 12,
    ensures
        component_width(record_type(record@)) is None ==> r matches Ok(None),
        component_width(record_type(record@)) is Some ==> match value_bytes(record@, segment@) {
            None => r == Err::<Option<IfdEntry>, ExifError>(ExifError::Truncated),
            Some(b) => r matches Ok(Some(e)) && e.tag == record_tag(record@) && decodes_to(
                record_type(record@),
                b,
                e.value,
            ),
        },
        record_type(record@) == ASCII_STRINGS ==> match value_bytes(record@, segment@) {
            Some(b) => all_ascii(b) ==> (r matches Ok(Some(e)) && (e.value matches IfdValue::AsciiStrings(
                s,
            ) && s@ == ascii_chars(b))),
            None => true,
        },
{
    let tag = read_le16(record, 0);
    let code = read_le16(record, 2);
    let count = read_le32(record, 4);
    let width = match bytes_per_component(code) {
        Some(w) => w,
        None => return Ok(None),
    };
    let len = width as u64 * count as u64;
    let b: &[u8] = if len <= 4 {
        &record[8..12]
    } else {
        let start = read_le32(record, 8) as u64 + 8;
        if start + len > segment.len() as u64 {
            return Err(ExifError::Truncated);
        }
        &segment[start as usize..(start + len) as usize]
    };
    if (b.len() as u64) < needed_bytes(code) {
        return Err(ExifError::Truncated);
    }
    Ok(Some(IfdEntry { tag, value: decode_value(code, b) }))
}

/// An ASCII string value of at most four bytes is read from the record
/// itself, a longer one from the segment at the record's offset plus 8; on
/// both paths the text is the same function of the bytes read.
pub proof fn lemma_ascii_inline_or_offset(r: Seq<u8>, segment: Seq<u8>)
    requires
        r.len() == 12,
        record_type(r) == ASCII_STRINGS,
    ensures
        record_count(r) <= 4 ==> value_bytes(r, segment) == Some(r.subrange(8, 12)),
        record_count(r) > 4 && record_offset(r) + 8 + record_count(r) <= segment.len()
            ==> value_bytes(r, segment) == Some(
            segment.subrange(record_offset(r) + 8, record_offset(r) + 8 + record_count(r)),
        ),
        record_count(r) > 4 && record_offset(r) + 8 + record_count(r) > segment.len()
            ==> value_bytes(r, segment) is None,
        forall|b: Seq<u8>, v: IfdValue|
            #[trigger] decodes_to(ASCII_STRINGS as int, b, v) ==> (v matches IfdValue::AsciiStrings(
                s,
            ) && s@ == lossy_text(b)),
{
}

fn needed_bytes(code: u16) -> (r: u64)
    ensures
        r == bytes_decoded(code as int),
{
    match code {
        1 | 6 => 1,
        3 | 8 => 2,
        4 | 9 | 11 => 4,
        12 => 8,
        _ => 0,
    }
}

} // verus!
