//! Locating the EXIF block of a JPEG file and reading its date-time.
use crate::bytes::{be16, le16, le32, read_be16, read_le16, read_le32};
use crate::entry::{
    bytes_per_component, component_width, parse_ifd_entry, record_tag, record_type, value_bytes,
    IfdValue, ASCII_STRINGS,
};
use crate::timestamp::{
    all_ascii, ascii_chars, date_time_parse, date_time_separators, date_time_text, lossy_text,
    parse_date_time, Timestamp, DATE_TIME_LAYOUT,
};
use vstd::prelude::*;

verus! {

/// Why a timestamp could not be read.
#[derive(Clone, Copy, Debug, PartialEq, Eq, Structural)]
pub enum ExifError {
    /// The data does not start with the start-of-image marker.
    MissingSoi,
    /// The byte after the start-of-image marker is not a marker prefix.
    ExpectedMarker,
    /// The APP1 segment lacks the `Exif\0\0` signature.
    InvalidExifHeader,
    /// The TIFF header is not the little-endian one.
    InvalidTiffHeader,
    /// A structure reaches past the end of the data that should hold it.
    Truncated,
    /// The date-time entry does not hold ASCII strings.
    WrongDateTimeType,
    /// The date-time text is not `YYYY:MM:DD HH:MM:SS` of a valid date-time.
    InvalidDateTime,
}


/// Where the EXIF block of a JPEG file lies: the APP1 segment is
/// `data[4..4 + length]` (from its length field on), and the root directory
/// starts at `root` within it.
#[derive(Clone, Copy, Debug, PartialEq, Eq, Structural)]
pub struct MetadataSegment {
    pub length: usize,
    pub root: usize,
}

/// Tag of the date-time entry.
pub const DATE_TIME_TAG: u16 = 0x0132;

/// `seg[2..8]` is `Exif\0\0`.
pub open spec fn has_exif_signature(seg: Seq<u8>) -> bool {
    &&& seg[2] == 0x45
    &&& seg[3] == 0x78
    &&& seg[4] == 0x69
    &&& seg[5] == 0x66
    &&& seg[6] == 0
    &&& seg[7] == 0
}

/// `seg[8..12]` is the little-endian TIFF header `II*\0`.
pub open spec fn has_tiff_signature(seg: Seq<u8>) -> bool {
    &&& seg[8] == 0x49
    &&& seg[9] == 0x49
    &&& seg[10] == 0x2a
    &&& seg[11] == 0
}

/// The EXIF block of `d`: an error where `d` is no JPEG stream or its first
/// segment is a malformed EXIF block, `None` where the first segment is not
/// APP1.
pub open spec fn segment_of(d: Seq<u8>) -> Result<Option<MetadataSegment>, ExifError> {
    if d.len() < 2 || d[0] != 0xff || d[1] != 0xd8 {
        Err(ExifError::MissingSoi)
    } else if d.len() < 3 {
        Err(ExifError::Truncated)
    } else if d[2] != 0xff {
        Err(ExifError::ExpectedMarker)
    } else if d.len() < 4 {
        Err(ExifError::Truncated)
    } else if d[3] != 0xe1 {
        Ok(None)
    } else if d.len() < 6 || 4 + be16(d, 4) > d.len() {
        Err(ExifError::Truncated)
    } else {
        let len = be16(d, 4);
        let seg = d.subrange(4, 4 + len);
        if len < 8 {
            Err(ExifError::Truncated)
        } else if !has_exif_signature(seg) {
            Err(ExifError::InvalidExifHeader)
        } else if len < 12 {
            Err(ExifError::Truncated)
        } else if !has_tiff_signature(seg) {
            Err(ExifError::InvalidTiffHeader)
        } else if len < 16 || 8 + le32(seg, 12) > len {
            Err(ExifError::Truncated)
        } else {
            Ok(Some(MetadataSegment { length: len as usize, root: (8 + le32(seg, 12)) as usize }))
        }
    }
}

/// The number of entries that a directory declares.
pub open spec fn entry_count(dir: Seq<u8>) -> int {
    le16(dir, 0)
}

/// The `i`th 12-byte record of a directory.
pub open spec fn record_at(dir: Seq<u8>, i: int) -> Seq<u8> {
    dir.subrange(2 + 12 * i, 14 + 12 * i)
}

/// A record of the date-time tag whose type code is known.
pub open spec fn is_date_time_record(r: Seq<u8>) -> bool {
    record_tag(r) == DATE_TIME_TAG && component_width(record_type(r)) is Some
}

/// Record `i` is a declared record held in `dir`, of the date-time tag and a
/// known type, and no record before it is.
pub open spec fn is_first_date_time_record(dir: Seq<u8>, i: int) -> bool {
    &&& 0 <= i < entry_count(dir)
    &&& 14 + 12 * i <= dir.len()
    &&& is_date_time_record(record_at(dir, i))
    &&& forall|j: int| 0 <= j < i ==> !is_date_time_record(#[trigger] record_at(dir, j))
}

/// The first date-time record of a directory; `Truncated` where the
/// directory ends before that record, or, lacking one, before its last
/// declared record.
pub open spec fn date_time_record(dir: Seq<u8>) -> Result<Option<Seq<u8>>, ExifError> {
    if dir.len() < 2 {
        Err(ExifError::Truncated)
    } else if exists|i: int| is_first_date_time_record(dir, i) {
        Ok(Some(record_at(dir, choose|i: int| is_first_date_time_record(dir, i))))
    } else if 2 + 12 * entry_count(dir) > dir.len() {
        Err(ExifError::Truncated)
    } else {
        Ok(None)
    }
}

/// The timestamp that the date-time record `r` holds.
pub open spec fn record_timestamp(r: Seq<u8>, segment: Seq<u8>) -> Result<Timestamp, ExifError> {
    match value_bytes(r, segment) {
        None => Err(ExifError::Truncated),
        Some(b) => if record_type(r) != ASCII_STRINGS {
            Err(ExifError::WrongDateTimeType)
        } else {
            match date_time_parse(lossy_text(b)) {
                Some(t) => Ok(t),
                None => Err(ExifError::InvalidDateTime),
            }
        },
    }
}

/// The timestamp of a directory: `None` where it holds no date-time record.
pub open spec fn directory_timestamp(dir: Seq<u8>, segment: Seq<u8>) -> Result<
    Option<Timestamp>,
    ExifError,
> {
    match date_time_record(dir) {
        Err(e) => Err(e),
        Ok(None) => Ok(None),
        Ok(Some(r)) => match record_timestamp(r, segment) {
            Ok(t) => Ok(Some(t)),
            Err(e) => Err(e),
        },
    }
}

/// The segment body of `d` that `m` locates.
pub open spec fn segment_bytes(d: Seq<u8>, m: MetadataSegment) -> Seq<u8> {
    d.subrange(4, 4 + m.length)
}

/// The root directory of the EXIF block that `m` locates in `d`.
pub open spec fn directory_bytes(d: Seq<u8>, m: MetadataSegment) -> Seq<u8> {
    segment_bytes(d, m).subrange(m.root as int, m.length as int)
}

/// The value bytes of the date-time record of a directory, where that
/// record is held and holds ASCII strings.
pub open spec fn directory_text(dir: Seq<u8>, segment: Seq<u8>) -> Option<Seq<u8>> {
    match date_time_record(dir) {
        Ok(Some(r)) => if record_type(r) == ASCII_STRINGS {
            value_bytes(r, segment)
        } else {
            None
        },
        _ => None,
    }
}

/// The bytes of the date-time text of the JPEG data `d`, where it has one.
pub open spec fn date_time_bytes(d: Seq<u8>) -> Option<Seq<u8>> {
    match segment_of(d) {
        Ok(Some(m)) => directory_text(directory_bytes(d, m), segment_bytes(d, m)),
        _ => None,
    }
}

/// The capture timestamp of the JPEG data `d`.
pub open spec fn timestamp_of(d: Seq<u8>) -> Result<Option<Timestamp>, ExifError> {
    match segment_of(d) {
        Err(e) => Err(e),
        Ok(None) => Ok(None),
        Ok(Some(m)) => {
            directory_timestamp(directory_bytes(d, m), segment_bytes(d, m))
        },
    }
}

/// Locates the EXIF block that the first segment after the start-of-image
/// marker holds.
pub fn locate_metadata_segment(data: &[u8]) -> (r: Result<Option<MetadataSegment>, ExifError>)
    ensures
        r == segment_of(data@),
{
    if data.len() < 2 || data[0] != 0xff || data[1] != 0xd8 {
        return Err(ExifError::MissingSoi);
    }
    if data.len() < 3 {
        return Err(ExifError::Truncated);
    }
    if data[2] != 0xff {
        return Err(ExifError::ExpectedMarker);
    }
    if data.len() < 4 {
        return Err(ExifError::Truncated);
    }
    if data[3] != 0xe1 {
        return Ok(None);
    }
    if data.len() < 6 {
        return Err(ExifError::Truncated);
    }
    let len = read_be16(data, 4) as usize;
    if 4 + len > data.len() {
        return Err(ExifError::Truncated);
    }
    let seg = &data[4..4 + len];
    if len < 8 {
        return Err(ExifError::Truncated);
    }
    if !(seg[2] == 0x45 && seg[3] == 0x78 && seg[4] == 0x69 && seg[5] == 0x66 && seg[6] == 0
        && seg[7] == 0) {
        return Err(ExifError::InvalidExifHeader);
    }
    if len < 12 {
        return Err(ExifError::Truncated);
    }
    if !(seg[8] == 0x49 && seg[9] == 0x49 && seg[10] == 0x2a && seg[11] == 0) {
        return Err(ExifError::InvalidTiffHeader);
    }
    if len < 16 {
        return Err(ExifError::Truncated);
    }
    let root = read_le32(seg, 12) as u64 + 8;
    if root > len as u64 {
        return Err(ExifError::Truncated);
    }
    Ok(Some(MetadataSegment { length: len, root: root as usize }))
}

proof fn lemma_first_unique(dir: Seq<u8>, i: int, k: int)
    requires
        is_first_date_time_record(dir, i),
        is_first_date_time_record(dir, k),
    ensures
        i == k,
{
    if i < k {
        assert(!is_date_time_record(record_at(dir, i)));
    } else if k < i {
        assert(!is_date_time_record(record_at(dir, k)));
    }
}

/// Finds the first date-time record of a directory and returns where it
/// starts. Records of unknown type codes are passed over, as are records of
/// other tags; records after the one found are not read.
pub fn find_date_time_record(dir: &[u8]) -> (r: Result<Option<usize>, ExifError>)
    ensures
        r matches Ok(Some(p)) ==> p + 12 <= dir@.len() && p < 2 + 12 * entry_count(dir@),
        date_time_record(dir@) == match r {
            Ok(Some(p)) => Ok(Some(dir@.subrange(p as int, p + 12))),
            Ok(None) => Ok(None),
            Err(e) => Err(e),
        },
{
    if dir.len() < 2 {
        return Err(ExifError::Truncated);
    }
    let n = read_le16(dir, 0) as usize;
    let mut i: usize = 0;
    while i < n
        invariant
            0 <= i <= n,
            n == entry_count(dir@),
            dir@.len() >= 2,
            forall|j: int|
                0 <= j < i ==> 14 + 12 * j <= dir@.len() && !is_date_time_record(
                    #[trigger] record_at(dir@, j),
                ),
        decreases n - i,
    {
        if dir.len() < 14 + 12 * i {
            proof {
                if exists|k: int| is_first_date_time_record(dir@, k) {
                    let k = choose|k: int| is_first_date_time_record(dir@, k);
                    if k < i {
                        assert(!is_date_time_record(record_at(dir@, k)));
                    }
                }
            }
            return Err(ExifError::Truncated);
        }
        let start = 2 + 12 * i;
        let rec = &dir[start..start + 12];
        let tag = read_le16(rec, 0);
        let code = read_le16(rec, 2);
        if tag == DATE_TIME_TAG && bytes_per_component(code).is_some() {
            proof {
                assert(rec@ == record_at(dir@, i as int));
                assert(is_first_date_time_record(dir@, i as int));
                let k = choose|k: int| is_first_date_time_record(dir@, k);
                lemma_first_unique(dir@, i as int, k);
            }
            return Ok(Some(start));
        }
        assert(rec@ == record_at(dir@, i as int));
        i += 1;
    }
    proof {
        if exists|k: int| is_first_date_time_record(dir@, k) {
            let k = choose|k: int| is_first_date_time_record(dir@, k);
            assert(!is_date_time_record(record_at(dir@, k)));
        }
        if n > 0 {
            let last = n - 1;
            assert(0 <= last < i);
            assert(!is_date_time_record(record_at(dir@, last)));
            assert(14 + 12 * last <= dir@.len() && !is_date_time_record(record_at(dir@, last)));
        }
    }
    Ok(None)
}

/// The unknown type codes among the first `k` records of a directory, in
/// order.
pub open spec fn unknown_codes_before(dir: Seq<u8>, k: int) -> Seq<u16>
    decreases k,
{
    if k <= 0 {
        seq![]
    } else {
        let prev = unknown_codes_before(dir, k - 1);
        let code = record_type(record_at(dir, k - 1));
        if component_width(code) is None {
            prev.push(code as u16)
        } else {
            prev
        }
    }
}

/// A scan of a directory for its date-time record reads `k` records: up to
/// and including that record, or, lacking one, every declared record that
/// the directory holds.
pub open spec fn scan_stops_at(dir: Seq<u8>, k: int) -> bool {
    ||| k >= 1 && is_first_date_time_record(dir, k - 1)
    ||| {
        &&& !exists|i: int| is_first_date_time_record(dir, i)
        &&& 0 <= k <= entry_count(dir)
        &&& 2 + 12 * k <= dir.len()
        &&& (k == entry_count(dir) || 14 + 12 * k > dir.len())
    }
}

/// The type codes that a scan for the date-time record passes over as
/// unknown, in the order met: what a caller may report as skipped.
pub fn unknown_type_codes(dir: &[u8]) -> (r: Vec<u16>)
    ensures
        dir@.len() < 2 ==> r@.len() == 0,
        dir@.len() >= 2 ==> exists|k: int|
            scan_stops_at(dir@, k) && r@ == unknown_codes_before(dir@, k),
{
    let mut r: Vec<u16> = Vec::new();
    if dir.len() < 2 {
        return r;
    }
    let n = read_le16(dir, 0) as usize;
    let mut i: usize = 0;
    while i < n && 14 + 12 * i <= dir.len()
        invariant
            0 <= i <= n,
            n == entry_count(dir@),
            dir@.len() >= 2,
            2 + 12 * i <= dir@.len(),
            r@ == unknown_codes_before(dir@, i as int),
            forall|j: int|
                0 <= j < i ==> 14 + 12 * j <= dir@.len() && !is_date_time_record(
                    #[trigger] record_at(dir@, j),
                ),
        decreases n - i,
    {
        let start = 2 + 12 * i;
        let rec = &dir[start..start + 12];
        assert(rec@ == record_at(dir@, i as int));
        let tag = read_le16(rec, 0);
        let code = read_le16(rec, 2);
        let known = bytes_per_component(code).is_some();
        if tag == DATE_TIME_TAG && known {
            proof {
                assert(is_first_date_time_record(dir@, i as int));
                assert(scan_stops_at(dir@, i + 1));
            }
            return r;
        }
        if !known {
            r.push(code);
        }
        i += 1;
    }
    proof {
        if exists|k: int| is_first_date_time_record(dir@, k) {
            let k = choose|k: int| is_first_date_time_record(dir@, k);
            assert(!is_date_time_record(record_at(dir@, k)));
        }
        assert(scan_stops_at(dir@, i as int));
    }
    r
}

/// The timestamp that a date-time entry's value holds: the value must be
/// ASCII strings in the layout `YYYY:MM:DD HH:MM:SS`.
pub open spec fn value_timestamp(v: IfdValue) -> Result<Timestamp, ExifError> {
    match v {
        IfdValue::AsciiStrings(s) => match date_time_parse(s@) {
            Some(t) => Ok(t),
            None => Err(ExifError::InvalidDateTime),
        },
        _ => Err(ExifError::WrongDateTimeType),
    }
}

/// Reads the timestamp out of a date-time entry's value.
pub fn date_time_from_value(v: &IfdValue) -> (r: Result<Timestamp, ExifError>)
    ensures
        r == value_timestamp(*v),
        r matches Ok(t) ==> (v matches IfdValue::AsciiStrings(s) && date_time_text(s@, t)),
{
    match v {
        IfdValue::AsciiStrings(s) => match parse_date_time(s.as_str(), DATE_TIME_LAYOUT) {
            Some(t) => Ok(t),
            None => Err(ExifError::InvalidDateTime),
        },
        _ => Err(ExifError::WrongDateTimeType),
    }
}

/// Reads the timestamp of the directory `dir`, which lies in `segment`:
/// `None` where it holds no date-time entry.
pub fn parse_ifd0(dir: &[u8], segment: &[u8]) -> (r: Option<Result<Timestamp, ExifError>>)
    ensures
        r == match directory_timestamp(dir@, segment@) {
            Ok(None) => None,
            Ok(Some(t)) => Some(Ok(t)),
            Err(e) => Some(Err(e)),
        },
        r matches Some(Ok(t)) ==> (directory_text(dir@, segment@) matches Some(b) && date_time_text(
            lossy_text(b),
            t,
        )),
        directory_text(dir@, segment@) matches Some(b) ==> (all_ascii(b) ==> (r matches Some(Ok(t))
            ==> date_time_text(ascii_chars(b), t))),
{
    let p = match find_date_time_record(dir) {
        Err(e) => return Some(Err(e)),
        Ok(None) => return None,
        Ok(Some(p)) => p,
    };
    let rec = &dir[p..p + 12];
    assert(rec@ == dir@.subrange(p as int, p + 12));
    match parse_ifd_entry(rec, segment) {
        Err(e) => Some(Err(e)),
        Ok(None) => None,
        Ok(Some(entry)) => Some(date_time_from_value(&entry.value)),
    }
}

/// Reads the capture timestamp out of JPEG data: `None` where the
/// first segment is no EXIF block or the block holds no date-time entry.
pub fn get_timestamp(data: &[u8]) -> (r: Result<Option<Timestamp>, ExifError>)
    ensures
        r == timestamp_of(data@),
        r matches Ok(Some(t)) ==> (date_time_bytes(data@) matches Some(b) && date_time_text(
            lossy_text(b),
            t,
        )),
        date_time_bytes(data@) matches Some(b) ==> (all_ascii(b) && !date_time_separators(
            ascii_chars(b),
        ) ==> r == Err::<Option<Timestamp>, ExifError>(ExifError::InvalidDateTime)),
{
    let m = match locate_metadata_segment(data) {
        Err(e) => return Err(e),
        Ok(None) => return Ok(None),
        Ok(Some(m)) => m,
    };
    let seg = &data[4..4 + m.length];
    let dir = &seg[m.root..m.length];
    match parse_ifd0(dir, seg) {
        None => Ok(None),
        Some(Ok(t)) => Ok(Some(t)),
        Some(Err(e)) => Err(e),
    }
}

/// Data that does not start with the start-of-image marker is refused as
/// lacking it, whatever follows.
pub proof fn lemma_missing_soi(d: Seq<u8>)
    requires
        !(d.len() >= 2 && d[0] == 0xff && d[1] == 0xd8),
    ensures
        timestamp_of(d) == Err::<Option<Timestamp>, ExifError>(ExifError::MissingSoi),
{
}

/// A JPEG stream whose first marker after the start of image is not APP1
/// has no timestamp, and that is no error.
pub proof fn lemma_first_marker_not_app1(d: Seq<u8>)
    requires
        d.len() >= 4,
        d[0] == 0xff,
        d[1] == 0xd8,
        d[2] == 0xff,
        d[3] != 0xe1,
    ensures
        timestamp_of(d) == Ok::<Option<Timestamp>, ExifError>(None),
{
}

/// A date-time entry whose type is not ASCII strings makes reading fail; it
/// is never taken for an absent timestamp.
pub proof fn lemma_wrong_type_fails(d: Seq<u8>, m: MetadataSegment, r: Seq<u8>)
    requires
        segment_of(d) == Ok::<Option<MetadataSegment>, ExifError>(Some(m)),
        date_time_record(directory_bytes(d, m)) == Ok::<Option<Seq<u8>>, ExifError>(Some(r)),
        record_type(r) != ASCII_STRINGS,
    ensures
        timestamp_of(d) is Err,
        value_bytes(r, segment_bytes(d, m)) is Some ==> timestamp_of(d) == Err::<
            Option<Timestamp>,
            ExifError,
        >(ExifError::WrongDateTimeType),
{
}

/// Records of unknown type codes, and records of other tags, that come
/// before a well-formed date-time record do not hide it.
pub proof fn lemma_unknown_types_skipped(dir: Seq<u8>, i: int)
    requires
        dir.len() >= 2,
        0 <= i < entry_count(dir),
        14 + 12 * i <= dir.len(),
        is_date_time_record(record_at(dir, i)),
        forall|j: int|
            0 <= j < i ==> component_width(record_type(#[trigger] record_at(dir, j))) is None
                || record_tag(record_at(dir, j)) != DATE_TIME_TAG,
    ensures
        date_time_record(dir) == Ok::<Option<Seq<u8>>, ExifError>(Some(record_at(dir, i))),
{
    assert(is_first_date_time_record(dir, i));
    let k = choose|k: int| is_first_date_time_record(dir, k);
    lemma_first_unique(dir, i, k);
}

/// The outcome of reading depends on the data alone: reading the same data
/// twice gives the same outcome.
pub proof fn lemma_same_data_same_outcome(d1: Seq<u8>, d2: Seq<u8>)
    requires
        d1 == d2,
    ensures
        timestamp_of(d1) == timestamp_of(d2),
{
}

} // verus!
