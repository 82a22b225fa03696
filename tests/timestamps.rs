use photo_timestamps::entry::{bytes_per_component, decode_value, parse_ifd_entry};
use photo_timestamps::jpg::{
    date_time_from_value, find_date_time_record, locate_metadata_segment, parse_ifd0,
    unknown_type_codes,
};
use photo_timestamps::{get_timestamp, ExifError, IfdEntry, IfdValue, MetadataSegment, Timestamp};

/// One directory entry: its tag, type code, component count and value bytes.
struct Entry {
    tag: u16,
    code: u16,
    count: u32,
    value: Vec<u8>,
}

fn entry(tag: u16, code: u16, count: u32, value: &[u8]) -> Entry {
    Entry { tag, code, count, value: value.to_vec() }
}

fn ascii(tag: u16, text: &str) -> Entry {
    entry(tag, 2, text.len() as u32, text.as_bytes())
}

/// A JPEG stream whose first segment is an EXIF block with one directory.
/// Values longer than four bytes are stored after the directory.
fn jpeg(entries: &[Entry]) -> Vec<u8> {
    let mut tiff: Vec<u8> = vec![0x49, 0x49, 0x2a, 0x00, 8, 0, 0, 0];
    let dir_len = 2 + 12 * entries.len() + 4;
    let mut extra: Vec<u8> = Vec::new();
    tiff.extend_from_slice(&(entries.len() as u16).to_le_bytes());
    for e in entries {
        tiff.extend_from_slice(&e.tag.to_le_bytes());
        tiff.extend_from_slice(&e.code.to_le_bytes());
        tiff.extend_from_slice(&e.count.to_le_bytes());
        if e.value.len() <= 4 {
            let mut inline = e.value.clone();
            inline.resize(4, 0);
            tiff.extend_from_slice(&inline);
        } else {
            let offset = (8 + dir_len + extra.len()) as u32;
            tiff.extend_from_slice(&offset.to_le_bytes());
            extra.extend_from_slice(&e.value);
        }
    }
    tiff.extend_from_slice(&[0, 0, 0, 0]);
    tiff.extend_from_slice(&extra);
    let length = (2 + 6 + tiff.len()) as u16;
    let mut data: Vec<u8> = vec![0xff, 0xd8, 0xff, 0xe1];
    data.extend_from_slice(&length.to_be_bytes());
    data.extend_from_slice(b"Exif\0\0");
    data.extend_from_slice(&tiff);
    data.extend_from_slice(&[0xff, 0xd9]);
    data
}

fn record(tag: u16, code: u16, count: u32, word: [u8; 4]) -> Vec<u8> {
    let mut r = Vec::new();
    r.extend_from_slice(&tag.to_le_bytes());
    r.extend_from_slice(&code.to_le_bytes());
    r.extend_from_slice(&count.to_le_bytes());
    r.extend_from_slice(&word);
    r
}

const JULY_FOURTH: Timestamp =
    Timestamp { year: 2023, month: 7, day: 4, hour: 10, minute: 30, second: 0 };

#[test]
fn missing_soi_is_refused() {
    assert_eq!(get_timestamp(&[0x00, 0xd8, 0xff, 0xe1]), Err(ExifError::MissingSoi));
    assert_eq!(get_timestamp(&[0xff, 0xd9, 0xff, 0xe1]), Err(ExifError::MissingSoi));
    assert_eq!(get_timestamp(&[0xff]), Err(ExifError::MissingSoi));
    assert_eq!(get_timestamp(&[]), Err(ExifError::MissingSoi));
    let mut png = jpeg(&[ascii(0x0132, "2023:07:04 10:30:00")]);
    png[0] = 0x89;
    assert_eq!(get_timestamp(&png), Err(ExifError::MissingSoi));
}

#[test]
fn other_first_marker_has_no_timestamp() {
    assert_eq!(get_timestamp(&[0xff, 0xd8, 0xff, 0xe0, 0x00, 0x10]), Ok(None));
    assert_eq!(get_timestamp(&[0xff, 0xd8, 0xff, 0xdb]), Ok(None));
}

#[test]
fn missing_marker_prefix_is_refused() {
    assert_eq!(get_timestamp(&[0xff, 0xd8, 0x00, 0xe1]), Err(ExifError::ExpectedMarker));
}

#[test]
fn synthetic_date_time_round_trips() {
    let data = jpeg(&[ascii(0x0132, "2023:07:04 10:30:00")]);
    assert_eq!(get_timestamp(&data), Ok(Some(JULY_FOURTH)));
}

#[test]
fn signed_year_is_read() {
    let data = jpeg(&[ascii(0x0132, "+2023:07:04 10:30:00")]);
    assert_eq!(get_timestamp(&data), Ok(Some(JULY_FOURTH)));
}

#[test]
fn ascii_of_four_bytes_is_inline() {
    let r = record(0x0132, 2, 4, *b"2023");
    let e = parse_ifd_entry(&r, &[]).unwrap().unwrap();
    assert_eq!(e, IfdEntry { tag: 0x0132, value: IfdValue::AsciiStrings("2023".to_string()) });
}

#[test]
fn ascii_of_five_bytes_is_at_offset() {
    // The offset counts from the TIFF header, 8 bytes into the segment.
    let mut segment = vec![0u8; 20];
    segment[10..15].copy_from_slice(b"2023!");
    let r = record(0x0132, 2, 5, 2u32.to_le_bytes());
    let e = parse_ifd_entry(&r, &segment).unwrap().unwrap();
    assert_eq!(e.value, IfdValue::AsciiStrings("2023!".to_string()));
    let inline = parse_ifd_entry(&record(0x0132, 2, 4, *b"2023"), &segment).unwrap().unwrap();
    match (inline.value, e.value) {
        (IfdValue::AsciiStrings(a), IfdValue::AsciiStrings(b)) => assert_eq!(&b[..4], a),
        _ => panic!("expected text"),
    }
}

#[test]
fn offset_past_segment_is_truncated() {
    let segment = vec![0u8; 12];
    let r = record(0x0132, 2, 5, 2u32.to_le_bytes());
    assert_eq!(parse_ifd_entry(&r, &segment), Err(ExifError::Truncated));
}

#[test]
fn unknown_type_code_is_skipped_entry() {
    let r = record(0x0132, 13, 1, [0; 4]);
    assert_eq!(parse_ifd_entry(&r, &[]), Ok(None));
}

#[test]
fn wrong_date_time_type_is_refused() {
    let data = jpeg(&[entry(0x0132, 4, 1, &[1, 2, 3, 4])]);
    assert_eq!(get_timestamp(&data), Err(ExifError::WrongDateTimeType));
}

#[test]
fn malformed_separator_is_refused() {
    let data = jpeg(&[ascii(0x0132, "2023-07-04 10:30:00")]);
    assert_eq!(get_timestamp(&data), Err(ExifError::InvalidDateTime));
}

#[test]
fn out_of_range_date_is_refused() {
    let data = jpeg(&[ascii(0x0132, "2023:13:04 10:30:00")]);
    assert_eq!(get_timestamp(&data), Err(ExifError::InvalidDateTime));
    let data = jpeg(&[ascii(0x0132, "2023:02:29 10:30:00")]);
    assert_eq!(get_timestamp(&data), Err(ExifError::InvalidDateTime));
}

#[test]
fn trailing_nul_is_refused() {
    let data = jpeg(&[ascii(0x0132, "2023:07:04 10:30:00\0")]);
    assert_eq!(get_timestamp(&data), Err(ExifError::InvalidDateTime));
}

#[test]
fn unknown_types_do_not_hide_date_time() {
    let data = jpeg(&[
        entry(0x0100, 99, 1, &[1, 0, 0, 0]),
        entry(0x0132, 13, 1, &[0, 0, 0, 0]),
        entry(0x0110, 0, 7, &[0, 0, 0, 0]),
        ascii(0x0132, "2023:07:04 10:30:00"),
    ]);
    assert_eq!(get_timestamp(&data), Ok(Some(JULY_FOURTH)));
}

#[test]
fn first_date_time_entry_wins() {
    let data = jpeg(&[ascii(0x0132, "2023:07:04 10:30:00"), ascii(0x0132, "1999:01:01 00:00:00")]);
    assert_eq!(get_timestamp(&data), Ok(Some(JULY_FOURTH)));
}

#[test]
fn reading_twice_gives_same_outcome() {
    let data = jpeg(&[entry(0x0100, 3, 1, &[7, 0]), ascii(0x0132, "2023:07:04 10:30:00")]);
    let first = get_timestamp(&data);
    let second = get_timestamp(&data);
    assert_eq!(first, second);
    let bad = jpeg(&[ascii(0x0132, "2023-07-04 10:30:00")]);
    assert_eq!(get_timestamp(&bad), get_timestamp(&bad));
}

#[test]
fn directory_without_date_time_has_none() {
    let data = jpeg(&[entry(0x0100, 3, 1, &[0x80, 0x02])]);
    assert_eq!(get_timestamp(&data), Ok(None));
    assert_eq!(get_timestamp(&jpeg(&[])), Ok(None));
}

#[test]
fn bad_exif_signature_is_refused() {
    let mut data = jpeg(&[ascii(0x0132, "2023:07:04 10:30:00")]);
    data[6] = b'e';
    assert_eq!(get_timestamp(&data), Err(ExifError::InvalidExifHeader));
}

#[test]
fn big_endian_tiff_is_refused() {
    let mut data = jpeg(&[ascii(0x0132, "2023:07:04 10:30:00")]);
    data[12..16].copy_from_slice(&[0x4d, 0x4d, 0x00, 0x2a]);
    assert_eq!(get_timestamp(&data), Err(ExifError::InvalidTiffHeader));
}

#[test]
fn short_data_is_truncated() {
    assert_eq!(get_timestamp(&[0xff, 0xd8]), Err(ExifError::Truncated));
    assert_eq!(get_timestamp(&[0xff, 0xd8, 0xff]), Err(ExifError::Truncated));
    assert_eq!(get_timestamp(&[0xff, 0xd8, 0xff, 0xe1, 0x00]), Err(ExifError::Truncated));
    let data = jpeg(&[ascii(0x0132, "2023:07:04 10:30:00")]);
    assert_eq!(get_timestamp(&data[..20]), Err(ExifError::Truncated));
}

#[test]
fn directory_declaring_too_many_entries_is_truncated() {
    let mut dir = vec![3, 0];
    dir.extend_from_slice(&record(0x0100, 3, 1, [1, 0, 0, 0]));
    assert_eq!(find_date_time_record(&dir), Err(ExifError::Truncated));
    assert_eq!(parse_ifd0(&dir, &[]), Some(Err(ExifError::Truncated)));
    assert_eq!(find_date_time_record(&[1]), Err(ExifError::Truncated));
}

#[test]
fn date_time_record_is_found_by_position() {
    let mut dir = vec![2, 0];
    dir.extend_from_slice(&record(0x0132, 200, 1, [0; 4]));
    dir.extend_from_slice(&record(0x0132, 2, 4, *b"2023"));
    assert_eq!(find_date_time_record(&dir), Ok(Some(14)));
    assert_eq!(parse_ifd0(&dir, &[]), Some(Err(ExifError::InvalidDateTime)));
}

#[test]
fn segment_is_located() {
    let data = jpeg(&[ascii(0x0132, "2023:07:04 10:30:00")]);
    let length = u16::from_be_bytes([data[4], data[5]]) as usize;
    assert_eq!(locate_metadata_segment(&data), Ok(Some(MetadataSegment { length, root: 16 })));
    assert_eq!(length, data.len() - 6);
}

#[test]
fn component_widths_follow_the_table() {
    let widths: Vec<Option<u32>> = (0..14).map(bytes_per_component).collect();
    assert_eq!(
        widths,
        vec![
            None,
            Some(1),
            Some(1),
            Some(2),
            Some(4),
            Some(8),
            Some(1),
            Some(1),
            Some(2),
            Some(4),
            Some(8),
            Some(4),
            Some(8),
            None
        ]
    );
}

#[test]
fn values_decode_by_type() {
    let b = [0xfe, 0xff, 0xff, 0xff, 0x00, 0x00, 0xf0, 0x3f];
    assert_eq!(decode_value(1, &b), IfdValue::UnsignedByte(0xfe));
    assert_eq!(decode_value(3, &b), IfdValue::UnsignedShort(0xfffe));
    assert_eq!(decode_value(4, &b), IfdValue::UnsignedLong(0xffff_fffe));
    assert_eq!(decode_value(5, &b), IfdValue::UnsignedRational);
    assert_eq!(decode_value(6, &b), IfdValue::SignedByte(-2));
    assert_eq!(decode_value(7, &b[..3]), IfdValue::Undefined(vec![0xfe, 0xff, 0xff]));
    assert_eq!(decode_value(8, &b), IfdValue::SignedShort(-2));
    assert_eq!(decode_value(9, &b), IfdValue::SignedLong(-2));
    assert_eq!(decode_value(10, &b), IfdValue::SignedRational);
    assert_eq!(decode_value(11, &[0x3f, 0x80, 0, 0]), IfdValue::SingleFloatBits(1.0f32.to_bits()));
    assert_eq!(decode_value(12, &1.5f64.to_le_bytes()), IfdValue::DoubleFloatBits(1.5f64.to_bits()));
    assert_eq!(decode_value(12, &b), IfdValue::DoubleFloatBits(0x3ff0_0000_ffff_fffe));
}

#[test]
fn invalid_utf8_is_replaced() {
    let v = decode_value(2, &[b'c', b'a', b'f', 0xe9]);
    assert_eq!(v, IfdValue::AsciiStrings("caf\u{fffd}".to_string()));
}

#[test]
fn double_without_eight_bytes_is_truncated() {
    let r = record(0x0132, 12, 0, [0; 4]);
    assert_eq!(parse_ifd_entry(&r, &[]), Err(ExifError::Truncated));
}

#[test]
fn date_time_value_is_parsed() {
    let v = IfdValue::AsciiStrings("1999:12:31 23:59:58".to_string());
    let t = Timestamp { year: 1999, month: 12, day: 31, hour: 23, minute: 59, second: 58 };
    assert_eq!(date_time_from_value(&v), Ok(t));
    assert_eq!(date_time_from_value(&IfdValue::UnsignedShort(1)), Err(ExifError::WrongDateTimeType));
    let v = IfdValue::AsciiStrings("-0044:03:15 12:00:00".to_string());
    assert_eq!(date_time_from_value(&v).map(|t| t.year), Ok(-44));
}

#[test]
fn skipped_type_codes_are_reported() {
    let mut dir = vec![4, 0];
    dir.extend_from_slice(&record(0x0100, 99, 1, [0; 4]));
    dir.extend_from_slice(&record(0x0132, 13, 1, [0; 4]));
    dir.extend_from_slice(&record(0x0132, 2, 4, *b"2023"));
    dir.extend_from_slice(&record(0x0101, 40, 1, [0; 4]));
    assert_eq!(unknown_type_codes(&dir), vec![99, 13]);
    dir[0] = 2;
    assert_eq!(unknown_type_codes(&dir), vec![99, 13]);
    let mut no_date = vec![3, 0];
    no_date.extend_from_slice(&record(0x0100, 0, 1, [0; 4]));
    no_date.extend_from_slice(&record(0x0101, 3, 1, [0; 4]));
    assert_eq!(unknown_type_codes(&no_date), vec![0]);
    assert_eq!(unknown_type_codes(&[5]), Vec::<u16>::new());
}
