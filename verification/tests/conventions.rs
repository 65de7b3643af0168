//! The shared wire conventions: sentinels, the object reference list, and
//! the primitive cursor.
use genie_rec::objects::ObjectsList;
use genie_rec::objects::read_opt_u32;
use genie_rec::objects::write_opt_u32;
use genie_rec::objects::read_opt_u16;
use genie_rec::objects::write_opt_u16;
use genie_rec::reader::Reader;
use genie_rec::DecodeError;

#[test]
fn sentinel_none_emits_all_ones_32() {
    let mut out = Vec::new();
    write_opt_u32(&mut out, None);
    assert_eq!(out, vec![0xFF, 0xFF, 0xFF, 0xFF]);
}

#[test]
fn sentinel_all_ones_decodes_to_none_32() {
    let bytes = [0xFF, 0xFF, 0xFF, 0xFF];
    let mut r = Reader::new(&bytes);
    assert_eq!(read_opt_u32(&mut r), Ok(None));
}

#[test]
fn sentinel_value_roundtrip_32() {
    let mut out = Vec::new();
    write_opt_u32(&mut out, Some(0x00C0FFEE));
    let mut r = Reader::new(&out);
    assert_eq!(read_opt_u32(&mut r), Ok(Some(0x00C0FFEE)));
}

#[test]
fn sentinel_none_emits_all_ones_16() {
    let mut out = Vec::new();
    write_opt_u16(&mut out, None);
    assert_eq!(out, vec![0xFF, 0xFF]);
}

#[test]
fn sentinel_all_ones_decodes_to_none_16() {
    let bytes = [0xFF, 0xFF];
    let mut r = Reader::new(&bytes);
    assert_eq!(read_opt_u16(&mut r), Ok(None));
}

#[test]
fn sentinel_value_roundtrip_16() {
    let mut out = Vec::new();
    write_opt_u16(&mut out, Some(0x1234));
    let mut r = Reader::new(&out);
    assert_eq!(read_opt_u16(&mut r), Ok(Some(0x1234)));
}

#[test]
fn object_list_count_255_is_reuse_marker() {
    // A count in the sentinel region yields the marker, never an empty
    // explicit list, and consumes nothing even with bytes available.
    let bytes = [0xAA, 0xBB, 0xCC, 0xDD];
    let mut r = Reader::new(&bytes);
    let list = ObjectsList::read_from(&mut r, 0xFF).unwrap();
    assert!(matches!(list, ObjectsList::SameAsLast));
    assert_eq!(r.remaining(), 4);
}

#[test]
fn object_list_count_above_255_is_reuse_marker() {
    let bytes = [];
    let mut r = Reader::new(&bytes);
    let list = ObjectsList::read_from(&mut r, 0x7FFF_FFFF).unwrap();
    assert!(matches!(list, ObjectsList::SameAsLast));
}

#[test]
fn object_list_count_zero_is_explicit_empty_list() {
    let bytes = [0xAA, 0xBB];
    let mut r = Reader::new(&bytes);
    let list = ObjectsList::read_from(&mut r, 0).unwrap();
    assert_eq!(list, ObjectsList::List(vec![]));
    assert!(!matches!(list, ObjectsList::SameAsLast));
    assert_eq!(r.remaining(), 2);
}

#[test]
fn object_list_count_minus_one_is_reuse_marker() {
    // The one-byte count sentinel 0xFF reaches the codec sign-extended.
    let bytes = [0xAA, 0xBB, 0xCC, 0xDD];
    let mut r = Reader::new(&bytes);
    let list = ObjectsList::read_from(&mut r, -1).unwrap();
    assert!(matches!(list, ObjectsList::SameAsLast));
    assert_eq!(r.remaining(), 4);
}

#[test]
fn object_list_out_of_range_count_is_explicit_empty_list() {
    // Counts below -1 are the sign-extended bytes 0x80 through 0xFE, which
    // the format never produces; they read as an explicit empty list.
    let bytes = [];
    let mut r = Reader::new(&bytes);
    let list = ObjectsList::read_from(&mut r, -2).unwrap();
    assert_eq!(list, ObjectsList::List(vec![]));
}

#[test]
fn object_list_reads_little_endian_identifiers() {
    let bytes = [10, 0, 0, 0, 11, 0, 0, 0, 0x34, 0x12, 0, 0];
    let mut r = Reader::new(&bytes);
    let list = ObjectsList::read_from(&mut r, 3).unwrap();
    assert_eq!(list, ObjectsList::List(vec![10, 11, 0x1234]));
    assert_eq!(r.remaining(), 0);
}

#[test]
fn object_list_truncated_is_fatal() {
    let bytes = [10, 0, 0, 0, 11, 0];
    let mut r = Reader::new(&bytes);
    assert_eq!(
        ObjectsList::read_from(&mut r, 2),
        Err(DecodeError::Truncated)
    );
}

#[test]
fn object_list_negative_identifier_is_fatal() {
    let bytes = [10, 0, 0, 0, 0xEE, 0xFF, 0xFF, 0xFF];
    let mut r = Reader::new(&bytes);
    assert_eq!(
        ObjectsList::read_from(&mut r, 2),
        Err(DecodeError::BadIdentifier)
    );
}

#[test]
fn object_list_write_emits_identifiers_only() {
    let list = ObjectsList::List(vec![10, 11, 12]);
    let mut out = Vec::new();
    list.write_to(&mut out);
    assert_eq!(out, vec![10, 0, 0, 0, 11, 0, 0, 0, 12, 0, 0, 0]);
}

#[test]
fn object_list_marker_writes_nothing() {
    let mut out = Vec::new();
    ObjectsList::SameAsLast.write_to(&mut out);
    assert!(out.is_empty());
}

#[test]
fn object_list_len_counts_items() {
    assert_eq!(ObjectsList::List(vec![1, 2, 3]).len(), 3);
    assert_eq!(ObjectsList::SameAsLast.len(), 0);
    assert!(ObjectsList::SameAsLast.is_empty());
    assert!(ObjectsList::List(vec![]).is_empty());
    assert!(!ObjectsList::List(vec![7]).is_empty());
}

#[test]
fn reader_reads_little_endian_widths() {
    let bytes = [0x01, 0x02, 0x03, 0x04, 0x05, 0x06, 0x07, 0x08, 0x09];
    let mut r = Reader::new(&bytes);
    assert_eq!(r.read_u8(), Ok(0x01));
    assert_eq!(r.read_u16_le(), Ok(0x0302));
    assert_eq!(r.read_u32_le(), Ok(0x07060504));
    assert_eq!(r.read_u8(), Ok(0x08));
    assert_eq!(r.read_u8(), Ok(0x09));
    assert_eq!(r.read_u8(), Err(DecodeError::Truncated));
}

#[test]
fn reader_short_read_does_not_move() {
    let bytes = [0x01, 0x02];
    let mut r = Reader::new(&bytes);
    assert_eq!(r.read_u32_le(), Err(DecodeError::Truncated));
    assert_eq!(r.remaining(), 2);
    assert_eq!(r.read_u16_le(), Ok(0x0201));
}
