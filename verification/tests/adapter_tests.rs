use stamprename::adapters::primary_timestamp;
use stamprename::adapters::secondary_timestamp;
use stamprename::adapters::tertiary_timestamp;
use stamprename::adapters::Warning;

fn push_u16(v: &mut Vec<u8>, x: u16) {
    v.extend_from_slice(&x.to_le_bytes());
}

fn push_u32(v: &mut Vec<u8>, x: u32) {
    v.extend_from_slice(&x.to_le_bytes());
}

fn push_entry(v: &mut Vec<u8>, tag: u16, typ: u16, count: u32, value: u32) {
    push_u16(v, tag);
    push_u16(v, typ);
    push_u32(v, count);
    push_u32(v, value);
}

const ASCII: u16 = 2;
const LONG: u16 = 4;
const EXIF_IFD_POINTER: u16 = 0x8769;
const DATE_TIME_ORIGINAL: u16 = 0x9003;
const DATE_TIME: u16 = 0x0132;

fn tiff_header(v: &mut Vec<u8>) {
    v.extend_from_slice(b"II");
    push_u16(v, 42);
    push_u32(v, 8);
}

// A little-endian TIFF whose zeroth IFD points to an Exif sub-IFD holding
// DateTimeOriginal.
fn tiff_with_primary_capture_time(value: &[u8; 20]) -> Vec<u8> {
    let mut v = Vec::new();
    tiff_header(&mut v);
    push_u16(&mut v, 1);
    push_entry(&mut v, EXIF_IFD_POINTER, LONG, 1, 26);
    push_u32(&mut v, 0);
    push_u16(&mut v, 1);
    push_entry(&mut v, DATE_TIME_ORIGINAL, ASCII, 20, 44);
    push_u32(&mut v, 0);
    v.extend_from_slice(value);
    v
}

#[test]
fn primary_reads_capture_time_from_container() {
    let bytes = tiff_with_primary_capture_time(b"2023:05:25 19:47:30\0");
    assert_eq!(primary_timestamp(&bytes), Ok("2023-05-25_19-47-30".to_owned()));
}

#[test]
fn primary_rejects_undecodable_container() {
    assert_eq!(
        primary_timestamp(&b"not an image at all".to_vec()),
        Err(Warning::NoMetadata)
    );
    assert_eq!(primary_timestamp(&Vec::new()), Err(Warning::NoMetadata));
}

#[test]
fn primary_never_uses_modification_time() {
    // The general DateTime tag (which changes on any edit) is present in
    // the zeroth IFD, but the capture-time tag is absent.
    let mut v = Vec::new();
    tiff_header(&mut v);
    push_u16(&mut v, 1);
    push_entry(&mut v, DATE_TIME, ASCII, 20, 26);
    push_u32(&mut v, 0);
    v.extend_from_slice(b"2023:05:25 19:47:30\0");
    assert_eq!(primary_timestamp(&v), Err(Warning::MissingTag));
}

#[test]
fn primary_never_uses_thumbnail_scoped_tag() {
    // DateTimeOriginal exists only under the first (thumbnail) IFD.
    let mut v = Vec::new();
    tiff_header(&mut v);
    push_u16(&mut v, 0);
    push_u32(&mut v, 14);
    push_u16(&mut v, 1);
    push_entry(&mut v, EXIF_IFD_POINTER, LONG, 1, 32);
    push_u32(&mut v, 0);
    push_u16(&mut v, 1);
    push_entry(&mut v, DATE_TIME_ORIGINAL, ASCII, 20, 50);
    push_u32(&mut v, 0);
    v.extend_from_slice(b"2099:01:01 00:00:00\0");
    assert_eq!(primary_timestamp(&v), Err(Warning::MissingTag));
}

#[test]
fn primary_prefers_primary_over_thumbnail() {
    // Both the zeroth IFD and the thumbnail IFD carry a capture time; the
    // primary one wins.
    let mut v = Vec::new();
    tiff_header(&mut v);
    push_u16(&mut v, 1);
    push_entry(&mut v, EXIF_IFD_POINTER, LONG, 1, 26);
    push_u32(&mut v, 64);
    push_u16(&mut v, 1);
    push_entry(&mut v, DATE_TIME_ORIGINAL, ASCII, 20, 44);
    push_u32(&mut v, 0);
    v.extend_from_slice(b"2023:05:25 19:47:30\0");
    push_u16(&mut v, 1);
    push_entry(&mut v, EXIF_IFD_POINTER, LONG, 1, 82);
    push_u32(&mut v, 0);
    push_u16(&mut v, 1);
    push_entry(&mut v, DATE_TIME_ORIGINAL, ASCII, 20, 100);
    push_u32(&mut v, 0);
    v.extend_from_slice(b"2099:01:01 00:00:00\0");
    assert_eq!(primary_timestamp(&v), Ok("2023-05-25_19-47-30".to_owned()));
}

#[test]
fn secondary_strips_timezone_and_newline() {
    let out = b"2023:05:25 19:47:30-05:00\n".to_vec();
    assert_eq!(secondary_timestamp(out), Ok("2023-05-25_19-47-30".to_owned()));
}

#[test]
fn secondary_empty_output_means_absent_tag() {
    assert_eq!(secondary_timestamp(Vec::new()), Err(Warning::EmptyOutput));
}

#[test]
fn secondary_short_output_is_malformed() {
    assert_eq!(secondary_timestamp(b"abc\n".to_vec()), Err(Warning::DecodeError));
}

#[test]
fn secondary_non_utf8_output_is_malformed() {
    let out = b"20\xff3:05:25 19:47:30-05:00\n".to_vec();
    assert_eq!(secondary_timestamp(out), Err(Warning::DecodeError));
}

#[test]
fn tertiary_strips_only_newline() {
    let out = b"2023:05:14 21:34:06\n".to_vec();
    assert_eq!(tertiary_timestamp(out), Ok("2023-05-14_21-34-06".to_owned()));
}

#[test]
fn tertiary_empty_output_means_absent_tag() {
    assert_eq!(tertiary_timestamp(Vec::new()), Err(Warning::EmptyOutput));
}

#[test]
fn tertiary_non_utf8_output_is_malformed() {
    assert_eq!(tertiary_timestamp(b"\xff\xfe\n".to_vec()), Err(Warning::DecodeError));
}
