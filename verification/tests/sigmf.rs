use fmradio::sigmf::{decode_i32, decode_record, SigmfError, SigmfStreamer, FULL_SCALE, RECORD_BYTES};
use fmradio::source::{collect, Source};

#[test]
fn decodes_little_endian_words() {
    assert_eq!(decode_i32(1, 0, 0, 0), 1);
    assert_eq!(decode_i32(0, 1, 0, 0), 256);
    assert_eq!(decode_i32(0xff, 0xff, 0xff, 0xff), -1);
    assert_eq!(decode_i32(0, 0, 0, 0x80), i32::MIN);
    assert_eq!(decode_i32(0xff, 0xff, 0xff, 0x7f), i32::MAX);
    assert_eq!(decode_i32(0x78, 0x56, 0x34, 0x12), 0x12345678);
    for v in [0i32, 7, -7, 65536, -65536, 1 << 30, -(1 << 30)] {
        let b = v.to_le_bytes();
        assert_eq!(decode_i32(b[0], b[1], b[2], b[3]), v);
    }
}

#[test]
fn streams_complete_records_only() {
    let mut bytes: Vec<u8> = Vec::new();
    for (i, q) in [(1i32, -1i32), (i32::MIN, i32::MAX), (1 << 30, 0)] {
        bytes.extend_from_slice(&i.to_le_bytes());
        bytes.extend_from_slice(&q.to_le_bytes());
    }
    bytes.extend_from_slice(&[1, 2, 3, 4, 5]);
    let mut s = SigmfStreamer::new(bytes);
    assert_eq!(collect(&mut s), vec![(1, -1), (i32::MIN, i32::MAX), (1 << 30, 0)]);
    assert_eq!(s.next(), None);
}

#[test]
fn half_scale_sample() {
    let mut bytes: Vec<u8> = Vec::new();
    bytes.extend_from_slice(&(1i32 << 30).to_le_bytes());
    bytes.extend_from_slice(&(-(1i32 << 30)).to_le_bytes());
    let (i, q) = SigmfStreamer::new(bytes).next().unwrap();
    assert_eq!(i as f32 / FULL_SCALE as f32, 0.5);
    assert_eq!(q as f32 / FULL_SCALE as f32, -0.5);
}

#[test]
fn record_needs_eight_bytes() {
    let bytes = [0u8, 0, 0, 1, 2, 0, 0, 0, 9];
    assert_eq!(decode_record(&bytes, 0), Some((1 << 24, 2)));
    assert_eq!(decode_record(&bytes, 1), Some((0x0201_0000, 0x0900_0000)));
    assert_eq!(decode_record(&bytes, 2), None);
    assert_eq!(decode_record(&bytes, 9), None);
    assert_eq!(decode_record(&bytes, usize::MAX), None);
    assert_eq!(decode_record(&bytes[..7], 0), None);
    assert_eq!(RECORD_BYTES, 8);
}

#[test]
fn empty_capture_has_no_samples() {
    let mut s = SigmfStreamer::new(Vec::new());
    assert_eq!(s.next(), None);
}

#[test]
fn bad_file_carries_reason() {
    let e = SigmfError::BadFile(String::from("no such file"));
    match e {
        SigmfError::BadFile(reason) => assert_eq!(reason, "no such file"),
    }
}

#[test]
fn capture_can_be_read_in_pieces() {
    let mut first: Vec<u8> = Vec::new();
    for v in [5i32, -6, 7, -8] {
        first.extend_from_slice(&v.to_le_bytes());
    }
    let mut second: Vec<u8> = Vec::new();
    for v in [9i32, -10] {
        second.extend_from_slice(&v.to_le_bytes());
    }
    second.push(0xaa);
    let mut whole = first.clone();
    whole.extend_from_slice(&second);
    let mut pieces = collect(&mut SigmfStreamer::new(first));
    pieces.extend(collect(&mut SigmfStreamer::new(second)));
    assert_eq!(collect(&mut SigmfStreamer::new(whole)), pieces);
    assert_eq!(pieces, vec![(5, -6), (7, -8), (9, -10)]);
}
