use symphonia::errors::Error;
use symphonia::id3v2::{
    decode_unsynchronisation, from_ascii, legacy_id_to_modern, min_frame_size, read_id3v2p2_frame,
    read_id3v2p3_frame, read_id3v2p4_frame, read_syncsafe_u28, validate_frame_id, FrameResult,
    LegacyFrameMap, RawFrame,
};
use symphonia::io::BufReader;

fn frame(r: Result<FrameResult, Error>) -> RawFrame {
    match r {
        Ok(FrameResult::Frame(f)) => f,
        _ => panic!("expected a frame"),
    }
}

fn is_skipped(r: Result<FrameResult, Error>) -> bool {
    matches!(r, Ok(FrameResult::Skipped))
}

fn is_padding(r: Result<FrameResult, Error>) -> bool {
    matches!(r, Ok(FrameResult::Padding))
}

fn is_eof(r: Result<FrameResult, Error>) -> bool {
    match r {
        Err(Error::IoError(e)) => e.is_eof(),
        _ => false,
    }
}

fn decode_msg(r: Result<FrameResult, Error>) -> &'static str {
    match r {
        Err(Error::DecodeError(m)) => m,
        _ => panic!("expected a decode error"),
    }
}

#[test]
fn min_frame_sizes() {
    assert_eq!(min_frame_size(2), 6);
    assert_eq!(min_frame_size(3), 10);
    assert_eq!(min_frame_size(4), 10);
}

#[test]
fn frame_id_validation() {
    assert!(validate_frame_id(b"TIT2"));
    assert!(validate_frame_id(b"TT2"));
    assert!(validate_frame_id(b"WXXX"));
    assert!(!validate_frame_id(b"tit2"));
    assert!(!validate_frame_id(b"TI"));
    assert!(!validate_frame_id(b"TIT2X"));
    assert!(!validate_frame_id(&[0x54, 0x49, 0x54, 0x00]));
    assert!(!validate_frame_id(b""));
}

#[test]
fn legacy_ids_map_to_modern_ids() {
    let map = LegacyFrameMap::new();
    assert_eq!(&legacy_id_to_modern(&map, *b"TT2"), b"TIT2");
    assert_eq!(&legacy_id_to_modern(&map, *b"PIC"), b"APIC");
    assert_eq!(&legacy_id_to_modern(&map, *b"TP1"), b"TPE1");
    assert_eq!(&legacy_id_to_modern(&map, *b"WXX"), b"WXXX");
    assert_eq!(&legacy_id_to_modern(&map, *b"CRM"), b"CRM_");
    assert_eq!(legacy_id_to_modern(&map, *b"XYZ"), [0u8; 4]);
}

#[test]
fn syncsafe_integers() {
    let data = [0x7f, 0x7f, 0x7f, 0x7f, 0x00, 0x00, 0x02, 0x01, 0x01];
    let mut r = BufReader::new(&data);
    assert_eq!(read_syncsafe_u28(&mut r).unwrap(), 0x0fff_ffff);
    assert_eq!(read_syncsafe_u28(&mut r).unwrap(), 0x101);
    assert!(read_syncsafe_u28(&mut r).is_err());
    let data = [0xff, 0x80, 0x80, 0x81];
    let mut r = BufReader::new(&data);
    assert_eq!(read_syncsafe_u28(&mut r).unwrap(), 0x0fe0_0001);
}

#[test]
fn unsynchronisation_is_undone() {
    assert_eq!(decode_unsynchronisation(&[0xff, 0x00, 0xff, 0x00, 0x00]), vec![0xff, 0xff, 0x00]);
    assert_eq!(decode_unsynchronisation(&[0xff, 0xff, 0x00]), vec![0xff, 0xff]);
    assert_eq!(decode_unsynchronisation(&[0xff]), vec![0xff]);
    assert_eq!(decode_unsynchronisation(&[0x00, 0xff]), vec![0x00, 0xff]);
    assert_eq!(decode_unsynchronisation(&[]), Vec::<u8>::new());
    let plain = [1u8, 2, 3, 0, 0xfe];
    assert_eq!(decode_unsynchronisation(&plain), plain.to_vec());
}

#[test]
fn v22_frame_is_read_and_renamed() {
    let map = LegacyFrameMap::new();
    let data = [0x54, 0x54, 0x32, 0, 0, 3, b'a', b'b', b'c', 0xaa];
    let mut r = BufReader::new(&data);
    let f = frame(read_id3v2p2_frame(&mut r, &map));
    assert_eq!(&f.id, b"TIT2");
    assert_eq!(f.data, b"abc".to_vec());
    assert_eq!(f.group_id, None);
    assert_eq!(f.encryption_id, None);
    assert_eq!(r.pos(), 9);
}

#[test]
fn v22_unknown_frame_has_zero_id() {
    let map = LegacyFrameMap::new();
    let data = [b'X', b'Y', b'Z', 0, 0, 1, 7];
    let mut r = BufReader::new(&data);
    let f = frame(read_id3v2p2_frame(&mut r, &map));
    assert_eq!(f.id, [0u8; 4]);
    assert_eq!(f.data, vec![7]);
}

#[test]
fn v22_padding_empty_and_truncated_frames() {
    let map = LegacyFrameMap::new();
    let data = [0u8; 8];
    let mut r = BufReader::new(&data);
    assert!(is_padding(read_id3v2p2_frame(&mut r, &map)));
    assert_eq!(r.pos(), 3);
    let data = [b'T', b'T', b'2', 0, 0, 0, 1];
    let mut r = BufReader::new(&data);
    assert!(is_skipped(read_id3v2p2_frame(&mut r, &map)));
    assert_eq!(r.pos(), 6);
    let data = [b'T', b'T', b'2', 0, 0, 5, b'a'];
    let mut r = BufReader::new(&data);
    assert!(is_eof(read_id3v2p2_frame(&mut r, &map)));
    let data = [b'T', b'T'];
    let mut r = BufReader::new(&data);
    assert!(is_eof(read_id3v2p2_frame(&mut r, &map)));
}

#[test]
fn v23_plain_frame() {
    let data = [b'T', b'I', b'T', b'2', 0, 0, 0, 4, 0, 0, b'a', b'b', b'c', b'd'];
    let mut r = BufReader::new(&data);
    let f = frame(read_id3v2p3_frame(&mut r));
    assert_eq!(&f.id, b"TIT2");
    assert_eq!(f.data, b"abcd".to_vec());
    assert_eq!(f.group_id, None);
    assert_eq!(f.encryption_id, None);
    assert_eq!(r.pos(), 14);
}

#[test]
fn v23_encrypted_and_grouped_frame() {
    let data = [b'T', b'I', b'T', b'2', 0, 0, 0, 6, 0x00, 0x60, 3, 7, b'a', b'b', b'c', b'd'];
    let mut r = BufReader::new(&data);
    let f = frame(read_id3v2p3_frame(&mut r));
    assert_eq!(f.encryption_id, Some(3));
    assert_eq!(f.group_id, Some(7));
    assert_eq!(f.data, b"abcd".to_vec());
    assert_eq!(r.pos(), 16);
}

#[test]
fn v23_compressed_and_empty_frames_are_skipped() {
    let data = [b'T', b'I', b'T', b'2', 0, 0, 0, 8, 0x00, 0x80, 0, 0, 0, 9, 1, 2, 3, 4];
    let mut r = BufReader::new(&data);
    assert!(is_skipped(read_id3v2p3_frame(&mut r)));
    assert_eq!(r.pos(), 18);
    let data = [b'T', b'I', b'T', b'2', 0, 0, 0, 0, 0, 0];
    let mut r = BufReader::new(&data);
    assert!(is_skipped(read_id3v2p3_frame(&mut r)));
    assert_eq!(r.pos(), 10);
}

#[test]
fn v23_errors() {
    let data = [b'T', b'I', b'T', b'2', 0, 0, 0, 4, 0x00, 0x01, b'a', b'b', b'c', b'd'];
    let mut r = BufReader::new(&data);
    assert_eq!(decode_msg(read_id3v2p3_frame(&mut r)), "id3v2: unused flag bits are not cleared");
    let data = [b'T', b'I', b'T', b'2', 0, 0, 0, 0, 0x00, 0x20, 1];
    let mut r = BufReader::new(&data);
    assert_eq!(decode_msg(read_id3v2p3_frame(&mut r)), "id3v2: the frame is too small");
    let data = [b'T', b'I', b'T', b'2', 0, 0, 0, 9, 0, 0, b'a'];
    let mut r = BufReader::new(&data);
    assert!(is_eof(read_id3v2p3_frame(&mut r)));
    let data = [0u8, 0, 0, 0, 0, 0];
    let mut r = BufReader::new(&data);
    assert!(is_padding(read_id3v2p3_frame(&mut r)));
    assert_eq!(r.pos(), 4);
}

#[test]
fn v24_unsynchronised_frame() {
    let data = [b'T', b'I', b'T', b'2', 0, 0, 0, 5, 0x00, 0x02, 0xff, 0x00, b'A', b'B', b'C'];
    let mut r = BufReader::new(&data);
    let f = frame(read_id3v2p4_frame(&mut r));
    assert_eq!(&f.id, b"TIT2");
    assert_eq!(f.data, vec![0xff, b'A', b'B', b'C']);
    assert_eq!(r.pos(), 15);
}

#[test]
fn v24_synchsafe_size_and_header_fields() {
    let mut data = vec![b'T', b'X', b'X', b'X', 0, 0, 1, 0, 0x00, 0x44, 9, 4];
    data.extend(std::iter::repeat(b'z').take(126));
    let mut r = BufReader::new(&data);
    let f = frame(read_id3v2p4_frame(&mut r));
    assert_eq!(f.group_id, Some(9));
    assert_eq!(f.encryption_id, Some(4));
    assert_eq!(f.data.len(), 126);
    assert_eq!(r.pos(), 138);
}

#[test]
fn v24_data_length_indicator_and_compression() {
    let data = [b'T', b'I', b'T', b'2', 0, 0, 0, 6, 0x00, 0x01, 0, 0, 0, 2, b'h', b'i'];
    let mut r = BufReader::new(&data);
    let f = frame(read_id3v2p4_frame(&mut r));
    assert_eq!(f.data, b"hi".to_vec());
    let data = [b'T', b'I', b'T', b'2', 0, 0, 0, 6, 0x00, 0x09, 0, 0, 0, 9, 1, 2];
    let mut r = BufReader::new(&data);
    assert!(is_skipped(read_id3v2p4_frame(&mut r)));
    assert_eq!(r.pos(), 16);
}

#[test]
fn v24_errors() {
    let data = [b'T', b'I', b'T', b'2', 0, 0, 0, 4, 0x00, 0x08, 1, 2, 3, 4];
    let mut r = BufReader::new(&data);
    assert_eq!(
        decode_msg(read_id3v2p4_frame(&mut r)),
        "id3v2: frame compressed without a data length indicator"
    );
    let data = [b'T', b'I', b'T', b'2', 0, 0, 0, 4, 0x80, 0x00, 1, 2, 3, 4];
    let mut r = BufReader::new(&data);
    assert_eq!(decode_msg(read_id3v2p4_frame(&mut r)), "id3v2: unused flag bits are not cleared");
    let data = [b'T', b'I', b'T', b'2', 0, 0, 0, 3, 0x00, 0x01, 1, 2, 3];
    let mut r = BufReader::new(&data);
    assert_eq!(decode_msg(read_id3v2p4_frame(&mut r)), "id3v2: the frame is too small");
    let data = [b'T', b'I', b'T', b'2', 0, 0];
    let mut r = BufReader::new(&data);
    assert!(is_eof(read_id3v2p4_frame(&mut r)));
}

#[test]
fn ascii_ids_as_text() {
    assert_eq!(from_ascii(b"TIT2"), "TIT2");
    assert_eq!(from_ascii(b"CRM_"), "CRM_");
    assert_eq!(from_ascii(b""), "");
}
