use symphonia::errors::Error;
use symphonia::io::BufReader;
use symphonia::isomp4::{parse_language, AtomHeader, MdhdAtom, MehdAtom, ReferenceType, SidxAtom};

fn header() -> AtomHeader {
    AtomHeader { atom_pos: 100, atom_len: Some(60) }
}

fn decode_msg<T>(r: Result<T, Error>) -> &'static str {
    match r {
        Err(Error::DecodeError(m)) => m,
        _ => panic!("expected a decode error"),
    }
}

fn is_eof<T>(r: Result<T, Error>) -> bool {
    match r {
        Err(Error::IoError(e)) => e.is_eof(),
        _ => false,
    }
}

#[test]
fn language_codes() {
    // "und": u = 21, n = 14, d = 4.
    assert_eq!(parse_language((21 << 10) | (14 << 5) | 4), "und");
    assert_eq!(parse_language((5 << 10) | (14 << 5) | 7), "eng");
    assert_eq!(parse_language(0x3ff), "");
    assert_eq!(parse_language(0x8000), "");
    assert_eq!(parse_language(0x400), "a``");
}

#[test]
fn mdhd_version0() {
    let data = [
        0, 0, 0, 0, // version, flags
        0, 0, 0, 1, // ctime
        0, 0, 0, 2, // mtime
        0, 0, 0xac, 0x44, // timescale
        0xff, 0xff, 0xff, 0xff, // duration
        0x55, 0xc4, // language
        0, 0, // quality
    ];
    let mut r = BufReader::new(&data);
    let a = MdhdAtom::read(&mut r, header()).unwrap();
    assert_eq!(a.ctime, 1);
    assert_eq!(a.mtime, 2);
    assert_eq!(a.timescale, 44100);
    assert_eq!(a.duration, u64::MAX);
    assert_eq!(a.language, "und");
    assert_eq!(r.pos(), 24);
}

#[test]
fn mdhd_version1() {
    let mut data = vec![1, 0, 0, 0];
    data.extend_from_slice(&3u64.to_be_bytes());
    data.extend_from_slice(&4u64.to_be_bytes());
    data.extend_from_slice(&1000u32.to_be_bytes());
    data.extend_from_slice(&0xffff_ffffu64.to_be_bytes());
    data.extend_from_slice(&[0x15, 0xc7, 0, 0]);
    let mut r = BufReader::new(&data);
    let a = MdhdAtom::read(&mut r, header()).unwrap();
    assert_eq!(a.ctime, 3);
    assert_eq!(a.mtime, 4);
    assert_eq!(a.timescale, 1000);
    assert_eq!(a.duration, 0xffff_ffff);
    assert_eq!(a.language, "eng");
    assert_eq!(r.pos(), 36);
}

#[test]
fn mdhd_errors() {
    let zero_ts = [0u8, 0, 0, 0, 0, 0, 0, 1, 0, 0, 0, 2, 0, 0, 0, 0];
    let mut r = BufReader::new(&zero_ts);
    assert_eq!(decode_msg(MdhdAtom::read(&mut r, header())), "isomp4: timescale is zero");
    assert_eq!(r.pos(), 16);
    let bad_version = [2u8, 0, 0, 0, 9, 9, 9, 9];
    let mut r = BufReader::new(&bad_version);
    assert_eq!(decode_msg(MdhdAtom::read(&mut r, header())), "isomp4: invalid mdhd version");
    assert_eq!(r.pos(), 4);
    let short = [0u8, 0, 0, 0, 0, 0, 0, 1, 0, 0, 0, 2, 0, 0, 0, 1, 0, 0];
    let mut r = BufReader::new(&short);
    assert!(is_eof(MdhdAtom::read(&mut r, header())));
    let mut r = BufReader::new(&[0u8, 0]);
    assert!(is_eof(MdhdAtom::read(&mut r, header())));
}

#[test]
fn mehd_versions() {
    let v0 = [0u8, 0, 0, 0, 0, 0, 1, 0];
    let mut r = BufReader::new(&v0);
    assert_eq!(MehdAtom::read(&mut r, header()).unwrap().fragment_duration, 256);
    let v1 = [1u8, 0, 0, 0, 0, 0, 0, 1, 0, 0, 0, 0];
    let mut r = BufReader::new(&v1);
    assert_eq!(MehdAtom::read(&mut r, header()).unwrap().fragment_duration, 1 << 32);
    let v2 = [2u8, 0, 0, 0, 0, 0, 0, 0];
    let mut r = BufReader::new(&v2);
    assert_eq!(decode_msg(MehdAtom::read(&mut r, header())), "isomp4: invalid mehd version");
    assert_eq!(r.pos(), 4);
    let short = [1u8, 0, 0, 0, 0, 0];
    let mut r = BufReader::new(&short);
    assert!(is_eof(MehdAtom::read(&mut r, header())));
}

fn sidx_v0(count: u16) -> Vec<u8> {
    let mut d = vec![0u8, 0, 0, 0];
    d.extend_from_slice(&7u32.to_be_bytes()); // reference id
    d.extend_from_slice(&90000u32.to_be_bytes()); // timescale
    d.extend_from_slice(&5u32.to_be_bytes()); // earliest pts
    d.extend_from_slice(&10u32.to_be_bytes()); // first offset
    d.extend_from_slice(&[0, 0]); // reserved
    d.extend_from_slice(&count.to_be_bytes());
    for k in 0..count as u32 {
        let word = if k % 2 == 0 { 0x8000_0000 | (100 + k) } else { 100 + k };
        d.extend_from_slice(&word.to_be_bytes());
        d.extend_from_slice(&(1000 + k).to_be_bytes());
        d.extend_from_slice(&0u32.to_be_bytes());
    }
    d
}

#[test]
fn sidx_references() {
    let data = sidx_v0(3);
    let mut r = BufReader::new(&data);
    assert!(SidxAtom::offsets_fit(&r, header()));
    let a = SidxAtom::read(&mut r, header()).unwrap();
    assert_eq!(a.reference_id, 7);
    assert_eq!(a.timescale, 90000);
    assert_eq!(a.earliest_pts, 5);
    assert_eq!(a.first_offset, 100 + 60 + 10);
    assert_eq!(a.references.len(), 3);
    assert_eq!(a.references[0].reference_type, ReferenceType::Segment);
    assert_eq!(a.references[0].reference_size, 100);
    assert_eq!(a.references[1].reference_type, ReferenceType::Media);
    assert_eq!(a.references[1].reference_size, 101);
    assert_eq!(a.references[2].subsegment_duration, 1002);
    assert_eq!(r.pos(), data.len() as u64);
}

#[test]
fn sidx_version1() {
    let mut d = vec![1u8, 0, 0, 0];
    d.extend_from_slice(&1u32.to_be_bytes());
    d.extend_from_slice(&2u32.to_be_bytes());
    d.extend_from_slice(&(1u64 << 40).to_be_bytes());
    d.extend_from_slice(&(1u64 << 33).to_be_bytes());
    d.extend_from_slice(&[0, 0, 0, 0]);
    let mut r = BufReader::new(&d);
    let a = SidxAtom::read(&mut r, header()).unwrap();
    assert_eq!(a.earliest_pts, 1 << 40);
    assert_eq!(a.first_offset, 160 + (1 << 33));
    assert!(a.references.is_empty());
}

#[test]
fn sidx_errors() {
    let data = sidx_v0(2);
    let mut r = BufReader::new(&data);
    let unknown = AtomHeader { atom_pos: 0, atom_len: None };
    assert_eq!(
        decode_msg(SidxAtom::read(&mut r, unknown)),
        "isomp4 (sidx): expected atom size to be known"
    );
    let mut bad = sidx_v0(0);
    bad[0] = 3;
    let mut r = BufReader::new(&bad);
    assert_eq!(decode_msg(SidxAtom::read(&mut r, header())), "isomp4: invalid sidx version");
    let truncated = &data[..data.len() - 1];
    let mut r = BufReader::new(truncated);
    assert!(is_eof(SidxAtom::read(&mut r, header())));
}

#[test]
fn sidx_offset_overflow_is_detected() {
    let data = sidx_v0(0);
    let r = BufReader::new(&data);
    let far = AtomHeader { atom_pos: u64::MAX - 20, atom_len: Some(15) };
    assert!(!SidxAtom::offsets_fit(&r, far));
    let overflowing = AtomHeader { atom_pos: u64::MAX, atom_len: Some(1) };
    assert!(!SidxAtom::offsets_fit(&r, overflowing));
    let near = AtomHeader { atom_pos: u64::MAX - 20, atom_len: Some(10) };
    assert!(SidxAtom::offsets_fit(&r, near));
}
