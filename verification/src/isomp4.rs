//! ISO/MP4 atoms: the media header (`mdhd`), movie extends header (`mehd`) and segment index
//! (`sidx`) atoms.

use vstd::prelude::*;

use crate::errors::{decode_error, fails_as, Error, ReadFailure, Result};
use crate::io::{
    lemma_layouts, lemma_layouts8, lemma_pow2_values, uint_be, BufReader,
};

verus! {

// ---------------------------------------------------------------------------------------------
// Language codes
// ---------------------------------------------------------------------------------------------

/// The characters of a string decoded from bytes with invalid UTF-8 sequences replaced.
pub uninterp spec fn utf8_lossy(bytes: Seq<u8>) -> Seq<char>;

/// Wraps `String::from_utf8_lossy`: its result is a function of the bytes alone, and bytes that
/// are all ASCII are valid UTF-8 whose characters are the bytes themselves.
#[verifier::external_body]
fn string_from_utf8_lossy(bytes: &[u8]) -> (r: String)
    ensures
        r@ == utf8_lossy(bytes@),
        (forall|i: int| 0 <= i < bytes@.len() ==> bytes@[i] < 0x80) ==> r@ == bytes@.map_values(
            |b: u8| b as char,
        ),
{
    String::from_utf8_lossy(bytes).into_owned()
}

/// The letter of the 5-bit field of a packed ISO-639-2/T language code that starts at bit
/// `shift`: the field's value plus 0x60, so that 1 to 26 are 'a' to 'z'.
pub open spec fn language_letter(code: u16, shift: u16) -> char {
    ((((code >> shift) & 0x1fu16) + 0x60) as u8) as char
}

/// The language of a packed ISO-639-2/T code: three letters, or nothing if the code lies
/// outside `0x400..=0x7fff`.
pub open spec fn language_spec(code: u16) -> Seq<char> {
    if code < 0x400 || code > 0x7fff {
        Seq::empty()
    } else {
        seq![language_letter(code, 10), language_letter(code, 5), language_letter(code, 0)]
    }
}

/// Parses a packed ISO-639-2/T language code.
pub fn parse_language(code: u16) -> (r: String)
    ensures
        r@ == language_spec(code),
{
    // An ISO language code outside of these bounds is not valid.
    if code < 0x400 || code > 0x7fff {
        String::new()
    } else {
        let a = (code >> 10) & 0x1f;
        let b = (code >> 5) & 0x1f;
        let c = (code >> 0) & 0x1f;
        assert(a <= 31 && b <= 31 && c <= 31) by (bit_vector)
            requires
                a == (code >> 10) & 0x1fu16,
                b == (code >> 5) & 0x1fu16,
                c == (code >> 0) & 0x1fu16,
        ;
        let chars: Vec<u8> = vec![a as u8 + 0x60, b as u8 + 0x60, c as u8 + 0x60];
        let r = string_from_utf8_lossy(chars.as_slice());
        assert(r@ =~= language_spec(code));
        r
    }
}

// ---------------------------------------------------------------------------------------------
// Atoms
// ---------------------------------------------------------------------------------------------

/// The position and length of an atom in its stream.
#[derive(Clone, Copy, Debug)]
pub struct AtomHeader {
    /// The position of the first byte of the atom.
    pub atom_pos: u64,
    /// The length of the atom in bytes, header included, if known.
    pub atom_len: Option<u64>,
}

impl AtomHeader {
    /// Reads the extended header of a full atom: a version byte, then 24 bits of flags.
    pub fn read_extended_header(&self, reader: &mut BufReader) -> (r: Result<(u8, u32)>)
        requires
            old(reader).inv(),
        ensures
            final(reader).inv(),
            final(reader).data() == old(reader).data(),
            r is Ok <==> old(reader).remaining() >= 4,
            r matches Ok(v) ==> {
                &&& v.0 == old(reader).data()[old(reader).position()]
                &&& v.1 == uint_be(old(reader).data(), old(reader).position() + 1, 3)
                &&& final(reader).position() == old(reader).position() + 4
            },
            r matches Err(e) ==> fails_as(e, ReadFailure::Eof),
    {
        let version = reader.read_u8()?;
        let flags = reader.read_be_u24()?;
        Ok((version, flags))
    }
}

/// The `n`-byte big-endian unsigned integer at offset `o` of `s`.
pub open spec fn be(s: Seq<u8>, o: int, n: nat) -> int {
    uint_be(s, o, n)
}

/// Movie extends header atom.
#[derive(Debug)]
pub struct MehdAtom {
    /// Fragment duration.
    pub fragment_duration: u64,
}

/// How reading a movie extends header atom from offset `p` of `s` fails, if it does.
pub open spec fn mehd_failure(s: Seq<u8>, p: int) -> Option<ReadFailure> {
    let n = s.len() - p;
    if n < 4 {
        Some(ReadFailure::Eof)
    } else if s[p] == 0 {
        if n < 8 { Some(ReadFailure::Eof) } else { None }
    } else if s[p] == 1 {
        if n < 12 { Some(ReadFailure::Eof) } else { None }
    } else {
        Some(ReadFailure::Decode("isomp4: invalid mehd version"))
    }
}

impl MehdAtom {
    /// Reads the atom: the extended header, then the fragment duration, of 32 bits for version
    /// 0 and 64 bits for version 1.
    pub fn read(reader: &mut BufReader, header: AtomHeader) -> (r: Result<Self>)
        requires
            old(reader).inv(),
        ensures
            final(reader).inv(),
            final(reader).data() == old(reader).data(),
            r is Ok <==> mehd_failure(old(reader).data(), old(reader).position()) is None,
            r matches Err(e) ==> fails_as(
                e,
                mehd_failure(old(reader).data(), old(reader).position()).unwrap(),
            ),
            r matches Ok(a) ==> {
                let s = old(reader).data();
                let p = old(reader).position();
                if s[p] == 0 {
                    &&& a.fragment_duration == be(s, p + 4, 4)
                    &&& final(reader).position() == p + 8
                } else {
                    &&& a.fragment_duration == be(s, p + 4, 8)
                    &&& final(reader).position() == p + 12
                }
            },
            ({
                let s = old(reader).data();
                let p = old(reader).position();
                old(reader).remaining() >= 4 && s[p] != 0 && s[p] != 1 ==> final(reader).position()
                    == p + 4
            }),
    {
        let (version, _) = header.read_extended_header(reader)?;

        let fragment_duration = if version == 0 {
            reader.read_be_u32()? as u64
        } else if version == 1 {
            reader.read_be_u64()?
        } else {
            return decode_error("isomp4: invalid mehd version");
        };

        Ok(MehdAtom { fragment_duration })
    }
}

/// Media header atom.
#[derive(Debug)]
pub struct MdhdAtom {
    /// Creation time.
    pub ctime: u64,
    /// Modification time.
    pub mtime: u64,
    /// Timescale: never zero.
    pub timescale: u32,
    /// Duration of the media in timescale units.
    pub duration: u64,
    /// Language.
    pub language: String,
}

/// How reading a media header atom from offset `p` of `s` fails, if it does.
pub open spec fn mdhd_failure(s: Seq<u8>, p: int) -> Option<ReadFailure> {
    let n = s.len() - p;
    if n < 4 {
        Some(ReadFailure::Eof)
    } else if s[p] == 0 {
        if n < 16 {
            Some(ReadFailure::Eof)
        } else if be(s, p + 12, 4) == 0 {
            Some(ReadFailure::Decode("isomp4: timescale is zero"))
        } else if n < 24 {
            Some(ReadFailure::Eof)
        } else {
            None
        }
    } else if s[p] == 1 {
        if n < 24 {
            Some(ReadFailure::Eof)
        } else if be(s, p + 20, 4) == 0 {
            Some(ReadFailure::Decode("isomp4: timescale is zero"))
        } else if n < 36 {
            Some(ReadFailure::Eof)
        } else {
            None
        }
    } else {
        Some(ReadFailure::Decode("isomp4: invalid mdhd version"))
    }
}

impl MdhdAtom {
    /// Reads the atom: the extended header; then the creation and modification times, the
    /// timescale and the duration, with times and duration of 32 bits for version 0 (a duration
    /// of all ones meaning the largest duration) and 64 bits for version 1; then the packed
    /// language code and the quality.
    pub fn read(reader: &mut BufReader, header: AtomHeader) -> (r: Result<Self>)
        requires
            old(reader).inv(),
        ensures
            final(reader).inv(),
            final(reader).data() == old(reader).data(),
            r is Ok <==> mdhd_failure(old(reader).data(), old(reader).position()) is None,
            r matches Err(e) ==> fails_as(
                e,
                mdhd_failure(old(reader).data(), old(reader).position()).unwrap(),
            ),
            r matches Ok(a) ==> {
                let s = old(reader).data();
                let p = old(reader).position();
                &&& a.timescale != 0
                &&& if s[p] == 0 {
                    &&& a.ctime == be(s, p + 4, 4)
                    &&& a.mtime == be(s, p + 8, 4)
                    &&& a.timescale == be(s, p + 12, 4)
                    &&& a.duration == if be(s, p + 16, 4) == 0xffff_ffff {
                        u64::MAX as int
                    } else {
                        be(s, p + 16, 4)
                    }
                    &&& a.language@ == language_spec(be(s, p + 20, 2) as u16)
                    &&& final(reader).position() == p + 24
                } else {
                    &&& a.ctime == be(s, p + 4, 8)
                    &&& a.mtime == be(s, p + 12, 8)
                    &&& a.timescale == be(s, p + 20, 4)
                    &&& a.duration == be(s, p + 24, 8)
                    &&& a.language@ == language_spec(be(s, p + 32, 2) as u16)
                    &&& final(reader).position() == p + 36
                }
            },
            ({
                let s = old(reader).data();
                let p = old(reader).position();
                old(reader).remaining() >= 4 && s[p] != 0 && s[p] != 1 ==> final(reader).position()
                    == p + 4
            }),
            ({
                let s = old(reader).data();
                let p = old(reader).position();
                mdhd_failure(s, p) == Some(ReadFailure::Decode("isomp4: timescale is zero"))
                    ==> final(reader).position() == p + if s[p] == 0 { 16int } else { 24int }
            }),
    {
        let (version, _) = header.read_extended_header(reader)?;

        let mut mdhd = MdhdAtom {
            ctime: 0,
            mtime: 0,
            timescale: 1,
            duration: 0,
            language: String::new(),
        };

        if version == 0 {
            mdhd.ctime = reader.read_be_u32()? as u64;
            mdhd.mtime = reader.read_be_u32()? as u64;
            let timescale = reader.read_be_u32()?;
            if timescale == 0 {
                return Err(Error::DecodeError("isomp4: timescale is zero"));
            }
            mdhd.timescale = timescale;
            // 0xffff_ffff is a special case.
            let duration = reader.read_be_u32()?;
            mdhd.duration = if duration == u32::MAX { u64::MAX } else { duration as u64 };
        } else if version == 1 {
            mdhd.ctime = reader.read_be_u64()?;
            mdhd.mtime = reader.read_be_u64()?;
            let timescale = reader.read_be_u32()?;
            if timescale == 0 {
                return Err(Error::DecodeError("isomp4: timescale is zero"));
            }
            mdhd.timescale = timescale;
            mdhd.duration = reader.read_be_u64()?;
        } else {
            return decode_error("isomp4: invalid mdhd version");
        }

        mdhd.language = parse_language(reader.read_be_u16()?);

        // Quality
        let _ = reader.read_be_u16()?;

        Ok(mdhd)
    }
}

/// The kind of a segment index reference.
#[derive(Debug, Clone, Copy, PartialEq, Eq, Structural)]
pub enum ReferenceType {
    /// The reference is to a segment index atom.
    Segment,
    /// The reference is to media content.
    Media,
}

/// A reference of a segment index atom.
#[derive(Debug, Clone, Copy)]
pub struct SidxReference {
    /// What the reference points at.
    pub reference_type: ReferenceType,
    /// The size of the referenced material in bytes.
    pub reference_size: u32,
    /// The duration of the referenced subsegment in timescale units.
    pub subsegment_duration: u32,
}

/// Segment index atom.
#[derive(Debug)]
pub struct SidxAtom {
    /// The stream the index is for.
    pub reference_id: u32,
    /// The timescale of the times in the index.
    pub timescale: u32,
    /// The earliest presentation time of the indexed media.
    pub earliest_pts: u64,
    /// The position of the first indexed byte in the stream.
    pub first_offset: u64,
    /// The references, in order.
    pub references: Vec<SidxReference>,
}

/// The number of bytes before the first reference of a segment index atom of a version.
pub open spec fn sidx_fixed_len(version: u8) -> int {
    if version == 0 { 24 } else { 32 }
}

/// The number of references of the segment index atom at offset `p` of `s`.
pub open spec fn sidx_count(s: Seq<u8>, p: int) -> int {
    be(s, p + sidx_fixed_len(s[p]) - 2, 2)
}

/// The first-offset field of the segment index atom at offset `p` of `s`.
pub open spec fn sidx_offset_field(s: Seq<u8>, p: int) -> int {
    if s[p] == 0 { be(s, p + 16, 4) } else { be(s, p + 20, 8) }
}

/// How reading a segment index atom from offset `p` of `s` fails, if it does.
pub open spec fn sidx_failure(header: AtomHeader, s: Seq<u8>, p: int) -> Option<ReadFailure> {
    let n = s.len() - p;
    if n < 12 {
        Some(ReadFailure::Eof)
    } else if header.atom_len is None {
        Some(ReadFailure::Decode("isomp4 (sidx): expected atom size to be known"))
    } else if s[p] != 0 && s[p] != 1 {
        Some(ReadFailure::Decode("isomp4: invalid sidx version"))
    } else if n < sidx_fixed_len(s[p]) + 12 * sidx_count(s, p) {
        Some(ReadFailure::Eof)
    } else {
        None
    }
}

/// The first-offset arithmetic of the atom does not overflow: the position just past the atom,
/// and that position plus the first-offset field, fit in 64 bits wherever they are computed.
pub open spec fn sidx_offsets_fit(header: AtomHeader, s: Seq<u8>, p: int) -> bool {
    let n = s.len() - p;
    let len = header.atom_len.unwrap();
    (header.atom_len is Some && n >= 12) ==> {
        &&& header.atom_pos + len <= u64::MAX
        &&& ((s[p] == 0 && n >= 20) || (s[p] == 1 && n >= 28)) ==> header.atom_pos + len
            + sidx_offset_field(s, p) <= u64::MAX
    }
}

/// The reference coded by the 32-bit reference word `word` and the 32-bit duration `duration`:
/// the top bit of the word tells a segment reference from a media reference, and the other 31
/// bits are the size.
pub open spec fn sidx_reference(word: int, duration: int) -> SidxReference {
    SidxReference {
        reference_type: if word >= 0x8000_0000 {
            ReferenceType::Segment
        } else {
            ReferenceType::Media
        },
        reference_size: (word % 0x8000_0000) as u32,
        subsegment_duration: duration as u32,
    }
}

impl SidxAtom {
    /// Whether reading the atom at the reader's position keeps its offset arithmetic within 64
    /// bits.
    pub fn offsets_fit(reader: &BufReader, header: AtomHeader) -> (r: bool)
        requires
            reader.inv(),
        ensures
            r == sidx_offsets_fit(header, reader.data(), reader.position()),
    {
        let mut probe = *reader;
        let n = probe.bytes_remaining();
        let len = match header.atom_len {
            Some(len) => len,
            None => return true,
        };
        if n < 12 {
            return true;
        }
        if len > u64::MAX - header.atom_pos {
            return false;
        }
        let anchor = header.atom_pos + len;
        let version = match probe.read_u8() {
            Ok(v) => v,
            Err(_) => return true,
        };
        if version == 0 && n >= 20 {
            let _ = probe.ignore_bytes(15);
            let offset = match probe.read_be_u32() {
                Ok(v) => v,
                Err(_) => return true,
            };
            offset as u64 <= u64::MAX - anchor
        } else if version == 1 && n >= 28 {
            let _ = probe.ignore_bytes(19);
            let offset = match probe.read_be_u64() {
                Ok(v) => v,
                Err(_) => return true,
            };
            offset <= u64::MAX - anchor
        } else {
            true
        }
    }

    /// Reads the atom: the extended header, the reference identifier and the timescale; then
    /// the earliest presentation time and the first offset, of 32 bits for version 0 and 64 bits
    /// for version 1, the offset counted from the end of the atom; then a reserved field, the
    /// number of references, and the references, each a reference word, a subsegment duration
    /// and a skipped stream-access-point word.
    pub fn read(reader: &mut BufReader, header: AtomHeader) -> (r: Result<Self>)
        requires
            old(reader).inv(),
            sidx_offsets_fit(header, old(reader).data(), old(reader).position()),
        ensures
            final(reader).inv(),
            final(reader).data() == old(reader).data(),
            r is Ok <==> sidx_failure(header, old(reader).data(), old(reader).position()) is None,
            r matches Err(e) ==> fails_as(
                e,
                sidx_failure(header, old(reader).data(), old(reader).position()).unwrap(),
            ),
            r matches Ok(a) ==> {
                let s = old(reader).data();
                let p = old(reader).position();
                let q = p + sidx_fixed_len(s[p]);
                &&& a.reference_id == be(s, p + 4, 4)
                &&& a.timescale == be(s, p + 8, 4)
                &&& a.earliest_pts == if s[p] == 0 { be(s, p + 12, 4) } else { be(s, p + 12, 8) }
                &&& a.first_offset == header.atom_pos + header.atom_len.unwrap() + sidx_offset_field(s, p)
                &&& a.references@.len() == sidx_count(s, p)
                &&& forall|k: int|
                    0 <= k < a.references@.len() ==> #[trigger] a.references@[k] == sidx_reference(
                        be(s, q + 12 * k, 4),
                        be(s, q + 12 * k + 4, 4),
                    )
                &&& final(reader).position() == q + 12 * sidx_count(s, p)
            },
    {
        let ghost s = reader.data();
        let ghost p = reader.position();
        proof {
            lemma_layouts(s, p + 22);
            lemma_layouts(s, p + 30);
        }
        let (version, _) = header.read_extended_header(reader)?;

        let reference_id = reader.read_be_u32()?;
        let timescale = reader.read_be_u32()?;

        // The anchor point for segment offsets is the first byte after this atom.
        let anchor = match header.atom_len {
            Some(atom_len) => header.atom_pos + atom_len,
            None => return decode_error("isomp4 (sidx): expected atom size to be known"),
        };

        let (earliest_pts, first_offset) = if version == 0 {
            let pts = reader.read_be_u32()? as u64;
            let offset = reader.read_be_u32()? as u64;
            (pts, anchor + offset)
        } else if version == 1 {
            let pts = reader.read_be_u64()?;
            let offset = reader.read_be_u64()?;
            (pts, anchor + offset)
        } else {
            return decode_error("isomp4: invalid sidx version");
        };

        let _reserved = reader.read_be_u16()?;
        let reference_count = reader.read_be_u16()?;

        let ghost q = p + sidx_fixed_len(version);
        assert(reader.position() == q);

        let mut references: Vec<SidxReference> = Vec::new();

        let mut i: u16 = 0;
        while i < reference_count
            invariant
                i <= reference_count,
                s == old(reader).data(),
                p == old(reader).position(),
                version == s[p],
                version == 0 || version == 1,
                header.atom_len is Some,
                s.len() - p >= 12,
                q == p + sidx_fixed_len(s[p]),
                reference_count == sidx_count(s, p),
                reader.inv(),
                reader.data() == s,
                reader.position() == q + 12 * i,
                references@.len() == i,
                forall|k: int|
                    0 <= k < i ==> #[trigger] references@[k] == sidx_reference(
                        be(s, q + 12 * k, 4),
                        be(s, q + 12 * k + 4, 4),
                    ),
            decreases reference_count - i,
        {
            let reference = reader.read_be_u32()?;
            let subsegment_duration = reader.read_be_u32()?;

            let reference_type = if (reference & 0x8000_0000) != 0 {
                ReferenceType::Segment
            } else {
                ReferenceType::Media
            };

            let reference_size = reference & !0x8000_0000u32;
            assert(((reference & 0x8000_0000u32) != 0) == (reference >= 0x8000_0000u32)) by (bit_vector);
            assert(reference & !0x8000_0000u32 == reference % 0x8000_0000u32) by (bit_vector);

            // Ignore SAP
            let _ = reader.read_be_u32()?;

            references.push(SidxReference { reference_type, reference_size, subsegment_duration });
            i = i + 1;
        }

        Ok(SidxAtom { reference_id, timescale, earliest_pts, first_offset, references })
    }
}

} // verus!
