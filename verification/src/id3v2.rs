//! ID3v2 frame framing: frame identifiers, the ID3v2.2 to ID3v2.3+ identifier map,
//! synchsafe integers, unsynchronisation, and the reading of frame headers and bodies.

use vstd::prelude::*;

use crate::errors::{fails_as, Error, ReadFailure, Result};
use crate::io::{BufReader, uint_be};

verus! {

/// Gets the minimum frame size for a major version of an ID3v2 tag: six bytes for version 2,
/// ten for versions 3 and 4.
pub fn min_frame_size(major_version: u8) -> (r: u64)
    requires
        2 <= major_version <= 4,
    ensures
        r == if major_version == 2 { 6int } else { 10int },
{
    if major_version == 2 {
        6
    } else {
        10
    }
}

/// Whether a byte is an uppercase ASCII letter or an ASCII digit.
pub open spec fn is_id_char(b: u8) -> bool {
    (0x41 <= b <= 0x5a) || (0x30 <= b <= 0x39)
}

/// Whether `id` is a valid frame identifier: three or four uppercase letters and digits.
pub open spec fn valid_frame_id(id: Seq<u8>) -> bool {
    &&& (id.len() == 3 || id.len() == 4)
    &&& forall|i: int| 0 <= i < id.len() ==> #[trigger] is_id_char(id[i])
}

/// Validates that a frame id only contains uppercase letters (A-Z), and digits (0-9).
pub fn validate_frame_id(id: &[u8]) -> (r: bool)
    ensures
        r == valid_frame_id(id@),
{
    // Only frame IDs with 3 or 4 characters are valid.
    if id.len() != 4 && id.len() != 3 {
        return false;
    }
    let mut i: usize = 0;
    while i < id.len()
        invariant
            i <= id@.len(),
            forall|k: int| 0 <= k < i ==> #[trigger] is_id_char(id@[k]),
        decreases id@.len() - i,
    {
        let b = id[i];
        if !((0x41 <= b && b <= 0x5a) || (0x30 <= b && b <= 0x39)) {
            assert(!is_id_char(id@[i as int]));
            return false;
        }
        i = i + 1;
    }
    true
}

/// The text of `bytes` when read as UTF-8, or `None` where they are not valid UTF-8.
pub uninterp spec fn utf8_text(bytes: Seq<u8>) -> Option<Seq<char>>;

/// Wraps `core::str::from_utf8`: the result is a function of the bytes alone, and bytes that
/// are all ASCII are valid UTF-8 whose characters are the bytes themselves.
#[verifier::external_body]
fn str_from_utf8(bytes: &[u8]) -> (r: Option<&str>)
    ensures
        r is Some <==> utf8_text(bytes@) is Some,
        r matches Some(t) ==> utf8_text(bytes@) == Some(t@),
        (forall|i: int| 0 <= i < bytes@.len() ==> bytes@[i] < 0x80) ==> r is Some
            && r.unwrap()@ == bytes@.map_values(|b: u8| b as char),
{
    core::str::from_utf8(bytes).ok()
}

/// Gets a slice of ASCII bytes as a string slice: one character per byte.
pub fn from_ascii(id: &[u8]) -> (r: &str)
    requires
        forall|i: int| 0 <= i < id@.len() ==> id@[i] < 0x80,
    ensures
        r@ == id@.map_values(|b: u8| b as char),
{
    match str_from_utf8(id) {
        Some(t) => t,
        None => {
            assert(false);
            ""
        },
    }
}

// ---------------------------------------------------------------------------------------------
// Synchsafe integers and unsynchronisation
// ---------------------------------------------------------------------------------------------

/// The 28-bit synchsafe integer stored in the four bytes of `s` starting at `o`: the low seven
/// bits of each byte, most significant first.
pub open spec fn syncsafe28(s: Seq<u8>, o: int) -> int {
    (s[o] % 128) * 0x20_0000 + (s[o + 1] % 128) * 0x4000 + (s[o + 2] % 128) * 0x80 + (s[o + 3] % 128)
}

/// Reads a 28-bit synchsafe integer.
pub fn read_syncsafe_u28(reader: &mut BufReader) -> (r: Result<u32>)
    requires
        old(reader).inv(),
    ensures
        final(reader).inv(),
        final(reader).data() == old(reader).data(),
        r is Ok <==> old(reader).remaining() >= 4,
        r matches Ok(v) ==> v == syncsafe28(old(reader).data(), old(reader).position())
            && final(reader).position() == old(reader).position() + 4,
        r matches Err(e) ==> fails_as(e, ReadFailure::Eof),
{
    let b0 = reader.read_u8()?;
    let b1 = reader.read_u8()?;
    let b2 = reader.read_u8()?;
    let b3 = reader.read_u8()?;
    assert(b0 & 0x7f == b0 % 128 && b1 & 0x7f == b1 % 128 && b2 & 0x7f == b2 % 128 && b3 & 0x7f
        == b3 % 128) by (bit_vector);
    Ok((b0 & 0x7f) as u32 * 0x20_0000 + (b1 & 0x7f) as u32 * 0x4000 + (b2 & 0x7f) as u32 * 0x80
        + (b3 & 0x7f) as u32)
}

/// The bytes an unsynchronised byte sequence decodes to: each `0xff 0x00` pair becomes `0xff`.
pub open spec fn unsync_spec(s: Seq<u8>) -> Seq<u8>
    decreases s.len(),
{
    if s.len() < 2 {
        s
    } else if s[0] == 0xff && s[1] == 0 {
        seq![0xffu8] + unsync_spec(s.skip(2))
    } else {
        seq![s[0]] + unsync_spec(s.skip(1))
    }
}

/// Decodes unsynchronised data: drops the zero byte of each `0xff 0x00` pair.
pub fn decode_unsynchronisation(data: &[u8]) -> (r: Vec<u8>)
    ensures
        r@ == unsync_spec(data@),
{
    let len = data.len();
    let mut out: Vec<u8> = Vec::with_capacity(len);
    let mut src: usize = 0;
    assert(data@.skip(0) =~= data@);
    assert(out@ + unsync_spec(data@.skip(0)) =~= unsync_spec(data@));
    while src < len
        invariant
            src <= len,
            len == data@.len(),
            out@ + unsync_spec(data@.skip(src as int)) == unsync_spec(data@),
        decreases len - src,
    {
        let ghost rest = data@.skip(src as int);
        if src + 1 < len && data[src] == 0xff && data[src + 1] == 0x00 {
            out.push(0xff);
            assert(rest.skip(2) =~= data@.skip(src + 2));
            assert(unsync_spec(rest) == seq![0xffu8] + unsync_spec(rest.skip(2)));
            assert(out@ + unsync_spec(data@.skip(src + 2)) =~= unsync_spec(data@));
            src = src + 2;
        } else {
            out.push(data[src]);
            proof {
                assert(rest.skip(1) =~= data@.skip(src + 1));
                if rest.len() >= 2 {
                    assert(unsync_spec(rest) == seq![rest[0]] + unsync_spec(rest.skip(1)));
                } else {
                    assert(rest.skip(1).len() == 0);
                    assert(unsync_spec(rest.skip(1)) =~= rest.skip(1));
                    assert(unsync_spec(rest) =~= seq![rest[0]] + unsync_spec(rest.skip(1)));
                }
                assert(out@ + unsync_spec(data@.skip(src + 1)) =~= unsync_spec(data@));
            }
            src = src + 1;
        }
    }
    assert(data@.skip(len as int) =~= Seq::<u8>::empty());
    assert(out@ =~= out@ + unsync_spec(data@.skip(len as int)));
    out
}

/// Data without any `0xff` byte is unchanged by decoding unsynchronisation.
pub proof fn law_unsync_identity(s: Seq<u8>)
    requires
        forall|i: int| 0 <= i < s.len() ==> #[trigger] s[i] != 0xff,
    ensures
        unsync_spec(s) == s,
    decreases s.len(),
{
    if s.len() >= 2 {
        let t = s.skip(1);
        assert forall|i: int| 0 <= i < t.len() implies #[trigger] t[i] != 0xff by {
            assert(t[i] == s[i + 1]);
        }
        law_unsync_identity(t);
        assert(seq![s[0]] + t =~= s);
    }
}

/// Decoding unsynchronisation never lengthens the data.
pub proof fn law_unsync_shrinks(s: Seq<u8>)
    ensures
        unsync_spec(s).len() <= s.len(),
    decreases s.len(),
{
    if s.len() >= 2 {
        if s[0] == 0xff && s[1] == 0 {
            law_unsync_shrinks(s.skip(2));
        } else {
            law_unsync_shrinks(s.skip(1));
        }
    }
}

// ---------------------------------------------------------------------------------------------
// ID3v2.2 frame identifiers
// ---------------------------------------------------------------------------------------------

/// The three bytes of `id` packed into an integer, first byte most significant.
pub open spec fn pack3(id: Seq<u8>) -> u32 {
    (id[0] * 0x1_0000 + id[1] * 0x100 + id[2]) as u32
}

/// The four bytes of `id` packed into an integer, first byte most significant.
pub open spec fn pack4(id: Seq<u8>) -> u32 {
    (id[0] * 0x100_0000 + id[1] * 0x1_0000 + id[2] * 0x100 + id[3]) as u32
}

/// The four bytes packed into `v`, most significant first.
pub open spec fn unpack4(v: u32) -> Seq<u8> {
    seq![(v / 0x100_0000) as u8, ((v / 0x1_0000) % 0x100) as u8, ((v / 0x100) % 0x100) as u8, (v % 0x100) as u8]
}

/// The ID3v2.3+ frame identifier of each ID3v2.2 frame identifier that has an equivalent, both
/// packed. `CRM` maps to the pseudo-identifier `CRM_`.
pub open spec fn legacy_frame_table() -> Map<u32, u32> {
    map![
        pack3(seq![0x42u8, 0x55u8, 0x46u8]) => pack4(seq![0x52u8, 0x42u8, 0x55u8, 0x46u8]),
        pack3(seq![0x43u8, 0x4eu8, 0x54u8]) => pack4(seq![0x50u8, 0x43u8, 0x4eu8, 0x54u8]),
        pack3(seq![0x43u8, 0x4fu8, 0x4du8]) => pack4(seq![0x43u8, 0x4fu8, 0x4du8, 0x4du8]),
        pack3(seq![0x43u8, 0x52u8, 0x41u8]) => pack4(seq![0x41u8, 0x45u8, 0x4eu8, 0x43u8]),
        pack3(seq![0x43u8, 0x52u8, 0x4du8]) => pack4(seq![0x43u8, 0x52u8, 0x4du8, 0x5fu8]),
        pack3(seq![0x45u8, 0x51u8, 0x55u8]) => pack4(seq![0x45u8, 0x51u8, 0x55u8, 0x41u8]),
        pack3(seq![0x45u8, 0x54u8, 0x43u8]) => pack4(seq![0x45u8, 0x54u8, 0x43u8, 0x4fu8]),
        pack3(seq![0x47u8, 0x45u8, 0x4fu8]) => pack4(seq![0x47u8, 0x45u8, 0x4fu8, 0x42u8]),
        pack3(seq![0x49u8, 0x50u8, 0x4cu8]) => pack4(seq![0x49u8, 0x50u8, 0x4cu8, 0x53u8]),
        pack3(seq![0x4cu8, 0x4eu8, 0x4bu8]) => pack4(seq![0x4cu8, 0x49u8, 0x4eu8, 0x4bu8]),
        pack3(seq![0x4du8, 0x43u8, 0x49u8]) => pack4(seq![0x4du8, 0x43u8, 0x44u8, 0x49u8]),
        pack3(seq![0x4du8, 0x4cu8, 0x4cu8]) => pack4(seq![0x4du8, 0x4cu8, 0x4cu8, 0x54u8]),
        pack3(seq![0x50u8, 0x43u8, 0x53u8]) => pack4(seq![0x50u8, 0x43u8, 0x53u8, 0x54u8]),
        pack3(seq![0x50u8, 0x49u8, 0x43u8]) => pack4(seq![0x41u8, 0x50u8, 0x49u8, 0x43u8]),
        pack3(seq![0x50u8, 0x4fu8, 0x50u8]) => pack4(seq![0x50u8, 0x4fu8, 0x50u8, 0x4du8]),
        pack3(seq![0x52u8, 0x45u8, 0x56u8]) => pack4(seq![0x52u8, 0x56u8, 0x52u8, 0x42u8]),
        pack3(seq![0x52u8, 0x56u8, 0x41u8]) => pack4(seq![0x52u8, 0x56u8, 0x41u8, 0x44u8]),
        pack3(seq![0x53u8, 0x4cu8, 0x54u8]) => pack4(seq![0x53u8, 0x59u8, 0x4cu8, 0x54u8]),
        pack3(seq![0x53u8, 0x54u8, 0x43u8]) => pack4(seq![0x53u8, 0x59u8, 0x54u8, 0x43u8]),
        pack3(seq![0x54u8, 0x41u8, 0x4cu8]) => pack4(seq![0x54u8, 0x41u8, 0x4cu8, 0x42u8]),
        pack3(seq![0x54u8, 0x42u8, 0x50u8]) => pack4(seq![0x54u8, 0x42u8, 0x50u8, 0x4du8]),
        pack3(seq![0x54u8, 0x43u8, 0x4du8]) => pack4(seq![0x54u8, 0x43u8, 0x4fu8, 0x4du8]),
        pack3(seq![0x54u8, 0x43u8, 0x4fu8]) => pack4(seq![0x54u8, 0x43u8, 0x4fu8, 0x4eu8]),
        pack3(seq![0x54u8, 0x43u8, 0x50u8]) => pack4(seq![0x54u8, 0x43u8, 0x4du8, 0x50u8]),
        pack3(seq![0x54u8, 0x43u8, 0x52u8]) => pack4(seq![0x54u8, 0x43u8, 0x4fu8, 0x50u8]),
        pack3(seq![0x54u8, 0x44u8, 0x41u8]) => pack4(seq![0x54u8, 0x44u8, 0x41u8, 0x54u8]),
        pack3(seq![0x54u8, 0x44u8, 0x59u8]) => pack4(seq![0x54u8, 0x44u8, 0x4cu8, 0x59u8]),
        pack3(seq![0x54u8, 0x45u8, 0x4eu8]) => pack4(seq![0x54u8, 0x45u8, 0x4eu8, 0x43u8]),
        pack3(seq![0x54u8, 0x46u8, 0x54u8]) => pack4(seq![0x54u8, 0x46u8, 0x4cu8, 0x54u8]),
        pack3(seq![0x54u8, 0x49u8, 0x4du8]) => pack4(seq![0x54u8, 0x49u8, 0x4du8, 0x45u8]),
        pack3(seq![0x54u8, 0x4bu8, 0x45u8]) => pack4(seq![0x54u8, 0x4bu8, 0x45u8, 0x59u8]),
        pack3(seq![0x54u8, 0x4cu8, 0x41u8]) => pack4(seq![0x54u8, 0x4cu8, 0x41u8, 0x4eu8]),
        pack3(seq![0x54u8, 0x4cu8, 0x45u8]) => pack4(seq![0x54u8, 0x4cu8, 0x45u8, 0x4eu8]),
        pack3(seq![0x54u8, 0x4du8, 0x54u8]) => pack4(seq![0x54u8, 0x4du8, 0x45u8, 0x44u8]),
        pack3(seq![0x54u8, 0x4fu8, 0x41u8]) => pack4(seq![0x54u8, 0x4fu8, 0x50u8, 0x45u8]),
        pack3(seq![0x54u8, 0x4fu8, 0x46u8]) => pack4(seq![0x54u8, 0x4fu8, 0x46u8, 0x4eu8]),
        pack3(seq![0x54u8, 0x4fu8, 0x4cu8]) => pack4(seq![0x54u8, 0x4fu8, 0x4cu8, 0x59u8]),
        pack3(seq![0x54u8, 0x4fu8, 0x52u8]) => pack4(seq![0x54u8, 0x4fu8, 0x52u8, 0x59u8]),
        pack3(seq![0x54u8, 0x4fu8, 0x54u8]) => pack4(seq![0x54u8, 0x4fu8, 0x41u8, 0x4cu8]),
        pack3(seq![0x54u8, 0x50u8, 0x31u8]) => pack4(seq![0x54u8, 0x50u8, 0x45u8, 0x31u8]),
        pack3(seq![0x54u8, 0x50u8, 0x32u8]) => pack4(seq![0x54u8, 0x50u8, 0x45u8, 0x32u8]),
        pack3(seq![0x54u8, 0x50u8, 0x33u8]) => pack4(seq![0x54u8, 0x50u8, 0x45u8, 0x33u8]),
        pack3(seq![0x54u8, 0x50u8, 0x34u8]) => pack4(seq![0x54u8, 0x50u8, 0x45u8, 0x34u8]),
        pack3(seq![0x54u8, 0x50u8, 0x41u8]) => pack4(seq![0x54u8, 0x50u8, 0x4fu8, 0x53u8]),
        pack3(seq![0x54u8, 0x50u8, 0x42u8]) => pack4(seq![0x54u8, 0x50u8, 0x55u8, 0x42u8]),
        pack3(seq![0x54u8, 0x52u8, 0x43u8]) => pack4(seq![0x54u8, 0x53u8, 0x52u8, 0x43u8]),
        pack3(seq![0x54u8, 0x52u8, 0x44u8]) => pack4(seq![0x54u8, 0x52u8, 0x44u8, 0x41u8]),
        pack3(seq![0x54u8, 0x52u8, 0x4bu8]) => pack4(seq![0x54u8, 0x52u8, 0x43u8, 0x4bu8]),
        pack3(seq![0x54u8, 0x53u8, 0x32u8]) => pack4(seq![0x54u8, 0x53u8, 0x4fu8, 0x32u8]),
        pack3(seq![0x54u8, 0x53u8, 0x41u8]) => pack4(seq![0x54u8, 0x53u8, 0x4fu8, 0x41u8]),
        pack3(seq![0x54u8, 0x53u8, 0x43u8]) => pack4(seq![0x54u8, 0x53u8, 0x4fu8, 0x43u8]),
        pack3(seq![0x54u8, 0x53u8, 0x49u8]) => pack4(seq![0x54u8, 0x53u8, 0x49u8, 0x5au8]),
        pack3(seq![0x54u8, 0x53u8, 0x50u8]) => pack4(seq![0x54u8, 0x53u8, 0x4fu8, 0x50u8]),
        pack3(seq![0x54u8, 0x53u8, 0x53u8]) => pack4(seq![0x54u8, 0x53u8, 0x53u8, 0x45u8]),
        pack3(seq![0x54u8, 0x53u8, 0x54u8]) => pack4(seq![0x54u8, 0x53u8, 0x4fu8, 0x54u8]),
        pack3(seq![0x54u8, 0x54u8, 0x31u8]) => pack4(seq![0x54u8, 0x49u8, 0x54u8, 0x31u8]),
        pack3(seq![0x54u8, 0x54u8, 0x32u8]) => pack4(seq![0x54u8, 0x49u8, 0x54u8, 0x32u8]),
        pack3(seq![0x54u8, 0x54u8, 0x33u8]) => pack4(seq![0x54u8, 0x49u8, 0x54u8, 0x33u8]),
        pack3(seq![0x54u8, 0x58u8, 0x54u8]) => pack4(seq![0x54u8, 0x45u8, 0x58u8, 0x54u8]),
        pack3(seq![0x54u8, 0x58u8, 0x58u8]) => pack4(seq![0x54u8, 0x58u8, 0x58u8, 0x58u8]),
        pack3(seq![0x54u8, 0x59u8, 0x45u8]) => pack4(seq![0x54u8, 0x59u8, 0x45u8, 0x52u8]),
        pack3(seq![0x55u8, 0x46u8, 0x49u8]) => pack4(seq![0x55u8, 0x46u8, 0x49u8, 0x44u8]),
        pack3(seq![0x55u8, 0x4cu8, 0x54u8]) => pack4(seq![0x55u8, 0x53u8, 0x4cu8, 0x54u8]),
        pack3(seq![0x57u8, 0x41u8, 0x46u8]) => pack4(seq![0x57u8, 0x4fu8, 0x41u8, 0x46u8]),
        pack3(seq![0x57u8, 0x41u8, 0x52u8]) => pack4(seq![0x57u8, 0x4fu8, 0x41u8, 0x52u8]),
        pack3(seq![0x57u8, 0x41u8, 0x53u8]) => pack4(seq![0x57u8, 0x4fu8, 0x41u8, 0x53u8]),
        pack3(seq![0x57u8, 0x43u8, 0x4du8]) => pack4(seq![0x57u8, 0x43u8, 0x4fu8, 0x4du8]),
        pack3(seq![0x57u8, 0x43u8, 0x50u8]) => pack4(seq![0x57u8, 0x43u8, 0x4fu8, 0x50u8]),
        pack3(seq![0x57u8, 0x50u8, 0x42u8]) => pack4(seq![0x57u8, 0x50u8, 0x55u8, 0x42u8]),
        pack3(seq![0x57u8, 0x58u8, 0x58u8]) => pack4(seq![0x57u8, 0x58u8, 0x58u8, 0x58u8]),
    ]
}

/// The ID3v2.3+ frame identifier equivalent to an ID3v2.2 identifier, or four zero bytes if it
/// has none.
pub open spec fn legacy_to_modern_spec(id: Seq<u8>) -> Seq<u8> {
    if legacy_frame_table().dom().contains(pack3(id)) {
        unpack4(legacy_frame_table()[pack3(id)])
    } else {
        seq![0u8, 0u8, 0u8, 0u8]
    }
}

/// A `hashbrown::HashMap` from packed ID3v2.2 frame identifiers to packed ID3v2.3+ identifiers.
#[verifier::external_body]
pub struct LegacyFrameMap {
    map: hashbrown::HashMap<u32, u32>,
}

/// The entries of a legacy frame map.
pub uninterp spec fn legacy_map_contents(m: LegacyFrameMap) -> Map<u32, u32>;

impl LegacyFrameMap {
    /// Wraps `hashbrown::HashMap::new`: the new map is empty.
    #[verifier::external_body]
    fn empty() -> (r: LegacyFrameMap)
        ensures
            legacy_map_contents(r) =~= Map::empty(),
    {
        LegacyFrameMap { map: hashbrown::HashMap::new() }
    }

    /// Wraps `hashbrown::HashMap::insert`: afterwards `k` maps to `v` and every other key to
    /// what it mapped to before.
    #[verifier::external_body]
    fn insert(&mut self, k: u32, v: u32)
        ensures
            legacy_map_contents(*final(self)) == legacy_map_contents(*old(self)).insert(k, v),
    {
        self.map.insert(k, v);
    }

    /// Wraps `hashbrown::HashMap::get`: the value `k` maps to, if any.
    #[verifier::external_body]
    fn get(&self, k: u32) -> (r: Option<u32>)
        ensures
            r == if legacy_map_contents(*self).dom().contains(k) {
                Some(legacy_map_contents(*self)[k])
            } else {
                None
            },
    {
        self.map.get(&k).copied()
    }

    /// Builds the map of all ID3v2.2 frame identifiers that have an ID3v2.3+ equivalent.
    pub fn new() -> (r: Self)
        ensures
            legacy_map_contents(r) == legacy_frame_table(),
    {
        let mut m = LegacyFrameMap::empty();
        // BUF => RBUF
        m.insert(0x425546, 0x52425546);
        // CNT => PCNT
        m.insert(0x434e54, 0x50434e54);
        // COM => COMM
        m.insert(0x434f4d, 0x434f4d4d);
        // CRA => AENC
        m.insert(0x435241, 0x41454e43);
        // CRM => CRM_
        m.insert(0x43524d, 0x43524d5f);
        // EQU => EQUA
        m.insert(0x455155, 0x45515541);
        // ETC => ETCO
        m.insert(0x455443, 0x4554434f);
        // GEO => GEOB
        m.insert(0x47454f, 0x47454f42);
        // IPL => IPLS
        m.insert(0x49504c, 0x49504c53);
        // LNK => LINK
        m.insert(0x4c4e4b, 0x4c494e4b);
        // MCI => MCDI
        m.insert(0x4d4349, 0x4d434449);
        // MLL => MLLT
        m.insert(0x4d4c4c, 0x4d4c4c54);
        // PCS => PCST
        m.insert(0x504353, 0x50435354);
        // PIC => APIC
        m.insert(0x504943, 0x41504943);
        // POP => POPM
        m.insert(0x504f50, 0x504f504d);
        // REV => RVRB
        m.insert(0x524556, 0x52565242);
        // RVA => RVAD
        m.insert(0x525641, 0x52564144);
        // SLT => SYLT
        m.insert(0x534c54, 0x53594c54);
        // STC => SYTC
        m.insert(0x535443, 0x53595443);
        // TAL => TALB
        m.insert(0x54414c, 0x54414c42);
        // TBP => TBPM
        m.insert(0x544250, 0x5442504d);
        // TCM => TCOM
        m.insert(0x54434d, 0x54434f4d);
        // TCO => TCON
        m.insert(0x54434f, 0x54434f4e);
        // TCP => TCMP
        m.insert(0x544350, 0x54434d50);
        // TCR => TCOP
        m.insert(0x544352, 0x54434f50);
        // TDA => TDAT
        m.insert(0x544441, 0x54444154);
        // TDY => TDLY
        m.insert(0x544459, 0x54444c59);
        // TEN => TENC
        m.insert(0x54454e, 0x54454e43);
        // TFT => TFLT
        m.insert(0x544654, 0x54464c54);
        // TIM => TIME
        m.insert(0x54494d, 0x54494d45);
        // TKE => TKEY
        m.insert(0x544b45, 0x544b4559);
        // TLA => TLAN
        m.insert(0x544c41, 0x544c414e);
        // TLE => TLEN
        m.insert(0x544c45, 0x544c454e);
        // TMT => TMED
        m.insert(0x544d54, 0x544d4544);
        // TOA => TOPE
        m.insert(0x544f41, 0x544f5045);
        // TOF => TOFN
        m.insert(0x544f46, 0x544f464e);
        // TOL => TOLY
        m.insert(0x544f4c, 0x544f4c59);
        // TOR => TORY
        m.insert(0x544f52, 0x544f5259);
        // TOT => TOAL
        m.insert(0x544f54, 0x544f414c);
        // TP1 => TPE1
        m.insert(0x545031, 0x54504531);
        // TP2 => TPE2
        m.insert(0x545032, 0x54504532);
        // TP3 => TPE3
        m.insert(0x545033, 0x54504533);
        // TP4 => TPE4
        m.insert(0x545034, 0x54504534);
        // TPA => TPOS
        m.insert(0x545041, 0x54504f53);
        // TPB => TPUB
        m.insert(0x545042, 0x54505542);
        // TRC => TSRC
        m.insert(0x545243, 0x54535243);
        // TRD => TRDA
        m.insert(0x545244, 0x54524441);
        // TRK => TRCK
        m.insert(0x54524b, 0x5452434b);
        // TS2 => TSO2
        m.insert(0x545332, 0x54534f32);
        // TSA => TSOA
        m.insert(0x545341, 0x54534f41);
        // TSC => TSOC
        m.insert(0x545343, 0x54534f43);
        // TSI => TSIZ
        m.insert(0x545349, 0x5453495a);
        // TSP => TSOP
        m.insert(0x545350, 0x54534f50);
        // TSS => TSSE
        m.insert(0x545353, 0x54535345);
        // TST => TSOT
        m.insert(0x545354, 0x54534f54);
        // TT1 => TIT1
        m.insert(0x545431, 0x54495431);
        // TT2 => TIT2
        m.insert(0x545432, 0x54495432);
        // TT3 => TIT3
        m.insert(0x545433, 0x54495433);
        // TXT => TEXT
        m.insert(0x545854, 0x54455854);
        // TXX => TXXX
        m.insert(0x545858, 0x54585858);
        // TYE => TYER
        m.insert(0x545945, 0x54594552);
        // UFI => UFID
        m.insert(0x554649, 0x55464944);
        // ULT => USLT
        m.insert(0x554c54, 0x55534c54);
        // WAF => WOAF
        m.insert(0x574146, 0x574f4146);
        // WAR => WOAR
        m.insert(0x574152, 0x574f4152);
        // WAS => WOAS
        m.insert(0x574153, 0x574f4153);
        // WCM => WCOM
        m.insert(0x57434d, 0x57434f4d);
        // WCP => WCOP
        m.insert(0x574350, 0x57434f50);
        // WPB => WPUB
        m.insert(0x575042, 0x57505542);
        // WXX => WXXX
        m.insert(0x575858, 0x57585858);
        assert(legacy_map_contents(m) =~= legacy_frame_table());
        m
    }
}

/// Find the equivalent ID3v2.3+ frame identifier of an ID3v2.2 frame identifier, or four zero
/// bytes if there is none.
pub fn legacy_id_to_modern(map: &LegacyFrameMap, id: [u8; 3]) -> (r: [u8; 4])
    requires
        legacy_map_contents(*map) == legacy_frame_table(),
    ensures
        r@ == legacy_to_modern_spec(id@),
{
    let key = id[0] as u32 * 0x1_0000 + id[1] as u32 * 0x100 + id[2] as u32;
    assert(key == pack3(id@));
    match map.get(key) {
        Some(v) => {
            let r = [(v / 0x100_0000) as u8, ((v / 0x1_0000) % 0x100) as u8, ((v / 0x100) % 0x100) as u8, (v % 0x100) as u8];
            assert(r@ =~= unpack4(v));
            r
        },
        None => {
            let r = [0u8, 0u8, 0u8, 0u8];
            assert(r@ =~= seq![0u8, 0u8, 0u8, 0u8]);
            r
        },
    }
}

// ---------------------------------------------------------------------------------------------
// Frames
// ---------------------------------------------------------------------------------------------

/// A frame read from a tag: its identifier, its body (with unsynchronisation undone), and the
/// group and encryption-method identifiers its header carries, if any.
#[derive(Debug)]
pub struct RawFrame {
    /// The ID3v2.3+ frame identifier.
    pub id: [u8; 4],
    /// The frame body.
    pub data: Vec<u8>,
    /// The group identifier, for a grouped frame.
    pub group_id: Option<u8>,
    /// The encryption method identifier, for an encrypted frame.
    pub encryption_id: Option<u8>,
}

/// The result of reading a frame.
#[derive(Debug)]
pub enum FrameResult {
    /// The frame was skipped: it is empty, or compressed.
    Skipped,
    /// Padding was encountered instead of a frame. The remainder of the tag may be skipped.
    Padding,
    /// A frame was read.
    Frame(RawFrame),
}

/// What reading a frame yields.
#[derive(Debug, Clone, Copy, PartialEq, Eq, Structural)]
pub enum FrameKind {
    /// The frame is skipped.
    Skipped,
    /// The tag's padding starts here.
    Padding,
    /// A frame with a body.
    Frame,
}

/// The kind of a frame result.
pub open spec fn kind_of(r: FrameResult) -> FrameKind {
    match r {
        FrameResult::Skipped => FrameKind::Skipped,
        FrameResult::Padding => FrameKind::Padding,
        FrameResult::Frame(_) => FrameKind::Frame,
    }
}

/// The bytes of `s` from `a` up to `b`.
pub open spec fn bytes(s: Seq<u8>, a: int, b: int) -> Seq<u8> {
    s.subrange(a, b)
}

// ID3v2.2 -------------------------------------------------------------------------------------

/// The body size in the ID3v2.2 frame header at offset `p` of `s`.
pub open spec fn p2_size(s: Seq<u8>, p: int) -> int {
    uint_be(s, p + 3, 3)
}

/// How reading the ID3v2.2 frame at offset `p` of `s` fails, if it does.
pub open spec fn p2_failure(s: Seq<u8>, p: int) -> Option<ReadFailure> {
    let n = s.len() - p;
    if n < 3 {
        Some(ReadFailure::Eof)
    } else if !valid_frame_id(bytes(s, p, p + 3)) {
        None
    } else if n < 6 {
        Some(ReadFailure::Eof)
    } else if p2_size(s, p) == 0 {
        None
    } else if n < 6 + p2_size(s, p) {
        Some(ReadFailure::Eof)
    } else {
        None
    }
}

/// What reading the ID3v2.2 frame at offset `p` of `s` yields, when it succeeds.
pub open spec fn p2_kind(s: Seq<u8>, p: int) -> FrameKind {
    if !valid_frame_id(bytes(s, p, p + 3)) {
        FrameKind::Padding
    } else if p2_size(s, p) == 0 {
        FrameKind::Skipped
    } else {
        FrameKind::Frame
    }
}

/// Reads an ID3v2.2 frame: a three-character identifier, mapped to its ID3v2.3+ equivalent,
/// a 24-bit size, then the body. An identifier that is not valid starts the tag's padding; an
/// empty frame is skipped.
pub fn read_id3v2p2_frame(reader: &mut BufReader, map: &LegacyFrameMap) -> (r: Result<FrameResult>)
    requires
        old(reader).inv(),
        legacy_map_contents(*map) == legacy_frame_table(),
    ensures
        ({
            let s = old(reader).data();
            let p = old(reader).position();
            &&& final(reader).inv()
            &&& final(reader).data() == s
            &&& r is Ok <==> p2_failure(s, p) is None
            &&& r matches Err(e) ==> fails_as(e, p2_failure(s, p).unwrap())
            &&& r matches Ok(f) ==> {
                &&& kind_of(f) == p2_kind(s, p)
                &&& final(reader).position() == if p2_kind(s, p) == FrameKind::Padding {
                    p + 3
                } else {
                    p + 6 + p2_size(s, p)
                }
                &&& f matches FrameResult::Frame(raw) ==> {
                    &&& raw.id@ == legacy_to_modern_spec(bytes(s, p, p + 3))
                    &&& raw.data@ == bytes(s, p + 6, p + 6 + p2_size(s, p))
                    &&& raw.group_id is None
                    &&& raw.encryption_id is None
                }
            }
        }),
{
    let ghost s = reader.data();
    let ghost p = reader.position();
    let id = reader.read_triple_bytes()?;
    assert(id@ == bytes(s, p, p + 3));

    // Check if the frame id contains valid characters. If it does not, then assume the rest of
    // the tag is padding.
    if !validate_frame_id(&id) {
        return Ok(FrameResult::Padding);
    }

    let size = reader.read_be_u24()? as u64;

    // Find the equivalent modern frame.
    let id = legacy_id_to_modern(map, id);

    // A frame must be atleast 1 byte as per the specification.
    if size == 0 {
        return Ok(FrameResult::Skipped);
    }

    // Read the frame body.
    let data = reader.read_boxed_slice_exact(size as usize)?;

    Ok(FrameResult::Frame(RawFrame { id, data, group_id: None, encryption_id: None }))
}

// ID3v2.3 -------------------------------------------------------------------------------------

/// The flags in the ID3v2.3 frame header at offset `p` of `s`.
pub open spec fn p3_flags(s: Seq<u8>, p: int) -> u16 {
    uint_be(s, p + 8, 2) as u16
}

/// The ID3v2.3 frame at offset `p` of `s` is compressed.
pub open spec fn p3_compressed(s: Seq<u8>, p: int) -> bool {
    p3_flags(s, p) & 0x80u16 != 0
}

/// The ID3v2.3 frame at offset `p` of `s` is encrypted.
pub open spec fn p3_encrypted(s: Seq<u8>, p: int) -> bool {
    p3_flags(s, p) & 0x40u16 != 0
}

/// The ID3v2.3 frame at offset `p` of `s` is grouped.
pub open spec fn p3_grouped(s: Seq<u8>, p: int) -> bool {
    p3_flags(s, p) & 0x20u16 != 0
}

/// The number of bytes the flags of the ID3v2.3 frame at offset `p` of `s` add to its header:
/// four for the decompressed size, one for the encryption method, one for the group.
pub open spec fn p3_extra(s: Seq<u8>, p: int) -> int {
    (if p3_compressed(s, p) { 4int } else { 0 }) + (if p3_encrypted(s, p) { 1int } else { 0 }) + (
    if p3_grouped(s, p) { 1int } else { 0 })
}

/// The frame size in the ID3v2.3 frame header at offset `p` of `s`.
pub open spec fn p3_size(s: Seq<u8>, p: int) -> int {
    uint_be(s, p + 4, 4)
}

/// The body size of the ID3v2.3 frame at offset `p` of `s`.
pub open spec fn p3_data_size(s: Seq<u8>, p: int) -> int {
    p3_size(s, p) - p3_extra(s, p)
}

/// How reading the ID3v2.3 frame at offset `p` of `s` fails, if it does.
pub open spec fn p3_failure(s: Seq<u8>, p: int) -> Option<ReadFailure> {
    let n = s.len() - p;
    if n < 4 {
        Some(ReadFailure::Eof)
    } else if !valid_frame_id(bytes(s, p, p + 4)) {
        None
    } else if n < 10 {
        Some(ReadFailure::Eof)
    } else if p3_flags(s, p) & 0x1f1fu16 != 0 {
        Some(ReadFailure::Decode("id3v2: unused flag bits are not cleared"))
    } else if p3_size(s, p) < p3_extra(s, p) {
        Some(ReadFailure::Decode("id3v2: the frame is too small"))
    } else if n < 10 + p3_extra(s, p) {
        Some(ReadFailure::Eof)
    } else if !p3_compressed(s, p) && p3_data_size(s, p) == 0 {
        None
    } else if n < 10 + p3_extra(s, p) + p3_data_size(s, p) {
        Some(ReadFailure::Eof)
    } else {
        None
    }
}

/// What reading the ID3v2.3 frame at offset `p` of `s` yields, when it succeeds.
pub open spec fn p3_kind(s: Seq<u8>, p: int) -> FrameKind {
    if !valid_frame_id(bytes(s, p, p + 4)) {
        FrameKind::Padding
    } else if p3_compressed(s, p) || p3_data_size(s, p) == 0 {
        FrameKind::Skipped
    } else {
        FrameKind::Frame
    }
}

/// Reads an ID3v2.3 frame: a four-character identifier, a 32-bit size and 16 bits of flags;
/// then, as the flags call for, the decompressed size, the encryption method and the group;
/// then the body. An identifier that is not valid starts the tag's padding; set unused flag
/// bits, or a size too small for the header's extra fields, are errors; compressed and empty
/// frames are skipped.
pub fn read_id3v2p3_frame(reader: &mut BufReader) -> (r: Result<FrameResult>)
    requires
        old(reader).inv(),
    ensures
        ({
            let s = old(reader).data();
            let p = old(reader).position();
            let body = p + 10 + p3_extra(s, p);
            &&& final(reader).inv()
            &&& final(reader).data() == s
            &&& r is Ok <==> p3_failure(s, p) is None
            &&& r matches Err(e) ==> fails_as(e, p3_failure(s, p).unwrap())
            &&& r matches Ok(f) ==> {
                &&& kind_of(f) == p3_kind(s, p)
                &&& final(reader).position() == if p3_kind(s, p) == FrameKind::Padding {
                    p + 4
                } else {
                    body + p3_data_size(s, p)
                }
                &&& f matches FrameResult::Frame(raw) ==> {
                    &&& raw.id@ == bytes(s, p, p + 4)
                    &&& raw.data@ == bytes(s, body, body + p3_data_size(s, p))
                    &&& raw.encryption_id == if p3_encrypted(s, p) {
                        Some(s[p + 10 + if p3_compressed(s, p) { 4int } else { 0 }])
                    } else {
                        None::<u8>
                    }
                    &&& raw.group_id == if p3_grouped(s, p) {
                        Some(s[body - 1])
                    } else {
                        None::<u8>
                    }
                }
            }
        }),
{
    let ghost s = reader.data();
    let ghost p = reader.position();
    let id = reader.read_quad_bytes()?;
    assert(id@ == bytes(s, p, p + 4));

    // Check if the frame id contains valid characters. If it does not, then assume the rest of
    // the tag is padding.
    if !validate_frame_id(&id) {
        return Ok(FrameResult::Padding);
    }

    // The size of the frame after encryption, compression, and unsynchronisation.
    let size = reader.read_be_u32()?;

    // Frame-specific flags.
    let flags = reader.read_be_u16()?;

    // Unused flag bits must be cleared.
    if flags & 0x1f1f != 0x0 {
        return Err(Error::DecodeError("id3v2: unused flag bits are not cleared"));
    }

    // Frame-specific flags that are important for reading.
    let is_compressed = flags & 0x80 != 0;
    let is_encrypted = flags & 0x40 != 0;
    let is_grouped = flags & 0x20 != 0;

    // When some flags are set, the frame header is extended with additional fields.
    let flag_data_size: u32 = if is_compressed { 4 } else { 0 } + if is_encrypted { 1 } else { 0 }
        + if is_grouped { 1 } else { 0 };

    // If the frame size is too small for the extended header, there is a fatal framing error.
    if size < flag_data_size {
        return Err(Error::DecodeError("id3v2: the frame is too small"));
    }

    // The size of the frame's body.
    let data_size = size - flag_data_size;

    // If compression is enabled, read the decompressed size of the frame.
    if is_compressed {
        let _decompressed_size = reader.read_be_u32()?;
    }

    // If encryption is enabled, read the encryption ID.
    let encryption_id = if is_encrypted { Some(reader.read_byte()?) } else { None };

    // If frame grouping is enabled, read the group ID of the frame.
    let group_id = if is_grouped { Some(reader.read_byte()?) } else { None };

    // Compressed frames are not decoded, so they are skipped.
    if is_compressed {
        reader.ignore_bytes(data_size as u64)?;
        return Ok(FrameResult::Skipped);
    }

    // A zero-length frame body is not allowed, but can be skipped.
    if data_size == 0 {
        return Ok(FrameResult::Skipped);
    }

    // Read the frame body.
    let data = reader.read_boxed_slice_exact(data_size as usize)?;

    Ok(FrameResult::Frame(RawFrame { id, data, group_id, encryption_id }))
}

// ID3v2.4 -------------------------------------------------------------------------------------

/// The flags in the ID3v2.4 frame header at offset `p` of `s`.
pub open spec fn p4_flags(s: Seq<u8>, p: int) -> u16 {
    uint_be(s, p + 8, 2) as u16
}

/// The ID3v2.4 frame at offset `p` of `s` is grouped.
pub open spec fn p4_grouped(s: Seq<u8>, p: int) -> bool {
    p4_flags(s, p) & 0x40u16 != 0
}

/// The ID3v2.4 frame at offset `p` of `s` is compressed.
pub open spec fn p4_compressed(s: Seq<u8>, p: int) -> bool {
    p4_flags(s, p) & 0x08u16 != 0
}

/// The ID3v2.4 frame at offset `p` of `s` is encrypted.
pub open spec fn p4_encrypted(s: Seq<u8>, p: int) -> bool {
    p4_flags(s, p) & 0x04u16 != 0
}

/// The body of the ID3v2.4 frame at offset `p` of `s` is unsynchronised.
pub open spec fn p4_unsynchronised(s: Seq<u8>, p: int) -> bool {
    p4_flags(s, p) & 0x02u16 != 0
}

/// The header of the ID3v2.4 frame at offset `p` of `s` indicates the body's original size.
pub open spec fn p4_has_indicated_size(s: Seq<u8>, p: int) -> bool {
    p4_flags(s, p) & 0x01u16 != 0
}

/// The number of bytes the flags of the ID3v2.4 frame at offset `p` of `s` add to its header:
/// one for the group, one for the encryption method, four for the data length indicator.
pub open spec fn p4_extra(s: Seq<u8>, p: int) -> int {
    (if p4_grouped(s, p) { 1int } else { 0 }) + (if p4_encrypted(s, p) { 1int } else { 0 }) + (
    if p4_has_indicated_size(s, p) { 4int } else { 0 })
}

/// The frame size in the ID3v2.4 frame header at offset `p` of `s`.
pub open spec fn p4_size(s: Seq<u8>, p: int) -> int {
    syncsafe28(s, p + 4)
}

/// The body size of the ID3v2.4 frame at offset `p` of `s`.
pub open spec fn p4_data_size(s: Seq<u8>, p: int) -> int {
    p4_size(s, p) - p4_extra(s, p)
}

/// How reading the ID3v2.4 frame at offset `p` of `s` fails, if it does.
pub open spec fn p4_failure(s: Seq<u8>, p: int) -> Option<ReadFailure> {
    let n = s.len() - p;
    if n < 4 {
        Some(ReadFailure::Eof)
    } else if !valid_frame_id(bytes(s, p, p + 4)) {
        None
    } else if n < 10 {
        Some(ReadFailure::Eof)
    } else if p4_flags(s, p) & 0x8fb0u16 != 0 {
        Some(ReadFailure::Decode("id3v2: unused flag bits are not cleared"))
    } else if p4_compressed(s, p) && !p4_has_indicated_size(s, p) {
        Some(ReadFailure::Decode("id3v2: frame compressed without a data length indicator"))
    } else if p4_size(s, p) < p4_extra(s, p) {
        Some(ReadFailure::Decode("id3v2: the frame is too small"))
    } else if n < 10 + p4_extra(s, p) {
        Some(ReadFailure::Eof)
    } else if !p4_compressed(s, p) && p4_data_size(s, p) == 0 {
        None
    } else if n < 10 + p4_extra(s, p) + p4_data_size(s, p) {
        Some(ReadFailure::Eof)
    } else {
        None
    }
}

/// What reading the ID3v2.4 frame at offset `p` of `s` yields, when it succeeds.
pub open spec fn p4_kind(s: Seq<u8>, p: int) -> FrameKind {
    if !valid_frame_id(bytes(s, p, p + 4)) {
        FrameKind::Padding
    } else if p4_compressed(s, p) || p4_data_size(s, p) == 0 {
        FrameKind::Skipped
    } else {
        FrameKind::Frame
    }
}

/// Reads an ID3v2.4 frame: a four-character identifier, a 28-bit synchsafe size and 16 bits
/// of flags; then, as the flags call for, the group, the encryption method and the data length
/// indicator; then the body, with its unsynchronisation undone if the flags say so. An
/// identifier that is not valid starts the tag's padding; set unused flag bits, compression
/// without a data length indicator, or a size too small for the header's extra fields, are
/// errors; compressed and empty frames are skipped.
pub fn read_id3v2p4_frame(reader: &mut BufReader) -> (r: Result<FrameResult>)
    requires
        old(reader).inv(),
    ensures
        ({
            let s = old(reader).data();
            let p = old(reader).position();
            let body = p + 10 + p4_extra(s, p);
            let raw_body = bytes(s, body, body + p4_data_size(s, p));
            &&& final(reader).inv()
            &&& final(reader).data() == s
            &&& r is Ok <==> p4_failure(s, p) is None
            &&& r matches Err(e) ==> fails_as(e, p4_failure(s, p).unwrap())
            &&& r matches Ok(f) ==> {
                &&& kind_of(f) == p4_kind(s, p)
                &&& final(reader).position() == if p4_kind(s, p) == FrameKind::Padding {
                    p + 4
                } else {
                    body + p4_data_size(s, p)
                }
                &&& f matches FrameResult::Frame(raw) ==> {
                    &&& raw.id@ == bytes(s, p, p + 4)
                    &&& raw.data@ == if p4_unsynchronised(s, p) {
                        unsync_spec(raw_body)
                    } else {
                        raw_body
                    }
                    &&& raw.group_id == if p4_grouped(s, p) {
                        Some(s[p + 10])
                    } else {
                        None::<u8>
                    }
                    &&& raw.encryption_id == if p4_encrypted(s, p) {
                        Some(s[p + 10 + if p4_grouped(s, p) { 1int } else { 0 }])
                    } else {
                        None::<u8>
                    }
                }
            }
        }),
{
    let ghost s = reader.data();
    let ghost p = reader.position();
    let id = reader.read_quad_bytes()?;
    assert(id@ == bytes(s, p, p + 4));

    // Check if the frame id contains valid characters. If it does not, then assume the rest of
    // the tag is padding.
    if !validate_frame_id(&id) {
        return Ok(FrameResult::Padding);
    }

    // The size of the frame after encryption, compression, and unsynchronisation.
    let size = read_syncsafe_u28(reader)?;

    // Frame-specific flags.
    let flags = reader.read_be_u16()?;

    // Unused flag bits must be cleared.
    if flags & 0x8fb0 != 0x0 {
        return Err(Error::DecodeError("id3v2: unused flag bits are not cleared"));
    }

    // Frame-specific flags that are important for reading.
    let is_grouped = flags & 0x40 != 0;
    let is_compressed = flags & 0x08 != 0;
    let is_encrypted = flags & 0x04 != 0;
    let is_unsynchronised = flags & 0x2 != 0;
    let has_indicated_size = flags & 0x1 != 0;

    if is_compressed && !has_indicated_size {
        return Err(Error::DecodeError("id3v2: frame compressed without a data length indicator"));
    }

    // When some flags are set, the frame header is extended with additional fields.
    let flag_data_size: u32 = if is_grouped { 1 } else { 0 } + if is_encrypted { 1 } else { 0 }
        + if has_indicated_size { 4 } else { 0 };

    // If the frame size is too small for the extended header, there is a fatal framing error.
    if size < flag_data_size {
        return Err(Error::DecodeError("id3v2: the frame is too small"));
    }

    // The size of the frame's body.
    let data_size = size - flag_data_size;

    // Frame group identifier byte.
    let group_id = if is_grouped { Some(reader.read_byte()?) } else { None };

    // Frame encryption method byte.
    let encryption_id = if is_encrypted { Some(reader.read_byte()?) } else { None };

    // The data length indicator: the size of the body before compression, encryption and
    // unsynchronisation.
    if has_indicated_size {
        let _indicated_size = read_syncsafe_u28(reader)?;
    }

    // Compressed frames are not decoded, so they are skipped.
    if is_compressed {
        reader.ignore_bytes(data_size as u64)?;
        return Ok(FrameResult::Skipped);
    }

    // A zero-length frame body is not allowed, but can be skipped.
    if data_size == 0 {
        return Ok(FrameResult::Skipped);
    }

    // Read the frame body.
    let data = reader.read_boxed_slice_exact(data_size as usize)?;

    // Undo the unsynchronisation of the body, if it was unsynchronised.
    let data = if is_unsynchronised { decode_unsynchronisation(data.as_slice()) } else { data };

    Ok(FrameResult::Frame(RawFrame { id, data, group_id, encryption_id }))
}

// Laws ----------------------------------------------------------------------------------------

/// The minimum frame size of an ID3v2 major version, as `min_frame_size` gives it.
pub open spec fn min_frame_size_spec(major_version: u8) -> int {
    if major_version == 2 { 6 } else { 10 }
}

/// Reading a frame that is not padding consumes at least the minimum frame size of its
/// version: a whole header, and the body.
pub proof fn law_frame_reads_at_least_min_size(s: Seq<u8>, p: int)
    requires
        0 <= p <= s.len(),
    ensures
        p2_failure(s, p) is None && p2_kind(s, p) != FrameKind::Padding ==> 6 + p2_size(s, p)
            >= min_frame_size_spec(2),
        p3_failure(s, p) is None && p3_kind(s, p) != FrameKind::Padding ==> 10 + p3_extra(s, p)
            + p3_data_size(s, p) >= min_frame_size_spec(3),
        p4_failure(s, p) is None && p4_kind(s, p) != FrameKind::Padding ==> 10 + p4_extra(s, p)
            + p4_data_size(s, p) >= min_frame_size_spec(4),
{
    crate::io::lemma_layouts(s, p + 3);
}

/// A plain ID3v2.2 frame (a valid identifier and a non-zero 24-bit big-endian size `n` in
/// header bytes 3 to 5, with the whole body present) is read as a frame of `n` body bytes, and
/// the reader ends after its six header bytes and its body.
pub proof fn law_id3v2p2_plain_frame(s: Seq<u8>, p: int)
    requires
        0 <= p,
        p + 6 <= s.len(),
        valid_frame_id(bytes(s, p, p + 3)),
        0 < 65536 * s[p + 3] + 256 * s[p + 4] + s[p + 5],
        p + 6 + 65536 * s[p + 3] + 256 * s[p + 4] + s[p + 5] <= s.len(),
    ensures
        p2_failure(s, p) is None,
        p2_kind(s, p) == FrameKind::Frame,
        p2_size(s, p) == 65536 * s[p + 3] + 256 * s[p + 4] + s[p + 5],
{
    crate::io::lemma_layouts(s, p + 3);
}

/// A plain ID3v2.3 frame (a valid identifier, a non-zero 32-bit big-endian size `n` in header
/// bytes 4 to 7, all eight bits of each byte counting, and no flags, with the whole body
/// present) is read as a frame of `n` body bytes, and the reader ends after its ten header bytes
/// and its body.
pub proof fn law_id3v2p3_plain_frame(s: Seq<u8>, p: int)
    requires
        0 <= p,
        p + 10 <= s.len(),
        valid_frame_id(bytes(s, p, p + 4)),
        s[p + 8] == 0,
        s[p + 9] == 0,
        0 < 16777216 * s[p + 4] + 65536 * s[p + 5] + 256 * s[p + 6] + s[p + 7],
        p + 10 + 16777216 * s[p + 4] + 65536 * s[p + 5] + 256 * s[p + 6] + s[p + 7] <= s.len(),
    ensures
        p3_failure(s, p) is None,
        p3_kind(s, p) == FrameKind::Frame,
        p3_extra(s, p) == 0,
        p3_data_size(s, p) == 16777216 * s[p + 4] + 65536 * s[p + 5] + 256 * s[p + 6] + s[p + 7],
{
    crate::io::lemma_layouts(s, p + 4);
    crate::io::lemma_layouts(s, p + 8);
    assert(p3_flags(s, p) == 0);
    assert(0u16 & 0x80u16 == 0 && 0u16 & 0x40u16 == 0 && 0u16 & 0x20u16 == 0 && 0u16 & 0x1f1fu16
        == 0) by (bit_vector);
}

/// A plain ID3v2.4 frame (a valid identifier, a non-zero synchsafe size `n` in header bytes 4
/// to 7, only the low seven bits of each byte counting, and no flags, with the whole body
/// present) is read as a frame of `n` body bytes, and the reader ends after its ten header bytes
/// and its body.
pub proof fn law_id3v2p4_plain_frame(s: Seq<u8>, p: int)
    requires
        0 <= p,
        p + 10 <= s.len(),
        valid_frame_id(bytes(s, p, p + 4)),
        s[p + 8] == 0,
        s[p + 9] == 0,
        s[p + 4] < 128 && s[p + 5] < 128 && s[p + 6] < 128 && s[p + 7] < 128,
        0 < 2097152 * s[p + 4] + 16384 * s[p + 5] + 128 * s[p + 6] + s[p + 7],
        p + 10 + 2097152 * s[p + 4] + 16384 * s[p + 5] + 128 * s[p + 6] + s[p + 7] <= s.len(),
    ensures
        p4_failure(s, p) is None,
        p4_kind(s, p) == FrameKind::Frame,
        p4_extra(s, p) == 0,
        p4_data_size(s, p) == 2097152 * s[p + 4] + 16384 * s[p + 5] + 128 * s[p + 6] + s[p + 7],
{
    crate::io::lemma_layouts(s, p + 8);
    assert(p4_flags(s, p) == 0);
    assert(0u16 & 0x40u16 == 0 && 0u16 & 0x08u16 == 0 && 0u16 & 0x04u16 == 0 && 0u16 & 0x02u16
        == 0 && 0u16 & 0x01u16 == 0 && 0u16 & 0x8fb0u16 == 0) by (bit_vector);
}

/// The ID3v2.2 to ID3v2.3 identifier correspondence, entry by entry: each three-character
/// identifier below maps to the four-character identifier of the same field (bytes in ASCII):
/// BUF to RBUF, CNT to PCNT, COM to COMM, CRA to AENC, CRM to CRM_, EQU to EQUA, ETC to ETCO,
/// GEO to GEOB, IPL to IPLS, LNK to LINK, MCI to MCDI, MLL to MLLT, PCS to PCST, PIC to APIC,
/// POP to POPM, REV to RVRB, RVA to RVAD, SLT to SYLT, STC to SYTC, TAL to TALB, TBP to TBPM,
/// TCM to TCOM, TCO to TCON, TCP to TCMP, TCR to TCOP, TDA to TDAT, TDY to TDLY, TEN to TENC,
/// TFT to TFLT, TIM to TIME, TKE to TKEY, TLA to TLAN, TLE to TLEN, TMT to TMED, TOA to TOPE,
/// TOF to TOFN, TOL to TOLY, TOR to TORY, TOT to TOAL, TP1 to TPE1, TP2 to TPE2, TP3 to TPE3,
/// TP4 to TPE4, TPA to TPOS, TPB to TPUB, TRC to TSRC, TRD to TRDA, TRK to TRCK, TS2 to TSO2,
/// TSA to TSOA, TSC to TSOC, TSI to TSIZ, TSP to TSOP, TSS to TSSE, TST to TSOT, TT1 to TIT1,
/// TT2 to TIT2, TT3 to TIT3, TXT to TEXT, TXX to TXXX, TYE to TYER, UFI to UFID, ULT to USLT,
/// WAF to WOAF, WAR to WOAR, WAS to WOAS, WCM to WCOM, WCP to WCOP, WPB to WPUB, WXX to WXXX.
#[verifier::rlimit(100)]
pub proof fn law_legacy_frame_ids()
    ensures
        legacy_to_modern_spec(seq![0x42u8, 0x55u8, 0x46u8]) == seq![0x52u8, 0x42u8, 0x55u8, 0x46u8],
        legacy_to_modern_spec(seq![0x43u8, 0x4eu8, 0x54u8]) == seq![0x50u8, 0x43u8, 0x4eu8, 0x54u8],
        legacy_to_modern_spec(seq![0x43u8, 0x4fu8, 0x4du8]) == seq![0x43u8, 0x4fu8, 0x4du8, 0x4du8],
        legacy_to_modern_spec(seq![0x43u8, 0x52u8, 0x41u8]) == seq![0x41u8, 0x45u8, 0x4eu8, 0x43u8],
        legacy_to_modern_spec(seq![0x43u8, 0x52u8, 0x4du8]) == seq![0x43u8, 0x52u8, 0x4du8, 0x5fu8],
        legacy_to_modern_spec(seq![0x45u8, 0x51u8, 0x55u8]) == seq![0x45u8, 0x51u8, 0x55u8, 0x41u8],
        legacy_to_modern_spec(seq![0x45u8, 0x54u8, 0x43u8]) == seq![0x45u8, 0x54u8, 0x43u8, 0x4fu8],
        legacy_to_modern_spec(seq![0x47u8, 0x45u8, 0x4fu8]) == seq![0x47u8, 0x45u8, 0x4fu8, 0x42u8],
        legacy_to_modern_spec(seq![0x49u8, 0x50u8, 0x4cu8]) == seq![0x49u8, 0x50u8, 0x4cu8, 0x53u8],
        legacy_to_modern_spec(seq![0x4cu8, 0x4eu8, 0x4bu8]) == seq![0x4cu8, 0x49u8, 0x4eu8, 0x4bu8],
        legacy_to_modern_spec(seq![0x4du8, 0x43u8, 0x49u8]) == seq![0x4du8, 0x43u8, 0x44u8, 0x49u8],
        legacy_to_modern_spec(seq![0x4du8, 0x4cu8, 0x4cu8]) == seq![0x4du8, 0x4cu8, 0x4cu8, 0x54u8],
        legacy_to_modern_spec(seq![0x50u8, 0x43u8, 0x53u8]) == seq![0x50u8, 0x43u8, 0x53u8, 0x54u8],
        legacy_to_modern_spec(seq![0x50u8, 0x49u8, 0x43u8]) == seq![0x41u8, 0x50u8, 0x49u8, 0x43u8],
        legacy_to_modern_spec(seq![0x50u8, 0x4fu8, 0x50u8]) == seq![0x50u8, 0x4fu8, 0x50u8, 0x4du8],
        legacy_to_modern_spec(seq![0x52u8, 0x45u8, 0x56u8]) == seq![0x52u8, 0x56u8, 0x52u8, 0x42u8],
        legacy_to_modern_spec(seq![0x52u8, 0x56u8, 0x41u8]) == seq![0x52u8, 0x56u8, 0x41u8, 0x44u8],
        legacy_to_modern_spec(seq![0x53u8, 0x4cu8, 0x54u8]) == seq![0x53u8, 0x59u8, 0x4cu8, 0x54u8],
        legacy_to_modern_spec(seq![0x53u8, 0x54u8, 0x43u8]) == seq![0x53u8, 0x59u8, 0x54u8, 0x43u8],
        legacy_to_modern_spec(seq![0x54u8, 0x41u8, 0x4cu8]) == seq![0x54u8, 0x41u8, 0x4cu8, 0x42u8],
        legacy_to_modern_spec(seq![0x54u8, 0x42u8, 0x50u8]) == seq![0x54u8, 0x42u8, 0x50u8, 0x4du8],
        legacy_to_modern_spec(seq![0x54u8, 0x43u8, 0x4du8]) == seq![0x54u8, 0x43u8, 0x4fu8, 0x4du8],
        legacy_to_modern_spec(seq![0x54u8, 0x43u8, 0x4fu8]) == seq![0x54u8, 0x43u8, 0x4fu8, 0x4eu8],
        legacy_to_modern_spec(seq![0x54u8, 0x43u8, 0x50u8]) == seq![0x54u8, 0x43u8, 0x4du8, 0x50u8],
        legacy_to_modern_spec(seq![0x54u8, 0x43u8, 0x52u8]) == seq![0x54u8, 0x43u8, 0x4fu8, 0x50u8],
        legacy_to_modern_spec(seq![0x54u8, 0x44u8, 0x41u8]) == seq![0x54u8, 0x44u8, 0x41u8, 0x54u8],
        legacy_to_modern_spec(seq![0x54u8, 0x44u8, 0x59u8]) == seq![0x54u8, 0x44u8, 0x4cu8, 0x59u8],
        legacy_to_modern_spec(seq![0x54u8, 0x45u8, 0x4eu8]) == seq![0x54u8, 0x45u8, 0x4eu8, 0x43u8],
        legacy_to_modern_spec(seq![0x54u8, 0x46u8, 0x54u8]) == seq![0x54u8, 0x46u8, 0x4cu8, 0x54u8],
        legacy_to_modern_spec(seq![0x54u8, 0x49u8, 0x4du8]) == seq![0x54u8, 0x49u8, 0x4du8, 0x45u8],
        legacy_to_modern_spec(seq![0x54u8, 0x4bu8, 0x45u8]) == seq![0x54u8, 0x4bu8, 0x45u8, 0x59u8],
        legacy_to_modern_spec(seq![0x54u8, 0x4cu8, 0x41u8]) == seq![0x54u8, 0x4cu8, 0x41u8, 0x4eu8],
        legacy_to_modern_spec(seq![0x54u8, 0x4cu8, 0x45u8]) == seq![0x54u8, 0x4cu8, 0x45u8, 0x4eu8],
        legacy_to_modern_spec(seq![0x54u8, 0x4du8, 0x54u8]) == seq![0x54u8, 0x4du8, 0x45u8, 0x44u8],
        legacy_to_modern_spec(seq![0x54u8, 0x4fu8, 0x41u8]) == seq![0x54u8, 0x4fu8, 0x50u8, 0x45u8],
        legacy_to_modern_spec(seq![0x54u8, 0x4fu8, 0x46u8]) == seq![0x54u8, 0x4fu8, 0x46u8, 0x4eu8],
        legacy_to_modern_spec(seq![0x54u8, 0x4fu8, 0x4cu8]) == seq![0x54u8, 0x4fu8, 0x4cu8, 0x59u8],
        legacy_to_modern_spec(seq![0x54u8, 0x4fu8, 0x52u8]) == seq![0x54u8, 0x4fu8, 0x52u8, 0x59u8],
        legacy_to_modern_spec(seq![0x54u8, 0x4fu8, 0x54u8]) == seq![0x54u8, 0x4fu8, 0x41u8, 0x4cu8],
        legacy_to_modern_spec(seq![0x54u8, 0x50u8, 0x31u8]) == seq![0x54u8, 0x50u8, 0x45u8, 0x31u8],
        legacy_to_modern_spec(seq![0x54u8, 0x50u8, 0x32u8]) == seq![0x54u8, 0x50u8, 0x45u8, 0x32u8],
        legacy_to_modern_spec(seq![0x54u8, 0x50u8, 0x33u8]) == seq![0x54u8, 0x50u8, 0x45u8, 0x33u8],
        legacy_to_modern_spec(seq![0x54u8, 0x50u8, 0x34u8]) == seq![0x54u8, 0x50u8, 0x45u8, 0x34u8],
        legacy_to_modern_spec(seq![0x54u8, 0x50u8, 0x41u8]) == seq![0x54u8, 0x50u8, 0x4fu8, 0x53u8],
        legacy_to_modern_spec(seq![0x54u8, 0x50u8, 0x42u8]) == seq![0x54u8, 0x50u8, 0x55u8, 0x42u8],
        legacy_to_modern_spec(seq![0x54u8, 0x52u8, 0x43u8]) == seq![0x54u8, 0x53u8, 0x52u8, 0x43u8],
        legacy_to_modern_spec(seq![0x54u8, 0x52u8, 0x44u8]) == seq![0x54u8, 0x52u8, 0x44u8, 0x41u8],
        legacy_to_modern_spec(seq![0x54u8, 0x52u8, 0x4bu8]) == seq![0x54u8, 0x52u8, 0x43u8, 0x4bu8],
        legacy_to_modern_spec(seq![0x54u8, 0x53u8, 0x32u8]) == seq![0x54u8, 0x53u8, 0x4fu8, 0x32u8],
        legacy_to_modern_spec(seq![0x54u8, 0x53u8, 0x41u8]) == seq![0x54u8, 0x53u8, 0x4fu8, 0x41u8],
        legacy_to_modern_spec(seq![0x54u8, 0x53u8, 0x43u8]) == seq![0x54u8, 0x53u8, 0x4fu8, 0x43u8],
        legacy_to_modern_spec(seq![0x54u8, 0x53u8, 0x49u8]) == seq![0x54u8, 0x53u8, 0x49u8, 0x5au8],
        legacy_to_modern_spec(seq![0x54u8, 0x53u8, 0x50u8]) == seq![0x54u8, 0x53u8, 0x4fu8, 0x50u8],
        legacy_to_modern_spec(seq![0x54u8, 0x53u8, 0x53u8]) == seq![0x54u8, 0x53u8, 0x53u8, 0x45u8],
        legacy_to_modern_spec(seq![0x54u8, 0x53u8, 0x54u8]) == seq![0x54u8, 0x53u8, 0x4fu8, 0x54u8],
        legacy_to_modern_spec(seq![0x54u8, 0x54u8, 0x31u8]) == seq![0x54u8, 0x49u8, 0x54u8, 0x31u8],
        legacy_to_modern_spec(seq![0x54u8, 0x54u8, 0x32u8]) == seq![0x54u8, 0x49u8, 0x54u8, 0x32u8],
        legacy_to_modern_spec(seq![0x54u8, 0x54u8, 0x33u8]) == seq![0x54u8, 0x49u8, 0x54u8, 0x33u8],
        legacy_to_modern_spec(seq![0x54u8, 0x58u8, 0x54u8]) == seq![0x54u8, 0x45u8, 0x58u8, 0x54u8],
        legacy_to_modern_spec(seq![0x54u8, 0x58u8, 0x58u8]) == seq![0x54u8, 0x58u8, 0x58u8, 0x58u8],
        legacy_to_modern_spec(seq![0x54u8, 0x59u8, 0x45u8]) == seq![0x54u8, 0x59u8, 0x45u8, 0x52u8],
        legacy_to_modern_spec(seq![0x55u8, 0x46u8, 0x49u8]) == seq![0x55u8, 0x46u8, 0x49u8, 0x44u8],
        legacy_to_modern_spec(seq![0x55u8, 0x4cu8, 0x54u8]) == seq![0x55u8, 0x53u8, 0x4cu8, 0x54u8],
        legacy_to_modern_spec(seq![0x57u8, 0x41u8, 0x46u8]) == seq![0x57u8, 0x4fu8, 0x41u8, 0x46u8],
        legacy_to_modern_spec(seq![0x57u8, 0x41u8, 0x52u8]) == seq![0x57u8, 0x4fu8, 0x41u8, 0x52u8],
        legacy_to_modern_spec(seq![0x57u8, 0x41u8, 0x53u8]) == seq![0x57u8, 0x4fu8, 0x41u8, 0x53u8],
        legacy_to_modern_spec(seq![0x57u8, 0x43u8, 0x4du8]) == seq![0x57u8, 0x43u8, 0x4fu8, 0x4du8],
        legacy_to_modern_spec(seq![0x57u8, 0x43u8, 0x50u8]) == seq![0x57u8, 0x43u8, 0x4fu8, 0x50u8],
        legacy_to_modern_spec(seq![0x57u8, 0x50u8, 0x42u8]) == seq![0x57u8, 0x50u8, 0x55u8, 0x42u8],
        legacy_to_modern_spec(seq![0x57u8, 0x58u8, 0x58u8]) == seq![0x57u8, 0x58u8, 0x58u8, 0x58u8],
{
}

/// Every ID3v2.2 identifier with an equivalent maps to a valid ID3v2.3+ identifier, save `CRM`,
/// which maps to the pseudo-identifier `CRM_`.
#[verifier::rlimit(100)]
pub proof fn law_legacy_targets_valid(key: u32)
    requires
        legacy_frame_table().dom().contains(key),
    ensures
        valid_frame_id(unpack4(legacy_frame_table()[key])) || unpack4(legacy_frame_table()[key])
            == seq![0x43u8, 0x52u8, 0x4du8, 0x5fu8],
{
    let v = legacy_frame_table()[key];
    let t = unpack4(v);
    if t != seq![0x43u8, 0x52u8, 0x4du8, 0x5fu8] {
        assert forall|i: int| 0 <= i < 4 implies #[trigger] is_id_char(t[i]) by {
        }
    }
}

} // verus!
