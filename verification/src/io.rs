//! Byte-level I/O: the I/O error type, an in-memory byte reader with endian-aware integer
//! reads, and the buffered-seek and finite-stream traits.

use embedded_io::ErrorKind;
use vstd::prelude::*;

verus! {

// ---------------------------------------------------------------------------------------------
// I/O errors
// ---------------------------------------------------------------------------------------------

#[verifier::external_type_specification]
#[verifier::external_body]
pub struct ExErrorKind(ErrorKind);

/// Gives `embedded_io::ErrorKind::Other`. The variant is opaque to Verus, so no clause states
/// which variant it is.
#[verifier::external_body]
fn error_kind_other() -> ErrorKind {
    ErrorKind::Other
}

/// An I/O error: a kind, a message, and whether it signals the end of the stream.
#[derive(Debug)]
pub struct Error {
    kind: ErrorKind,
    message: &'static str,
    eof: bool,
}

impl Error {
    /// The kind of the error.
    pub closed spec fn spec_kind(&self) -> ErrorKind {
        self.kind
    }

    /// The message of the error.
    pub closed spec fn spec_message(&self) -> &'static str {
        self.message
    }

    /// Whether the error signals the end of the stream.
    pub closed spec fn spec_is_eof(&self) -> bool {
        self.eof
    }

    /// Creates an error of the given kind and message that does not signal the end of stream.
    pub fn new(kind: ErrorKind, msg: &'static str) -> (r: Self)
        ensures
            r.spec_kind() == kind,
            r.spec_message() == msg,
            !r.spec_is_eof(),
    {
        Error { kind, message: msg, eof: false }
    }

    /// Creates an error of kind `Other` that does not signal the end of stream.
    pub fn other(msg: &'static str) -> (r: Self)
        ensures
            r.spec_message() == msg,
            !r.spec_is_eof(),
    {
        Error { kind: error_kind_other(), message: msg, eof: false }
    }

    /// Creates an error of kind `Other` that signals the end of stream.
    pub fn eof(msg: &'static str) -> (r: Self)
        ensures
            r.spec_message() == msg,
            r.spec_is_eof(),
    {
        Error { kind: error_kind_other(), message: msg, eof: true }
    }

    /// Gets the kind of the error.
    pub fn kind(&self) -> (r: ErrorKind)
        ensures
            r == self.spec_kind(),
    {
        self.kind
    }

    /// Gets the message of the error.
    pub fn message(&self) -> (r: &'static str)
        ensures
            r == self.spec_message(),
    {
        self.message
    }

    /// Gets whether the error signals the end of stream.
    pub fn is_eof(&self) -> (r: bool)
        ensures
            r == self.spec_is_eof(),
    {
        self.eof
    }
}

impl From<ErrorKind> for Error {
    /// Creates an error of the given kind, with the message "no message", that does not signal
    /// the end of stream.
    fn from(value: ErrorKind) -> (r: Self)
        ensures
            r.spec_kind() == value,
            r.spec_message() == "no message",
            !r.spec_is_eof(),
    {
        Error { kind: value, message: "no message", eof: false }
    }
}

impl vstd::std_specs::convert::FromSpecImpl<ErrorKind> for Error {
    open spec fn obeys_from_spec() -> bool {
        true
    }

    closed spec fn from_spec(v: ErrorKind) -> Error {
        Error { kind: v, message: "no message", eof: false }
    }
}


// ---------------------------------------------------------------------------------------------
// Reading a buffer in full
// ---------------------------------------------------------------------------------------------

/// What reading a buffer in full does after one read from the source.
#[derive(Debug, Clone, Copy, PartialEq, Eq, Structural)]
pub enum ReadExactStep {
    /// Read again into the buffer from this many filled bytes on.
    Continue(usize),
    /// The buffer is full.
    Finished,
    /// The source ended before the buffer was full.
    UnexpectedEof,
}

/// Decides the next step of reading a buffer of `len` bytes in full, of which `filled` bytes
/// were filled before a read from the source returned `n` more: a read of nothing means the
/// source has ended, otherwise the buffer is full or the reading goes on after the new bytes.
pub fn read_exact_next(filled: usize, len: usize, n: usize) -> (r: ReadExactStep)
    requires
        filled < len,
        n <= len - filled,
    ensures
        r == if n == 0 {
            ReadExactStep::UnexpectedEof
        } else if filled + n == len {
            ReadExactStep::Finished
        } else {
            ReadExactStep::Continue((filled + n) as usize)
        },
{
    if n == 0 {
        ReadExactStep::UnexpectedEof
    } else if n == len - filled {
        ReadExactStep::Finished
    } else {
        ReadExactStep::Continue(filled + n)
    }
}

/// Reads from a byte slice into `buf`: copies as many bytes as both hold from the front of
/// `src` and returns their number. The rest of `buf` is left as it was.
pub fn read_from_slice(src: &[u8], buf: &mut [u8]) -> (n: usize)
    ensures
        n == if src@.len() < old(buf)@.len() { src@.len() } else { old(buf)@.len() },
        final(buf)@ == src@.subrange(0, n as int) + old(buf)@.subrange(n as int, old(buf)@.len() as int),
{
    let amt = if src.len() < buf.len() { src.len() } else { buf.len() };
    let mut i: usize = 0;
    while i < amt
        invariant
            i <= amt,
            amt <= src@.len(),
            amt <= buf@.len(),
            buf@.len() == old(buf)@.len(),
            forall|k: int| 0 <= k < i ==> #[trigger] buf@[k] == src@[k],
            forall|k: int| i <= k < buf@.len() ==> #[trigger] buf@[k] == old(buf)@[k],
        decreases amt - i,
    {
        buf[i] = src[i];
        i = i + 1;
    }
    assert(buf@ =~= src@.subrange(0, amt as int) + old(buf)@.subrange(amt as int, old(buf)@.len() as int));
    amt
}

/// Reads exactly enough bytes from the front of a byte slice to fill `buf`: if `src` holds at
/// least as many bytes as `buf`, copies them and returns `true`; otherwise returns `false` and
/// leaves `buf` as it was.
pub fn read_exact_from_slice(src: &[u8], buf: &mut [u8]) -> (r: bool)
    ensures
        r == (src@.len() >= old(buf)@.len()),
        r ==> final(buf)@ == src@.subrange(0, old(buf)@.len() as int),
        !r ==> final(buf)@ == old(buf)@,
{
    if src.len() < buf.len() {
        return false;
    }
    read_from_slice(src, buf);
    assert(buf@ =~= src@.subrange(0, old(buf)@.len() as int));
    true
}

// ---------------------------------------------------------------------------------------------
// Integer layouts of byte sequences
// ---------------------------------------------------------------------------------------------

/// The unsigned integer stored little-endian in the `n` bytes of `s` starting at `i`.
pub open spec fn uint_le(s: Seq<u8>, i: int, n: nat) -> int
    decreases n,
{
    if n == 0 {
        0
    } else {
        s[i] + 256 * uint_le(s, i + 1, (n - 1) as nat)
    }
}

/// The unsigned integer stored big-endian in the `n` bytes of `s` starting at `i`.
pub open spec fn uint_be(s: Seq<u8>, i: int, n: nat) -> int
    decreases n,
{
    if n == 0 {
        0
    } else {
        uint_be(s, i, (n - 1) as nat) * 256 + s[i + n - 1]
    }
}

/// The two's complement reading of the `bits`-bit unsigned value `u`.
pub open spec fn signed(u: int, bits: nat) -> int {
    if u >= pow2((bits - 1) as nat) {
        u - pow2(bits)
    } else {
        u
    }
}

/// `2^n`.
pub open spec fn pow2(n: nat) -> int
    decreases n,
{
    if n == 0 {
        1
    } else {
        2 * pow2((n - 1) as nat)
    }
}

/// Unfolds the byte layouts of widths up to eight.
pub proof fn lemma_layouts(s: Seq<u8>, i: int)
    ensures
        uint_le(s, i, 1) == s[i],
        uint_le(s, i, 2) == s[i] + 256 * s[i + 1],
        uint_le(s, i, 3) == s[i] + 256 * s[i + 1] + 65536 * s[i + 2],
        uint_le(s, i, 4) == s[i] + 256 * s[i + 1] + 65536 * s[i + 2] + 16777216 * s[i + 3],
        uint_be(s, i, 1) == s[i],
        uint_be(s, i, 2) == 256 * s[i] + s[i + 1],
        uint_be(s, i, 3) == 65536 * s[i] + 256 * s[i + 1] + s[i + 2],
        uint_be(s, i, 4) == 16777216 * s[i] + 65536 * s[i + 1] + 256 * s[i + 2] + s[i + 3],
{
    reveal_with_fuel(uint_le, 5);
    reveal_with_fuel(uint_be, 5);
}

/// The powers of two that the integer widths use.
pub proof fn lemma_pow2_values()
    ensures
        pow2(7) == 128,
        pow2(8) == 256,
        pow2(15) == 32768,
        pow2(16) == 65536,
        pow2(23) == 8388608,
        pow2(24) == 16777216,
        pow2(31) == 2147483648,
        pow2(32) == 4294967296,
        pow2(63) == 0x8000_0000_0000_0000,
        pow2(64) == 0x1_0000_0000_0000_0000,
{
    reveal_with_fuel(pow2, 65);
}

/// Unfolds the eight-byte layouts.
pub proof fn lemma_layouts8(s: Seq<u8>, i: int)
    ensures
        uint_le(s, i, 8) == uint_le(s, i, 4) + 4294967296 * uint_le(s, i + 4, 4),
        uint_be(s, i, 8) == 4294967296 * uint_be(s, i, 4) + uint_be(s, i + 4, 4),
{
    reveal_with_fuel(uint_le, 9);
    reveal_with_fuel(uint_be, 9);
    lemma_layouts(s, i);
    lemma_layouts(s, i + 4);
    assert(uint_be(s, i, 8) == 4294967296 * uint_be(s, i, 4) + uint_be(s, i + 4, 4)) by {
        reveal_with_fuel(uint_be, 9);
    }
}

// ---------------------------------------------------------------------------------------------
// In-memory byte reader
// ---------------------------------------------------------------------------------------------

/// Reads bytes, and integers of standard widths, from a byte buffer.
#[derive(Clone, Copy)]
pub struct BufReader<'a> {
    buf: &'a [u8],
    pos: usize,
}

impl<'a> BufReader<'a> {
    /// All bytes of the buffer.
    pub closed spec fn data(&self) -> Seq<u8> {
        self.buf@
    }

    /// The read position: the number of bytes consumed so far.
    pub closed spec fn position(&self) -> int {
        self.pos as int
    }

    /// The reader's invariant: the position lies within the buffer.
    pub open spec fn inv(&self) -> bool {
        self.position() <= self.data().len()
    }

    /// The number of bytes not yet read.
    pub open spec fn remaining(&self) -> int {
        self.data().len() - self.position()
    }

    /// Instantiates a reader over the given bytes, positioned at the first byte.
    pub fn new(buf: &'a [u8]) -> (r: Self)
        ensures
            r.inv(),
            r.data() == buf@,
            r.position() == 0,
    {
        BufReader { buf, pos: 0 }
    }

    /// Gets the number of bytes not yet read.
    pub fn bytes_remaining(&self) -> (r: usize)
        requires
            self.inv(),
        ensures
            r == self.remaining(),
    {
        self.buf.len() - self.pos
    }

    /// Gets the read position of the stream.
    pub fn pos(&self) -> (r: u64)
        requires
            self.inv(),
        ensures
            r == self.position(),
    {
        self.pos as u64
    }

    /// `fin` is this reader after an attempt to consume `n` bytes: the data is unchanged and
    /// the position advanced by `n` if that many bytes remained, and is unchanged otherwise.
    pub open spec fn consumed(self, fin: Self, n: int) -> bool {
        &&& fin.inv()
        &&& fin.data() == self.data()
        &&& if self.remaining() >= n {
            fin.position() == self.position() + n
        } else {
            fin.position() == self.position()
        }
    }

    /// The `n` bytes at the read position.
    pub open spec fn next_bytes(self, n: int) -> Seq<u8> {
        self.data().subrange(self.position(), self.position() + n)
    }

    /// The position a seek by `delta` within the buffered data reaches: `delta` clamped to
    /// `-position()..=remaining()`.
    pub open spec fn seek_rel_target(self, delta: int) -> int {
        if delta < -self.position() {
            0
        } else if delta > self.remaining() {
            self.data().len() as int
        } else {
            self.position() + delta
        }
    }

    /// The position a seek backwards by `delta` within the buffered data reaches.
    pub open spec fn seek_rev_target(self, delta: int) -> int {
        if delta > self.position() {
            0
        } else {
            self.position() - delta
        }
    }

    /// Consumes `n` bytes if that many remain, and returns the position they start at.
    fn take(&mut self, n: usize) -> (r: Result<usize, crate::errors::Error>)
        requires
            old(self).inv(),
        ensures
            old(self).consumed(*final(self), n as int),
            r is Ok <==> old(self).remaining() >= n,
            r matches Ok(start) ==> start == old(self).position(),
            r matches Err(e) ==> is_eof_error(e),
    {
        if n <= self.buf.len() - self.pos {
            let start = self.pos;
            self.pos = self.pos + n;
            Ok(start)
        } else {
            Err(underrun())
        }
    }

    /// Reads a single byte.
    pub fn read_byte(&mut self) -> (r: Result<u8, crate::errors::Error>)
        requires
            old(self).inv(),
        ensures
            old(self).consumed(*final(self), 1),
            r is Ok <==> old(self).remaining() >= 1,
            r matches Ok(v) ==> v == old(self).data()[old(self).position()],
            r matches Err(e) ==> is_eof_error(e),
    {
        let start = self.take(1)?;
        Ok(self.buf[start])
    }

    /// Reads two bytes and returns them in read-order.
    pub fn read_double_bytes(&mut self) -> (r: Result<[u8; 2], crate::errors::Error>)
        requires
            old(self).inv(),
        ensures
            old(self).consumed(*final(self), 2),
            r is Ok <==> old(self).remaining() >= 2,
            r matches Ok(v) ==> v@ == old(self).next_bytes(2),
            r matches Err(e) ==> is_eof_error(e),
    {
        let start = self.take(2)?;
        let v = [self.buf[start], self.buf[start + 1]];
        assert(v@ =~= old(self).next_bytes(2));
        Ok(v)
    }

    /// Reads three bytes and returns them in read-order.
    pub fn read_triple_bytes(&mut self) -> (r: Result<[u8; 3], crate::errors::Error>)
        requires
            old(self).inv(),
        ensures
            old(self).consumed(*final(self), 3),
            r is Ok <==> old(self).remaining() >= 3,
            r matches Ok(v) ==> v@ == old(self).next_bytes(3),
            r matches Err(e) ==> is_eof_error(e),
    {
        let start = self.take(3)?;
        let v = [self.buf[start], self.buf[start + 1], self.buf[start + 2]];
        assert(v@ =~= old(self).next_bytes(3));
        Ok(v)
    }

    /// Reads four bytes and returns them in read-order.
    pub fn read_quad_bytes(&mut self) -> (r: Result<[u8; 4], crate::errors::Error>)
        requires
            old(self).inv(),
        ensures
            old(self).consumed(*final(self), 4),
            r is Ok <==> old(self).remaining() >= 4,
            r matches Ok(v) ==> v@ == old(self).next_bytes(4),
            r matches Err(e) ==> is_eof_error(e),
    {
        let start = self.take(4)?;
        let v = [self.buf[start], self.buf[start + 1], self.buf[start + 2], self.buf[start + 3]];
        assert(v@ =~= old(self).next_bytes(4));
        Ok(v)
    }

    /// Reads a single unsigned byte.
    pub fn read_u8(&mut self) -> (r: Result<u8, crate::errors::Error>)
        requires
            old(self).inv(),
        ensures
            old(self).consumed(*final(self), 1),
            r is Ok <==> old(self).remaining() >= 1,
            r matches Ok(v) ==> v == old(self).data()[old(self).position()],
            r matches Err(e) ==> is_eof_error(e),
    {
        let start = self.take(1)?;
        Ok(self.buf[start])
    }

    /// Reads a single byte as a signed 8-bit integer.
    pub fn read_i8(&mut self) -> (r: Result<i8, crate::errors::Error>)
        requires
            old(self).inv(),
        ensures
            old(self).consumed(*final(self), 1),
            r is Ok <==> old(self).remaining() >= 1,
            r matches Ok(v) ==> v == signed(old(self).data()[old(self).position()] as int, 8),
            r matches Err(e) ==> is_eof_error(e),
    {
        let start = self.take(1)?;
        Ok(to_i8(self.buf[start]))
    }

    /// Reads 2 bytes as an unsigned 16-bit little-endian integer.
    pub fn read_u16(&mut self) -> (r: Result<u16, crate::errors::Error>)
        requires
            old(self).inv(),
        ensures
            old(self).consumed(*final(self), 2),
            r is Ok <==> old(self).remaining() >= 2,
            r matches Ok(v) ==> v == uint_le(old(self).data(), old(self).position(), 2),
            r matches Err(e) ==> is_eof_error(e),
    {
        let start = self.take(2)?;
        proof {
            lemma_layouts(self.buf@, start as int);
        }
        Ok(self.buf[start] as u16 + self.buf[start + 1] as u16 * 256)
    }

    /// Reads 2 bytes as a signed 16-bit little-endian integer.
    pub fn read_i16(&mut self) -> (r: Result<i16, crate::errors::Error>)
        requires
            old(self).inv(),
        ensures
            old(self).consumed(*final(self), 2),
            r is Ok <==> old(self).remaining() >= 2,
            r matches Ok(v) ==> v == signed(uint_le(old(self).data(), old(self).position(), 2), 16),
            r matches Err(e) ==> is_eof_error(e),
    {
        let start = self.take(2)?;
        proof {
            lemma_layouts(self.buf@, start as int);
        }
        let u: u16 = self.buf[start] as u16 + self.buf[start + 1] as u16 * 256;
        Ok(to_i16(u))
    }

    /// Reads 2 bytes as an unsigned 16-bit big-endian integer.
    pub fn read_be_u16(&mut self) -> (r: Result<u16, crate::errors::Error>)
        requires
            old(self).inv(),
        ensures
            old(self).consumed(*final(self), 2),
            r is Ok <==> old(self).remaining() >= 2,
            r matches Ok(v) ==> v == uint_be(old(self).data(), old(self).position(), 2),
            r matches Err(e) ==> is_eof_error(e),
    {
        let start = self.take(2)?;
        proof {
            lemma_layouts(self.buf@, start as int);
        }
        Ok(self.buf[start] as u16 * 256 + self.buf[start + 1] as u16)
    }

    /// Reads 2 bytes as a signed 16-bit big-endian integer.
    pub fn read_be_i16(&mut self) -> (r: Result<i16, crate::errors::Error>)
        requires
            old(self).inv(),
        ensures
            old(self).consumed(*final(self), 2),
            r is Ok <==> old(self).remaining() >= 2,
            r matches Ok(v) ==> v == signed(uint_be(old(self).data(), old(self).position(), 2), 16),
            r matches Err(e) ==> is_eof_error(e),
    {
        let start = self.take(2)?;
        proof {
            lemma_layouts(self.buf@, start as int);
        }
        let u: u16 = self.buf[start] as u16 * 256 + self.buf[start + 1] as u16;
        Ok(to_i16(u))
    }

    /// Reads 3 bytes as an unsigned 24-bit little-endian integer.
    pub fn read_u24(&mut self) -> (r: Result<u32, crate::errors::Error>)
        requires
            old(self).inv(),
        ensures
            old(self).consumed(*final(self), 3),
            r is Ok <==> old(self).remaining() >= 3,
            r matches Ok(v) ==> v == uint_le(old(self).data(), old(self).position(), 3),
            r matches Err(e) ==> is_eof_error(e),
    {
        let start = self.take(3)?;
        proof {
            lemma_layouts(self.buf@, start as int);
        }
        Ok(self.buf[start] as u32 + self.buf[start + 1] as u32 * 256 + self.buf[start + 2] as u32 * 65536)
    }

    /// Reads 3 bytes as a signed 24-bit little-endian integer.
    pub fn read_i24(&mut self) -> (r: Result<i32, crate::errors::Error>)
        requires
            old(self).inv(),
        ensures
            old(self).consumed(*final(self), 3),
            r is Ok <==> old(self).remaining() >= 3,
            r matches Ok(v) ==> v == signed(uint_le(old(self).data(), old(self).position(), 3), 24),
            r matches Err(e) ==> is_eof_error(e),
    {
        let start = self.take(3)?;
        proof {
            lemma_layouts(self.buf@, start as int);
        }
        let u: u32 = self.buf[start] as u32 + self.buf[start + 1] as u32 * 256 + self.buf[start + 2] as u32 * 65536;
        Ok(to_i24(u))
    }

    /// Reads 3 bytes as an unsigned 24-bit big-endian integer.
    pub fn read_be_u24(&mut self) -> (r: Result<u32, crate::errors::Error>)
        requires
            old(self).inv(),
        ensures
            old(self).consumed(*final(self), 3),
            r is Ok <==> old(self).remaining() >= 3,
            r matches Ok(v) ==> v == uint_be(old(self).data(), old(self).position(), 3),
            r matches Err(e) ==> is_eof_error(e),
    {
        let start = self.take(3)?;
        proof {
            lemma_layouts(self.buf@, start as int);
        }
        Ok(self.buf[start] as u32 * 65536 + self.buf[start + 1] as u32 * 256 + self.buf[start + 2] as u32)
    }

    /// Reads 3 bytes as a signed 24-bit big-endian integer.
    pub fn read_be_i24(&mut self) -> (r: Result<i32, crate::errors::Error>)
        requires
            old(self).inv(),
        ensures
            old(self).consumed(*final(self), 3),
            r is Ok <==> old(self).remaining() >= 3,
            r matches Ok(v) ==> v == signed(uint_be(old(self).data(), old(self).position(), 3), 24),
            r matches Err(e) ==> is_eof_error(e),
    {
        let start = self.take(3)?;
        proof {
            lemma_layouts(self.buf@, start as int);
        }
        let u: u32 = self.buf[start] as u32 * 65536 + self.buf[start + 1] as u32 * 256 + self.buf[start + 2] as u32;
        Ok(to_i24(u))
    }

    /// Reads 4 bytes as an unsigned 32-bit little-endian integer.
    pub fn read_u32(&mut self) -> (r: Result<u32, crate::errors::Error>)
        requires
            old(self).inv(),
        ensures
            old(self).consumed(*final(self), 4),
            r is Ok <==> old(self).remaining() >= 4,
            r matches Ok(v) ==> v == uint_le(old(self).data(), old(self).position(), 4),
            r matches Err(e) ==> is_eof_error(e),
    {
        let start = self.take(4)?;
        proof {
            lemma_layouts(self.buf@, start as int);
        }
        Ok(self.buf[start] as u32 + self.buf[start + 1] as u32 * 256 + self.buf[start + 2] as u32 * 65536 + self.buf[start + 3] as u32 * 16777216)
    }

    /// Reads 4 bytes as a signed 32-bit little-endian integer.
    pub fn read_i32(&mut self) -> (r: Result<i32, crate::errors::Error>)
        requires
            old(self).inv(),
        ensures
            old(self).consumed(*final(self), 4),
            r is Ok <==> old(self).remaining() >= 4,
            r matches Ok(v) ==> v == signed(uint_le(old(self).data(), old(self).position(), 4), 32),
            r matches Err(e) ==> is_eof_error(e),
    {
        let start = self.take(4)?;
        proof {
            lemma_layouts(self.buf@, start as int);
        }
        let u: u32 = self.buf[start] as u32 + self.buf[start + 1] as u32 * 256 + self.buf[start + 2] as u32 * 65536 + self.buf[start + 3] as u32 * 16777216;
        Ok(to_i32(u))
    }

    /// Reads 4 bytes as an unsigned 32-bit big-endian integer.
    pub fn read_be_u32(&mut self) -> (r: Result<u32, crate::errors::Error>)
        requires
            old(self).inv(),
        ensures
            old(self).consumed(*final(self), 4),
            r is Ok <==> old(self).remaining() >= 4,
            r matches Ok(v) ==> v == uint_be(old(self).data(), old(self).position(), 4),
            r matches Err(e) ==> is_eof_error(e),
    {
        let start = self.take(4)?;
        proof {
            lemma_layouts(self.buf@, start as int);
        }
        Ok(self.buf[start] as u32 * 16777216 + self.buf[start + 1] as u32 * 65536 + self.buf[start + 2] as u32 * 256 + self.buf[start + 3] as u32)
    }

    /// Reads 4 bytes as a signed 32-bit big-endian integer.
    pub fn read_be_i32(&mut self) -> (r: Result<i32, crate::errors::Error>)
        requires
            old(self).inv(),
        ensures
            old(self).consumed(*final(self), 4),
            r is Ok <==> old(self).remaining() >= 4,
            r matches Ok(v) ==> v == signed(uint_be(old(self).data(), old(self).position(), 4), 32),
            r matches Err(e) ==> is_eof_error(e),
    {
        let start = self.take(4)?;
        proof {
            lemma_layouts(self.buf@, start as int);
        }
        let u: u32 = self.buf[start] as u32 * 16777216 + self.buf[start + 1] as u32 * 65536 + self.buf[start + 2] as u32 * 256 + self.buf[start + 3] as u32;
        Ok(to_i32(u))
    }

    /// Reads 8 bytes as an unsigned 64-bit little-endian integer.
    pub fn read_u64(&mut self) -> (r: Result<u64, crate::errors::Error>)
        requires
            old(self).inv(),
        ensures
            old(self).consumed(*final(self), 8),
            r is Ok <==> old(self).remaining() >= 8,
            r matches Ok(v) ==> v == uint_le(old(self).data(), old(self).position(), 8),
            r matches Err(e) ==> is_eof_error(e),
    {
        let start = self.take(8)?;
        proof {
            lemma_layouts(self.buf@, start as int);
            lemma_layouts(self.buf@, start + 4);
            lemma_layouts8(self.buf@, start as int);
        }
        Ok((self.buf[start + 0] as u64 + self.buf[start + 1] as u64 * 256 + self.buf[start + 2] as u64 * 65536 + self.buf[start + 3] as u64 * 16777216) + (self.buf[start + 4] as u64 + self.buf[start + 5] as u64 * 256 + self.buf[start + 6] as u64 * 65536 + self.buf[start + 7] as u64 * 16777216) * 4294967296)
    }

    /// Reads 8 bytes as a signed 64-bit little-endian integer.
    pub fn read_i64(&mut self) -> (r: Result<i64, crate::errors::Error>)
        requires
            old(self).inv(),
        ensures
            old(self).consumed(*final(self), 8),
            r is Ok <==> old(self).remaining() >= 8,
            r matches Ok(v) ==> v == signed(uint_le(old(self).data(), old(self).position(), 8), 64),
            r matches Err(e) ==> is_eof_error(e),
    {
        let start = self.take(8)?;
        proof {
            lemma_layouts(self.buf@, start as int);
            lemma_layouts(self.buf@, start + 4);
            lemma_layouts8(self.buf@, start as int);
        }
        let u: u64 = (self.buf[start + 0] as u64 + self.buf[start + 1] as u64 * 256 + self.buf[start + 2] as u64 * 65536 + self.buf[start + 3] as u64 * 16777216) + (self.buf[start + 4] as u64 + self.buf[start + 5] as u64 * 256 + self.buf[start + 6] as u64 * 65536 + self.buf[start + 7] as u64 * 16777216) * 4294967296;
        Ok(to_i64(u))
    }

    /// Reads 8 bytes as an unsigned 64-bit big-endian integer.
    pub fn read_be_u64(&mut self) -> (r: Result<u64, crate::errors::Error>)
        requires
            old(self).inv(),
        ensures
            old(self).consumed(*final(self), 8),
            r is Ok <==> old(self).remaining() >= 8,
            r matches Ok(v) ==> v == uint_be(old(self).data(), old(self).position(), 8),
            r matches Err(e) ==> is_eof_error(e),
    {
        let start = self.take(8)?;
        proof {
            lemma_layouts(self.buf@, start as int);
            lemma_layouts(self.buf@, start + 4);
            lemma_layouts8(self.buf@, start as int);
        }
        Ok((self.buf[start + 0] as u64 * 16777216 + self.buf[start + 1] as u64 * 65536 + self.buf[start + 2] as u64 * 256 + self.buf[start + 3] as u64) * 4294967296 + (self.buf[start + 4] as u64 * 16777216 + self.buf[start + 5] as u64 * 65536 + self.buf[start + 6] as u64 * 256 + self.buf[start + 7] as u64))
    }

    /// Reads 8 bytes as a signed 64-bit big-endian integer.
    pub fn read_be_i64(&mut self) -> (r: Result<i64, crate::errors::Error>)
        requires
            old(self).inv(),
        ensures
            old(self).consumed(*final(self), 8),
            r is Ok <==> old(self).remaining() >= 8,
            r matches Ok(v) ==> v == signed(uint_be(old(self).data(), old(self).position(), 8), 64),
            r matches Err(e) ==> is_eof_error(e),
    {
        let start = self.take(8)?;
        proof {
            lemma_layouts(self.buf@, start as int);
            lemma_layouts(self.buf@, start + 4);
            lemma_layouts8(self.buf@, start as int);
        }
        let u: u64 = (self.buf[start + 0] as u64 * 16777216 + self.buf[start + 1] as u64 * 65536 + self.buf[start + 2] as u64 * 256 + self.buf[start + 3] as u64) * 4294967296 + (self.buf[start + 4] as u64 * 16777216 + self.buf[start + 5] as u64 * 65536 + self.buf[start + 6] as u64 * 256 + self.buf[start + 7] as u64);
        Ok(to_i64(u))
    }

    /// Copies `n` bytes of the buffer starting at `start` into a new vector.
    fn copy_out(&self, start: usize, n: usize) -> (r: Vec<u8>)
        requires
            start + n <= self.data().len(),
        ensures
            r@ == self.data().subrange(start as int, start + n),
    {
        let mut v: Vec<u8> = Vec::with_capacity(n);
        let mut i: usize = 0;
        let len = self.buf.len();
        while i < n
            invariant
                i <= n,
                len == self.buf@.len(),
                start + n <= len,
                v@ == self.buf@.subrange(start as int, start + i),
            decreases n - i,
        {
            v.push(self.buf[start + i]);
            i = i + 1;
            assert(v@ =~= self.buf@.subrange(start as int, start + i));
        }
        v
    }

    /// Reads exactly `len` bytes, and returns them, or returns an error if fewer remain.
    pub fn read_boxed_slice_exact(&mut self, len: usize) -> (r: Result<Vec<u8>, crate::errors::Error>)
        requires
            old(self).inv(),
        ensures
            old(self).consumed(*final(self), len as int),
            r is Ok <==> old(self).remaining() >= len,
            r matches Ok(v) ==> v@ == old(self).next_bytes(len as int),
            r matches Err(e) ==> is_eof_error(e),
    {
        let start = self.take(len)?;
        Ok(self.copy_out(start, len))
    }

    /// Reads up-to `len` bytes, and returns the bytes read.
    pub fn read_boxed_slice(&mut self, len: usize) -> (r: Vec<u8>)
        requires
            old(self).inv(),
        ensures
            final(self).inv(),
            final(self).data() == old(self).data(),
            r@.len() == if old(self).remaining() < len { old(self).remaining() } else { len as int },
            r@ == old(self).next_bytes(r@.len() as int),
            final(self).position() == old(self).position() + r@.len(),
    {
        let avail = self.buf.len() - self.pos;
        let n = if len < avail { len } else { avail };
        let start = self.pos;
        self.pos = self.pos + n;
        self.copy_out(start, n)
    }

    /// Reads exactly enough bytes to fill `buf`, or returns an error, consuming nothing, if
    /// fewer remain.
    pub fn read_buf_exact(&mut self, buf: &mut [u8]) -> (r: Result<(), crate::errors::Error>)
        requires
            old(self).inv(),
        ensures
            old(self).consumed(*final(self), old(buf)@.len() as int),
            r is Ok <==> old(self).remaining() >= old(buf)@.len(),
            r is Ok ==> final(buf)@ == old(self).next_bytes(old(buf)@.len() as int),
            r is Err ==> final(buf)@ == old(buf)@,
            r matches Err(e) ==> is_eof_error(e),
    {
        let n = buf.len();
        let start = self.take(n)?;
        let mut i: usize = 0;
        let len = self.buf.len();
        while i < n
            invariant
                i <= n,
                n == buf@.len(),
                len == self.buf@.len(),
                start + n <= len,
                forall|k: int| 0 <= k < i ==> buf@[k] == self.buf@[start + k],
            decreases n - i,
        {
            buf[i] = self.buf[start + i];
            i = i + 1;
        }
        assert(buf@ =~= old(self).next_bytes(n as int));
        Ok(())
    }

    /// Ignores `count` bytes, or returns an error, consuming nothing, if fewer remain.
    pub fn ignore_bytes(&mut self, count: u64) -> (r: Result<(), crate::errors::Error>)
        requires
            old(self).inv(),
        ensures
            old(self).consumed(*final(self), count as int),
            r is Ok <==> old(self).remaining() >= count,
            r matches Err(e) ==> is_eof_error(e),
    {
        if count <= (self.buf.len() - self.pos) as u64 {
            self.pos = self.pos + count as usize;
            Ok(())
        } else {
            Err(underrun())
        }
    }
}

/// A `FiniteStream` is a stream that has a known length in bytes.
pub trait FiniteStream {
    /// Returns the length of the the stream in bytes.
    fn byte_len(&self) -> u64;

    /// Returns the number of bytes that have been read.
    fn bytes_read(&self) -> u64;

    /// Returns the number of bytes available for reading.
    fn bytes_available(&self) -> u64;
}

impl<'a> FiniteStream for BufReader<'a> {
    fn byte_len(&self) -> (r: u64)
        ensures
            r == self.data().len(),
    {
        self.buf.len() as u64
    }

    fn bytes_read(&self) -> (r: u64)
        ensures
            self.inv() ==> r == self.position(),
    {
        self.pos as u64
    }

    fn bytes_available(&self) -> (r: u64)
        ensures
            self.inv() ==> r == self.remaining(),
    {
        if self.pos <= self.buf.len() {
            (self.buf.len() - self.pos) as u64
        } else {
            0
        }
    }
}

/// `SeekBuffered` provides methods to seek within the buffered portion of a stream.
pub trait SeekBuffered {
    /// Ensures that `len` bytes will be available for backwards seeking if `len` bytes have been
    /// previously read.
    fn ensure_seekback_buffer(&mut self, len: usize);

    /// Gets the number of bytes buffered but not yet read: the most that can be seeked forwards.
    fn unread_buffer_len(&self) -> usize;

    /// Gets the number of bytes buffered and read: the most that can be seeked backwards.
    fn read_buffer_len(&self) -> usize;

    /// Seeks within the buffered data to an absolute position in the stream. Returns the position
    /// seeked to.
    fn seek_buffered(&mut self, pos: u64) -> u64;

    /// `fin` is this stream after a seek within the buffered data by `delta` bytes relative to
    /// the current position.
    spec fn seeked_by(&self, delta: int, fin: &Self) -> bool;

    /// Seeks within the buffered data relative to the current position in the stream, with
    /// `delta` clamped to `-read_buffer_len()..=unread_buffer_len()`. Returns the position
    /// seeked to.
    fn seek_buffered_rel(&mut self, delta: isize) -> (r: u64)
        ensures
            old(self).seeked_by(delta as int, final(self)),
    ;

    /// Seeks backwards within the buffered data: identical to `seek_buffered_rel` with the
    /// negated delta.
    fn seek_buffered_rev(&mut self, delta: usize)
        requires
            delta < isize::MAX,
        ensures
            old(self).seeked_by(-(delta as int), final(self)),
    {
        self.seek_buffered_rel(-(delta as isize));
    }
}

/// The two's complement reading of a byte.
fn to_i8(u: u8) -> (r: i8)
    ensures
        r == signed(u as int, 8),
{
    proof { lemma_pow2_values(); }
    if u >= 128 { (u as i16 - 256) as i8 } else { u as i8 }
}

/// The two's complement reading of a 16-bit value.
fn to_i16(u: u16) -> (r: i16)
    ensures
        r == signed(u as int, 16),
{
    proof { lemma_pow2_values(); }
    if u >= 32768 { (u as i32 - 65536) as i16 } else { u as i16 }
}

/// The two's complement reading of a 24-bit value.
fn to_i24(u: u32) -> (r: i32)
    requires
        u < 16777216,
    ensures
        r == signed(u as int, 24),
{
    proof { lemma_pow2_values(); }
    if u >= 8388608 { u as i32 - 16777216 } else { u as i32 }
}

/// The two's complement reading of a 32-bit value.
fn to_i32(u: u32) -> (r: i32)
    ensures
        r == signed(u as int, 32),
{
    proof { lemma_pow2_values(); }
    if u >= 0x8000_0000 { (u as i64 - 0x1_0000_0000) as i32 } else { u as i32 }
}

/// The two's complement reading of a 64-bit value.
fn to_i64(u: u64) -> (r: i64)
    ensures
        r == signed(u as int, 64),
{
    proof { lemma_pow2_values(); }
    if u >= 0x8000_0000_0000_0000 {
        ((u - 0x8000_0000_0000_0000) as i64) + i64::MIN
    } else {
        u as i64
    }
}

/// Whether `e` is the error of a read past the end of the data.
pub open spec fn is_eof_error(e: crate::errors::Error) -> bool {
    e matches crate::errors::Error::IoError(io) && io.spec_is_eof()
}

/// The error of a read past the end of the buffer.
fn underrun() -> (r: crate::errors::Error)
    ensures
        is_eof_error(r),
{
    crate::errors::Error::IoError(Error::eof("buffer underrun"))
}

impl<'a> SeekBuffered for BufReader<'a> {
    /// Every byte of the reader is buffered: nothing needs to be done.
    fn ensure_seekback_buffer(&mut self, len: usize)
        ensures
            *final(self) == *old(self),
    {
    }

    fn unread_buffer_len(&self) -> (r: usize)
        ensures
            self.inv() ==> r == self.remaining(),
    {
        if self.pos <= self.buf.len() {
            self.buf.len() - self.pos
        } else {
            0
        }
    }

    fn read_buffer_len(&self) -> (r: usize)
        ensures
            r == self.position(),
    {
        self.pos
    }

    fn seek_buffered(&mut self, pos: u64) -> (r: u64)
        ensures
            final(self).inv(),
            final(self).data() == old(self).data(),
            final(self).position() == if pos <= old(self).data().len() {
                pos as int
            } else {
                old(self).data().len() as int
            },
            r == final(self).position(),
    {
        let len = self.buf.len();
        self.pos = if pos <= len as u64 { pos as usize } else { len };
        self.pos as u64
    }

    /// A seek moves the position to the clamped target, leaving the data as it was.
    open spec fn seeked_by(&self, delta: int, fin: &Self) -> bool {
        self.inv() ==> {
            &&& fin.inv()
            &&& fin.data() == self.data()
            &&& fin.position() == self.seek_rel_target(delta)
        }
    }

    fn seek_buffered_rel(&mut self, delta: isize) -> (r: u64)
        ensures
            old(self).inv() ==> {
                &&& final(self).inv()
                &&& final(self).data() == old(self).data()
                &&& final(self).position() == old(self).seek_rel_target(delta as int)
                &&& r == final(self).position()
            },
    {
        let len = self.buf.len();
        if self.pos > len {
            return self.pos as u64;
        }
        if delta < 0 {
            let back = if delta == isize::MIN { isize::MAX as usize + 1 } else { (-delta) as usize };
            self.pos = if back > self.pos { 0 } else { self.pos - back };
        } else {
            let fwd = delta as usize;
            self.pos = if fwd > len - self.pos { len } else { self.pos + fwd };
        }
        self.pos as u64
    }

    fn seek_buffered_rev(&mut self, delta: usize)
        ensures
            old(self).inv() ==> {
                &&& final(self).inv()
                &&& final(self).data() == old(self).data()
                &&& final(self).position() == old(self).seek_rev_target(delta as int)
            },
    {
        self.seek_buffered_rel(-(delta as isize));
    }
}

/// Seeking backwards by `delta` reaches the position a relative seek by `-delta` reaches.
pub proof fn law_seek_rev_is_seek_rel(r: BufReader, delta: int)
    requires
        r.inv(),
        0 <= delta,
    ensures
        r.seek_rev_target(delta) == r.seek_rel_target(-delta),
{
}

/// A seek backwards by the number of bytes a read consumed undoes the read: it returns to the
/// position the read started from, with the same data.
pub proof fn law_seek_back_undoes_read(before: BufReader, after: BufReader, n: int)
    requires
        before.inv(),
        0 <= n <= before.remaining(),
        before.consumed(after, n),
    ensures
        after.seek_rev_target(n) == before.position(),
        after.data() == before.data(),
{
}

/// The length of a reader's stream is the number of bytes read plus the number available.
pub proof fn law_finite_stream_len(r: BufReader)
    requires
        r.inv(),
    ensures
        r.data().len() == r.position() + r.remaining(),
        0 <= r.remaining(),
{
}

} // verus!
