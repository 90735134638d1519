//! Codec identifiers, codec parameters, audio specifications and planar audio buffers.

use vstd::prelude::*;

verus! {

/// An audio codec identifier.
pub type AudioCodecId = u32;

/// Null audio codec.
pub const CODEC_ID_NULL_AUDIO: AudioCodecId = 0x0;
/// PCM signed 32-bit little-endian interleaved.
pub const CODEC_ID_PCM_S32LE: AudioCodecId = 0x100;
/// PCM signed 32-bit big-endian interleaved.
pub const CODEC_ID_PCM_S32BE: AudioCodecId = 0x101;
/// PCM signed 24-bit little-endian interleaved.
pub const CODEC_ID_PCM_S24LE: AudioCodecId = 0x102;
/// PCM signed 24-bit big-endian interleaved.
pub const CODEC_ID_PCM_S24BE: AudioCodecId = 0x103;
/// PCM signed 16-bit little-endian interleaved.
pub const CODEC_ID_PCM_S16LE: AudioCodecId = 0x104;
/// PCM signed 16-bit big-endian interleaved.
pub const CODEC_ID_PCM_S16BE: AudioCodecId = 0x105;
/// PCM signed 8-bit interleaved.
pub const CODEC_ID_PCM_S8: AudioCodecId = 0x106;
/// PCM unsigned 32-bit little-endian interleaved.
pub const CODEC_ID_PCM_U32LE: AudioCodecId = 0x107;
/// PCM unsigned 32-bit big-endian interleaved.
pub const CODEC_ID_PCM_U32BE: AudioCodecId = 0x108;
/// PCM unsigned 24-bit little-endian interleaved.
pub const CODEC_ID_PCM_U24LE: AudioCodecId = 0x109;
/// PCM unsigned 24-bit big-endian interleaved.
pub const CODEC_ID_PCM_U24BE: AudioCodecId = 0x10a;
/// PCM unsigned 16-bit little-endian interleaved.
pub const CODEC_ID_PCM_U16LE: AudioCodecId = 0x10b;
/// PCM unsigned 16-bit big-endian interleaved.
pub const CODEC_ID_PCM_U16BE: AudioCodecId = 0x10c;
/// PCM unsigned 8-bit interleaved.
pub const CODEC_ID_PCM_U8: AudioCodecId = 0x10d;
/// PCM 32-bit little-endian floating point interleaved.
pub const CODEC_ID_PCM_F32LE: AudioCodecId = 0x10e;
/// PCM 32-bit big-endian floating point interleaved.
pub const CODEC_ID_PCM_F32BE: AudioCodecId = 0x10f;
/// PCM 64-bit little-endian floating point interleaved.
pub const CODEC_ID_PCM_F64LE: AudioCodecId = 0x110;
/// PCM 64-bit big-endian floating point interleaved.
pub const CODEC_ID_PCM_F64BE: AudioCodecId = 0x111;
/// PCM A-law (G.711).
pub const CODEC_ID_PCM_ALAW: AudioCodecId = 0x112;
/// PCM mu-law (G.711).
pub const CODEC_ID_PCM_MULAW: AudioCodecId = 0x113;
/// ADPCM Microsoft.
pub const CODEC_ID_ADPCM_MS: AudioCodecId = 0x200;
/// ADPCM IMA WAV.
pub const CODEC_ID_ADPCM_IMA_WAV: AudioCodecId = 0x201;
/// ADPCM IMA QuickTime.
pub const CODEC_ID_ADPCM_IMA_QT: AudioCodecId = 0x202;
/// Advanced Audio Coding.
pub const CODEC_ID_AAC: AudioCodecId = 0x1001;

/// The channels of an audio stream, by their number.
#[derive(Clone, Copy, Debug)]
pub struct Channels {
    /// The number of channels.
    pub count: usize,
}

impl Channels {
    /// Gets the number of channels.
    pub fn count(&self) -> (r: usize)
        ensures
            r == self.count,
    {
        self.count
    }
}

/// The sample rate and channels of an audio buffer.
#[derive(Clone, Copy, Debug)]
pub struct AudioSpec {
    /// The sample rate in Hz.
    pub rate: u32,
    /// The channels.
    pub channels: Channels,
}

impl AudioSpec {
    /// Creates an audio specification.
    pub fn new(rate: u32, channels: Channels) -> (r: Self)
        ensures
            r.rate == rate,
            r.channels == channels,
    {
        AudioSpec { rate, channels }
    }
}

/// Codec parameters of an audio stream.
#[derive(Clone, Copy, Debug)]
pub struct AudioCodecParameters {
    /// The codec.
    pub codec: AudioCodecId,
    /// The sample rate in Hz.
    pub sample_rate: Option<u32>,
    /// The channels.
    pub channels: Option<Channels>,
    /// The number of valid bits per decoded sample.
    pub bits_per_sample: Option<u32>,
    /// The number of bits per encoded sample.
    pub bits_per_coded_sample: Option<u32>,
    /// The maximum number of frames a packet holds.
    pub max_frames_per_packet: Option<u64>,
    /// The number of frames per block, for codecs that code blocks of frames.
    pub frames_per_block: Option<u64>,
}

impl AudioCodecParameters {
    /// Creates parameters for the null codec with nothing else known.
    pub fn new() -> (r: Self)
        ensures
            r.codec == CODEC_ID_NULL_AUDIO,
            r.sample_rate is None,
            r.channels is None,
            r.bits_per_sample is None,
            r.bits_per_coded_sample is None,
            r.max_frames_per_packet is None,
            r.frames_per_block is None,
    {
        AudioCodecParameters {
            codec: CODEC_ID_NULL_AUDIO,
            sample_rate: None,
            channels: None,
            bits_per_sample: None,
            bits_per_coded_sample: None,
            max_frames_per_packet: None,
            frames_per_block: None,
        }
    }
}

/// Basic information about a codec.
#[derive(Clone, Copy, Debug)]
pub struct CodecInfo {
    /// A short ASCII-only string identifying the codec.
    pub short_name: &'static str,
    /// A longer, more descriptive, string identifying the codec.
    pub long_name: &'static str,
}

/// A codec a decoder supports, and information about it.
#[derive(Clone, Copy, Debug)]
pub struct SupportedAudioCodec {
    /// The codec.
    pub id: AudioCodecId,
    /// Information about the codec.
    pub info: CodecInfo,
}

/// Describes a supported codec.
pub open spec fn codec_desc(id: AudioCodecId, short_name: &'static str, long_name: &'static str) -> SupportedAudioCodec {
    SupportedAudioCodec { id, info: CodecInfo { short_name, long_name } }
}

/// Creates the description of a supported codec.
pub fn support_audio_codec(id: AudioCodecId, short_name: &'static str, long_name: &'static str) -> (r: SupportedAudioCodec)
    ensures
        r == codec_desc(id, short_name, long_name),
{
    SupportedAudioCodec { id, info: CodecInfo { short_name, long_name } }
}

/// The information of the first codec of `table` with the given identifier, if there is one.
pub fn find_codec_info(table: &Vec<SupportedAudioCodec>, id: AudioCodecId) -> (r: Option<CodecInfo>)
    ensures
        r is Some <==> exists|i: int| 0 <= i < table@.len() && #[trigger] table@[i].id == id,
        r matches Some(info) ==> exists|i: int|
            0 <= i < table@.len() && #[trigger] table@[i].id == id && table@[i].info == info && forall|j: int|
                0 <= j < i ==> table@[j].id != id,
{
    let mut i: usize = 0;
    while i < table.len()
        invariant
            i <= table@.len(),
            forall|j: int| 0 <= j < i ==> #[trigger] table@[j].id != id,
        decreases table@.len() - i,
    {
        if table[i].id == id {
            return Some(table[i].info);
        }
        i = i + 1;
    }
    None
}

/// The result of finalizing a decoder.
#[derive(Clone, Copy, Debug)]
pub struct FinalizeResult {
    /// Whether the decoded audio was verified, if the decoder verifies it.
    pub verify_ok: Option<bool>,
}

/// Options for audio decoders.
#[derive(Clone, Copy, Debug)]
pub struct AudioDecoderOptions {
    /// Whether the decoder should verify the decoded audio, where the codec allows it.
    pub verify: bool,
}

/// A planar audio buffer: one plane of samples per channel, all planes of the same number of
/// frames, up to a fixed capacity.
pub struct AudioBuffer<T> {
    spec: AudioSpec,
    capacity: usize,
    frames: usize,
    planes: Vec<Vec<T>>,
}

impl<T> AudioBuffer<T> {
    /// The specification of the buffer.
    pub closed spec fn spec_spec(&self) -> AudioSpec {
        self.spec
    }

    /// The most frames the buffer holds.
    pub closed spec fn spec_capacity(&self) -> nat {
        self.capacity as nat
    }

    /// The number of frames held.
    pub closed spec fn spec_frames(&self) -> nat {
        self.frames as nat
    }

    /// The samples of each channel.
    pub closed spec fn planes_view(&self) -> Seq<Seq<T>> {
        self.planes@.map_values(|p: Vec<T>| p@)
    }

    /// The buffer's invariant: a plane per channel, each with the number of frames held, which
    /// is at most the capacity.
    pub open spec fn inv(&self) -> bool {
        &&& self.planes_view().len() == self.spec_spec().channels.count
        &&& self.spec_frames() <= self.spec_capacity()
        &&& forall|c: int|
            0 <= c < self.planes_view().len() ==> #[trigger] self.planes_view()[c].len()
                == self.spec_frames()
    }

    /// Creates an empty buffer for the given specification and capacity in frames.
    pub fn new(spec: AudioSpec, capacity: usize) -> (r: Self)
        ensures
            r.inv(),
            r.spec_spec() == spec,
            r.spec_capacity() == capacity,
            r.spec_frames() == 0,
    {
        let n = spec.channels.count();
        let mut planes: Vec<Vec<T>> = Vec::new();
        let mut c: usize = 0;
        while c < n
            invariant
                c <= n,
                planes@.len() == c,
                forall|k: int| 0 <= k < c ==> #[trigger] planes@[k]@.len() == 0,
            decreases n - c,
        {
            planes.push(Vec::with_capacity(capacity));
            c = c + 1;
        }
        AudioBuffer { spec, capacity, frames: 0, planes }
    }

    /// Gets the specification of the buffer.
    pub fn spec(&self) -> (r: &AudioSpec)
        ensures
            *r == self.spec_spec(),
    {
        &self.spec
    }

    /// Gets the capacity of the buffer in frames.
    pub fn capacity(&self) -> (r: usize)
        ensures
            r == self.spec_capacity(),
    {
        self.capacity
    }

    /// Gets the number of frames held.
    pub fn frames(&self) -> (r: usize)
        ensures
            r == self.spec_frames(),
    {
        self.frames
    }

    /// Gets the plane of channel `ch`, if the buffer has that channel.
    pub fn plane(&self, ch: usize) -> (r: Option<&Vec<T>>)
        ensures
            ch < self.planes_view().len() ==> (r matches Some(p) && p@ == self.planes_view()[ch as int]),
            ch >= self.planes_view().len() ==> r is None,
    {
        if ch < self.planes.len() {
            Some(&self.planes[ch])
        } else {
            None
        }
    }

    /// Clears all frames, keeping the specification and the capacity.
    pub fn clear(&mut self)
        requires
            old(self).inv(),
        ensures
            final(self).inv(),
            final(self).spec_spec() == old(self).spec_spec(),
            final(self).spec_capacity() == old(self).spec_capacity(),
            final(self).spec_frames() == 0,
            final(self).planes_view().len() == old(self).planes_view().len(),
    {
        let n = self.planes.len();
        let mut c: usize = 0;
        while c < n
            invariant
                c <= n,
                n == self.planes@.len(),
                self.planes@.len() == self.spec.channels.count,
                self.frames <= self.capacity,
                self.spec == old(self).spec,
                self.capacity == old(self).capacity,
                forall|k: int| 0 <= k < c ==> #[trigger] self.planes@[k]@.len() == 0,
            decreases n - c,
        {
            self.planes[c].clear();
            c = c + 1;
        }
        self.frames = 0;
    }
}

impl<T: Copy> AudioBuffer<T> {
    /// Appends one frame: sample `ch` of `frame` to the plane of channel `ch`.
    pub fn push_frame(&mut self, frame: &Vec<T>)
        requires
            old(self).inv(),
            frame@.len() == old(self).planes_view().len(),
            old(self).spec_frames() < old(self).spec_capacity(),
        ensures
            final(self).inv(),
            final(self).spec_spec() == old(self).spec_spec(),
            final(self).spec_capacity() == old(self).spec_capacity(),
            final(self).spec_frames() == old(self).spec_frames() + 1,
            final(self).planes_view().len() == old(self).planes_view().len(),
            forall|c: int|
                0 <= c < old(self).planes_view().len() ==> #[trigger] final(self).planes_view()[c]
                    == old(self).planes_view()[c].push(frame@[c]),
    {
        let n = self.planes.len();
        let mut c: usize = 0;
        assert forall|k: int| 0 <= k < n implies #[trigger] old(self).planes@[k]@.len() == old(self).frames by {
            assert(old(self).planes_view()[k] == old(self).planes@[k]@);
        }
        while c < n
            invariant
                c <= n,
                n == self.planes@.len(),
                n == frame@.len(),
                self.planes@.len() == self.spec.channels.count,
                self.frames < self.capacity,
                self.spec == old(self).spec,
                self.capacity == old(self).capacity,
                self.frames == old(self).frames,
                forall|k: int| 0 <= k < c ==> #[trigger] self.planes@[k]@ == old(self).planes@[k]@.push(frame@[k]),
                forall|k: int| c <= k < n ==> #[trigger] self.planes@[k]@ == old(self).planes@[k]@,
            decreases n - c,
        {
            let v = frame[c];
            self.planes[c].push(v);
            c = c + 1;
        }
        self.frames = self.frames + 1;
        assert forall|k: int| 0 <= k < n implies #[trigger] self.planes_view()[k].len() == self.frames by {
            assert(self.planes_view()[k] == self.planes@[k]@);
            assert(self.planes@[k]@ == old(self).planes@[k]@.push(frame@[k]));
        }
        assert forall|k: int| 0 <= k < n implies #[trigger] self.planes_view()[k]
            == old(self).planes_view()[k].push(frame@[k]) by {
            assert(self.planes_view()[k] == self.planes@[k]@);
            assert(old(self).planes_view()[k] == old(self).planes@[k]@);
        }
    }
}

/// A sample type whose values are integers. Floating-point samples are held as their IEEE-754
/// bit patterns.
pub trait Sample: Copy {
    /// The integer value of the sample.
    spec fn value(self) -> int;

    /// Whether `v` is the value of some sample of this type.
    spec fn in_range(v: int) -> bool;

    /// The sample of value `v`.
    fn from_value(v: i128) -> (r: Self)
        requires
            Self::in_range(v as int),
        ensures
            r.value() == v,
    ;
}

impl Sample for u8 {
    open spec fn value(self) -> int {
        self as int
    }

    open spec fn in_range(v: int) -> bool {
        0 <= v <= 0xff
    }

    fn from_value(v: i128) -> (r: Self) {
        v as u8
    }
}

impl Sample for u16 {
    open spec fn value(self) -> int {
        self as int
    }

    open spec fn in_range(v: int) -> bool {
        0 <= v <= 0xffff
    }

    fn from_value(v: i128) -> (r: Self) {
        v as u16
    }
}

impl Sample for u32 {
    open spec fn value(self) -> int {
        self as int
    }

    open spec fn in_range(v: int) -> bool {
        0 <= v <= 0xffff_ffff
    }

    fn from_value(v: i128) -> (r: Self) {
        v as u32
    }
}

impl Sample for u64 {
    open spec fn value(self) -> int {
        self as int
    }

    open spec fn in_range(v: int) -> bool {
        0 <= v <= 0xffff_ffff_ffff_ffff
    }

    fn from_value(v: i128) -> (r: Self) {
        v as u64
    }
}

impl Sample for i8 {
    open spec fn value(self) -> int {
        self as int
    }

    open spec fn in_range(v: int) -> bool {
        -0x80 <= v <= 0x7f
    }

    fn from_value(v: i128) -> (r: Self) {
        v as i8
    }
}

impl Sample for i16 {
    open spec fn value(self) -> int {
        self as int
    }

    open spec fn in_range(v: int) -> bool {
        -0x8000 <= v <= 0x7fff
    }

    fn from_value(v: i128) -> (r: Self) {
        v as i16
    }
}

impl Sample for i32 {
    open spec fn value(self) -> int {
        self as int
    }

    open spec fn in_range(v: int) -> bool {
        -0x8000_0000 <= v <= 0x7fff_ffff
    }

    fn from_value(v: i128) -> (r: Self) {
        v as i32
    }
}

/// The formats of audio samples.
#[derive(Clone, Copy, Debug, PartialEq, Eq, Structural)]
pub enum SampleFormat {
    /// Unsigned 8-bit integer.
    U8,
    /// Unsigned 16-bit integer.
    U16,
    /// Unsigned 24-bit integer.
    U24,
    /// Unsigned 32-bit integer.
    U32,
    /// Signed 8-bit integer.
    S8,
    /// Signed 16-bit integer.
    S16,
    /// Signed 24-bit integer.
    S24,
    /// Signed 32-bit integer.
    S32,
    /// Single precision (32-bit) floating point, held as its bit pattern.
    F32,
    /// Double precision (64-bit) floating point, held as its bit pattern.
    F64,
}

/// An audio buffer of any sample format. 24-bit samples are held in the low 24 bits of 32-bit
/// integers; floating-point samples as their IEEE-754 bit patterns.
pub enum GenericAudioBuffer {
    /// Samples of format U8.
    U8(AudioBuffer<u8>),
    /// Samples of format U16.
    U16(AudioBuffer<u16>),
    /// Samples of format U24.
    U24(AudioBuffer<u32>),
    /// Samples of format U32.
    U32(AudioBuffer<u32>),
    /// Samples of format S8.
    S8(AudioBuffer<i8>),
    /// Samples of format S16.
    S16(AudioBuffer<i16>),
    /// Samples of format S24.
    S24(AudioBuffer<i32>),
    /// Samples of format S32.
    S32(AudioBuffer<i32>),
    /// Samples of format F32.
    F32(AudioBuffer<u32>),
    /// Samples of format F64.
    F64(AudioBuffer<u64>),
}

impl GenericAudioBuffer {
    /// The sample format of the buffer.
    pub open spec fn format(&self) -> SampleFormat {
        match self {
            GenericAudioBuffer::U8(_) => SampleFormat::U8,
            GenericAudioBuffer::U16(_) => SampleFormat::U16,
            GenericAudioBuffer::U24(_) => SampleFormat::U24,
            GenericAudioBuffer::U32(_) => SampleFormat::U32,
            GenericAudioBuffer::S8(_) => SampleFormat::S8,
            GenericAudioBuffer::S16(_) => SampleFormat::S16,
            GenericAudioBuffer::S24(_) => SampleFormat::S24,
            GenericAudioBuffer::S32(_) => SampleFormat::S32,
            GenericAudioBuffer::F32(_) => SampleFormat::F32,
            GenericAudioBuffer::F64(_) => SampleFormat::F64,
        }
    }

    /// The buffer's invariant.
    pub open spec fn inv(&self) -> bool {
        match self {
            GenericAudioBuffer::U8(b) => b.inv(),
            GenericAudioBuffer::U16(b) => b.inv(),
            GenericAudioBuffer::U24(b) => b.inv(),
            GenericAudioBuffer::U32(b) => b.inv(),
            GenericAudioBuffer::S8(b) => b.inv(),
            GenericAudioBuffer::S16(b) => b.inv(),
            GenericAudioBuffer::S24(b) => b.inv(),
            GenericAudioBuffer::S32(b) => b.inv(),
            GenericAudioBuffer::F32(b) => b.inv(),
            GenericAudioBuffer::F64(b) => b.inv(),
        }
    }

    /// The specification of the buffer.
    pub open spec fn spec_spec(&self) -> AudioSpec {
        match self {
            GenericAudioBuffer::U8(b) => b.spec_spec(),
            GenericAudioBuffer::U16(b) => b.spec_spec(),
            GenericAudioBuffer::U24(b) => b.spec_spec(),
            GenericAudioBuffer::U32(b) => b.spec_spec(),
            GenericAudioBuffer::S8(b) => b.spec_spec(),
            GenericAudioBuffer::S16(b) => b.spec_spec(),
            GenericAudioBuffer::S24(b) => b.spec_spec(),
            GenericAudioBuffer::S32(b) => b.spec_spec(),
            GenericAudioBuffer::F32(b) => b.spec_spec(),
            GenericAudioBuffer::F64(b) => b.spec_spec(),
        }
    }

    /// The most frames the buffer holds.
    pub open spec fn spec_capacity(&self) -> nat {
        match self {
            GenericAudioBuffer::U8(b) => b.spec_capacity(),
            GenericAudioBuffer::U16(b) => b.spec_capacity(),
            GenericAudioBuffer::U24(b) => b.spec_capacity(),
            GenericAudioBuffer::U32(b) => b.spec_capacity(),
            GenericAudioBuffer::S8(b) => b.spec_capacity(),
            GenericAudioBuffer::S16(b) => b.spec_capacity(),
            GenericAudioBuffer::S24(b) => b.spec_capacity(),
            GenericAudioBuffer::S32(b) => b.spec_capacity(),
            GenericAudioBuffer::F32(b) => b.spec_capacity(),
            GenericAudioBuffer::F64(b) => b.spec_capacity(),
        }
    }

    /// The number of frames held.
    pub open spec fn spec_frames(&self) -> nat {
        match self {
            GenericAudioBuffer::U8(b) => b.spec_frames(),
            GenericAudioBuffer::U16(b) => b.spec_frames(),
            GenericAudioBuffer::U24(b) => b.spec_frames(),
            GenericAudioBuffer::U32(b) => b.spec_frames(),
            GenericAudioBuffer::S8(b) => b.spec_frames(),
            GenericAudioBuffer::S16(b) => b.spec_frames(),
            GenericAudioBuffer::S24(b) => b.spec_frames(),
            GenericAudioBuffer::S32(b) => b.spec_frames(),
            GenericAudioBuffer::F32(b) => b.spec_frames(),
            GenericAudioBuffer::F64(b) => b.spec_frames(),
        }
    }

    /// The number of planes.
    pub open spec fn spec_planes(&self) -> nat {
        match self {
            GenericAudioBuffer::U8(b) => b.planes_view().len(),
            GenericAudioBuffer::U16(b) => b.planes_view().len(),
            GenericAudioBuffer::U24(b) => b.planes_view().len(),
            GenericAudioBuffer::U32(b) => b.planes_view().len(),
            GenericAudioBuffer::S8(b) => b.planes_view().len(),
            GenericAudioBuffer::S16(b) => b.planes_view().len(),
            GenericAudioBuffer::S24(b) => b.planes_view().len(),
            GenericAudioBuffer::S32(b) => b.planes_view().len(),
            GenericAudioBuffer::F32(b) => b.planes_view().len(),
            GenericAudioBuffer::F64(b) => b.planes_view().len(),
        }
    }

    /// The value of sample `f` of channel `ch`.
    pub open spec fn sample(&self, ch: int, f: int) -> int {
        match self {
            GenericAudioBuffer::U8(b) => b.planes_view()[ch][f] as int,
            GenericAudioBuffer::U16(b) => b.planes_view()[ch][f] as int,
            GenericAudioBuffer::U24(b) => b.planes_view()[ch][f] as int,
            GenericAudioBuffer::U32(b) => b.planes_view()[ch][f] as int,
            GenericAudioBuffer::S8(b) => b.planes_view()[ch][f] as int,
            GenericAudioBuffer::S16(b) => b.planes_view()[ch][f] as int,
            GenericAudioBuffer::S24(b) => b.planes_view()[ch][f] as int,
            GenericAudioBuffer::S32(b) => b.planes_view()[ch][f] as int,
            GenericAudioBuffer::F32(b) => b.planes_view()[ch][f] as int,
            GenericAudioBuffer::F64(b) => b.planes_view()[ch][f] as int,
        }
    }

    /// Creates an empty buffer of the given format, specification and capacity in frames.
    pub fn new(format: SampleFormat, spec: AudioSpec, capacity: usize) -> (r: Self)
        ensures
            r.inv(),
            r.format() == format,
            r.spec_spec() == spec,
            r.spec_capacity() == capacity,
            r.spec_frames() == 0,
    {
        match format {
            SampleFormat::U8 => GenericAudioBuffer::U8(AudioBuffer::new(spec, capacity)),
            SampleFormat::U16 => GenericAudioBuffer::U16(AudioBuffer::new(spec, capacity)),
            SampleFormat::U24 => GenericAudioBuffer::U24(AudioBuffer::new(spec, capacity)),
            SampleFormat::U32 => GenericAudioBuffer::U32(AudioBuffer::new(spec, capacity)),
            SampleFormat::S8 => GenericAudioBuffer::S8(AudioBuffer::new(spec, capacity)),
            SampleFormat::S16 => GenericAudioBuffer::S16(AudioBuffer::new(spec, capacity)),
            SampleFormat::S24 => GenericAudioBuffer::S24(AudioBuffer::new(spec, capacity)),
            SampleFormat::S32 => GenericAudioBuffer::S32(AudioBuffer::new(spec, capacity)),
            SampleFormat::F32 => GenericAudioBuffer::F32(AudioBuffer::new(spec, capacity)),
            SampleFormat::F64 => GenericAudioBuffer::F64(AudioBuffer::new(spec, capacity)),
        }
    }

    /// Gets the number of frames held.
    pub fn frames(&self) -> (r: usize)
        ensures
            r == self.spec_frames(),
    {
        match self {
            GenericAudioBuffer::U8(b) => b.frames(),
            GenericAudioBuffer::U16(b) => b.frames(),
            GenericAudioBuffer::U24(b) => b.frames(),
            GenericAudioBuffer::U32(b) => b.frames(),
            GenericAudioBuffer::S8(b) => b.frames(),
            GenericAudioBuffer::S16(b) => b.frames(),
            GenericAudioBuffer::S24(b) => b.frames(),
            GenericAudioBuffer::S32(b) => b.frames(),
            GenericAudioBuffer::F32(b) => b.frames(),
            GenericAudioBuffer::F64(b) => b.frames(),
        }
    }

    /// Gets the capacity in frames.
    pub fn capacity(&self) -> (r: usize)
        ensures
            r == self.spec_capacity(),
    {
        match self {
            GenericAudioBuffer::U8(b) => b.capacity(),
            GenericAudioBuffer::U16(b) => b.capacity(),
            GenericAudioBuffer::U24(b) => b.capacity(),
            GenericAudioBuffer::U32(b) => b.capacity(),
            GenericAudioBuffer::S8(b) => b.capacity(),
            GenericAudioBuffer::S16(b) => b.capacity(),
            GenericAudioBuffer::S24(b) => b.capacity(),
            GenericAudioBuffer::S32(b) => b.capacity(),
            GenericAudioBuffer::F32(b) => b.capacity(),
            GenericAudioBuffer::F64(b) => b.capacity(),
        }
    }

    /// Clears all frames, keeping the format, specification and capacity.
    pub fn clear(&mut self)
        requires
            old(self).inv(),
        ensures
            final(self).inv(),
            final(self).format() == old(self).format(),
            final(self).spec_spec() == old(self).spec_spec(),
            final(self).spec_capacity() == old(self).spec_capacity(),
            final(self).spec_frames() == 0,
            final(self).spec_planes() == old(self).spec_planes(),
    {
        match self {
            GenericAudioBuffer::U8(b) => b.clear(),
            GenericAudioBuffer::U16(b) => b.clear(),
            GenericAudioBuffer::U24(b) => b.clear(),
            GenericAudioBuffer::U32(b) => b.clear(),
            GenericAudioBuffer::S8(b) => b.clear(),
            GenericAudioBuffer::S16(b) => b.clear(),
            GenericAudioBuffer::S24(b) => b.clear(),
            GenericAudioBuffer::S32(b) => b.clear(),
            GenericAudioBuffer::F32(b) => b.clear(),
            GenericAudioBuffer::F64(b) => b.clear(),
        }
    }
}

} // verus!
