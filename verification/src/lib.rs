//! Verified core of a media decoding library: byte readers, PCM and ADPCM decoder set-up and
//! sample decoding, ISO/MP4 atom parsing, ID3v2 frame framing, and FFT index permutations.

pub mod adpcm;
pub mod codecs;
pub mod errors;
pub mod fft;
pub mod id3v2;
pub mod io;
pub mod isomp4;
pub mod pcm;
