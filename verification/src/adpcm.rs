//! Adaptive Differential Pulse Code Modulation (ADPCM) decoder set-up.

use vstd::prelude::*;

use crate::codecs::{
    codec_desc, find_codec_info, support_audio_codec, AudioBuffer, AudioCodecId,
    AudioCodecParameters, AudioDecoderOptions, AudioSpec, CodecInfo, FinalizeResult,
    SupportedAudioCodec, CODEC_ID_ADPCM_IMA_QT, CODEC_ID_ADPCM_IMA_WAV, CODEC_ID_ADPCM_MS,
};
use crate::errors::{unsupported_error, Error, Result};

verus! {

/// Whether the codec is one of the ADPCM codecs that this decoder decodes.
pub open spec fn is_adpcm_codec(codec_id: AudioCodecId) -> bool {
    codec_id == CODEC_ID_ADPCM_MS || codec_id == CODEC_ID_ADPCM_IMA_WAV || codec_id
        == CODEC_ID_ADPCM_IMA_QT
}

/// Whether the codec is one of the ADPCM codecs that this decoder decodes.
pub fn is_supported_adpcm_codec(codec_id: AudioCodecId) -> (r: bool)
    ensures
        r == is_adpcm_codec(codec_id),
{
    codec_id == CODEC_ID_ADPCM_MS || codec_id == CODEC_ID_ADPCM_IMA_WAV || codec_id
        == CODEC_ID_ADPCM_IMA_QT
}

/// The ADPCM variant that decodes the blocks of a stream.
#[derive(Debug, Clone, Copy, PartialEq, Eq, Structural)]
pub enum InnerDecoder {
    /// Microsoft ADPCM.
    AdpcmMs,
    /// IMA ADPCM as stored in WAV files.
    AdpcmIma,
    /// IMA ADPCM as stored in QuickTime files.
    AdpcmImaQT,
}

/// The ADPCM variant of a codec, if it is an ADPCM codec.
pub open spec fn inner_decoder_spec(codec_id: AudioCodecId) -> Option<InnerDecoder> {
    if codec_id == CODEC_ID_ADPCM_MS {
        Some(InnerDecoder::AdpcmMs)
    } else if codec_id == CODEC_ID_ADPCM_IMA_WAV {
        Some(InnerDecoder::AdpcmIma)
    } else if codec_id == CODEC_ID_ADPCM_IMA_QT {
        Some(InnerDecoder::AdpcmImaQT)
    } else {
        None
    }
}

/// The outcome of checking parameters for the ADPCM decoder: the first check they fail, in the
/// order the decoder makes them, or success.
pub open spec fn adpcm_params_check(params: AudioCodecParameters) -> core::result::Result<(), Error> {
    if !is_adpcm_codec(params.codec) {
        Err(Error::Unsupported("adpcm: invalid codec"))
    } else if params.max_frames_per_packet is None {
        Err(Error::Unsupported("adpcm: maximum frames per packet is required"))
    } else if params.frames_per_block is None || params.frames_per_block.unwrap() == 0 {
        Err(Error::Unsupported("adpcm: valid frames per block is required"))
    } else if params.sample_rate is None {
        Err(Error::Unsupported("adpcm: sample rate is required"))
    } else if params.channels is None {
        Err(Error::Unsupported("adpcm: channels or channel_layout is required"))
    } else if params.channels.unwrap().count > 2 {
        Err(Error::Unsupported("adpcm: up to two channels are supported"))
    } else {
        Ok(())
    }
}

/// The codecs the ADPCM decoder supports, in the order it lists them.
pub open spec fn adpcm_codec_table() -> Seq<SupportedAudioCodec> {
    seq![
        codec_desc(CODEC_ID_ADPCM_MS, "adpcm_ms", "Microsoft ADPCM"),
        codec_desc(CODEC_ID_ADPCM_IMA_WAV, "adpcm_ima_wav", "ADPCM IMA WAV"),
        codec_desc(CODEC_ID_ADPCM_IMA_QT, "adpcm_ima_qt", "ADPCM IMA QT"),
    ]
}

/// Adaptive Differential Pulse Code Modulation (ADPCM) decoder.
pub struct AdpcmDecoder {
    params: AudioCodecParameters,
    inner_decoder: InnerDecoder,
    buf: AudioBuffer<i32>,
}

impl AdpcmDecoder {
    /// The codec parameters the decoder was created with.
    pub closed spec fn spec_params(&self) -> AudioCodecParameters {
        self.params
    }

    /// The ADPCM variant in use.
    pub closed spec fn spec_inner(&self) -> InnerDecoder {
        self.inner_decoder
    }

    /// The decoder's buffer.
    pub closed spec fn spec_buf(&self) -> AudioBuffer<i32> {
        self.buf
    }

    /// The decoder's invariant: the codec is an ADPCM codec and the variant is its variant.
    pub open spec fn wf(&self) -> bool {
        inner_decoder_spec(self.spec_params().codec) == Some(self.spec_inner())
    }

    /// Creates a decoder for the given parameters, or returns the error of the first check the
    /// parameters fail: the codec must be an ADPCM codec; the maximum frames per packet, a
    /// non-zero number of frames per block, the sample rate and at most two channels must be
    /// known.
    pub fn try_new(params: &AudioCodecParameters, _opts: &AudioDecoderOptions) -> (r: Result<Self>)
        ensures
            r is Ok <==> adpcm_params_check(*params) is Ok,
            r matches Err(e) ==> adpcm_params_check(*params) == Err::<(), Error>(e),
            r matches Ok(d) ==> {
                &&& d.wf()
                &&& d.spec_params() == *params
                &&& d.spec_buf().inv()
                &&& d.spec_buf().spec_spec() == AudioSpec {
                    rate: params.sample_rate.unwrap(),
                    channels: params.channels.unwrap(),
                }
                &&& d.spec_buf().spec_capacity() == params.max_frames_per_packet.unwrap() as usize
                &&& d.spec_buf().spec_frames() == 0
            },
    {
        // This decoder only supports certain ADPCM codecs.
        if !is_supported_adpcm_codec(params.codec) {
            return unsupported_error("adpcm: invalid codec");
        }

        let frames = match params.max_frames_per_packet {
            Some(frames) => frames as usize,
            _ => return unsupported_error("adpcm: maximum frames per packet is required"),
        };

        if params.frames_per_block.is_none() || params.frames_per_block.unwrap() == 0 {
            return unsupported_error("adpcm: valid frames per block is required");
        }

        let rate = match params.sample_rate {
            Some(rate) => rate,
            _ => return unsupported_error("adpcm: sample rate is required"),
        };

        let spec = if let Some(channels) = &params.channels {
            if channels.count() > 2 {
                return unsupported_error("adpcm: up to two channels are supported");
            }
            AudioSpec::new(rate, *channels)
        } else {
            return unsupported_error("adpcm: channels or channel_layout is required");
        };

        let inner_decoder = if params.codec == CODEC_ID_ADPCM_MS {
            InnerDecoder::AdpcmMs
        } else if params.codec == CODEC_ID_ADPCM_IMA_WAV {
            InnerDecoder::AdpcmIma
        } else if params.codec == CODEC_ID_ADPCM_IMA_QT {
            InnerDecoder::AdpcmImaQT
        } else {
            return unsupported_error("adpcm: codec is unsupported");
        };

        Ok(AdpcmDecoder { params: *params, inner_decoder, buf: AudioBuffer::new(spec, frames) })
    }

    /// Gets the codecs the ADPCM decoder supports.
    pub fn supported_codecs() -> (r: Vec<SupportedAudioCodec>)
        ensures
            r@ == adpcm_codec_table(),
    {
        let mut v: Vec<SupportedAudioCodec> = Vec::new();
        v.push(support_audio_codec(CODEC_ID_ADPCM_MS, "adpcm_ms", "Microsoft ADPCM"));
        v.push(support_audio_codec(CODEC_ID_ADPCM_IMA_WAV, "adpcm_ima_wav", "ADPCM IMA WAV"));
        v.push(support_audio_codec(CODEC_ID_ADPCM_IMA_QT, "adpcm_ima_qt", "ADPCM IMA QT"));
        assert(v@ =~= adpcm_codec_table());
        v
    }

    /// Gets the information of the codec in use.
    pub fn codec_info(&self) -> (r: CodecInfo)
        requires
            self.wf(),
        ensures
            exists|i: int|
                0 <= i < adpcm_codec_table().len() && #[trigger] adpcm_codec_table()[i].id
                    == self.spec_params().codec && r == adpcm_codec_table()[i].info,
    {
        let table = Self::supported_codecs();
        if self.params.codec == CODEC_ID_ADPCM_MS {
            assert(table@[0].id == self.params.codec);
        } else if self.params.codec == CODEC_ID_ADPCM_IMA_WAV {
            assert(table@[1].id == self.params.codec);
        } else {
            assert(table@[2].id == self.params.codec);
        }
        find_codec_info(&table, self.params.codec).unwrap()
    }

    /// Gets the codec parameters the decoder was created with.
    pub fn codec_params(&self) -> (r: &AudioCodecParameters)
        ensures
            *r == self.spec_params(),
    {
        &self.params
    }

    /// Gets the buffer of the last decoded packet.
    pub fn last_decoded(&self) -> (r: &AudioBuffer<i32>)
        ensures
            *r == self.spec_buf(),
    {
        &self.buf
    }

    /// Resets the decoder. No state is kept between packets, so nothing changes.
    pub fn reset(&mut self)
        ensures
            *final(self) == *old(self),
    {
    }

    /// Finalizes the decoder. The decoder does not verify the decoded audio.
    pub fn finalize(&mut self) -> (r: FinalizeResult)
        ensures
            *final(self) == *old(self),
            r.verify_ok is None,
    {
        FinalizeResult { verify_ok: None }
    }
}

/// The ADPCM decoder accepts exactly the parameters of an ADPCM codec that give the maximum
/// frames per packet, a non-zero number of frames per block, the sample rate and the channels,
/// of which there are at most two: mono and stereo streams are both accepted.
pub proof fn law_adpcm_accepted_params(p: AudioCodecParameters)
    ensures
        adpcm_params_check(p) is Ok <==> {
            &&& (p.codec == CODEC_ID_ADPCM_MS || p.codec == CODEC_ID_ADPCM_IMA_WAV || p.codec
                == CODEC_ID_ADPCM_IMA_QT)
            &&& p.max_frames_per_packet is Some
            &&& p.frames_per_block is Some
            &&& p.frames_per_block.unwrap() != 0
            &&& p.sample_rate is Some
            &&& p.channels is Some
            &&& p.channels.unwrap().count <= 2
        },
{
}

} // verus!
