use symphonia::adpcm::{is_supported_adpcm_codec, AdpcmDecoder};
use symphonia::codecs::{
    AudioCodecParameters, AudioDecoderOptions, Channels, CODEC_ID_ADPCM_IMA_QT,
    CODEC_ID_ADPCM_IMA_WAV, CODEC_ID_ADPCM_MS, CODEC_ID_PCM_S16LE,
};
use symphonia::errors::Error;

fn params(codec: u32) -> AudioCodecParameters {
    let mut p = AudioCodecParameters::new();
    p.codec = codec;
    p.sample_rate = Some(22050);
    p.channels = Some(Channels { count: 2 });
    p.max_frames_per_packet = Some(1017);
    p.frames_per_block = Some(1017);
    p
}

fn opts() -> AudioDecoderOptions {
    AudioDecoderOptions { verify: false }
}

fn unsupported_msg<T>(r: Result<T, Error>) -> &'static str {
    match r {
        Err(Error::Unsupported(m)) => m,
        _ => panic!("expected an unsupported error"),
    }
}

#[test]
fn adpcm_codec_ids() {
    assert!(is_supported_adpcm_codec(CODEC_ID_ADPCM_MS));
    assert!(is_supported_adpcm_codec(CODEC_ID_ADPCM_IMA_WAV));
    assert!(is_supported_adpcm_codec(CODEC_ID_ADPCM_IMA_QT));
    assert!(!is_supported_adpcm_codec(CODEC_ID_PCM_S16LE));
}

#[test]
fn adpcm_supported_codecs_list() {
    let list = AdpcmDecoder::supported_codecs();
    assert_eq!(list.len(), 3);
    assert_eq!(list[0].id, CODEC_ID_ADPCM_MS);
    assert_eq!(list[0].info.short_name, "adpcm_ms");
    assert_eq!(list[1].id, CODEC_ID_ADPCM_IMA_WAV);
    assert_eq!(list[1].info.long_name, "ADPCM IMA WAV");
    assert_eq!(list[2].id, CODEC_ID_ADPCM_IMA_QT);
    assert_eq!(list[2].info.short_name, "adpcm_ima_qt");
}

#[test]
fn adpcm_decoder_is_created_for_each_codec() {
    for (codec, name) in [
        (CODEC_ID_ADPCM_MS, "adpcm_ms"),
        (CODEC_ID_ADPCM_IMA_WAV, "adpcm_ima_wav"),
        (CODEC_ID_ADPCM_IMA_QT, "adpcm_ima_qt"),
    ] {
        let d = match AdpcmDecoder::try_new(&params(codec), &opts()) {
            Ok(d) => d,
            Err(_) => panic!("decoder should be created"),
        };
        assert_eq!(d.codec_info().short_name, name);
        assert_eq!(d.codec_params().codec, codec);
        assert_eq!(d.last_decoded().capacity(), 1017);
        assert_eq!(d.last_decoded().frames(), 0);
        assert_eq!(d.last_decoded().spec().rate, 22050);
    }
}

#[test]
fn adpcm_rejects_other_codecs() {
    let r = AdpcmDecoder::try_new(&params(CODEC_ID_PCM_S16LE), &opts());
    assert_eq!(unsupported_msg(r), "adpcm: invalid codec");
}

#[test]
fn adpcm_requires_max_frames() {
    let mut p = params(CODEC_ID_ADPCM_MS);
    p.max_frames_per_packet = None;
    let r = AdpcmDecoder::try_new(&p, &opts());
    assert_eq!(unsupported_msg(r), "adpcm: maximum frames per packet is required");
}

#[test]
fn adpcm_requires_frames_per_block() {
    let mut p = params(CODEC_ID_ADPCM_MS);
    p.frames_per_block = None;
    let r = AdpcmDecoder::try_new(&p, &opts());
    assert_eq!(unsupported_msg(r), "adpcm: valid frames per block is required");
    let mut p = params(CODEC_ID_ADPCM_MS);
    p.frames_per_block = Some(0);
    let r = AdpcmDecoder::try_new(&p, &opts());
    assert_eq!(unsupported_msg(r), "adpcm: valid frames per block is required");
}

#[test]
fn adpcm_requires_sample_rate() {
    let mut p = params(CODEC_ID_ADPCM_IMA_WAV);
    p.sample_rate = None;
    let r = AdpcmDecoder::try_new(&p, &opts());
    assert_eq!(unsupported_msg(r), "adpcm: sample rate is required");
}

#[test]
fn adpcm_requires_channels() {
    let mut p = params(CODEC_ID_ADPCM_IMA_WAV);
    p.channels = None;
    let r = AdpcmDecoder::try_new(&p, &opts());
    assert_eq!(unsupported_msg(r), "adpcm: channels or channel_layout is required");
}

#[test]
fn adpcm_rejects_more_than_two_channels() {
    let mut p = params(CODEC_ID_ADPCM_IMA_QT);
    p.channels = Some(Channels { count: 3 });
    let r = AdpcmDecoder::try_new(&p, &opts());
    assert_eq!(unsupported_msg(r), "adpcm: up to two channels are supported");
}

#[test]
fn adpcm_reset_and_finalize() {
    let mut d = match AdpcmDecoder::try_new(&params(CODEC_ID_ADPCM_MS), &opts()) {
        Ok(d) => d,
        Err(_) => panic!("decoder should be created"),
    };
    d.reset();
    assert_eq!(d.finalize().verify_ok, None);
    assert_eq!(d.codec_params().codec, CODEC_ID_ADPCM_MS);
}
