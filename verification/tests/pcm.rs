use symphonia::codecs::{
    AudioCodecParameters, AudioDecoderOptions, Channels, GenericAudioBuffer, CODEC_ID_ADPCM_MS,
    CODEC_ID_PCM_ALAW, CODEC_ID_PCM_F32LE, CODEC_ID_PCM_MULAW, CODEC_ID_PCM_S16BE,
    CODEC_ID_PCM_S16LE, CODEC_ID_PCM_S24LE, CODEC_ID_PCM_S32LE, CODEC_ID_PCM_U24BE,
    CODEC_ID_PCM_U8,
};
use symphonia::errors::Error;
use symphonia::pcm::{alaw_to_linear, is_supported_pcm_codec, mulaw_to_linear, PcmDecoder};

fn params(codec: u32, channels: usize, frames: u64, bits: Option<u32>) -> AudioCodecParameters {
    let mut p = AudioCodecParameters::new();
    p.codec = codec;
    p.sample_rate = Some(44100);
    p.channels = Some(Channels { count: channels });
    p.max_frames_per_packet = Some(frames);
    p.bits_per_sample = bits;
    p
}

fn opts() -> AudioDecoderOptions {
    AudioDecoderOptions { verify: false }
}

fn unsupported_msg<T>(r: Result<T, Error>) -> &'static str {
    match r {
        Err(Error::Unsupported(m)) => m,
        _ => panic!("expected an unsupported error"),
    }
}

#[test]
fn alaw_values() {
    assert_eq!(alaw_to_linear(0x55), -8);
    assert_eq!(alaw_to_linear(0xd5), 8);
    assert_eq!(alaw_to_linear(0x00), -5504);
    assert_eq!(alaw_to_linear(0x80), 5504);
    assert_eq!(alaw_to_linear(0x2a), -32256);
    assert_eq!(alaw_to_linear(0xaa), 32256);
    assert_eq!(alaw_to_linear(0xff), 848);
}

#[test]
fn mulaw_values() {
    assert_eq!(mulaw_to_linear(0xff), 0);
    assert_eq!(mulaw_to_linear(0x7f), 0);
    assert_eq!(mulaw_to_linear(0x00), -32124);
    assert_eq!(mulaw_to_linear(0x80), 32124);
    assert_eq!(mulaw_to_linear(0x55), -716);
}

#[test]
fn log_pcm_sign_symmetry() {
    for code in 0..=255u8 {
        assert_eq!(alaw_to_linear(code ^ 0x80), -alaw_to_linear(code));
        assert_eq!(mulaw_to_linear(code ^ 0x80), -mulaw_to_linear(code));
    }
}

#[test]
fn supported_codecs() {
    assert!(is_supported_pcm_codec(CODEC_ID_PCM_S16LE));
    assert!(is_supported_pcm_codec(CODEC_ID_PCM_MULAW));
    assert!(!is_supported_pcm_codec(CODEC_ID_ADPCM_MS));
    let table = PcmDecoder::supported_codecs();
    assert_eq!(table.len(), 20);
    assert_eq!(table[0].info.short_name, "pcm_s32le");
    assert_eq!(table[19].info.long_name, "PCM Mu-law");
}

#[test]
fn try_new_errors() {
    let mut p = params(CODEC_ID_ADPCM_MS, 2, 16, Some(16));
    assert_eq!(unsupported_msg(PcmDecoder::try_new(&p, &opts())), "pcm: invalid codec");
    p.codec = CODEC_ID_PCM_S16LE;
    p.max_frames_per_packet = None;
    assert_eq!(
        unsupported_msg(PcmDecoder::try_new(&p, &opts())),
        "pcm: maximum frames per packet is required"
    );
    p.max_frames_per_packet = Some(16);
    p.sample_rate = None;
    assert_eq!(unsupported_msg(PcmDecoder::try_new(&p, &opts())), "pcm: sample rate is required");
    p.sample_rate = Some(8000);
    p.channels = None;
    assert_eq!(
        unsupported_msg(PcmDecoder::try_new(&p, &opts())),
        "pcm: channels or channel_layout is required"
    );
    p.channels = Some(Channels { count: 0 });
    assert_eq!(
        unsupported_msg(PcmDecoder::try_new(&p, &opts())),
        "pcm: number of channels cannot be 0"
    );
    p.channels = Some(Channels { count: 1 });
    p.bits_per_sample = None;
    assert_eq!(
        unsupported_msg(PcmDecoder::try_new(&p, &opts())),
        "pcm: unknown bits per (coded) sample"
    );
    p.bits_per_sample = Some(17);
    match PcmDecoder::try_new(&p, &opts()) {
        Err(Error::DecodeError(m)) => {
            assert_eq!(m, "pcm: coded bits per sample is greater than the sample format")
        }
        _ => panic!("expected a decode error"),
    }
    // The bits per coded sample take precedence over the bits per sample.
    p.bits_per_coded_sample = Some(16);
    assert!(PcmDecoder::try_new(&p, &opts()).is_ok());
}

#[test]
fn float_and_log_codecs_need_no_width() {
    for codec in [CODEC_ID_PCM_F32LE, CODEC_ID_PCM_ALAW, CODEC_ID_PCM_MULAW] {
        let p = params(codec, 1, 4, None);
        assert!(PcmDecoder::try_new(&p, &opts()).is_ok());
    }
}

#[test]
fn decode_s16le_stereo() {
    let p = params(CODEC_ID_PCM_S16LE, 2, 2, Some(16));
    let mut dec = PcmDecoder::try_new(&p, &opts()).unwrap();
    let packet = [0x01, 0x00, 0xff, 0xff, 0x00, 0x80, 0xff, 0x7f];
    dec.decode(&packet).unwrap();
    match dec.last_decoded() {
        GenericAudioBuffer::S16(b) => {
            assert_eq!(b.frames(), 2);
            assert_eq!(b.plane(0).unwrap().as_slice(), &[1, -32768]);
            assert_eq!(b.plane(1).unwrap().as_slice(), &[-1, 32767]);
        }
        _ => panic!("expected a 16-bit buffer"),
    }
}

#[test]
fn decode_narrow_coded_width_shifts_up() {
    // 12 coded bits in 16-bit big-endian words are shifted left by 4.
    let p = params(CODEC_ID_PCM_S16BE, 1, 2, Some(12));
    let mut dec = PcmDecoder::try_new(&p, &opts()).unwrap();
    dec.decode(&[0x00, 0x01, 0x0f, 0xff]).unwrap();
    match dec.last_decoded() {
        GenericAudioBuffer::S16(b) => assert_eq!(b.plane(0).unwrap().as_slice(), &[16, -16]),
        _ => panic!("expected a 16-bit buffer"),
    }
}

#[test]
fn decode_s24_and_u24() {
    let p = params(CODEC_ID_PCM_S24LE, 1, 2, Some(24));
    let mut dec = PcmDecoder::try_new(&p, &opts()).unwrap();
    dec.decode(&[0x01, 0x00, 0x00, 0xff, 0xff, 0xff]).unwrap();
    match dec.last_decoded() {
        GenericAudioBuffer::S24(b) => assert_eq!(b.plane(0).unwrap().as_slice(), &[1, -1]),
        _ => panic!("expected a 24-bit buffer"),
    }
    let p = params(CODEC_ID_PCM_U24BE, 1, 1, Some(20));
    let mut dec = PcmDecoder::try_new(&p, &opts()).unwrap();
    dec.decode(&[0x01, 0x02, 0x03]).unwrap();
    match dec.last_decoded() {
        GenericAudioBuffer::U24(b) => assert_eq!(b.plane(0).unwrap().as_slice(), &[0x102030]),
        _ => panic!("expected a 24-bit buffer"),
    }
}

#[test]
fn decode_u8_s32_alaw() {
    let p = params(CODEC_ID_PCM_U8, 1, 3, Some(8));
    let mut dec = PcmDecoder::try_new(&p, &opts()).unwrap();
    dec.decode(&[0, 128, 255]).unwrap();
    match dec.last_decoded() {
        GenericAudioBuffer::U8(b) => assert_eq!(b.plane(0).unwrap().as_slice(), &[0, 128, 255]),
        _ => panic!("expected an 8-bit buffer"),
    }
    let p = params(CODEC_ID_PCM_S32LE, 1, 1, Some(32));
    let mut dec = PcmDecoder::try_new(&p, &opts()).unwrap();
    dec.decode(&[0x78, 0x56, 0x34, 0x12]).unwrap();
    match dec.last_decoded() {
        GenericAudioBuffer::S32(b) => assert_eq!(b.plane(0).unwrap().as_slice(), &[0x12345678]),
        _ => panic!("expected a 32-bit buffer"),
    }
    let p = params(CODEC_ID_PCM_ALAW, 1, 2, None);
    let mut dec = PcmDecoder::try_new(&p, &opts()).unwrap();
    dec.decode(&[0x55, 0xd5]).unwrap();
    match dec.last_decoded() {
        GenericAudioBuffer::S16(b) => assert_eq!(b.plane(0).unwrap().as_slice(), &[-8, 8]),
        _ => panic!("expected a 16-bit buffer"),
    }
}

#[test]
fn decode_f32_bits() {
    let p = params(CODEC_ID_PCM_F32LE, 1, 1, None);
    let mut dec = PcmDecoder::try_new(&p, &opts()).unwrap();
    dec.decode(&1.5f32.to_le_bytes()).unwrap();
    match dec.last_decoded() {
        GenericAudioBuffer::F32(b) => assert_eq!(f32::from_bits(b.plane(0).unwrap()[0]), 1.5),
        _ => panic!("expected a 32-bit float buffer"),
    }
}

#[test]
fn decode_short_packet_fails_and_clears() {
    let p = params(CODEC_ID_PCM_S16LE, 2, 2, Some(16));
    let mut dec = PcmDecoder::try_new(&p, &opts()).unwrap();
    dec.decode(&[0; 8]).unwrap();
    assert_eq!(dec.last_decoded().frames(), 2);
    match dec.decode(&[0; 7]) {
        Err(Error::IoError(e)) => assert!(e.is_eof()),
        _ => panic!("expected an end-of-stream error"),
    }
    assert_eq!(dec.last_decoded().frames(), 0);
    assert_eq!(dec.last_decoded().capacity(), 2);
}

#[test]
fn codec_info_names_codec() {
    let p = params(CODEC_ID_PCM_MULAW, 1, 2, None);
    let dec = PcmDecoder::try_new(&p, &opts()).unwrap();
    assert_eq!(dec.codec_info().short_name, "pcm_mulaw");
    assert_eq!(dec.codec_params().codec, CODEC_ID_PCM_MULAW);
}
