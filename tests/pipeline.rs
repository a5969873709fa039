use voice_pipeline::effects::{
    apply_effects, distort, distort_sample, modulate, modulate_sample, tempo_shift,
    EffectParameters,
};
use voice_pipeline::pcm::PcmStream;
use voice_pipeline::codec::decode_mp3;
use voice_pipeline::pipeline::{
    decode, decode_bytes, transform, transform_bytes, DecodeError, PipelineError,
};
use voice_pipeline::wav::{decode_wav, encode, EncodeError};

fn stream(samples: Vec<i16>, rate: u32, channels: u16) -> PcmStream {
    PcmStream::new(samples, rate, channels).expect("well formed stream")
}

fn params(
    speed: (u32, u32),
    threshold: (u32, u32),
    period: u32,
    depth: (u32, u32),
) -> EffectParameters {
    EffectParameters {
        speed_num: speed.0,
        speed_den: speed.1,
        threshold_num: threshold.0,
        threshold_den: threshold.1,
        modulation_period: period,
        depth_num: depth.0,
        depth_den: depth.1,
    }
}

fn u16_at(b: &[u8], i: usize) -> u16 {
    u16::from_le_bytes([b[i], b[i + 1]])
}

fn u32_at(b: &[u8], i: usize) -> u32 {
    u32::from_le_bytes([b[i], b[i + 1], b[i + 2], b[i + 3]])
}

#[test]
fn silent_mono_clip_scenario() {
    let input = encode(&stream(vec![0; 1600], 16000, 1)).unwrap();
    let p = params((1, 1), (1, 1), 100, (0, 1));
    let out = transform(None, &input, &p).unwrap();
    assert_eq!(out.len(), 44 + 3200);
    assert_eq!(&out[0..4], b"RIFF");
    assert_eq!(u32_at(&out, 4), 36 + 3200);
    assert_eq!(&out[8..16], b"WAVEfmt ");
    assert_eq!(u32_at(&out, 16), 16);
    assert_eq!(u16_at(&out, 20), 1);
    assert_eq!(u16_at(&out, 22), 1);
    assert_eq!(u32_at(&out, 24), 16000);
    assert_eq!(u32_at(&out, 28), 32000);
    assert_eq!(u16_at(&out, 32), 2);
    assert_eq!(u16_at(&out, 34), 16);
    assert_eq!(&out[36..40], b"data");
    assert_eq!(u32_at(&out, 40), 3200);
    assert!(out[44..].iter().all(|&b| b == 0));
}

#[test]
fn encode_then_decode_recovers_stream() {
    let samples = vec![0, 1, -1, 32767, -32768, 1234, -4321, 7];
    let s = stream(samples.clone(), 22050, 2);
    let bytes = encode(&s).unwrap();
    assert_eq!(bytes.len(), 44 + 16);
    assert_eq!(u32_at(&bytes, 40), 16);
    assert_eq!(&bytes[44..48], &[0, 0, 1, 0]);
    assert_eq!(&bytes[48..52], &[0xff, 0xff, 0xff, 0x7f]);
    let back = decode_wav(&bytes).unwrap();
    assert_eq!(back.sample_rate, 22050);
    assert_eq!(back.channels, 2);
    assert_eq!(back.samples, samples);
}

#[test]
fn encode_refuses_oversized_byte_rate() {
    assert_eq!(encode(&stream(vec![0, 0], u32::MAX, 1)).unwrap_err(), EncodeError::WriteFailed);
    assert_eq!(encode(&stream(vec![0; 40000], 8000, 40000)).unwrap_err(), EncodeError::WriteFailed);
}

#[test]
fn decode_wav_rejects_malformed_input() {
    assert!(decode_wav(&[]).is_none());
    assert!(decode_wav(b"RIFF").is_none());
    let good = encode(&stream(vec![5, 6], 8000, 1)).unwrap();
    let mut bad_tag = good.clone();
    bad_tag[8] = b'X';
    assert!(decode_wav(&bad_tag).is_none());
    let mut bad_bits = good.clone();
    bad_bits[34] = 8;
    assert!(decode_wav(&bad_bits).is_none());
    let truncated = &good[..good.len() - 1];
    assert!(decode_wav(truncated).is_none());
    let mut extra = good.clone();
    extra.push(9);
    assert_eq!(decode_wav(&extra).unwrap().samples, vec![5, 6]);
}

#[test]
fn distortion_of_silence_is_silence() {
    let s = stream(vec![0; 64], 8000, 2);
    let out = distort(&s, 1, 10);
    assert_eq!(out.samples, vec![0; 64]);
}

#[test]
fn unit_threshold_leaves_samples_alone() {
    let samples = vec![0, 1, -1, 32767, -32767, 20000, -20000];
    let out = distort(&stream(samples.clone(), 8000, 1), 7, 7);
    assert_eq!(out.samples, samples);
    assert_eq!(distort_sample(-32768, 1, 1), -32767);
}

#[test]
fn soft_knee_values() {
    assert_eq!(distort_sample(32767, 1, 2), 28986);
    assert_eq!(distort_sample(-32767, 1, 2), -28986);
    assert_eq!(distort_sample(16383, 1, 2), 16383);
    assert_eq!(distort_sample(16384, 1, 2), 16383);
    assert_eq!(distort_sample(20000, 1, 2), 19165);
}

#[test]
fn modulation_values() {
    assert_eq!(modulate_sample(1000, 0, 100), 700);
    assert_eq!(modulate_sample(1000, 100, 100), 1000);
    assert_eq!(modulate_sample(1000, 200, 100), 1300);
    assert_eq!(modulate_sample(1000, 5, 100), 1000);
    assert_eq!(modulate_sample(-1001, 0, 1), -700);
    assert_eq!(modulate_sample(30000, 200, 100), 32767);
    assert_eq!(modulate_sample(-30000, 2, 1), -32768);
    let out = modulate(&stream(vec![10, 10, 10, 10, 10, 10], 8000, 1), 2);
    assert_eq!(out.samples, vec![7, 10, 13, 10, 10, 10]);
}

#[test]
fn unit_speed_keeps_stream() {
    let samples = vec![3, -4, 5, -6, 7, -8];
    let out = tempo_shift(&stream(samples.clone(), 8000, 2), 5, 5);
    assert_eq!(out.samples, samples);
    assert_eq!(out.sample_rate, 8000);
}

#[test]
fn tempo_changes_length_and_picks_frames() {
    let mono = stream(vec![1, 2, 3, 4, 5], 8000, 1);
    assert_eq!(tempo_shift(&mono, 2, 1).samples, vec![1, 3]);
    assert_eq!(tempo_shift(&mono, 1, 2).samples, vec![1, 1, 2, 2, 3, 3, 4, 4, 5, 5]);
    let stereo = stream(vec![1, -1, 2, -2, 3, -3, 4, -4], 8000, 2);
    assert_eq!(tempo_shift(&stereo, 2, 1).samples, vec![1, -1, 3, -3]);
}

#[test]
fn effect_chain_runs_stages_in_order() {
    let s = stream(vec![32767, 32767, 32767, 32767], 8000, 1);
    let p = params((1, 1), (1, 2), 2, (1, 2));
    let out = apply_effects(&s, &p);
    assert_eq!(out.samples, vec![20290, 28986, 32767, 28986]);
}

#[test]
fn runs_are_deterministic() {
    let input = encode(&stream(vec![100, -200, 30000, -30000, 5, 6], 11025, 2)).unwrap();
    let p = params((3, 2), (1, 3), 3, (1, 2));
    let a = transform(None, &input, &p).unwrap();
    let b = transform(None, &input, &p).unwrap();
    assert_eq!(a, b);
}

#[test]
fn fallback_uses_wav_header() {
    let input = encode(&stream(vec![1, 2, 3, 4, 5, 6], 44100, 3)).unwrap();
    let s = decode(None, &input).unwrap();
    assert_eq!(s.sample_rate, 44100);
    assert_eq!(s.channels, 3);
    assert_eq!(s.samples, vec![1, 2, 3, 4, 5, 6]);
}

#[test]
fn primary_codec_takes_priority() {
    let input = encode(&stream(vec![1, 2], 44100, 2)).unwrap();
    let primary = stream(vec![9, 9, 9], 24000, 1);
    let s = decode(Some(primary), &input).unwrap();
    assert_eq!(s.sample_rate, 24000);
    assert_eq!(s.channels, 1);
    assert_eq!(s.samples, vec![9, 9, 9]);
}

#[test]
fn unknown_bytes_are_unsupported() {
    let garbage = vec![0x49, 0x44, 0x33, 0, 1, 2, 3];
    assert_eq!(decode(None, &garbage).unwrap_err(), DecodeError::UnsupportedFormat);
    let p = params((1, 1), (1, 1), 1, (0, 1));
    assert_eq!(
        transform(None, &garbage, &p).unwrap_err(),
        PipelineError::Decode(DecodeError::UnsupportedFormat)
    );
}

#[test]
fn invalid_parameters_are_reported_first() {
    let garbage = vec![1, 2, 3];
    for p in [
        params((0, 1), (1, 1), 1, (0, 1)),
        params((1, 0), (1, 1), 1, (0, 1)),
        params((1, 1), (0, 1), 1, (0, 1)),
        params((1, 1), (3, 2), 1, (0, 1)),
        params((1, 1), (1, 1), 0, (0, 1)),
        params((1, 1), (1, 1), 1, (2, 1)),
    ] {
        assert!(!p.is_valid());
        assert_eq!(transform(None, &garbage, &p).unwrap_err(), PipelineError::InvalidParameters);
    }
}

#[test]
fn oversized_output_is_a_write_failure() {
    let primary = stream(vec![0; 3000], 8000, 1);
    let p = params((1, 1_000_000), (1, 1), 1, (0, 1));
    assert_eq!(
        transform(Some(primary), &[], &p).unwrap_err(),
        PipelineError::Encode(EncodeError::WriteFailed)
    );
}

#[test]
fn malformed_streams_are_refused() {
    assert!(PcmStream::new(vec![1, 2, 3], 8000, 2).is_none());
    assert!(PcmStream::new(vec![1, 2], 0, 2).is_none());
    assert!(PcmStream::new(vec![1, 2], 8000, 0).is_none());
}

fn silent_mp3(frames: usize) -> Vec<u8> {
    let mut bytes = Vec::new();
    for _ in 0..frames {
        bytes.extend_from_slice(&[0xFF, 0xFB, 0x90, 0xC4]);
        bytes.extend(std::iter::repeat(0u8).take(413));
    }
    bytes
}

#[test]
fn mp3_input_is_decoded_first() {
    let s = decode_mp3(&silent_mp3(12)).unwrap();
    assert_eq!(s.sample_rate, 44100);
    assert_eq!(s.channels, 1);
    assert!(!s.samples.is_empty());
    assert_eq!(s.samples.len() % 1152, 0);
    assert!(s.samples.iter().all(|&x| x == 0));
    let d = decode_bytes(&silent_mp3(12)).unwrap();
    assert_eq!(d.sample_rate, 44100);
}

#[test]
fn wav_input_falls_back_past_mp3() {
    let input = encode(&stream(vec![0; 1600], 16000, 1)).unwrap();
    assert!(decode_mp3(&input).is_none());
    let s = decode_bytes(&input).unwrap();
    assert_eq!(s.sample_rate, 16000);
    assert_eq!(s.channels, 1);
    let p = params((1, 1), (1, 1), 100, (0, 1));
    let out = transform_bytes(&input, &p).unwrap();
    assert_eq!(out, transform(None, &input, &p).unwrap());
    assert_eq!(u32_at(&out, 24), 16000);
    assert_eq!(u32_at(&out, 40), 3200);
}

#[test]
fn neither_codec_accepts_noise() {
    let noise: Vec<u8> = (0..200u32).map(|i| (i * 7 % 13) as u8).collect();
    assert!(decode_mp3(&noise).is_none());
    assert_eq!(decode_bytes(&noise).unwrap_err(), DecodeError::UnsupportedFormat);
    let p = params((1, 1), (1, 1), 1, (0, 1));
    assert_eq!(
        transform_bytes(&noise, &p).unwrap_err(),
        PipelineError::Decode(DecodeError::UnsupportedFormat)
    );
    let bad = params((1, 1), (1, 1), 0, (0, 1));
    assert_eq!(transform_bytes(&noise, &bad).unwrap_err(), PipelineError::InvalidParameters);
}
