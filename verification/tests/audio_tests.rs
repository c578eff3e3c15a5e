//! End-to-end tests of the codec, the signal operations and the pipelines.

use audio_mixer::mixer::{apply_fade, apply_volume, mix_samples, Volume};
use audio_mixer::mulaw::{mu_law_decode, mu_law_encode};
use audio_mixer::{create_silence, mix_audio_streams, reduce_volume, AudioMixerConfig};

fn half() -> Volume {
    Volume::new(1, 2)
}

fn unit() -> Volume {
    Volume::new(1, 1)
}

fn plain_config() -> AudioMixerConfig {
    AudioMixerConfig::new(unit(), unit(), 0, 0, 8000)
}

#[test]
fn test_apply_volume() {
    assert_eq!(apply_volume(1000, half()), 500);
    assert_eq!(apply_volume(1000, unit()), 1000);
    assert_eq!(apply_volume(1000, Volume::new(0, 1)), 0);
}

#[test]
fn test_mix_samples() {
    let s1 = vec![1000, 2000, 3000];
    let s2 = vec![500, 1000, 1500];
    let mixed = mix_samples(&s1, &s2);
    assert_eq!(mixed, vec![1500, 3000, 4500]);
}

#[test]
fn test_mulaw_roundtrip() {
    // Test that encoding and decoding preserves values (approximately)
    // Mu-law is a lossy compression algorithm optimized for speech signals
    // Test values in the typical speech range (-8000 to +8000) where mu-law performs well
    let test_values = vec![
        -8000, -4000, -2000, -1000, -500, -250, -128, -64, -32, -16, -8, -4, -2, -1, 0, 1, 2, 4,
        8, 16, 32, 64, 128, 250, 500, 1000, 2000, 4000, 8000,
    ];

    for i in test_values {
        let encoded = mu_law_encode(i);
        let decoded = mu_law_decode(encoded);
        // Mu-law is lossy, so we check for approximate equality
        let diff = (i - decoded).abs() as u16;
        let max_diff = 20000u16;
        assert!(
            diff < max_diff,
            "Difference too large: {} vs {} (diff: {})",
            i,
            decoded,
            diff
        );
    }

    // Also test that the functions don't panic for extreme values
    let _ = mu_law_encode(i16::MIN);
    let _ = mu_law_encode(i16::MAX);
    let _ = mu_law_decode(0u8);
    let _ = mu_law_decode(255u8);
}

#[test]
fn test_codec_total_and_bounded() {
    // Every byte decodes to a sample well inside the 16-bit range.
    for b in 0..=255u8 {
        let s = mu_law_decode(b);
        assert!((-32124..=32124).contains(&s));
    }
    // Every sample encodes, and the round trip never strays more than 16797.
    let mut s = i16::MIN;
    loop {
        let decoded = mu_law_decode(mu_law_encode(s)) as i32;
        let diff = decoded - s as i32;
        assert!((-16797..=16797).contains(&diff), "sample {}: diff {}", s, diff);
        if s == i16::MAX {
            break;
        }
        s += 1;
    }
}

#[test]
fn test_codec_exact_values() {
    assert_eq!(mu_law_decode(0xff), 0);
    assert_eq!(mu_law_decode(0x00), -32124);
    assert_eq!(mu_law_encode(0), 0xfb);
    assert_eq!(mu_law_encode(i16::MAX), 0x88);
    assert_eq!(mu_law_decode(0x88), 23932);
    assert_eq!(mu_law_encode(i16::MIN), 0x08);
    assert_eq!(mu_law_decode(0x08), -23932);
}

#[test]
fn test_apply_volume_zero_for_any_sample() {
    let zero = Volume::new(0, 7);
    for s in [i16::MIN, -1234, -1, 0, 1, 1234, i16::MAX] {
        assert_eq!(apply_volume(s, zero), 0);
    }
}

#[test]
fn test_apply_volume_saturates() {
    let double = Volume::new(2, 1);
    assert_eq!(apply_volume(i16::MAX, double), i16::MAX);
    assert_eq!(apply_volume(i16::MIN, double), i16::MIN);
    assert_eq!(apply_volume(i16::MIN, unit()), i16::MIN);
    assert_eq!(apply_volume(1000, Volume::new(500, 1000)), 500);
    assert_eq!(apply_volume(-1000, half()), -500);
}

#[test]
fn test_mix_saturation() {
    assert_eq!(mix_samples(&[i16::MAX], &[i16::MAX]), vec![i16::MAX]);
    assert_eq!(mix_samples(&[i16::MIN], &[i16::MIN]), vec![i16::MIN]);
    assert_eq!(mix_samples(&[i16::MAX], &[i16::MIN]), vec![-1]);
}

#[test]
fn test_mix_unequal_lengths() {
    let mixed = mix_samples(&[1000, 2000, 3000], &[500]);
    assert_eq!(mixed, vec![1500, 2000, 3000]);
    let mixed = mix_samples(&[], &[7, 8]);
    assert_eq!(mixed, vec![7, 8]);
}

#[test]
fn test_apply_fade_zero_counts_is_identity() {
    let buffer = vec![5, -6, 7];
    assert_eq!(apply_fade(&buffer, 0, 0), buffer);
}

#[test]
fn test_apply_fade_ramps() {
    // Fade-in scales by i / fade_in; fade-out by distance-from-end / fade_out.
    assert_eq!(apply_fade(&[1000, 1000, 1000, 1000], 2, 2), vec![0, 500, 500, 0]);
    // Overlapping windows apply both scalings in sequence.
    assert_eq!(apply_fade(&[1000, 1000], 2, 2), vec![0, 0]);
    // Counts past the buffer length only reach the samples that exist.
    assert_eq!(apply_fade(&[1000, 1000], 5, 0), vec![0, 200]);
    assert_eq!(apply_fade(&[-1000, -1000, -1000], 3, 0), vec![0, -333, -666]);
}

#[test]
fn test_create_silence() {
    assert_eq!(create_silence(0, 8000), "");
    assert_eq!(create_silence(3, 1000), "////");
    assert_eq!(create_silence(1, 8000), "//////////8=");
    // A zero sample rate covers no samples.
    assert_eq!(create_silence(1000, 0), "");
}

#[test]
fn test_silence_decodes_to_zero() {
    // 0xFF is the mu-law code for the zero sample, so decoded silence is flat.
    assert_eq!(mu_law_decode(0xff), 0);
}

#[test]
fn test_reduce_volume_exact() {
    // "//8=" encodes the bytes [0xFF, 0xFF]: two zero samples. Zero scaled is
    // zero, and the zero sample re-encodes as 0xFB, so the result is the
    // boundary encoding of [0xFB, 0xFB].
    assert_eq!(reduce_volume("//8=", half()), "+/s=");
    assert_eq!(reduce_volume("", half()), "");
}

#[test]
fn test_mix_audio_streams_exact() {
    let config = plain_config();
    // Two zero samples mixed with empty audio re-encode as 0xFB each.
    assert_eq!(mix_audio_streams("//8=", "", &config), "+/s=");
    assert_eq!(mix_audio_streams("", "//8=", &config), "+/s=");
    assert_eq!(mix_audio_streams("", "", &config), "");
}

#[test]
fn test_mix_audio_streams_applies_fades() {
    // "iIg=" encodes [0x88, 0x88]: two samples that decode to 23932. A 25 ms
    // fade at 8000 samples/s is a 200-sample window, so both samples fall in
    // it. Fading in scales them to 0 and 23932/200 = 119, which re-encode as
    // 0xFB and 0xDB; fading out mirrors the pair.
    let fade_in = AudioMixerConfig::new(unit(), unit(), 25, 0, 8000);
    assert_eq!(mix_audio_streams("", "iIg=", &fade_in), "+9s=");
    let fade_out = AudioMixerConfig::new(unit(), unit(), 0, 25, 8000);
    assert_eq!(mix_audio_streams("", "iIg=", &fade_out), "2/s=");
}

#[test]
fn test_mix_audio_streams_scales_the_whisper_stream() {
    // The whisper samples decode to 23932 and are halved to 11966; the biased
    // magnitude of 11966 clips at the mu-law ceiling, so the halved samples
    // re-encode to the very bytes they came from.
    let config = AudioMixerConfig::new(half(), unit(), 0, 0, 8000);
    assert_eq!(mix_audio_streams("", "iIg=", &config), "iIg=");
    assert_eq!(mu_law_encode(11966), 0x88);
    // A quarter lands below the ceiling: 23932/4 = 5983 re-encodes as 0x8A,
    // and [0x8A, 0x8A] is the boundary text "ioo=". Attenuating one stream
    // agrees with mixing it against empty audio.
    let quarter = Volume::new(1, 4);
    assert_eq!(mu_law_encode(5983), 0x8a);
    let config = AudioMixerConfig::new(quarter, unit(), 0, 0, 8000);
    assert_eq!(mix_audio_streams("", "iIg=", &config), "ioo=");
    assert_eq!(reduce_volume("iIg=", quarter), "ioo=");
}

#[test]
fn test_malformed_boundary_input_degrades_to_empty() {
    let config = plain_config();
    let malformed = "!!!not boundary text!!!";
    assert_eq!(
        mix_audio_streams(malformed, "//8=", &config),
        mix_audio_streams("", "//8=", &config)
    );
    assert_eq!(
        mix_audio_streams("//8=", malformed, &config),
        mix_audio_streams("//8=", "", &config)
    );
    assert_eq!(reduce_volume(malformed, half()), reduce_volume("", half()));
    assert_eq!(reduce_volume(malformed, half()), "");
}
