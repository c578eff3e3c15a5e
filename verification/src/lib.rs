//! Narrowband voice audio processing: a mu-law codec, per-sample signal
//! operations (volume, fades, saturating mix), and the pipelines that compose
//! them — mix two streams, attenuate one stream, synthesize silence — on
//! boundary-encoded byte buffers.

pub mod boundary;
pub mod mixer;
pub mod mulaw;

use vstd::prelude::*;

verus! {

use crate::boundary::{b64_decode_of, b64_encode_of, base64_decode, base64_encode};
use crate::mixer::{Volume, apply_volume, mix_samples, mix_seq, scale_spec, ramp_spec, to_ints,
    ramp, lemma_scale_identity};
use crate::mulaw::{mu_law_decode, mu_law_encode, mu_law_decode_spec, mu_law_encode_spec};
use vstd::arithmetic::div_mod::lemma_div_of0;

/// The immutable mixing configuration: volume multipliers for the overlay
/// ("whisper") and original streams, fade durations in milliseconds, and the
/// sample rate in samples per second.
pub struct AudioMixerConfig {
    pub whisper_volume: Volume,
    pub original_volume: Volume,
    pub fade_in_ms: u32,
    pub fade_out_ms: u32,
    pub sample_rate: u32,
}

impl AudioMixerConfig {
    /// Both multipliers denote values.
    pub open spec fn wf(self) -> bool {
        self.whisper_volume.wf() && self.original_volume.wf()
    }

    pub fn new(
        whisper_volume: Volume,
        original_volume: Volume,
        fade_in_ms: u32,
        fade_out_ms: u32,
        sample_rate: u32,
    ) -> (c: AudioMixerConfig)
        requires
            whisper_volume.wf(),
            original_volume.wf(),
        ensures
            c.whisper_volume == whisper_volume,
            c.original_volume == original_volume,
            c.fade_in_ms == fade_in_ms,
            c.fade_out_ms == fade_out_ms,
            c.sample_rate == sample_rate,
            c.wf(),
    {
        AudioMixerConfig { whisper_volume, original_volume, fade_in_ms, fade_out_ms, sample_rate }
    }
}

/// The byte buffer a boundary text stands for: its decoding, or the empty
/// buffer when the text is malformed. Malformed boundary input degrades to
/// empty audio instead of failing.
pub open spec fn decoded_or_empty(s: Seq<char>) -> Seq<u8> {
    match b64_decode_of(s) {
        Some(b) => b,
        None => Seq::empty(),
    }
}

/// How many samples a duration in milliseconds covers at a sample rate:
/// `floor((ms / 1000) * rate)`.
pub open spec fn sample_count_spec(ms: int, rate: int) -> int {
    (ms * rate) / 1000
}

/// The linear samples of a mu-law byte buffer.
pub open spec fn decode_seq(bytes: Seq<u8>) -> Seq<int> {
    Seq::new(bytes.len(), |i: int| mu_law_decode_spec(bytes[i] as int))
}

/// Every sample scaled by one volume multiplier.
pub open spec fn scale_seq(samples: Seq<int>, volume: Volume) -> Seq<int> {
    Seq::new(samples.len(), |i: int| scale_spec(samples[i], volume.num as int, volume.den as int))
}

/// The mu-law bytes of a linear sample buffer.
pub open spec fn encode_seq(samples: Seq<int>) -> Seq<u8> {
    Seq::new(samples.len(), |i: int| mu_law_encode_spec(samples[i]) as u8)
}

/// The fade the mixing pipeline applies to one overlay sample. The fade-in
/// window is checked first, so a sample inside both windows only ramps up;
/// the fade-out window is the last `fout` positions of the buffer.
pub open spec fn pipeline_fade_spec(v: int, i: int, len: int, fin: int, fout: int) -> int {
    if i < fin {
        ramp_spec(v, i, fin)
    } else if fout > 0 && i + fout >= len {
        ramp_spec(v, len - 1 - i, fout)
    } else {
        v
    }
}

/// The overlay ("whisper") stream after decoding, volume scaling and fades.
pub open spec fn whisper_stage_spec(bytes: Seq<u8>, config: AudioMixerConfig) -> Seq<int> {
    let n = bytes.len() as int;
    let fin = sample_count_spec(config.fade_in_ms as int, config.sample_rate as int);
    let fout = sample_count_spec(config.fade_out_ms as int, config.sample_rate as int);
    Seq::new(
        bytes.len(),
        |i: int|
            pipeline_fade_spec(
                scale_spec(
                    mu_law_decode_spec(bytes[i] as int),
                    config.whisper_volume.num as int,
                    config.whisper_volume.den as int,
                ),
                i,
                n,
                fin,
                fout,
            ),
    )
}

/// The mixed output bytes for two decoded input buffers: decode both streams,
/// scale and fade the overlay, scale the original, mix with saturation, and
/// re-encode.
pub open spec fn mix_bytes_spec(original: Seq<u8>, whisper: Seq<u8>, config: AudioMixerConfig) -> Seq<
    u8,
> {
    encode_seq(
        mix_seq(
            scale_seq(decode_seq(original), config.original_volume),
            whisper_stage_spec(whisper, config),
        ),
    )
}

/// The attenuated output bytes for one decoded input buffer.
pub open spec fn reduce_bytes_spec(bytes: Seq<u8>, volume: Volume) -> Seq<u8> {
    encode_seq(scale_seq(decode_seq(bytes), volume))
}

/// A silent buffer: one `0xFF` byte — the mu-law code for zero amplitude —
/// per sample the duration covers.
pub open spec fn silence_bytes_spec(duration_ms: int, sample_rate: int) -> Seq<u8> {
    Seq::new(sample_count_spec(duration_ms, sample_rate) as nat, |i: int| 255u8)
}

/// Decode boundary text, substituting the empty buffer for malformed text.
fn decode_boundary(input: &str) -> (r: Vec<u8>)
    ensures
        r@ == decoded_or_empty(input@),
{
    match base64_decode(input) {
        Some(v) => v,
        None => Vec::new(),
    }
}

/// The sample count of a duration, as a value.
fn sample_count(ms: u32, rate: u32) -> (r: u64)
    ensures
        r as int == sample_count_spec(ms as int, rate as int),
{
    assert((ms as u64) * (rate as u64) <= 0xffff_ffffu64 * 0xffff_ffffu64) by (nonlinear_arith)
        requires
            ms as u64 <= 0xffff_ffffu64,
            rate as u64 <= 0xffff_ffffu64,
    ;
    ((ms as u64) * (rate as u64)) / 1000
}

/// Decode every byte of a mu-law buffer.
fn decode_samples(bytes: &Vec<u8>) -> (r: Vec<i16>)
    ensures
        r@.len() == bytes@.len(),
        forall|i: int| 0 <= i < r@.len() ==> r@[i] as int == mu_law_decode_spec(bytes@[i] as int),
{
    let mut samples: Vec<i16> = Vec::new();
    let mut i: usize = 0;
    while i < bytes.len()
        invariant
            i <= bytes@.len(),
            samples@.len() == i,
            forall|j: int|
                0 <= j < i ==> samples@[j] as int == mu_law_decode_spec(bytes@[j] as int),
        decreases bytes@.len() - i,
    {
        samples.push(mu_law_decode(bytes[i]));
        i += 1;
    }
    samples
}

/// Encode every sample of a linear buffer.
fn encode_samples(samples: &Vec<i16>) -> (r: Vec<u8>)
    ensures
        r@.len() == samples@.len(),
        forall|i: int|
            0 <= i < r@.len() ==> r@[i] as int == mu_law_encode_spec(samples@[i] as int),
{
    let mut bytes: Vec<u8> = Vec::new();
    let mut i: usize = 0;
    while i < samples.len()
        invariant
            i <= samples@.len(),
            bytes@.len() == i,
            forall|j: int|
                0 <= j < i ==> bytes@[j] as int == mu_law_encode_spec(samples@[j] as int),
        decreases samples@.len() - i,
    {
        bytes.push(mu_law_encode(samples[i]));
        i += 1;
    }
    bytes
}

/// Scale every sample of a buffer by one volume multiplier.
fn scale_samples(samples: &Vec<i16>, volume: Volume) -> (r: Vec<i16>)
    requires
        volume.wf(),
    ensures
        r@.len() == samples@.len(),
        forall|i: int|
            0 <= i < r@.len() ==> r@[i] as int == scale_spec(
                samples@[i] as int,
                volume.num as int,
                volume.den as int,
            ),
{
    let mut scaled: Vec<i16> = Vec::new();
    let mut i: usize = 0;
    while i < samples.len()
        invariant
            volume.wf(),
            i <= samples@.len(),
            scaled@.len() == i,
            forall|j: int|
                0 <= j < i ==> scaled@[j] as int == scale_spec(
                    samples@[j] as int,
                    volume.num as int,
                    volume.den as int,
                ),
        decreases samples@.len() - i,
    {
        scaled.push(apply_volume(samples[i], volume));
        i += 1;
    }
    scaled
}

/// Mix two boundary-encoded mu-law streams: the overlay ("whisper") stream is
/// volume-scaled and faded, the original stream is volume-scaled, the two are
/// summed with saturation, and the result is re-encoded. Malformed boundary
/// text on either input degrades to empty audio.
pub fn mix_audio_streams(original_audio: &str, whisper_audio: &str, config: &AudioMixerConfig) -> (r:
    String)
    requires
        config.wf(),
    ensures
        r@ == b64_encode_of(
            mix_bytes_spec(
                decoded_or_empty(original_audio@),
                decoded_or_empty(whisper_audio@),
                *config,
            ),
        ),
{
    let original_bytes = decode_boundary(original_audio);
    let whisper_bytes = decode_boundary(whisper_audio);

    let fade_in_samples: u64 = sample_count(config.fade_in_ms, config.sample_rate);
    let fade_out_samples: u64 = sample_count(config.fade_out_ms, config.sample_rate);

    let original_samples = decode_samples(&original_bytes);
    let whisper_samples = decode_samples(&whisper_bytes);

    let whisper_len = whisper_samples.len();
    let mut scaled_whisper: Vec<i16> = Vec::new();
    let mut i: usize = 0;
    while i < whisper_len
        invariant
            config.wf(),
            i <= whisper_len,
            whisper_len == whisper_samples@.len(),
            whisper_samples@.len() == whisper_bytes@.len(),
            forall|j: int|
                0 <= j < whisper_len ==> whisper_samples@[j] as int == mu_law_decode_spec(
                    whisper_bytes@[j] as int,
                ),
            fade_in_samples as int == sample_count_spec(
                config.fade_in_ms as int,
                config.sample_rate as int,
            ),
            fade_out_samples as int == sample_count_spec(
                config.fade_out_ms as int,
                config.sample_rate as int,
            ),
            scaled_whisper@.len() == i,
            forall|j: int|
                0 <= j < i ==> scaled_whisper@[j] as int == whisper_stage_spec(
                    whisper_bytes@,
                    *config,
                )[j],
        decreases whisper_len - i,
    {
        let sample = whisper_samples[i];
        let mut scaled = apply_volume(sample, config.whisper_volume);
        if (i as u64) < fade_in_samples {
            scaled = ramp(scaled, i as u64, fade_in_samples);
        } else if fade_out_samples > 0 && (i as u128) + (fade_out_samples as u128) >= (
        whisper_len as u128) {
            scaled = ramp(scaled, (whisper_len - 1 - i) as u64, fade_out_samples);
        }
        scaled_whisper.push(scaled);
        i += 1;
    }

    let scaled_original: Vec<i16> = if config.original_volume.num != config.original_volume.den {
        scale_samples(&original_samples, config.original_volume)
    } else {
        original_samples
    };
    proof {
        if config.original_volume.num == config.original_volume.den {
            assert forall|j: int| 0 <= j < scaled_original@.len() implies scaled_original@[j] as int
                == scale_spec(
                scaled_original@[j] as int,
                config.original_volume.num as int,
                config.original_volume.den as int,
            ) by {
                lemma_scale_identity(
                    scaled_original@[j] as int,
                    config.original_volume.num as int,
                );
            }
        }
    }

    let mixed_samples = mix_samples(scaled_original.as_slice(), scaled_whisper.as_slice());
    let mixed_bytes = encode_samples(&mixed_samples);
    let encoded = base64_encode(mixed_bytes.as_slice());
    proof {
        let ob = original_bytes@;
        let wb = whisper_bytes@;
        assert(to_ints(scaled_original@) =~= scale_seq(decode_seq(ob), config.original_volume));
        assert(to_ints(scaled_whisper@) =~= whisper_stage_spec(wb, *config));
        assert(mixed_bytes@ =~= mix_bytes_spec(ob, wb, *config));
    }
    encoded
}

/// Attenuate one boundary-encoded mu-law stream: decode, scale every sample
/// by the multiplier, re-encode. Malformed boundary text degrades to empty
/// audio.
pub fn reduce_volume(audio: &str, volume: Volume) -> (r: String)
    requires
        volume.wf(),
    ensures
        r@ == b64_encode_of(reduce_bytes_spec(decoded_or_empty(audio@), volume)),
{
    let bytes = decode_boundary(audio);
    let samples = decode_samples(&bytes);
    let scaled = scale_samples(&samples, volume);
    let output = encode_samples(&scaled);
    proof {
        assert(output@ =~= reduce_bytes_spec(bytes@, volume));
    }
    base64_encode(output.as_slice())
}

/// Synthesize a silent buffer: one `0xFF` byte per sample the duration
/// covers, boundary-encoded. A zero duration yields the encoding of the
/// empty buffer.
pub fn create_silence(duration_ms: u32, sample_rate: u32) -> (r: String)
    ensures
        r@ == b64_encode_of(silence_bytes_spec(duration_ms as int, sample_rate as int)),
        duration_ms == 0 ==> r@ == b64_encode_of(Seq::<u8>::empty()),
{
    let num_samples: u64 = sample_count(duration_ms, sample_rate);
    let mut silence: Vec<u8> = Vec::new();
    let mut i: u64 = 0;
    while i < num_samples
        invariant
            i <= num_samples,
            silence@.len() == i,
            forall|j: int| 0 <= j < i ==> silence@[j] == 255u8,
        decreases num_samples - i,
    {
        silence.push(255);
        i += 1;
    }
    proof {
        assert(silence@ =~= silence_bytes_spec(duration_ms as int, sample_rate as int));
        if duration_ms == 0 {
            assert(0 * (sample_rate as int) == 0) by (nonlinear_arith);
            lemma_div_of0(1000);
            assert(silence_bytes_spec(duration_ms as int, sample_rate as int) =~= Seq::<
                u8,
            >::empty());
        }
    }
    base64_encode(silence.as_slice())
}

/// Malformed boundary text stands for no byte buffer, so the pipelines read
/// it as empty audio.
pub proof fn lemma_malformed_is_empty_audio(s: Seq<char>)
    requires
        b64_decode_of(s) is None,
    ensures
        decoded_or_empty(s) == Seq::<u8>::empty(),
{
}

/// Feeding malformed boundary text to the mixing pipeline yields exactly the
/// mix with that stream replaced by empty audio.
pub proof fn lemma_mix_malformed(original: Seq<char>, whisper: Seq<char>, config: AudioMixerConfig)
    ensures
        b64_decode_of(original) is None ==> mix_bytes_spec(
            decoded_or_empty(original),
            decoded_or_empty(whisper),
            config,
        ) == mix_bytes_spec(Seq::<u8>::empty(), decoded_or_empty(whisper), config),
        b64_decode_of(whisper) is None ==> mix_bytes_spec(
            decoded_or_empty(original),
            decoded_or_empty(whisper),
            config,
        ) == mix_bytes_spec(decoded_or_empty(original), Seq::<u8>::empty(), config),
{
}

/// Feeding malformed boundary text to the attenuation pipeline yields exactly
/// the attenuation of empty audio.
pub proof fn lemma_reduce_malformed(audio: Seq<char>, volume: Volume)
    ensures
        b64_decode_of(audio) is None ==> reduce_bytes_spec(decoded_or_empty(audio), volume)
            == reduce_bytes_spec(Seq::<u8>::empty(), volume),
{
}

/// Decoded, a silent buffer is all-zero: `0xFF` is the mu-law code of the
/// zero sample.
pub proof fn lemma_silence_decodes_to_zero(duration_ms: int, sample_rate: int, i: int)
    requires
        0 <= i < silence_bytes_spec(duration_ms, sample_rate).len(),
    ensures
        mu_law_decode_spec(silence_bytes_spec(duration_ms, sample_rate)[i] as int) == 0,
{
}

} // verus!
