//! The voice-effect chain: an ordered, capacity-bounded list of effect
//! descriptors applied in insertion order to each block, with derived load
//! and quality metrics.

use vstd::prelude::*;
use std::collections::VecDeque;
use crate::fixed::{
    abs_i, clamp_spec, clamp_i64, div_trunc, div_trunc_i64, exp_neg_q, lemma_qmul_bound,
    lemma_qmul_sign, lemma_qdiv_bound, lemma_qdiv_sign, qdiv, qmul, seq_int, sin_turn,
    spec_exp_neg, spec_pitch_ratio, spec_qdiv, spec_qmul, spec_sin_turn, spec_sqrt_q, sqrt_q,
    wrap_turn, Q, SAMPLE_LIMIT,
};
use crate::delay::min_int;
use crate::voicefx::{
    block_bounded, chorus_sum, formant_block, formant_state, modulation_out, phase_after,
    reverb_out_at, reverb_state, spatial_m, spec_chorus_delay, spec_formant_coef,
    spec_pitch_sample, spec_reverb_delay, voice_state, FormantProcessor, ModulationProcessor,
    PitchProcessor, SpatialModel, SpatialProcessor, MAX_BLOCK,
};

verus! {

/// Latencies recorded into the rolling history are capped here (about
/// eighteen minutes in nanoseconds), so a hundred of them always sum within
/// range.
pub const LATENCY_CAP: u64 = 1099511627776;

/// Quality/latency trade-off of the chain.
#[derive(Debug, Clone, Copy, PartialEq, Eq, Structural)]
pub enum QualityPreset {
    UltraLow,
    Low,
    Medium,
    High,
    Ultra,
}

/// Configuration of the voice-effect chain.
#[derive(Debug, Clone)]
pub struct NeuralConfig {
    /// Samples per second.
    pub sample_rate: u32,
    /// Preferred block size.
    pub buffer_size: usize,
    /// The capacity of the effect chain.
    pub max_effects: usize,
    pub quality_preset: QualityPreset,
    pub enable_real_time: bool,
}

impl NeuralConfig {
    pub open spec fn wf(&self) -> bool {
        &&& 8000 <= self.sample_rate <= 1000000
        &&& self.max_effects <= 256
    }
}

impl Default for NeuralConfig {
    fn default() -> (d: NeuralConfig)
        ensures
            d.wf(),
            d.sample_rate == 44100,
            d.buffer_size == 512,
            d.max_effects == 8,
            d.quality_preset == QualityPreset::Medium,
            d.enable_real_time,
    {
        NeuralConfig {
            sample_rate: 44100,
            buffer_size: 512,
            max_effects: 8,
            quality_preset: QualityPreset::Medium,
            enable_real_time: true,
        }
    }
}

/// One voice-effect descriptor; Q16 fields carry the unit noted in `wf`.
#[derive(Debug, Clone, Copy, PartialEq, Eq, Structural)]
pub enum VoiceEffect {
    /// Q16 semitones in `[-12, 12]`.
    PitchShift(i64),
    /// Q16 shift in `[-2, 2]`.
    FormantShift(i64),
    /// Q16: gender and age in `[-1, 1]`, roughness in `[0, 1]`.
    VoiceChanger { gender: i64, age: i64, roughness: i64 },
    /// Q16 amounts in `[0, 1]`.
    Harmonics { overtones: i64, undertones: i64, distortion: i64 },
    /// Q16: rates in `[0, 20]` hertz, depths in `[0, 1]`.
    Modulation { vibrato_rate: i64, vibrato_depth: i64, tremolo_rate: i64, tremolo_depth: i64 },
    /// Q16 amounts in `[0, 1]`.
    Reverb { room_size: i64, damping: i64, wet_level: i64 },
    /// Two to eight voices; Q16 delay in `[10, 100]` milliseconds, depth in
    /// `[0, 1]`, rate in `[0.1, 5]` hertz.
    Chorus { voices: u32, delay: i64, depth: i64, rate: i64 },
    /// Q16 amounts in `[0, 1]`.
    Distortion { drive: i64, tone: i64, level: i64 },
    /// Q16 correction in `[0, 1]`, speed in `[0.1, 10]`; a chromatic key from
    /// `0` to `11`.
    AutoTune { correction: i64, speed: i64, key: i32 },
}

impl VoiceEffect {
    /// The documented parameter ranges of each descriptor.
    pub open spec fn wf(&self) -> bool {
        match *self {
            VoiceEffect::PitchShift(s) => -12 * Q as int <= s <= 12 * Q as int,
            VoiceEffect::FormantShift(sh) => -2 * Q as int <= sh <= 2 * Q as int,
            VoiceEffect::VoiceChanger { gender, age, roughness } => {
                &&& -(Q as int) <= gender <= Q
                &&& -(Q as int) <= age <= Q
                &&& 0 <= roughness <= Q
            },
            VoiceEffect::Harmonics { overtones, undertones, distortion } => {
                &&& 0 <= overtones <= Q
                &&& 0 <= undertones <= Q
                &&& 0 <= distortion <= Q
            },
            VoiceEffect::Modulation { vibrato_rate, vibrato_depth, tremolo_rate, tremolo_depth } => {
                &&& 0 <= vibrato_rate <= 20 * Q as int
                &&& 0 <= vibrato_depth <= Q
                &&& 0 <= tremolo_rate <= 20 * Q as int
                &&& 0 <= tremolo_depth <= Q
            },
            VoiceEffect::Reverb { room_size, damping, wet_level } => {
                &&& 0 <= room_size <= Q
                &&& 0 <= damping <= Q
                &&& 0 <= wet_level <= Q
            },
            VoiceEffect::Chorus { voices, delay, depth, rate } => {
                &&& 2 <= voices <= 8
                &&& 10 * Q as int <= delay <= 100 * Q as int
                &&& 0 <= depth <= Q
                &&& 6554 <= rate <= 5 * Q as int
            },
            VoiceEffect::Distortion { drive, tone, level } => {
                &&& 0 <= drive <= Q
                &&& 0 <= tone <= Q
                &&& 0 <= level <= Q
            },
            VoiceEffect::AutoTune { correction, speed, key } => {
                &&& 0 <= correction <= Q
                &&& 6554 <= speed <= 10 * Q as int
                &&& 0 <= key <= 11
            },
        }
    }
}

impl Default for VoiceEffect {
    fn default() -> (d: VoiceEffect)
        ensures
            d == VoiceEffect::PitchShift(0),
    {
        VoiceEffect::PitchShift(0)
    }
}

/// What one processed block reports back.
#[derive(Debug, Clone)]
pub struct NeuralProcessingResult {
    pub output: Vec<i64>,
    /// Wall-clock nanoseconds the block took, capped at `LATENCY_CAP`.
    pub latency_ns: u64,
    /// Q16 percentage in `[0, 100]`.
    pub neural_engine_load: i64,
    pub effects_applied: Vec<VoiceEffect>,
    /// Q16 score in `[0, 1]`.
    pub quality_score: i64,
}

// ---------------------------------------------------------------------------
// Stateless per-sample recipes.
// ---------------------------------------------------------------------------

/// One voice-morph sample: gain from gender, an age rolloff, and a sinusoidal
/// roughness wobble, saturated at full scale.
pub open spec fn spec_morph_out(x: int, i: int, gender: int, age: int, roughness: int, inc: int) -> int {
    let gm = Q as int + spec_qmul(gender, 19661);
    let af = Q as int - spec_qmul(abs_i(age), 13107);
    let rf = Q as int + spec_qmul(roughness, spec_qmul(spec_sin_turn((i * inc) % (Q as int)), 6554));
    clamp_spec(spec_qmul(spec_qmul(spec_qmul(x, gm), af), rf), -(Q as int), Q as int)
}

/// The power-law curve of the harmonics stage: a blend from the identity
/// toward the square root as the distortion amount grows.
pub open spec fn spec_power_law(x: int, d: int) -> int {
    x + spec_qmul(d, spec_sqrt_q(x) - x)
}

/// One harmonics sample: an optionally power-law-shaped body plus fixed-ratio
/// overtones and undertones, scaled by `0.7` and saturated at full scale.
pub open spec fn spec_harmonics_out(
    x: int,
    i: int,
    overtones: int,
    undertones: int,
    distortion: int,
    rate: int,
) -> int {
    let t2 = div_trunc(2 * i * Q as int, rate) % (Q as int);
    let t3 = div_trunc(3 * i * Q as int, rate) % (Q as int);
    let t4 = div_trunc(4 * i * Q as int, rate) % (Q as int);
    let th = div_trunc(i * Q as int, 2 * rate) % (Q as int);
    let tq = div_trunc(i * Q as int, 4 * rate) % (Q as int);
    let ov1 = spec_qmul(spec_qmul(overtones, 19661), spec_sin_turn(t2));
    let ov2 = spec_qmul(spec_qmul(overtones, 13107), spec_sin_turn(t3));
    let ov3 = spec_qmul(spec_qmul(overtones, 6554), spec_sin_turn(t4));
    let un1 = spec_qmul(spec_qmul(undertones, 13107), spec_sin_turn(th));
    let un2 = spec_qmul(spec_qmul(undertones, 6554), spec_sin_turn(tq));
    let body = if distortion > 0 {
        if x >= 0 {
            spec_power_law(x, distortion)
        } else {
            -spec_power_law(-x, distortion)
        }
    } else {
        x
    };
    clamp_spec(
        spec_qmul(body + ov1 + ov2 + ov3 + un1 + un2, 45875),
        -(Q as int),
        Q as int,
    )
}

/// One distortion sample: a drive boost into an exponential soft clip, tone
/// and level scaling, saturated at full scale.
pub open spec fn spec_distortion_out(x: int, drive: int, tone: int, level: int) -> int {
    let driven = spec_qmul(x, Q as int + 10 * drive);
    let soft = if driven > 0 {
        Q as int - spec_exp_neg(driven)
    } else {
        -(Q as int) + spec_exp_neg(-driven)
    };
    let toned = spec_qmul(soft, Q as int + spec_qmul(tone, 32768));
    clamp_spec(spec_qmul(toned, level), -(Q as int), Q as int)
}

/// The chromatic scale the tuner nudges toward, Q16 hertz from C4 upward.
pub open spec fn spec_note_freq(key: int) -> int {
    if key == 0 {
        17146184
    } else if key == 1 {
        18165268
    } else if key == 2 {
        19245302
    } else if key == 3 {
        20390216
    } else if key == 4 {
        21602632
    } else if key == 5 {
        22887137
    } else if key == 6 {
        24247665
    } else if key == 7 {
        25690112
    } else if key == 8 {
        27217101
    } else if key == 9 {
        28835840
    } else if key == 10 {
        30550262
    } else {
        32366920
    }
}

/// One tuned sample: a sinusoidal correction toward the key's frequency,
/// smoothed against the previous output by the speed, saturated at full
/// scale.
pub open spec fn spec_autotune_out(
    xs: Seq<int>,
    correction: int,
    speed: int,
    key: int,
    rate: int,
    i: int,
) -> int
    decreases i,
{
    let target = spec_note_freq(key);
    let t = div_trunc(i * spec_qmul(target, 10430), rate) % (Q as int);
    let factor = Q as int + spec_qmul(spec_qmul(correction, 6554), spec_sin_turn(t));
    let corrected = spec_qmul(xs[i], factor);
    let smoothed = if i > 0 {
        spec_qmul(corrected, speed) + spec_qmul(
            spec_autotune_out(xs, correction, speed, key, rate, i - 1),
            Q as int - speed,
        )
    } else {
        corrected
    };
    clamp_spec(smoothed, -(Q as int), Q as int)
}

// ---------------------------------------------------------------------------
// Derived metrics.
// ---------------------------------------------------------------------------

/// The fixed complexity weight of each effect kind.
pub open spec fn spec_effect_weight(e: VoiceEffect) -> int {
    match e {
        VoiceEffect::PitchShift(..) => 15,
        VoiceEffect::FormantShift(..) => 20,
        VoiceEffect::VoiceChanger { .. } => 25,
        VoiceEffect::Harmonics { .. } => 30,
        VoiceEffect::Modulation { .. } => 10,
        VoiceEffect::Reverb { .. } => 35,
        VoiceEffect::Chorus { .. } => 20,
        VoiceEffect::Distortion { .. } => 5,
        VoiceEffect::AutoTune { .. } => 40,
    }
}

/// The summed weight of the first `k` effects.
pub open spec fn spec_weight_sum(s: Seq<VoiceEffect>, k: int) -> int
    decreases k,
{
    if k <= 0 {
        0
    } else {
        spec_weight_sum(s, k - 1) + spec_effect_weight(s[k - 1])
    }
}

/// The Q16 load multiplier of each quality preset.
pub open spec fn spec_quality_multiplier(p: QualityPreset) -> int {
    match p {
        QualityPreset::UltraLow => 32768,
        QualityPreset::Low => 45875,
        QualityPreset::Medium => 65536,
        QualityPreset::High => 85197,
        QualityPreset::Ultra => 117965,
    }
}

/// The engine load: ten points per effect plus the per-kind weights, scaled
/// by the preset multiplier and capped at one hundred, as a Q16 percentage.
pub open spec fn spec_neural_load(s: Seq<VoiceEffect>, p: QualityPreset) -> int {
    min_int(
        6553600,
        spec_qmul(
            (10 * s.len() + spec_weight_sum(s, s.len() as int)) * Q as int,
            spec_quality_multiplier(p),
        ),
    )
}

/// How many of the first `k` samples clip past `0.95`.
pub open spec fn spec_count_clipped(s: Seq<int>, k: int) -> int
    decreases k,
{
    if k <= 0 {
        0
    } else {
        spec_count_clipped(s, k - 1) + if abs_i(s[k - 1]) > 62259 {
            1int
        } else {
            0int
        }
    }
}

/// The largest magnitude among the first `k` samples.
pub open spec fn spec_peak(s: Seq<int>, k: int) -> int
    decreases k,
{
    if k <= 0 {
        0
    } else if abs_i(s[k - 1]) > spec_peak(s, k - 1) {
        abs_i(s[k - 1])
    } else {
        spec_peak(s, k - 1)
    }
}

/// The summed magnitude of the first `k` samples.
pub open spec fn spec_abs_sum(s: Seq<int>, k: int) -> int
    decreases k,
{
    if k <= 0 {
        0
    } else {
        spec_abs_sum(s, k - 1) + abs_i(s[k - 1])
    }
}

/// The quality score: one, minus the clipping fraction, minus a penalty past
/// five effects, plus a capped dynamic-range bonus, clamped into `[0, 1]`.
/// An empty block counts no clipping and a unit dynamic range.
pub open spec fn spec_quality_score(out: Seq<int>, n_effects: int) -> int {
    let len = out.len() as int;
    let clip = if len > 0 {
        spec_count_clipped(out, len) * Q as int / len
    } else {
        0
    };
    let avg = if len > 0 {
        spec_abs_sum(out, len) / len
    } else {
        0
    };
    let dr = if avg > 0 {
        spec_qdiv(spec_peak(out, len), avg)
    } else {
        Q as int
    };
    let pen = if n_effects > 5 {
        (n_effects - 5) * 6554
    } else {
        0
    };
    let bonus = min_int(dr - Q as int, 13107);
    clamp_spec(Q as int - clip - pen + bonus, 0, Q as int)
}

// ---------------------------------------------------------------------------
// The chain as mathematics.
// ---------------------------------------------------------------------------

/// The internal memory of the chain: the three formant resonators, the two
/// modulation oscillators, and the spatial queues.
#[verifier::ext_equal]
pub struct ChainSt {
    pub f1: (int, int),
    pub f2: (int, int),
    pub f3: (int, int),
    pub f1c: int,
    pub f1b: int,
    pub f2c: int,
    pub f2b: int,
    pub f3c: int,
    pub f3b: int,
    pub vib: int,
    pub trem: int,
    pub spatial: SpatialModel,
    pub rate: int,
}

/// The chain memory a processor value stands for.
pub open spec fn chain_m(p: NeuralVoiceProcessor) -> ChainSt {
    ChainSt {
        f1: (p.formant_processor.f1.s0 as int, p.formant_processor.f1.s1 as int),
        f2: (p.formant_processor.f2.s0 as int, p.formant_processor.f2.s1 as int),
        f3: (p.formant_processor.f3.s0 as int, p.formant_processor.f3.s1 as int),
        f1c: p.formant_processor.f1.center_freq as int,
        f1b: p.formant_processor.f1.bandwidth as int,
        f2c: p.formant_processor.f2.center_freq as int,
        f2b: p.formant_processor.f2.bandwidth as int,
        f3c: p.formant_processor.f3.center_freq as int,
        f3b: p.formant_processor.f3.bandwidth as int,
        vib: p.modulation_processor.vibrato_phase as int,
        trem: p.modulation_processor.tremolo_phase as int,
        spatial: spatial_m(p.spatial_processor),
        rate: p.config.sample_rate as int,
    }
}

/// One effect over one block: the chain memory afterward and the output.
pub open spec fn chain_step(st: ChainSt, xs: Seq<int>, e: VoiceEffect) -> (ChainSt, Seq<int>) {
    match e {
        VoiceEffect::PitchShift(s) => (
            st,
            Seq::new(xs.len(), |i: int| spec_pitch_sample(xs, i, spec_pitch_ratio(s as int))),
        ),
        VoiceEffect::FormantShift(sh) => {
            let c1 = spec_formant_coef(st.f1c, st.f1b, sh as int);
            let c2 = spec_formant_coef(st.f2c, st.f2b, sh as int);
            let c3 = spec_formant_coef(st.f3c, st.f3b, sh as int);
            let m1 = formant_block(st.f1.0, st.f1.1, c1, xs);
            let m2 = formant_block(st.f2.0, st.f2.1, c2, m1);
            let m3 = formant_block(st.f3.0, st.f3.1, c3, m2);
            (
                ChainSt {
                    f1: formant_state(st.f1.0, st.f1.1, c1, xs, xs.len() as int),
                    f2: formant_state(st.f2.0, st.f2.1, c2, m1, m1.len() as int),
                    f3: formant_state(st.f3.0, st.f3.1, c3, m2, m2.len() as int),
                    ..st
                },
                m3,
            )
        },
        VoiceEffect::VoiceChanger { gender, age, roughness } => (
            st,
            Seq::new(
                xs.len(),
                |i: int|
                    spec_morph_out(
                        xs[i],
                        i,
                        gender as int,
                        age as int,
                        roughness as int,
                        div_trunc(1043038, st.rate),
                    ),
            ),
        ),
        VoiceEffect::Harmonics { overtones, undertones, distortion } => (
            st,
            Seq::new(
                xs.len(),
                |i: int|
                    spec_harmonics_out(
                        xs[i],
                        i,
                        overtones as int,
                        undertones as int,
                        distortion as int,
                        st.rate,
                    ),
            ),
        ),
        VoiceEffect::Modulation { vibrato_rate, vibrato_depth, tremolo_rate, tremolo_depth } => {
            let vinc = div_trunc(vibrato_rate as int, st.rate);
            let tinc = div_trunc(tremolo_rate as int, st.rate);
            (
                ChainSt {
                    vib: phase_after(st.vib, vinc, xs.len() as int),
                    trem: phase_after(st.trem, tinc, xs.len() as int),
                    ..st
                },
                Seq::new(
                    xs.len(),
                    |i: int|
                        modulation_out(xs[i], tremolo_depth as int, phase_after(st.trem, tinc, i)),
                ),
            )
        },
        VoiceEffect::Reverb { room_size, damping, wet_level } => {
            let ds = spec_reverb_delay(room_size as int, st.rate);
            (
                ChainSt {
                    spatial: SpatialModel {
                        reverb: reverb_state(st.spatial.reverb, xs, ds, xs.len() as int),
                        voices: st.spatial.voices,
                    },
                    ..st
                },
                Seq::new(
                    xs.len(),
                    |i: int|
                        reverb_out_at(st.spatial.reverb, xs, ds, damping as int, wet_level as int, i),
                ),
            )
        },
        VoiceEffect::Chorus { voices, delay, depth, rate } => {
            let ds = spec_chorus_delay(delay as int, st.rate);
            let inc = div_trunc(rate as int, st.rate);
            (
                ChainSt {
                    spatial: SpatialModel {
                        reverb: st.spatial.reverb,
                        voices: Seq::new(
                            8,
                            |v: int|
                                if v < voices as int {
                                    voice_state(
                                        st.spatial.voices[v].0,
                                        st.spatial.voices[v].1,
                                        xs,
                                        ds,
                                        depth as int,
                                        inc,
                                        xs.len() as int,
                                    )
                                } else {
                                    st.spatial.voices[v]
                                },
                        ),
                    },
                    ..st
                },
                Seq::new(
                    xs.len(),
                    |i: int|
                        div_trunc(
                            xs[i] + chorus_sum(
                                st.spatial.voices,
                                voices as int,
                                xs,
                                ds,
                                depth as int,
                                inc,
                                i,
                            ),
                            voices as int + 1,
                        ),
                ),
            )
        },
        VoiceEffect::Distortion { drive, tone, level } => (
            st,
            Seq::new(
                xs.len(),
                |i: int| spec_distortion_out(xs[i], drive as int, tone as int, level as int),
            ),
        ),
        VoiceEffect::AutoTune { correction, speed, key } => (
            st,
            Seq::new(
                xs.len(),
                |i: int|
                    spec_autotune_out(xs, correction as int, speed as int, key as int, st.rate, i),
            ),
        ),
    }
}

/// The first `k` effects of a chain folded over a block.
pub open spec fn chain_run(st: ChainSt, xs: Seq<int>, es: Seq<VoiceEffect>, k: int) -> (
    ChainSt,
    Seq<int>,
)
    decreases k,
{
    if k <= 0 {
        (st, xs)
    } else {
        let prev = chain_run(st, xs, es, k - 1);
        chain_step(prev.0, prev.1, es[k - 1])
    }
}

/// The kept chain elements that do not equal `e`, among the first `k`.
pub open spec fn spec_retain_ne(s: Seq<VoiceEffect>, e: VoiceEffect, k: int) -> Seq<VoiceEffect>
    decreases k,
{
    if k <= 0 {
        Seq::empty()
    } else {
        let rest = spec_retain_ne(s, e, k - 1);
        if s[k - 1] == e {
            rest
        } else {
            rest.push(s[k - 1])
        }
    }
}

proof fn lemma_retain_ne_facts(s: Seq<VoiceEffect>, e: VoiceEffect, k: int)
    requires
        0 <= k <= s.len(),
        forall|i: int| 0 <= i < s.len() ==> (#[trigger] s[i]).wf(),
    ensures
        spec_retain_ne(s, e, k).len() <= k,
        forall|i: int|
            0 <= i < spec_retain_ne(s, e, k).len() ==> (#[trigger] spec_retain_ne(s, e, k)[i]).wf(),
    decreases k,
{
    if k > 0 {
        lemma_retain_ne_facts(s, e, k - 1);
    }
}

/// An opaque monotonic timestamp from the standard library.
#[verifier::external_type_specification]
#[verifier::external_body]
pub struct ExInstant(std::time::Instant);

/// Relies on std::time::Instant::now: an opaque timestamp of this moment.
/// Nothing can be promised of a clock reading.
#[verifier::external_body]
fn clock_now() -> std::time::Instant {
    std::time::Instant::now()
}

/// Relies on std::time::Instant::elapsed: the wall-clock nanoseconds since
/// `start`, saturated into a `u64`. Nothing can be promised of a clock
/// reading.
#[verifier::external_body]
fn nanos_since(start: &std::time::Instant) -> u64 {
    let nanos = start.elapsed().as_nanos();
    if nanos > u64::MAX as u128 {
        u64::MAX
    } else {
        nanos as u64
    }
}

/// The total of the first `k` recorded latencies.
pub open spec fn spec_lat_sum(s: Seq<u64>, k: int) -> int
    decreases k,
{
    if k <= 0 {
        0
    } else {
        spec_lat_sum(s, k - 1) + s[k - 1]
    }
}

/// The total of the first `k` recorded loads.
pub open spec fn spec_load_sum(s: Seq<i64>, k: int) -> int
    decreases k,
{
    if k <= 0 {
        0
    } else {
        spec_load_sum(s, k - 1) + s[k - 1]
    }
}

/// The ordered, capacity-bounded voice-effect chain with its per-effect
/// processors and rolling performance histories.
#[derive(Debug)]
pub struct NeuralVoiceProcessor {
    pub config: NeuralConfig,
    pub is_processing: bool,
    pub effects_chain: Vec<VoiceEffect>,
    /// Rolling history of block latencies, newest last, at most one hundred.
    pub processing_times: VecDeque<u64>,
    /// Rolling history of reported loads; reporting only.
    pub neural_loads: VecDeque<i64>,
    pub pitch_processor: PitchProcessor,
    pub formant_processor: FormantProcessor,
    pub modulation_processor: ModulationProcessor,
    pub spatial_processor: SpatialProcessor,
}

impl NeuralVoiceProcessor {
    /// The chain never exceeds its configured capacity; every held descriptor
    /// is within its documented ranges; the processors and histories are
    /// within theirs.
    pub open spec fn wf(&self) -> bool {
        &&& self.config.wf()
        &&& self.effects_chain@.len() <= self.config.max_effects
        &&& forall|i: int|
            0 <= i < self.effects_chain@.len() ==> (#[trigger] self.effects_chain@[i]).wf()
        &&& self.formant_processor.wf()
        &&& self.modulation_processor.wf()
        &&& self.spatial_processor.wf()
        &&& self.modulation_processor.sample_rate == self.config.sample_rate
        &&& self.spatial_processor.sample_rate == self.config.sample_rate
        &&& self.processing_times@.len() <= 100
        &&& forall|i: int|
            0 <= i < self.processing_times@.len() ==> #[trigger] self.processing_times@[i]
                <= LATENCY_CAP
        &&& self.neural_loads@.len() <= 100
        &&& forall|i: int|
            0 <= i < self.neural_loads@.len() ==> 0 <= #[trigger] self.neural_loads@[i] <= 6553600
    }

    /// A fresh chain: empty, idle, with silent processor memory. Construction
    /// always succeeds; the software processors have nothing to probe.
    pub fn new(config: NeuralConfig) -> (r: Result<NeuralVoiceProcessor, String>)
        requires
            config.wf(),
        ensures
            r is Ok,
            (r->Ok_0).wf(),
            (r->Ok_0).config == config,
            !(r->Ok_0).is_processing,
            (r->Ok_0).effects_chain@ == Seq::<VoiceEffect>::empty(),
            (r->Ok_0).processing_times@.len() == 0,
            (r->Ok_0).neural_loads@.len() == 0,
    {
        let sample_rate = config.sample_rate;
        Ok(
            NeuralVoiceProcessor {
                config,
                is_processing: false,
                effects_chain: Vec::new(),
                processing_times: VecDeque::new(),
                neural_loads: VecDeque::new(),
                pitch_processor: PitchProcessor::new(sample_rate),
                formant_processor: FormantProcessor::new(sample_rate),
                modulation_processor: ModulationProcessor::new(sample_rate),
                spatial_processor: SpatialProcessor::new(sample_rate),
            },
        )
    }

    /// Append an effect. A chain already at its capacity rejects the add and
    /// stays exactly as it was; otherwise the effect lands at the end.
    pub fn add_effect(&mut self, effect: VoiceEffect) -> (r: Result<(), String>)
        requires
            old(self).wf(),
            effect.wf(),
        ensures
            final(self).wf(),
            old(self).effects_chain@.len() >= old(self).config.max_effects ==> r is Err
                && *final(self) == *old(self),
            old(self).effects_chain@.len() < old(self).config.max_effects ==> r is Ok
                && final(self).effects_chain@ == old(self).effects_chain@.push(effect)
                && *final(self) == (NeuralVoiceProcessor {
                    effects_chain: final(self).effects_chain,
                    ..*old(self)
                }),
    {
        if self.effects_chain.len() >= self.config.max_effects {
            return Err("the effect chain is at its configured capacity".to_owned());
        }
        self.effects_chain.push(effect);
        Ok(())
    }

    /// Remove every descriptor structurally equal to `effect`, keeping the
    /// order of the rest.
    pub fn remove_effect(&mut self, effect: &VoiceEffect)
        requires
            old(self).wf(),
        ensures
            final(self).wf(),
            final(self).effects_chain@ == spec_retain_ne(
                old(self).effects_chain@,
                *effect,
                old(self).effects_chain@.len() as int,
            ),
            *final(self) == (NeuralVoiceProcessor {
                effects_chain: final(self).effects_chain,
                ..*old(self)
            }),
    {
        let mut kept: Vec<VoiceEffect> = Vec::new();
        let len = self.effects_chain.len();
        let mut i: usize = 0;
        while i < len
            invariant
                0 <= i <= len,
                len == self.effects_chain@.len(),
                *self == *old(self),
                kept@ == spec_retain_ne(old(self).effects_chain@, *effect, i as int),
            decreases len - i,
        {
            let e = self.effects_chain[i];
            if !(e == *effect) {
                kept.push(e);
            }
            i = i + 1;
        }
        proof {
            lemma_retain_ne_facts(old(self).effects_chain@, *effect, len as int);
        }
        self.effects_chain = kept;
    }

    /// Empty the chain.
    pub fn clear_effects(&mut self)
        requires
            old(self).wf(),
        ensures
            final(self).wf(),
            final(self).effects_chain@ == Seq::<VoiceEffect>::empty(),
            *final(self) == (NeuralVoiceProcessor {
                effects_chain: final(self).effects_chain,
                ..*old(self)
            }),
    {
        self.effects_chain.clear();
    }

    /// Per-sample gain morphing: gender, age rolloff, sinusoidal roughness.
    fn apply_voice_transformation(&self, input: &Vec<i64>, gender: i64, age: i64, roughness: i64) -> (out: Vec<i64>)
        requires
            self.wf(),
            -(Q as int) <= gender <= Q,
            -(Q as int) <= age <= Q,
            0 <= roughness <= Q,
            input@.len() <= MAX_BLOCK,
            block_bounded(seq_int(input@)),
        ensures
            out@.len() == input@.len(),
            block_bounded(seq_int(out@)),
            forall|i: int|
                0 <= i < out@.len() ==> #[trigger] seq_int(out@)[i] == spec_morph_out(
                    seq_int(input@)[i],
                    i,
                    gender as int,
                    age as int,
                    roughness as int,
                    div_trunc(1043038, self.config.sample_rate as int),
                ),
    {
        let inc = div_trunc_i64(1043038, self.config.sample_rate as i64);
        proof {
            crate::fixed::lemma_div_trunc_sign(1043038, self.config.sample_rate as int);
            crate::fixed::lemma_div_trunc_bound(1043038, self.config.sample_rate as int, 1043038);
        }
        let gm = Q + qmul(gender, 19661);
        let aa = if age < 0 {
            -age
        } else {
            age
        };
        let af = Q - qmul(aa, 13107);
        proof {
            lemma_qmul_bound(gender as int, 19661, Q as int, 19661);
            lemma_qmul_bound(aa as int, 13107, Q as int, 13107);
            lemma_qmul_sign(aa as int, 13107);
        }
        let mut out: Vec<i64> = Vec::new();
        let len = input.len();
        let mut i: usize = 0;
        while i < len
            invariant
                0 <= i <= len,
                len == input@.len() <= MAX_BLOCK,
                block_bounded(seq_int(input@)),
                0 <= roughness <= Q,
                0 <= inc <= 1043038 && inc as int == div_trunc(
                    1043038,
                    self.config.sample_rate as int,
                ),
                gm as int == Q as int + spec_qmul(gender as int, 19661),
                af as int == Q as int - spec_qmul(abs_i(age as int), 13107),
                45875 <= gm <= 85197,
                52429 <= af <= Q,
                out@.len() == i,
                forall|j: int|
                    0 <= j < i ==> #[trigger] (out@[j]) as int == spec_morph_out(
                        seq_int(input@)[j],
                        j,
                        gender as int,
                        age as int,
                        roughness as int,
                        inc as int,
                    ),
                forall|j: int| 0 <= j < i ==> abs_i(#[trigger] (out@[j]) as int) <= SAMPLE_LIMIT,
            decreases len - i,
        {
            let x = input[i];
            proof {
                assert(0 <= (i as int) * (inc as int) <= 0x40000000 * 1043038int)
                    by (nonlinear_arith)
                    requires
                        0 <= i as int <= 0x40000000,
                        0 <= inc as int <= 1043038,
                ;
            }
            let turn = wrap_turn((i as i64) * inc);
            let s = sin_turn(turn);
            let wob = qmul(s, 6554);
            proof {
                lemma_qmul_bound(s as int, 6554, Q as int, 6554);
            }
            proof {
                lemma_qmul_bound(roughness as int, wob as int, Q as int, 6554);
            }
            let rf = Q + qmul(roughness, wob);
            proof {
                assert(seq_int(input@)[i as int] == x as int);
                assert(abs_i(x as int) <= SAMPLE_LIMIT);
                lemma_qmul_bound(x as int, gm as int, SAMPLE_LIMIT as int, 85197);
            }
            let p1 = qmul(x, gm);
            proof {
                lemma_qmul_bound(p1 as int, af as int, 87241728, Q as int);
            }
            let p2 = qmul(p1, af);
            proof {
                lemma_qmul_bound(p2 as int, rf as int, 87241728, 72090);
            }
            let p3 = qmul(p2, rf);
            let y = clamp_i64(p3, -Q, Q);
            out.push(y);
            i = i + 1;
        }
        proof {
            assert forall|j: int| 0 <= j < out@.len() implies #[trigger] seq_int(out@)[j]
                == spec_morph_out(
                seq_int(input@)[j],
                j,
                gender as int,
                age as int,
                roughness as int,
                inc as int,
            ) by {
                assert(seq_int(out@)[j] == out@[j] as int);
            }
            assert forall|j: int| 0 <= j < out@.len() implies abs_i(
                #[trigger] seq_int(out@)[j],
            ) <= SAMPLE_LIMIT by {
                assert(seq_int(out@)[j] == out@[j] as int);
            }
        }
        out
    }

    /// Fixed-ratio overtones and undertones over an optionally power-law
    /// shaped body.
    #[verifier::rlimit(100)]
    #[verifier::spinoff_prover]
    fn apply_harmonic_enhancement(&self, input: &Vec<i64>, overtones: i64, undertones: i64, distortion: i64) -> (out: Vec<i64>)
        requires
            self.wf(),
            0 <= overtones <= Q,
            0 <= undertones <= Q,
            0 <= distortion <= Q,
            input@.len() <= MAX_BLOCK,
            block_bounded(seq_int(input@)),
        ensures
            out@.len() == input@.len(),
            block_bounded(seq_int(out@)),
            forall|i: int|
                0 <= i < out@.len() ==> #[trigger] seq_int(out@)[i] == spec_harmonics_out(
                    seq_int(input@)[i],
                    i,
                    overtones as int,
                    undertones as int,
                    distortion as int,
                    self.config.sample_rate as int,
                ),
    {
        let rate = self.config.sample_rate as i64;
        let w1 = qmul(overtones, 19661);
        let w2 = qmul(overtones, 13107);
        let w3 = qmul(overtones, 6554);
        let w4 = qmul(undertones, 13107);
        let w5 = qmul(undertones, 6554);
        proof {
            lemma_qmul_bound(overtones as int, 19661, Q as int, 19661);
            lemma_qmul_bound(overtones as int, 13107, Q as int, 13107);
            lemma_qmul_bound(overtones as int, 6554, Q as int, 6554);
            lemma_qmul_bound(undertones as int, 13107, Q as int, 13107);
            lemma_qmul_bound(undertones as int, 6554, Q as int, 6554);
        }
        let mut out: Vec<i64> = Vec::new();
        let len = input.len();
        let mut i: usize = 0;
        while i < len
            invariant
                0 <= i <= len,
                len == input@.len() <= MAX_BLOCK,
                block_bounded(seq_int(input@)),
                0 <= distortion <= Q,
                rate == self.config.sample_rate as i64,
                8000 <= rate <= 1000000,
                w1 as int == spec_qmul(overtones as int, 19661) && abs_i(w1 as int) <= 19661,
                w2 as int == spec_qmul(overtones as int, 13107) && abs_i(w2 as int) <= 13107,
                w3 as int == spec_qmul(overtones as int, 6554) && abs_i(w3 as int) <= 6554,
                w4 as int == spec_qmul(undertones as int, 13107) && abs_i(w4 as int) <= 13107,
                w5 as int == spec_qmul(undertones as int, 6554) && abs_i(w5 as int) <= 6554,
                out@.len() == i,
                forall|j: int|
                    0 <= j < i ==> #[trigger] (out@[j]) as int == spec_harmonics_out(
                        seq_int(input@)[j],
                        j,
                        overtones as int,
                        undertones as int,
                        distortion as int,
                        rate as int,
                    ),
                forall|j: int| 0 <= j < i ==> abs_i(#[trigger] (out@[j]) as int) <= SAMPLE_LIMIT,
            decreases len - i,
        {
            let x = input[i];
            proof {
                assert(seq_int(input@)[i as int] == x as int);
                assert(abs_i(x as int) <= SAMPLE_LIMIT);
            }
            let base: i64 = (i as i64) * Q;
            let t2 = wrap_turn(div_trunc_i64(2 * base, rate));
            let t3 = wrap_turn(div_trunc_i64(3 * base, rate));
            let t4 = wrap_turn(div_trunc_i64(4 * base, rate));
            let th = wrap_turn(div_trunc_i64(base, 2 * rate));
            let tq = wrap_turn(div_trunc_i64(base, 4 * rate));
            proof {
                crate::fixed::lemma_div_trunc_sign(2 * base as int, rate as int);
                crate::fixed::lemma_div_trunc_sign(3 * base as int, rate as int);
                crate::fixed::lemma_div_trunc_sign(4 * base as int, rate as int);
                crate::fixed::lemma_div_trunc_sign(base as int, 2 * rate as int);
                crate::fixed::lemma_div_trunc_sign(base as int, 4 * rate as int);
            }
            let ov1 = qmul(w1, sin_turn(t2));
            let ov2 = qmul(w2, sin_turn(t3));
            let ov3 = qmul(w3, sin_turn(t4));
            let un1 = qmul(w4, sin_turn(th));
            let un2 = qmul(w5, sin_turn(tq));
            proof {
                lemma_qmul_bound(w1 as int, spec_sin_turn(t2 as int), 19661, Q as int);
                lemma_qmul_bound(w2 as int, spec_sin_turn(t3 as int), 13107, Q as int);
                lemma_qmul_bound(w3 as int, spec_sin_turn(t4 as int), 6554, Q as int);
                lemma_qmul_bound(w4 as int, spec_sin_turn(th as int), 13107, Q as int);
                lemma_qmul_bound(w5 as int, spec_sin_turn(tq as int), 6554, Q as int);
            }
            let body: i64 = if distortion > 0 {
                let ax = if x < 0 {
                    -x
                } else {
                    x
                };
                let root = sqrt_q(ax);
                proof {
                    assert(root as int <= 2097152) by (nonlinear_arith)
                        requires
                            0 <= root as int,
                            root as int * root as int <= 0x400_0000_0000,
                    ;
                    lemma_qmul_bound(
                        distortion as int,
                        root as int - ax as int,
                        Q as int,
                        SAMPLE_LIMIT as int + 2097152,
                    );
                }
                let pl = ax + qmul(distortion, root - ax);
                if x >= 0 {
                    pl
                } else {
                    -pl
                }
            } else {
                x
            };
            let sum = body + ov1 + ov2 + ov3 + un1 + un2;
            proof {
                lemma_qmul_bound(sum as int, 45875, 200000000, 45875);
            }
            let y = clamp_i64(qmul(sum, 45875), -Q, Q);
            proof {
                assert(y as int == spec_harmonics_out(
                    seq_int(input@)[i as int],
                    i as int,
                    overtones as int,
                    undertones as int,
                    distortion as int,
                    rate as int,
                ));
            }
            out.push(y);
            i = i + 1;
        }
        proof {
            assert forall|j: int| 0 <= j < out@.len() implies #[trigger] seq_int(out@)[j]
                == spec_harmonics_out(
                seq_int(input@)[j],
                j,
                overtones as int,
                undertones as int,
                distortion as int,
                rate as int,
            ) by {
                assert(seq_int(out@)[j] == out@[j] as int);
            }
            assert forall|j: int| 0 <= j < out@.len() implies abs_i(
                #[trigger] seq_int(out@)[j],
            ) <= SAMPLE_LIMIT by {
                assert(seq_int(out@)[j] == out@[j] as int);
            }
        }
        out
    }

    /// Drive into an exponential soft clip, then tone and level scaling.
    fn apply_distortion(&self, input: &Vec<i64>, drive: i64, tone: i64, level: i64) -> (out: Vec<i64>)
        requires
            self.wf(),
            0 <= drive <= Q,
            0 <= tone <= Q,
            0 <= level <= Q,
            input@.len() <= MAX_BLOCK,
            block_bounded(seq_int(input@)),
        ensures
            out@.len() == input@.len(),
            block_bounded(seq_int(out@)),
            forall|i: int|
                0 <= i < out@.len() ==> #[trigger] seq_int(out@)[i] == spec_distortion_out(
                    seq_int(input@)[i],
                    drive as int,
                    tone as int,
                    level as int,
                ),
    {
        let boost = Q + 10 * drive;
        let tone_gain = Q + qmul(tone, 32768);
        proof {
            lemma_qmul_bound(tone as int, 32768, Q as int, 32768);
            lemma_qmul_sign(tone as int, 32768);
        }
        let mut out: Vec<i64> = Vec::new();
        let len = input.len();
        let mut i: usize = 0;
        while i < len
            invariant
                0 <= i <= len,
                len == input@.len() <= MAX_BLOCK,
                block_bounded(seq_int(input@)),
                0 <= drive <= Q && 0 <= level <= Q,
                boost as int == Q as int + 10 * drive as int && Q <= boost <= 11 * Q as int,
                tone_gain as int == Q as int + spec_qmul(tone as int, 32768) && Q <= tone_gain <= 98304,
                out@.len() == i,
                forall|j: int|
                    0 <= j < i ==> #[trigger] (out@[j]) as int == spec_distortion_out(
                        seq_int(input@)[j],
                        drive as int,
                        tone as int,
                        level as int,
                    ),
                forall|j: int| 0 <= j < i ==> abs_i(#[trigger] (out@[j]) as int) <= SAMPLE_LIMIT,
            decreases len - i,
        {
            let x = input[i];
            proof {
                assert(seq_int(input@)[i as int] == x as int);
                assert(abs_i(x as int) <= SAMPLE_LIMIT);
                lemma_qmul_bound(x as int, boost as int, SAMPLE_LIMIT as int, 11 * Q as int);
            }
            let driven = qmul(x, boost);
            let soft: i64 = if driven > 0 {
                Q - exp_neg_q(driven)
            } else {
                -Q + exp_neg_q(-driven)
            };
            proof {
                lemma_qmul_bound(soft as int, tone_gain as int, Q as int, 98304);
            }
            let toned = qmul(soft, tone_gain);
            proof {
                lemma_qmul_bound(toned as int, level as int, 98304, Q as int);
            }
            let y = clamp_i64(qmul(toned, level), -Q, Q);
            out.push(y);
            i = i + 1;
        }
        proof {
            assert forall|j: int| 0 <= j < out@.len() implies #[trigger] seq_int(out@)[j]
                == spec_distortion_out(
                seq_int(input@)[j],
                drive as int,
                tone as int,
                level as int,
            ) by {
                assert(seq_int(out@)[j] == out@[j] as int);
            }
            assert forall|j: int| 0 <= j < out@.len() implies abs_i(
                #[trigger] seq_int(out@)[j],
            ) <= SAMPLE_LIMIT by {
                assert(seq_int(out@)[j] == out@[j] as int);
            }
        }
        out
    }

    /// A sinusoidal nudge toward one chromatic note, smoothed across samples.
    fn apply_autotune(&self, input: &Vec<i64>, correction: i64, speed: i64, key: i32) -> (out: Vec<i64>)
        requires
            self.wf(),
            0 <= correction <= Q,
            6554 <= speed <= 10 * Q as int,
            0 <= key <= 11,
            input@.len() <= MAX_BLOCK,
            block_bounded(seq_int(input@)),
        ensures
            out@.len() == input@.len(),
            block_bounded(seq_int(out@)),
            forall|i: int|
                0 <= i < out@.len() ==> #[trigger] seq_int(out@)[i] == spec_autotune_out(
                    seq_int(input@),
                    correction as int,
                    speed as int,
                    key as int,
                    self.config.sample_rate as int,
                    i,
                ),
    {
        let rate = self.config.sample_rate as i64;
        let target = note_freq(key);
        let tq = qmul(target, 10430);
        let cf = qmul(correction, 6554);
        proof {
            lemma_qmul_bound(target as int, 10430, 32366920, 10430);
            lemma_qmul_sign(target as int, 10430);
            lemma_qmul_bound(correction as int, 6554, Q as int, 6554);
        }
        let mut out: Vec<i64> = Vec::new();
        let mut prev: i64 = 0;
        let len = input.len();
        let mut i: usize = 0;
        while i < len
            invariant
                0 <= i <= len,
                len == input@.len() <= MAX_BLOCK,
                block_bounded(seq_int(input@)),
                0 <= correction <= Q && 6554 <= speed <= 10 * Q as int,
                0 <= key <= 11,
                rate == self.config.sample_rate as i64,
                8000 <= rate <= 1000000,
                tq as int == spec_qmul(spec_note_freq(key as int), 10430) && 0 <= tq <= 5151168,
                cf as int == spec_qmul(correction as int, 6554) && abs_i(cf as int) <= 6554,
                out@.len() == i,
                forall|j: int|
                    0 <= j < i ==> #[trigger] (out@[j]) as int == spec_autotune_out(
                        seq_int(input@),
                        correction as int,
                        speed as int,
                        key as int,
                        rate as int,
                        j,
                    ),
                forall|j: int| 0 <= j < i ==> abs_i(#[trigger] (out@[j]) as int) <= Q,
                i > 0 ==> prev as int == spec_autotune_out(
                    seq_int(input@),
                    correction as int,
                    speed as int,
                    key as int,
                    rate as int,
                    i as int - 1,
                ),
                i == 0 ==> prev == 0,
                abs_i(prev as int) <= Q,
            decreases len - i,
        {
            let x = input[i];
            proof {
                assert(seq_int(input@)[i as int] == x as int);
                assert(abs_i(x as int) <= SAMPLE_LIMIT);
                assert(0 <= (i as int) * (tq as int) <= 0x40000000 * 5151168int)
                    by (nonlinear_arith)
                    requires
                        0 <= i as int <= 0x40000000,
                        0 <= tq as int <= 5151168,
                ;
                crate::fixed::lemma_div_trunc_sign((i as int) * (tq as int), rate as int);
            }
            let t = wrap_turn(div_trunc_i64((i as i64) * tq, rate));
            let s = sin_turn(t);
            proof {
                lemma_qmul_bound(cf as int, s as int, 6554, Q as int);
            }
            let factor = Q + qmul(cf, s);
            proof {
                lemma_qmul_bound(x as int, factor as int, SAMPLE_LIMIT as int, 72090);
            }
            let corrected = qmul(x, factor);
            let smoothed: i64 = if i > 0 {
                proof {
                    lemma_qmul_bound(corrected as int, speed as int, 73820160, 655360);
                    lemma_qmul_bound(prev as int, Q as int - speed as int, Q as int, 589824);
                }
                qmul(corrected, speed) + qmul(prev, Q - speed)
            } else {
                corrected
            };
            let y = clamp_i64(smoothed, -Q, Q);
            proof {
                assert(y as int == spec_autotune_out(
                    seq_int(input@),
                    correction as int,
                    speed as int,
                    key as int,
                    rate as int,
                    i as int,
                ));
            }
            prev = y;
            out.push(y);
            i = i + 1;
        }
        proof {
            assert forall|j: int| 0 <= j < out@.len() implies #[trigger] seq_int(out@)[j]
                == spec_autotune_out(
                seq_int(input@),
                correction as int,
                speed as int,
                key as int,
                rate as int,
                j,
            ) by {
                assert(seq_int(out@)[j] == out@[j] as int);
            }
            assert forall|j: int| 0 <= j < out@.len() implies abs_i(
                #[trigger] seq_int(out@)[j],
            ) <= SAMPLE_LIMIT by {
                assert(seq_int(out@)[j] == out@[j] as int);
                assert(abs_i(out@[j] as int) <= Q);
            }
        }
        out
    }
}

impl NeuralVoiceProcessor {
    /// One effect over one block: dispatch to its algorithm, touching only
    /// the stage the descriptor names. Every algorithm is total, so the call
    /// always succeeds.
    pub fn apply_effect(&mut self, input: &Vec<i64>, effect: &VoiceEffect) -> (r: Result<
        Vec<i64>,
        String,
    >)
        requires
            old(self).wf(),
            effect.wf(),
            input@.len() <= MAX_BLOCK,
            block_bounded(seq_int(input@)),
        ensures
            final(self).wf(),
            r is Ok,
            (r->Ok_0)@.len() == input@.len(),
            block_bounded(seq_int((r->Ok_0)@)),
            chain_m(*final(self)) == chain_step(chain_m(*old(self)), seq_int(input@), *effect).0,
            seq_int((r->Ok_0)@) == chain_step(chain_m(*old(self)), seq_int(input@), *effect).1,
            final(self).effects_chain == old(self).effects_chain,
            final(self).config == old(self).config,
            final(self).is_processing == old(self).is_processing,
            final(self).processing_times == old(self).processing_times,
            final(self).neural_loads == old(self).neural_loads,
    {
        let ghost st0 = chain_m(*old(self));
        let ghost xs = seq_int(input@);
        match *effect {
            VoiceEffect::PitchShift(semitones) => {
                let out = self.pitch_processor.shift_pitch(input, semitones);
                proof {
                    assert(seq_int(out@) =~= chain_step(st0, xs, *effect).1);
                    assert(chain_m(*self) =~~= chain_step(st0, xs, *effect).0);
                }
                Ok(out)
            },
            VoiceEffect::FormantShift(shift) => {
                let out = self.formant_processor.shift_formants(input, shift);
                proof {
                    assert(seq_int(out@) == chain_step(st0, xs, *effect).1);
                    assert(chain_m(*self) =~~= chain_step(st0, xs, *effect).0);
                }
                Ok(out)
            },
            VoiceEffect::VoiceChanger { gender, age, roughness } => {
                let out = self.apply_voice_transformation(input, gender, age, roughness);
                proof {
                    assert(seq_int(out@) =~= chain_step(st0, xs, *effect).1);
                    assert(chain_m(*self) =~~= chain_step(st0, xs, *effect).0);
                }
                Ok(out)
            },
            VoiceEffect::Harmonics { overtones, undertones, distortion } => {
                let out = self.apply_harmonic_enhancement(input, overtones, undertones, distortion);
                proof {
                    assert(seq_int(out@) =~= chain_step(st0, xs, *effect).1);
                    assert(chain_m(*self) =~~= chain_step(st0, xs, *effect).0);
                }
                Ok(out)
            },
            VoiceEffect::Modulation { vibrato_rate, vibrato_depth, tremolo_rate, tremolo_depth } => {
                let out = self.modulation_processor.apply_modulation(
                    input,
                    vibrato_rate,
                    vibrato_depth,
                    tremolo_rate,
                    tremolo_depth,
                );
                proof {
                    assert(seq_int(out@) =~= chain_step(st0, xs, *effect).1);
                    assert(chain_m(*self) =~~= chain_step(st0, xs, *effect).0);
                }
                Ok(out)
            },
            VoiceEffect::Reverb { room_size, damping, wet_level } => {
                let out = self.spatial_processor.apply_reverb(input, room_size, damping, wet_level);
                proof {
                    assert(seq_int(out@) =~= chain_step(st0, xs, *effect).1);
                    assert(spatial_m(self.spatial_processor).voices =~= st0.spatial.voices);
                    assert(chain_m(*self) =~~= chain_step(st0, xs, *effect).0);
                }
                Ok(out)
            },
            VoiceEffect::Chorus { voices, delay, depth, rate } => {
                let out = self.spatial_processor.apply_chorus(input, voices, delay, depth, rate);
                proof {
                    assert(seq_int(out@) =~= chain_step(st0, xs, *effect).1);
                    assert(spatial_m(self.spatial_processor).voices =~= chain_step(
                        st0,
                        xs,
                        *effect,
                    ).0.spatial.voices);
                    assert(chain_m(*self) =~~= chain_step(st0, xs, *effect).0);
                }
                Ok(out)
            },
            VoiceEffect::Distortion { drive, tone, level } => {
                let out = self.apply_distortion(input, drive, tone, level);
                proof {
                    assert(seq_int(out@) =~= chain_step(st0, xs, *effect).1);
                    assert(chain_m(*self) =~~= chain_step(st0, xs, *effect).0);
                }
                Ok(out)
            },
            VoiceEffect::AutoTune { correction, speed, key } => {
                let out = self.apply_autotune(input, correction, speed, key);
                proof {
                    assert(seq_int(out@) =~= chain_step(st0, xs, *effect).1);
                    assert(chain_m(*self) =~~= chain_step(st0, xs, *effect).0);
                }
                Ok(out)
            },
        }
    }

    /// Process one block: apply the chain's effects in insertion order,
    /// record the block's wall-clock latency into the rolling history, and
    /// derive the load and quality metrics. The chain itself is untouched.
    pub fn process(&mut self, input: &Vec<i64>) -> (r: Result<NeuralProcessingResult, String>)
        requires
            old(self).wf(),
            input@.len() <= MAX_BLOCK,
            block_bounded(seq_int(input@)),
        ensures
            final(self).wf(),
            r is Ok,
            final(self).is_processing,
            final(self).effects_chain == old(self).effects_chain,
            final(self).config == old(self).config,
            final(self).neural_loads == old(self).neural_loads,
            chain_m(*final(self)) == chain_run(
                chain_m(*old(self)),
                seq_int(input@),
                old(self).effects_chain@,
                old(self).effects_chain@.len() as int,
            ).0,
            (r->Ok_0).output@.len() == input@.len(),
            block_bounded(seq_int((r->Ok_0).output@)),
            seq_int((r->Ok_0).output@) == chain_run(
                chain_m(*old(self)),
                seq_int(input@),
                old(self).effects_chain@,
                old(self).effects_chain@.len() as int,
            ).1,
            (r->Ok_0).effects_applied@ == old(self).effects_chain@,
            (r->Ok_0).neural_engine_load == spec_neural_load(
                old(self).effects_chain@,
                old(self).config.quality_preset,
            ),
            (r->Ok_0).quality_score == spec_quality_score(
                seq_int((r->Ok_0).output@),
                old(self).effects_chain@.len() as int,
            ),
            (r->Ok_0).latency_ns <= LATENCY_CAP,
            final(self).processing_times@ == if old(self).processing_times@.len() + 1 > 100 {
                old(self).processing_times@.push((r->Ok_0).latency_ns).subrange(
                    1,
                    old(self).processing_times@.len() as int + 1,
                )
            } else {
                old(self).processing_times@.push((r->Ok_0).latency_ns)
            },
    {
        let start = clock_now();
        self.is_processing = true;
        let mut output: Vec<i64> = Vec::new();
        let len = input.len();
        let mut c: usize = 0;
        while c < len
            invariant
                0 <= c <= len,
                len == input@.len(),
                output@.len() == c,
                forall|j: int| 0 <= j < c ==> output@[j] == input@[j],
            decreases len - c,
        {
            output.push(input[c]);
            c = c + 1;
        }
        proof {
            assert(output@ =~= input@);
        }
        let mut applied: Vec<VoiceEffect> = Vec::new();
        let n = self.effects_chain.len();
        proof {
            assert(applied@ =~= old(self).effects_chain@.subrange(0, 0));
        }
        let mut k: usize = 0;
        while k < n
            invariant
                0 <= k <= n,
                n == self.effects_chain@.len(),
                self.wf(),
                self.effects_chain == old(self).effects_chain,
                self.config == old(self).config,
                self.is_processing,
                self.processing_times == old(self).processing_times,
                self.neural_loads == old(self).neural_loads,
                output@.len() == input@.len(),
                input@.len() <= MAX_BLOCK,
                block_bounded(seq_int(input@)),
                block_bounded(seq_int(output@)),
                applied@ == old(self).effects_chain@.subrange(0, k as int),
                chain_m(*self) == chain_run(
                    chain_m(*old(self)),
                    seq_int(input@),
                    old(self).effects_chain@,
                    k as int,
                ).0,
                seq_int(output@) == chain_run(
                    chain_m(*old(self)),
                    seq_int(input@),
                    old(self).effects_chain@,
                    k as int,
                ).1,
            decreases n - k,
        {
            let e = self.effects_chain[k];
            let step = self.apply_effect(&output, &e);
            match step {
                Ok(o) => {
                    output = o;
                },
                Err(msg) => {
                    return Err(msg);
                },
            }
            applied.push(e);
            proof {
                assert(applied@ =~= old(self).effects_chain@.subrange(0, k as int + 1));
            }
            k = k + 1;
        }
        let t = nanos_since(&start);
        let latency: u64 = if t > LATENCY_CAP {
            LATENCY_CAP
        } else {
            t
        };
        self.update_performance_stats(latency);
        proof {
            assert(applied@ =~= old(self).effects_chain@);
        }
        let load = self.calculate_neural_load(&applied);
        let score = self.calculate_quality_score(&output, &applied);
        Ok(
            NeuralProcessingResult {
                output,
                latency_ns: latency,
                neural_engine_load: load,
                effects_applied: applied,
                quality_score: score,
            },
        )
    }

    /// The load metric: ten points per effect plus each kind's weight, scaled
    /// by the preset multiplier, capped at one hundred percent (Q16).
    fn calculate_neural_load(&self, effects: &Vec<VoiceEffect>) -> (r: i64)
        requires
            self.wf(),
            effects@.len() <= 256,
        ensures
            r as int == spec_neural_load(effects@, self.config.quality_preset),
            0 <= r <= 6553600,
    {
        let n = effects.len();
        let mut wsum: i64 = 0;
        let mut i: usize = 0;
        while i < n
            invariant
                0 <= i <= n,
                n == effects@.len() <= 256,
                wsum as int == spec_weight_sum(effects@, i as int),
                0 <= wsum <= 40 * i as int,
            decreases n - i,
        {
            let e = effects[i];
            let w: i64 = match e {
                VoiceEffect::PitchShift(..) => 15,
                VoiceEffect::FormantShift(..) => 20,
                VoiceEffect::VoiceChanger { .. } => 25,
                VoiceEffect::Harmonics { .. } => 30,
                VoiceEffect::Modulation { .. } => 10,
                VoiceEffect::Reverb { .. } => 35,
                VoiceEffect::Chorus { .. } => 20,
                VoiceEffect::Distortion { .. } => 5,
                VoiceEffect::AutoTune { .. } => 40,
            };
            wsum = wsum + w;
            i = i + 1;
        }
        let mult: i64 = match self.config.quality_preset {
            QualityPreset::UltraLow => 32768,
            QualityPreset::Low => 45875,
            QualityPreset::Medium => 65536,
            QualityPreset::High => 85197,
            QualityPreset::Ultra => 117965,
        };
        let total: i64 = (10 * (n as i64) + wsum) * Q;
        proof {
            lemma_qmul_bound(total as int, mult as int, 838860800, 117965);
            lemma_qmul_sign(total as int, mult as int);
        }
        let scaled = qmul(total, mult);
        if scaled > 6553600 {
            6553600
        } else {
            scaled
        }
    }

    /// The quality metric: one, minus the clipping fraction and the
    /// long-chain penalty, plus the capped dynamic-range bonus, in `[0, 1]`.
    fn calculate_quality_score(&self, output: &Vec<i64>, effects: &Vec<VoiceEffect>) -> (r: i64)
        requires
            self.wf(),
            output@.len() <= MAX_BLOCK,
            block_bounded(seq_int(output@)),
            effects@.len() <= 256,
        ensures
            r as int == spec_quality_score(seq_int(output@), effects@.len() as int),
            0 <= r <= Q,
    {
        let ghost xs = seq_int(output@);
        let len = output.len();
        let mut clipped: i64 = 0;
        let mut peak: i64 = 0;
        let mut total: i64 = 0;
        let mut i: usize = 0;
        while i < len
            invariant
                0 <= i <= len,
                len == output@.len() <= MAX_BLOCK,
                xs == seq_int(output@),
                block_bounded(xs),
                clipped as int == spec_count_clipped(xs, i as int),
                0 <= clipped <= i as int,
                peak as int == spec_peak(xs, i as int),
                0 <= peak <= SAMPLE_LIMIT,
                total as int == spec_abs_sum(xs, i as int),
                0 <= total as int <= (i as int) * (SAMPLE_LIMIT as int),
            decreases len - i,
        {
            let x = output[i];
            proof {
                assert(xs[i as int] == x as int);
                assert(abs_i(x as int) <= SAMPLE_LIMIT);
            }
            let ax = if x < 0 {
                -x
            } else {
                x
            };
            if ax > 62259 {
                clipped = clipped + 1;
            }
            if ax > peak {
                peak = ax;
            }
            total = total + ax;
            i = i + 1;
        }
        let n_effects = effects.len();
        let clip: i64 = if len > 0 {
            div_trunc_i64(clipped * Q, len as i64)
        } else {
            0
        };
        let avg: i64 = if len > 0 {
            div_trunc_i64(total, len as i64)
        } else {
            0
        };
        proof {
            if len > 0 {
                crate::fixed::lemma_div_trunc_sign(clipped as int * Q as int, len as int);
                crate::fixed::lemma_div_trunc_sign(total as int, len as int);
                crate::fixed::lemma_div_trunc_abs(total as int, len as int);
            }
        }
        let dr: i64 = if avg > 0 {
            proof {
                lemma_qdiv_sign(peak as int, avg as int);
            }
            qdiv(peak, avg)
        } else {
            Q
        };
        let pen: i64 = if n_effects > 5 {
            ((n_effects - 5) as i64) * 6554
        } else {
            0
        };
        let bonus: i64 = if dr - Q < 13107 {
            dr - Q
        } else {
            13107
        };
        clamp_i64(Q - clip - pen + bonus, 0, Q)
    }

    /// Record one block latency, keeping only the last hundred entries.
    fn update_performance_stats(&mut self, processing_time: u64)
        requires
            old(self).wf(),
            processing_time <= LATENCY_CAP,
        ensures
            final(self).wf(),
            final(self).processing_times@ == if old(self).processing_times@.len() + 1 > 100 {
                old(self).processing_times@.push(processing_time).subrange(
                    1,
                    old(self).processing_times@.len() as int + 1,
                )
            } else {
                old(self).processing_times@.push(processing_time)
            },
            *final(self) == (NeuralVoiceProcessor {
                processing_times: final(self).processing_times,
                ..*old(self)
            }),
    {
        self.processing_times.push_back(processing_time);
        if self.processing_times.len() > 100 {
            let dropped = self.processing_times.pop_front();
        }
    }

    /// The mean recorded latency, zero while the history is empty.
    pub fn get_average_latency_ns(&self) -> (r: u64)
        requires
            self.wf(),
        ensures
            self.processing_times@.len() == 0 ==> r == 0,
            self.processing_times@.len() > 0 ==> r as int == spec_lat_sum(
                self.processing_times@,
                self.processing_times@.len() as int,
            ) / self.processing_times@.len() as int,
    {
        let n = self.processing_times.len();
        if n == 0 {
            return 0;
        }
        let mut sum: u64 = 0;
        let mut i: usize = 0;
        while i < n
            invariant
                0 <= i <= n,
                n == self.processing_times@.len() <= 100,
                self.wf(),
                sum as int == spec_lat_sum(self.processing_times@, i as int),
                sum as int <= (i as int) * (LATENCY_CAP as int),
            decreases n - i,
        {
            proof {
                assert(self.processing_times@[i as int] <= LATENCY_CAP);
            }
            sum = sum + self.processing_times[i];
            i = i + 1;
        }
        sum / (n as u64)
    }

    /// The mean recorded load, zero while the history is empty.
    pub fn get_average_neural_load(&self) -> (r: i64)
        requires
            self.wf(),
        ensures
            self.neural_loads@.len() == 0 ==> r == 0,
            self.neural_loads@.len() > 0 ==> r as int == spec_load_sum(
                self.neural_loads@,
                self.neural_loads@.len() as int,
            ) / self.neural_loads@.len() as int,
    {
        let n = self.neural_loads.len();
        if n == 0 {
            return 0;
        }
        let mut sum: i64 = 0;
        let mut i: usize = 0;
        while i < n
            invariant
                0 <= i <= n,
                n == self.neural_loads@.len() <= 100,
                self.wf(),
                sum as int == spec_load_sum(self.neural_loads@, i as int),
                0 <= sum as int <= (i as int) * 6553600,
            decreases n - i,
        {
            proof {
                assert(0 <= self.neural_loads@[i as int] <= 6553600);
            }
            sum = sum + self.neural_loads[i];
            i = i + 1;
        }
        proof {
            crate::fixed::lemma_div_trunc_sign(sum as int, n as int);
        }
        div_trunc_i64(sum, n as i64)
    }

    /// What the accelerator reports: this build always runs the software
    /// chain.
    pub fn neural_engine_info(&self) -> (r: String)
        ensures
            r@ == "Neural Engine unavailable; the software chain is active"@,
    {
        "Neural Engine unavailable; the software chain is active".to_owned()
    }
}

/// A chain that satisfies its invariant never exceeds its configured
/// capacity.
pub proof fn lemma_chain_within_capacity(p: NeuralVoiceProcessor)
    requires
        p.wf(),
    ensures
        p.effects_chain@.len() <= p.config.max_effects,
{
}

/// The Q16 frequency of a chromatic key.
fn note_freq(key: i32) -> (f: i64)
    requires
        0 <= key <= 11,
    ensures
        f as int == spec_note_freq(key as int),
        17146184 <= f <= 32366920,
{
    if key == 0 {
        17146184
    } else if key == 1 {
        18165268
    } else if key == 2 {
        19245302
    } else if key == 3 {
        20390216
    } else if key == 4 {
        21602632
    } else if key == 5 {
        22887137
    } else if key == 6 {
        24247665
    } else if key == 7 {
        25690112
    } else if key == 8 {
        27217101
    } else if key == 9 {
        28835840
    } else if key == 10 {
        30550262
    } else {
        32366920
    }
}

} // verus!


