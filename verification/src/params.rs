//! The control surface: effect and noise selectors, the shared parameter set,
//! and the integer codes that the host boundary uses for them.
//!
//! A control thread owns one copy of these values and hands the audio thread a
//! snapshot per block; every field is a plain value, so a snapshot is a copy.

use vstd::prelude::*;
use crate::fixed::Q;

verus! {

/// The named effects the engine can dispatch.
#[derive(Debug, Clone, Copy, PartialEq, Eq, Structural)]
pub enum EffectType {
    NoEffect,
    Monster,
    HighPitch,
    Cave,
    Radio,
    Cathedral,
    Underwater,
    Robot,
    Demon,
    Alien,
    VoiceChanger,
}

/// The noise colorations the generator can synthesize.
#[derive(Debug, Clone, Copy, PartialEq, Eq, Structural)]
pub enum NoiseType {
    NoNoise,
    White,
    Pink,
    Brown,
}

/// Accelerator scheduling preference.
#[derive(Debug, Clone, Copy, PartialEq, Eq, Structural)]
pub enum AIProcessingMode {
    RealTime,
    HighQuality,
    Balanced,
}

/// The versioned integer code of each effect, as the host boundary sends it.
pub open spec fn spec_effect_code(e: EffectType) -> u32 {
    match e {
        EffectType::NoEffect => 0,
        EffectType::Monster => 1,
        EffectType::HighPitch => 2,
        EffectType::Cave => 3,
        EffectType::Radio => 4,
        EffectType::Cathedral => 5,
        EffectType::Underwater => 6,
        EffectType::Robot => 7,
        EffectType::Demon => 8,
        EffectType::Alien => 9,
        EffectType::VoiceChanger => 10,
    }
}

/// The effect selected by an integer code; unknown codes fall back to `None`.
pub open spec fn spec_effect_from_code(code: u32) -> EffectType {
    if code == 1 {
        EffectType::Monster
    } else if code == 2 {
        EffectType::HighPitch
    } else if code == 3 {
        EffectType::Cave
    } else if code == 4 {
        EffectType::Radio
    } else if code == 5 {
        EffectType::Cathedral
    } else if code == 6 {
        EffectType::Underwater
    } else if code == 7 {
        EffectType::Robot
    } else if code == 8 {
        EffectType::Demon
    } else if code == 9 {
        EffectType::Alien
    } else if code == 10 {
        EffectType::VoiceChanger
    } else {
        EffectType::NoEffect
    }
}

pub fn effect_code(e: EffectType) -> (code: u32)
    ensures
        code == spec_effect_code(e),
{
    match e {
        EffectType::NoEffect => 0,
        EffectType::Monster => 1,
        EffectType::HighPitch => 2,
        EffectType::Cave => 3,
        EffectType::Radio => 4,
        EffectType::Cathedral => 5,
        EffectType::Underwater => 6,
        EffectType::Robot => 7,
        EffectType::Demon => 8,
        EffectType::Alien => 9,
        EffectType::VoiceChanger => 10,
    }
}

pub fn effect_from_code(code: u32) -> (e: EffectType)
    ensures
        e == spec_effect_from_code(code),
{
    if code == 1 {
        EffectType::Monster
    } else if code == 2 {
        EffectType::HighPitch
    } else if code == 3 {
        EffectType::Cave
    } else if code == 4 {
        EffectType::Radio
    } else if code == 5 {
        EffectType::Cathedral
    } else if code == 6 {
        EffectType::Underwater
    } else if code == 7 {
        EffectType::Robot
    } else if code == 8 {
        EffectType::Demon
    } else if code == 9 {
        EffectType::Alien
    } else if code == 10 {
        EffectType::VoiceChanger
    } else {
        EffectType::NoEffect
    }
}

/// Decoding an effect code undoes encoding: the boundary mapping is lossless.
pub proof fn lemma_effect_code_roundtrip(e: EffectType)
    ensures
        spec_effect_from_code(spec_effect_code(e)) == e,
{
}

/// The versioned integer code of each noise type.
pub open spec fn spec_noise_code(n: NoiseType) -> u32 {
    match n {
        NoiseType::NoNoise => 0,
        NoiseType::White => 1,
        NoiseType::Pink => 2,
        NoiseType::Brown => 3,
    }
}

/// The noise type selected by an integer code; unknown codes fall back to
/// `None`.
pub open spec fn spec_noise_from_code(code: u32) -> NoiseType {
    if code == 1 {
        NoiseType::White
    } else if code == 2 {
        NoiseType::Pink
    } else if code == 3 {
        NoiseType::Brown
    } else {
        NoiseType::NoNoise
    }
}

pub fn noise_code(n: NoiseType) -> (code: u32)
    ensures
        code == spec_noise_code(n),
{
    match n {
        NoiseType::NoNoise => 0,
        NoiseType::White => 1,
        NoiseType::Pink => 2,
        NoiseType::Brown => 3,
    }
}

pub fn noise_from_code(code: u32) -> (n: NoiseType)
    ensures
        n == spec_noise_from_code(code),
{
    if code == 1 {
        NoiseType::White
    } else if code == 2 {
        NoiseType::Pink
    } else if code == 3 {
        NoiseType::Brown
    } else {
        NoiseType::NoNoise
    }
}

/// Decoding a noise code undoes encoding.
pub proof fn lemma_noise_code_roundtrip(n: NoiseType)
    ensures
        spec_noise_from_code(spec_noise_code(n)) == n,
{
}

/// The tunable parameters of the pipeline. Each field is written by the
/// control side and read once per block by the audio side; there is no
/// cross-field transaction. Q16 fields carry the unit noted beside them.
#[derive(Debug, Clone)]
pub struct AudioParameters {
    /// Samples per second.
    pub sample_rate: u32,
    /// Samples per block the host prefers.
    pub buffer_size: u32,
    /// Q16 gain applied before the effect.
    pub input_gain: i64,
    /// Q16 gain applied after the effect.
    pub output_gain: i64,
    /// Integer code of the selected effect.
    pub current_effect: u32,
    /// Q16 dry/wet ratio in `[0, 1]`.
    pub effect_mix: i64,
    /// When set, the effect stage is skipped.
    pub effect_bypass: bool,
    /// Integer code of the selected noise type.
    pub noise_type: u32,
    /// Q16 noise level in `[0, 1]`.
    pub noise_level: i64,
    /// Q16 pitch ratio.
    pub pitch_shift: i64,
    /// Q16 room size in `[0, 1]`.
    pub reverb_size: i64,
    /// Q16 damping in `[0, 1]`.
    pub reverb_damping: i64,
    /// Q16 delay in seconds, up to the sized maximum of two seconds.
    pub delay_time: i64,
    /// Q16 feedback in `[0, 0.95]`.
    pub delay_feedback: i64,
    /// Q16 corner frequency in hertz.
    pub lowpass_freq: i64,
    /// Q16 corner frequency in hertz.
    pub highpass_freq: i64,
    /// Q16 center frequency in hertz.
    pub bandpass_center: i64,
    /// Q16 filter quality.
    pub bandpass_q: i64,
}

impl AudioParameters {
    /// The documented ranges of the parameter surface. The audio thread
    /// demands them; every setter and the defaults keep them.
    pub open spec fn wf(&self) -> bool {
        &&& 8000 <= self.sample_rate <= 1000000
        &&& -16 * Q as int <= self.input_gain <= 16 * Q as int
        &&& -16 * Q as int <= self.output_gain <= 16 * Q as int
        &&& 0 <= self.effect_mix <= Q
        &&& 0 <= self.noise_level <= Q
        &&& 0 <= self.delay_time <= 2 * Q as int
        &&& 0 <= self.delay_feedback <= 62259
        &&& 0 <= self.reverb_size <= Q
        &&& 0 <= self.reverb_damping <= Q
        &&& 0 < self.bandpass_center
        &&& 2 * self.bandpass_center < (self.sample_rate as int) * (Q as int)
        &&& 0 < self.bandpass_q <= 16 * Q as int
        &&& 32768 <= self.pitch_shift <= 2 * Q as int
    }
}

impl Default for AudioParameters {
    /// The defaults the pipeline starts from: unity gains, full wet mix, no
    /// effect, no noise, a 0.3 s delay with 0.3 feedback, wide-open filters.
    fn default() -> (d: AudioParameters)
        ensures
            d.wf(),
            d.sample_rate == 44100,
            d.buffer_size == 512,
            d.input_gain == Q,
            d.output_gain == Q,
            d.current_effect == 0,
            d.effect_mix == Q,
            !d.effect_bypass,
            d.noise_type == 0,
            d.noise_level == 0,
            d.pitch_shift == Q,
            d.reverb_size == 32768,
            d.reverb_damping == 32768,
            d.delay_time == 19661,
            d.delay_feedback == 19661,
            d.lowpass_freq == 20000 * Q as int,
            d.highpass_freq == 20 * Q as int,
            d.bandpass_center == 1000 * Q as int,
            d.bandpass_q == Q,
    {
        AudioParameters {
            sample_rate: 44100,
            buffer_size: 512,
            input_gain: Q,
            output_gain: Q,
            current_effect: 0,
            effect_mix: Q,
            effect_bypass: false,
            noise_type: 0,
            noise_level: 0,
            pitch_shift: Q,
            reverb_size: 32768,
            reverb_damping: 32768,
            delay_time: 19661,
            delay_feedback: 19661,
            lowpass_freq: 20000 * Q,
            highpass_freq: 20 * Q,
            bandpass_center: 1000 * Q,
            bandpass_q: Q,
        }
    }
}

/// A reporting snapshot of pipeline health; Q16 fields, reporting only.
#[derive(Debug, Clone, Copy, PartialEq, Eq, Structural)]
pub struct PerformanceStats {
    pub cpu_usage: i64,
    pub gpu_usage: i64,
    pub npu_usage: i64,
    pub memory_usage: i64,
    pub audio_latency: i64,
    pub ai_processing_time: i64,
}

impl Default for PerformanceStats {
    fn default() -> (d: PerformanceStats)
        ensures
            d.cpu_usage == 0,
            d.gpu_usage == 0,
            d.npu_usage == 0,
            d.memory_usage == 0,
            d.audio_latency == 0,
            d.ai_processing_time == 0,
    {
        PerformanceStats {
            cpu_usage: 0,
            gpu_usage: 0,
            npu_usage: 0,
            memory_usage: 0,
            audio_latency: 0,
            ai_processing_time: 0,
        }
    }
}

} // verus!
