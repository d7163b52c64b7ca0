//! The named-effect dispatcher: one sample through one of the fixed effect
//! recipes, built from the delay line and the filters.

use vstd::prelude::*;
use crate::biquad::{
    spec_bandpass, spec_biquad_out, spec_lowpass, BiquadCoeffs, BiquadFilter,
};
use crate::delay::{delay_step, min_int, DelayEffect, DelayModel, DELAY_LIMIT};
use crate::fixed::{abs_i, clamp_spec, lemma_qmul_bound, qmul, spec_qmul, spec_tanh, tanh_q, Q,
    SAMPLE_LIMIT};
use crate::params::{AudioParameters, EffectType};

verus! {

/// The Monster recipe: halve, saturate a tripled copy, scale by `0.8`.
pub open spec fn spec_monster(x: int) -> int {
    spec_qmul(spec_tanh(3 * spec_qmul(x, 32768)), 52429)
}

/// The HighPitch recipe: a plain `1.5` gain.
pub open spec fn spec_high_pitch(x: int) -> int {
    spec_qmul(x, 98304)
}

/// A filter re-centered with fresh coefficients but its history kept.
pub open spec fn with_coeffs(f: BiquadFilter, c: BiquadCoeffs) -> BiquadFilter {
    BiquadFilter {
        b0: c.b0 as i64,
        b1: c.b1 as i64,
        b2: c.b2 as i64,
        a1: c.a1 as i64,
        a2: c.a2 as i64,
        x1: f.x1,
        x2: f.x2,
        y1: f.y1,
        y2: f.y2,
    }
}

/// The delay line as the Cave recipe configures it: the delay time from the
/// parameters, feedback `0.6`, mix `0.4`.
pub open spec fn spec_cave_line(m: DelayModel, delay_time: int, rate: int) -> DelayModel {
    DelayModel {
        delay: min_int(spec_qmul(delay_time, rate), m.buf.len() as int - 1),
        feedback: 39322,
        mix: 26214,
        ..m
    }
}

/// The delay line as the Cathedral recipe configures it: `0.8` seconds,
/// feedback `0.7`, mix `0.6`.
pub open spec fn spec_cathedral_line(m: DelayModel, rate: int) -> DelayModel {
    DelayModel {
        delay: min_int(spec_qmul(52429, rate), m.buf.len() as int - 1),
        feedback: 45875,
        mix: 39322,
        ..m
    }
}

/// The Radio band filter: a bandpass at the configured center with quality
/// `2.0`.
pub open spec fn spec_radio_filter(f: BiquadFilter, center: int, rate: int) -> BiquadFilter {
    with_coeffs(f, spec_bandpass(center, rate, 131072))
}

/// The Underwater filter: a lowpass at `800` hertz with quality `1.0`.
pub open spec fn spec_underwater_filter(f: BiquadFilter, rate: int) -> BiquadFilter {
    with_coeffs(f, spec_lowpass(52428800, rate, Q as int))
}

/// Owns the DSP primitives and dispatches a sample through the selected named
/// effect.
#[derive(Debug, Clone)]
pub struct DspProcessor {
    pub delay: DelayEffect,
    pub lowpass: BiquadFilter,
    pub highpass: BiquadFilter,
    pub bandpass: BiquadFilter,
    /// Samples per second.
    pub sample_rate: u32,
}

impl DspProcessor {
    pub open spec fn wf(&self) -> bool {
        &&& self.delay.wf()
        &&& self.lowpass.wf()
        &&& self.highpass.wf()
        &&& self.bandpass.wf()
        &&& 8000 <= self.sample_rate <= 1000000
    }

    /// Fresh primitives: identity filters and a silent delay line.
    pub fn new(sample_rate: u32, max_delay_samples: usize) -> (d: DspProcessor)
        requires
            8000 <= sample_rate <= 1000000,
            1 <= max_delay_samples <= 0x10000000,
        ensures
            d.wf(),
            d.sample_rate == sample_rate,
            d.delay.m().buf == Seq::new(max_delay_samples as nat, |i: int| 0int),
            d.delay.m().write_pos == 0,
            d.lowpass == (BiquadFilter { b0: Q, b1: 0, b2: 0, a1: 0, a2: 0, x1: 0, x2: 0, y1: 0, y2: 0 }),
            d.highpass == d.lowpass,
            d.bandpass == d.lowpass,
    {
        DspProcessor {
            delay: DelayEffect::new(max_delay_samples),
            lowpass: BiquadFilter::new(),
            highpass: BiquadFilter::new(),
            bandpass: BiquadFilter::new(),
            sample_rate,
        }
    }

    /// One sample through the selected recipe.
    ///
    /// The passthrough effects (`NoEffect` and the accelerator-routed ones)
    /// return the input unchanged and touch no state; each DSP recipe changes
    /// only the primitive it names and returns exactly its formula.
    pub fn process_effect(&mut self, input: i64, effect_type: EffectType, params: &AudioParameters) -> (r: i64)
        requires
            old(self).wf(),
            abs_i(input as int) <= SAMPLE_LIMIT,
            params.wf(),
            params.sample_rate == old(self).sample_rate,
        ensures
            final(self).wf(),
            final(self).sample_rate == old(self).sample_rate,
            abs_i(r as int) <= SAMPLE_LIMIT as int + DELAY_LIMIT as int,
            (effect_type == EffectType::NoEffect || effect_type == EffectType::Robot
                || effect_type == EffectType::Demon || effect_type == EffectType::Alien
                || effect_type == EffectType::VoiceChanger) ==> r == input && *final(self) == *old(
                self,
            ),
            effect_type == EffectType::Monster ==> r as int == spec_monster(input as int)
                && *final(self) == *old(self),
            effect_type == EffectType::HighPitch ==> r as int == spec_high_pitch(input as int)
                && *final(self) == *old(self),
            effect_type == EffectType::Cave ==> {
                let line = spec_cave_line(
                    old(self).delay.m(),
                    params.delay_time as int,
                    old(self).sample_rate as int,
                );
                &&& final(self).delay.m() == delay_step(line, input as int).0
                &&& r as int == delay_step(line, input as int).1
                &&& final(self).lowpass == old(self).lowpass
                &&& final(self).highpass == old(self).highpass
                &&& final(self).bandpass == old(self).bandpass
            },
            effect_type == EffectType::Cathedral ==> {
                let line = spec_cathedral_line(old(self).delay.m(), old(self).sample_rate as int);
                &&& final(self).delay.m() == delay_step(line, input as int).0
                &&& r as int == delay_step(line, input as int).1
                &&& final(self).lowpass == old(self).lowpass
                &&& final(self).highpass == old(self).highpass
                &&& final(self).bandpass == old(self).bandpass
            },
            effect_type == EffectType::Radio ==> {
                let configured = spec_radio_filter(
                    old(self).bandpass,
                    params.bandpass_center as int,
                    old(self).sample_rate as int,
                );
                let filtered = spec_biquad_out(configured, input as int);
                &&& r as int == spec_qmul(spec_tanh(2 * filtered), 45875)
                &&& final(self).bandpass.coeffs() == configured.coeffs()
                &&& final(self).bandpass.x1 == input
                &&& final(self).bandpass.x2 == old(self).bandpass.x1
                &&& final(self).bandpass.y1 as int == filtered
                &&& final(self).bandpass.y2 == old(self).bandpass.y1
                &&& final(self).delay == old(self).delay
                &&& final(self).lowpass == old(self).lowpass
                &&& final(self).highpass == old(self).highpass
            },
            effect_type == EffectType::Underwater ==> {
                let configured = spec_underwater_filter(
                    old(self).lowpass,
                    old(self).sample_rate as int,
                );
                let filtered = spec_biquad_out(configured, input as int);
                &&& r as int == spec_qmul(filtered, 52429)
                &&& final(self).lowpass.coeffs() == configured.coeffs()
                &&& final(self).lowpass.x1 == input
                &&& final(self).lowpass.x2 == old(self).lowpass.x1
                &&& final(self).lowpass.y1 as int == filtered
                &&& final(self).lowpass.y2 == old(self).lowpass.y1
                &&& final(self).delay == old(self).delay
                &&& final(self).bandpass == old(self).bandpass
                &&& final(self).highpass == old(self).highpass
            },
    {
        match effect_type {
            EffectType::NoEffect => input,
            EffectType::Monster => {
                let pitched = qmul(input, 32768);
                let distorted = tanh_q(3 * pitched);
                proof {
                    lemma_qmul_bound(input as int, 32768, SAMPLE_LIMIT as int, 32768);
                    lemma_qmul_bound(distorted as int, 52429, Q as int, 52429);
                }
                qmul(distorted, 52429)
            },
            EffectType::HighPitch => {
                proof {
                    lemma_qmul_bound(input as int, 98304, SAMPLE_LIMIT as int, 98304);
                }
                qmul(input, 98304)
            },
            EffectType::Cave => {
                self.delay.set_delay_time(params.delay_time, self.sample_rate);
                self.delay.set_feedback(39322);
                self.delay.set_mix(26214);
                self.delay.process(input)
            },
            EffectType::Radio => {
                self.bandpass.bandpass(params.bandpass_center, self.sample_rate, 2 * Q);
                proof {
                    assert(self.bandpass == spec_radio_filter(
                        old(self).bandpass,
                        params.bandpass_center as int,
                        old(self).sample_rate as int,
                    ));
                }
                let filtered = self.bandpass.process(input);
                let saturated = tanh_q(2 * filtered);
                proof {
                    lemma_qmul_bound(saturated as int, 45875, Q as int, 45875);
                }
                qmul(saturated, 45875)
            },
            EffectType::Cathedral => {
                self.delay.set_delay_time(52429, self.sample_rate);
                self.delay.set_feedback(45875);
                self.delay.set_mix(39322);
                self.delay.process(input)
            },
            EffectType::Underwater => {
                self.lowpass.lowpass(800 * Q, self.sample_rate, Q);
                proof {
                    assert(self.lowpass == spec_underwater_filter(
                        old(self).lowpass,
                        old(self).sample_rate as int,
                    ));
                }
                let filtered = self.lowpass.process(input);
                proof {
                    lemma_qmul_bound(filtered as int, 52429, SAMPLE_LIMIT as int, 52429);
                }
                qmul(filtered, 52429)
            },
            EffectType::Robot | EffectType::Demon | EffectType::Alien
                | EffectType::VoiceChanger => input,
        }
    }
}

} // verus!
