//! The top-level pipeline: a two-state machine that routes each block either
//! through the named-effect recipes or through the accelerator path with the
//! voice-effect chain, under the current parameter snapshot.

use vstd::prelude::*;
use crate::accel::{spec_cpu_voice, AIConfig, AIProcessor};
use crate::biquad::{spec_biquad_out, BiquadFilter};
use crate::chain::{
    chain_m, chain_run, NeuralConfig, NeuralVoiceProcessor, QualityPreset, VoiceEffect,
};
use crate::delay::{delay_step, DelayModel, DELAY_LIMIT};
use crate::engine::{
    spec_cathedral_line, spec_cave_line, spec_high_pitch, spec_monster, spec_radio_filter,
    spec_underwater_filter, DspProcessor,
};
use crate::fixed::{
    abs_i, clamp_spec, clamp_i64, lemma_qmul_bound, qmul, seq_int, spec_qmul, spec_tanh, Q,
    SAMPLE_LIMIT,
};
use crate::noise::{spec_generator_after, spec_generator_out, NoiseGenerator};
use crate::params::{
    spec_effect_from_code, spec_noise_from_code, effect_code, effect_from_code, noise_code,
    noise_from_code, AudioParameters, EffectType, NoiseType, PerformanceStats,
};
use crate::voicefx::{block_bounded, MAX_BLOCK};

verus! {

/// Headroom bound on a pipeline input sample (63 full scale): with the gain
/// range of the parameter surface the scaled signal stays within the engine
/// headroom.
pub const PIPE_INPUT_LIMIT: i64 = 4128768;

/// The DSP stage as mathematics.
#[verifier::ext_equal]
pub struct DspModel {
    pub delay: DelayModel,
    pub lowpass: BiquadFilter,
    pub highpass: BiquadFilter,
    pub bandpass: BiquadFilter,
    pub rate: int,
}

pub open spec fn dsp_m(d: DspProcessor) -> DspModel {
    DspModel {
        delay: d.delay.m(),
        lowpass: d.lowpass,
        highpass: d.highpass,
        bandpass: d.bandpass,
        rate: d.sample_rate as int,
    }
}

/// One sample through one named recipe: the DSP memory afterward and the
/// output.
pub open spec fn dsp_effect_step(
    d: DspModel,
    x: int,
    e: EffectType,
    delay_time: int,
    center: int,
) -> (DspModel, int) {
    match e {
        EffectType::NoEffect => (d, x),
        EffectType::Monster => (d, spec_monster(x)),
        EffectType::HighPitch => (d, spec_high_pitch(x)),
        EffectType::Cave => {
            let line = spec_cave_line(d.delay, delay_time, d.rate);
            (DspModel { delay: delay_step(line, x).0, ..d }, delay_step(line, x).1)
        },
        EffectType::Radio => {
            let configured = spec_radio_filter(d.bandpass, center, d.rate);
            let filtered = spec_biquad_out(configured, x);
            (
                DspModel {
                    bandpass: BiquadFilter {
                        x1: x as i64,
                        x2: d.bandpass.x1,
                        y1: filtered as i64,
                        y2: d.bandpass.y1,
                        ..configured
                    },
                    ..d
                },
                spec_qmul(spec_tanh(2 * filtered), 45875),
            )
        },
        EffectType::Cathedral => {
            let line = spec_cathedral_line(d.delay, d.rate);
            (DspModel { delay: delay_step(line, x).0, ..d }, delay_step(line, x).1)
        },
        EffectType::Underwater => {
            let configured = spec_underwater_filter(d.lowpass, d.rate);
            let filtered = spec_biquad_out(configured, x);
            (
                DspModel {
                    lowpass: BiquadFilter {
                        x1: x as i64,
                        x2: d.lowpass.x1,
                        y1: filtered as i64,
                        y2: d.lowpass.y1,
                        ..configured
                    },
                    ..d
                },
                spec_qmul(filtered, 52429),
            )
        },
        EffectType::Robot => (d, x),
        EffectType::Demon => (d, x),
        EffectType::Alien => (d, x),
        EffectType::VoiceChanger => (d, x),
    }
}

/// One sample of the direct path: input gain, noise, the optional effect
/// crossfade, output gain.
pub open spec fn pipe_step(ng: NoiseGenerator, d: DspModel, x: int, pr: AudioParameters) -> (
    NoiseGenerator,
    DspModel,
    int,
) {
    let noise = spec_generator_out(ng);
    let ng2 = spec_generator_after(ng);
    let s0 = spec_qmul(x, pr.input_gain as int) + noise;
    if pr.effect_bypass {
        (ng2, d, spec_qmul(s0, pr.output_gain as int))
    } else {
        let e = spec_effect_from_code(pr.current_effect);
        let st = dsp_effect_step(d, s0, e, pr.delay_time as int, pr.bandpass_center as int);
        let mixed = spec_qmul(s0, Q as int - pr.effect_mix as int) + spec_qmul(
            st.1,
            pr.effect_mix as int,
        );
        (ng2, st.0, spec_qmul(mixed, pr.output_gain as int))
    }
}

/// The direct-path state after the first `k` samples.
pub open spec fn pipe_state(
    ng: NoiseGenerator,
    d: DspModel,
    xs: Seq<int>,
    pr: AudioParameters,
    k: int,
) -> (NoiseGenerator, DspModel)
    decreases k,
{
    if k <= 0 {
        (ng, d)
    } else {
        let prev = pipe_state(ng, d, xs, pr, k - 1);
        let st = pipe_step(prev.0, prev.1, xs[k - 1], pr);
        (st.0, st.1)
    }
}

/// The direct-path output at index `i`.
pub open spec fn pipe_out_at(
    ng: NoiseGenerator,
    d: DspModel,
    xs: Seq<int>,
    pr: AudioParameters,
    i: int,
) -> int {
    let prev = pipe_state(ng, d, xs, pr, i);
    pipe_step(prev.0, prev.1, xs[i], pr).2
}

/// The noise generator after feeding the first `k` samples of the
/// accelerator input.
pub open spec fn noisy_state(ng: NoiseGenerator, k: int) -> NoiseGenerator
    decreases k,
{
    if k <= 0 {
        ng
    } else {
        spec_generator_after(noisy_state(ng, k - 1))
    }
}

/// One sample of the accelerator input: input gain plus noise.
pub open spec fn noisy_at(ng: NoiseGenerator, xs: Seq<int>, gain: int, i: int) -> int {
    spec_qmul(xs[i], gain) + spec_generator_out(noisy_state(ng, i))
}

/// One sample of the VoiceChanger post pass: blend the chained sample with a
/// Cave-style pass at the current mix, then the output gain.
pub open spec fn vc_step(d: DspModel, y: int, pr: AudioParameters) -> (DspModel, int) {
    let st = dsp_effect_step(d, y, EffectType::Cave, pr.delay_time as int, pr.bandpass_center as int);
    let mixed = spec_qmul(y, Q as int - pr.effect_mix as int) + spec_qmul(
        st.1,
        pr.effect_mix as int,
    );
    (st.0, spec_qmul(mixed, pr.output_gain as int))
}

/// The post-pass DSP memory after the first `k` chained samples.
pub open spec fn vc_state(d: DspModel, ys: Seq<int>, pr: AudioParameters, k: int) -> DspModel
    decreases k,
{
    if k <= 0 {
        d
    } else {
        vc_step(vc_state(d, ys, pr, k - 1), ys[k - 1], pr).0
    }
}

/// The post-pass output at index `i`.
pub open spec fn vc_out_at(d: DspModel, ys: Seq<int>, pr: AudioParameters, i: int) -> int {
    vc_step(vc_state(d, ys, pr, i), ys[i], pr).1
}

/// The noise generator as `process_block` configures it from the snapshot.
pub open spec fn configured_noise(p: AudioPipeline) -> NoiseGenerator {
    NoiseGenerator {
        noise_type: spec_noise_from_code(p.parameters.noise_type),
        level: p.parameters.noise_level,
        ..p.noise_generator
    }
}

/// Whether the snapshot routes blocks through the accelerator path.
pub open spec fn routes_to_accelerator(p: AudioPipeline) -> bool {
    &&& !p.parameters.effect_bypass
    &&& {
        let e = spec_effect_from_code(p.parameters.current_effect);
        e == EffectType::Robot || e == EffectType::Demon || e == EffectType::Alien || e
            == EffectType::VoiceChanger
    }
}

/// The block the chain receives on the accelerator path.
pub open spec fn accel_block(p: AudioPipeline, xs: Seq<int>) -> Seq<int> {
    Seq::new(
        xs.len(),
        |i: int| spec_cpu_voice(noisy_at(configured_noise(p), xs, p.parameters.input_gain as int, i), i),
    )
}

/// The chained block on the accelerator path.
pub open spec fn chained_block(p: AudioPipeline, xs: Seq<int>) -> Seq<int> {
    match p.neural_processor {
        Some(n) => chain_run(
            chain_m(n),
            accel_block(p, xs),
            n.effects_chain@,
            n.effects_chain@.len() as int,
        ).1,
        Option::None => accel_block(p, xs),
    }
}

/// Everything `process_block` writes: zeros while stopped; on the accelerator
/// path the chained block (for VoiceChanger, with the Cave-style post pass)
/// under the output gain; otherwise the direct path. Positions past the
/// processed length keep what the output buffer held.
pub open spec fn spec_block_out(p: AudioPipeline, xs: Seq<int>, old_out: Seq<int>) -> Seq<int> {
    if !p.is_processing {
        Seq::new(old_out.len(), |i: int| 0int)
    } else if routes_to_accelerator(p) {
        let ys = chained_block(p, xs);
        let e = spec_effect_from_code(p.parameters.current_effect);
        if e == EffectType::VoiceChanger {
            Seq::new(
                old_out.len(),
                |i: int|
                    if i < ys.len() {
                        vc_out_at(dsp_m(p.dsp_processor), ys, p.parameters, i)
                    } else {
                        old_out[i]
                    },
            )
        } else {
            Seq::new(
                old_out.len(),
                |i: int|
                    if i < ys.len() {
                        spec_qmul(ys[i], p.parameters.output_gain as int)
                    } else {
                        old_out[i]
                    },
            )
        }
    } else {
        Seq::new(
            old_out.len(),
            |i: int|
                if i < xs.len() {
                    pipe_out_at(configured_noise(p), dsp_m(p.dsp_processor), xs, p.parameters, i)
                } else {
                    old_out[i]
                },
        )
    }
}

/// The engine: owns the parameter surface, the DSP primitives, the
/// accelerated processor and the voice-effect chain, and routes each block.
#[derive(Debug)]
pub struct AudioPipeline {
    pub parameters: AudioParameters,
    pub noise_generator: NoiseGenerator,
    pub dsp_processor: DspProcessor,
    pub ai_processor: AIProcessor,
    pub neural_processor: Option<NeuralVoiceProcessor>,
    pub samples_processed: u64,
    pub is_processing: bool,
    pub performance_stats: PerformanceStats,
}

impl AudioPipeline {
    pub open spec fn wf(&self) -> bool {
        &&& self.parameters.wf()
        &&& self.noise_generator.wf()
        &&& self.dsp_processor.wf()
        &&& self.dsp_processor.sample_rate == self.parameters.sample_rate
        &&& self.ai_processor.wf()
        &&& match self.neural_processor {
            Some(n) => n.wf() && n.config.sample_rate == self.parameters.sample_rate,
            Option::None => true,
        }
    }

    /// A stopped pipeline with default parameters at the given rate, fresh
    /// primitives, a software accelerator stage, and an empty voice-effect
    /// chain.
    pub fn new(sample_rate: u32, buffer_size: u32) -> (p: AudioPipeline)
        requires
            8000 <= sample_rate <= 1000000,
        ensures
            p.wf(),
            p.samples_processed == 0,
            !p.is_processing,
            p.parameters.sample_rate == sample_rate,
            p.parameters.buffer_size == buffer_size,
            p.neural_processor is Some,
            (p.neural_processor->0).effects_chain@ == Seq::<VoiceEffect>::empty(),
            p.performance_stats == (PerformanceStats {
                cpu_usage: 0,
                gpu_usage: 0,
                npu_usage: 0,
                memory_usage: 0,
                audio_latency: 0,
                ai_processing_time: 0,
            }),
    {
        let max_delay_samples: usize = (sample_rate as usize) * 2;
        let mut parameters = AudioParameters::default();
        parameters.sample_rate = sample_rate;
        parameters.buffer_size = buffer_size;
        let ai_config = AIConfig {
            sample_rate,
            buffer_size: buffer_size as usize,
            model_path: Option::None,
            use_npu: true,
            processing_mode: crate::params::AIProcessingMode::Balanced,
        };
        let neural_config = NeuralConfig {
            sample_rate,
            buffer_size: buffer_size as usize,
            max_effects: 8,
            quality_preset: QualityPreset::Medium,
            enable_real_time: true,
        };
        let neural_processor: Option<NeuralVoiceProcessor> = match NeuralVoiceProcessor::new(
            neural_config,
        ) {
            Ok(n) => Some(n),
            Err(_) => Option::None,
        };
        AudioPipeline {
            parameters,
            noise_generator: NoiseGenerator::new(),
            dsp_processor: DspProcessor::new(sample_rate, max_delay_samples),
            ai_processor: AIProcessor::new(ai_config),
            neural_processor,
            samples_processed: 0,
            is_processing: false,
            performance_stats: PerformanceStats::default(),
        }
    }

    /// Select the named effect.
    pub fn set_effect(&mut self, effect: EffectType)
        requires
            old(self).wf(),
        ensures
            final(self).wf(),
            final(self).parameters.current_effect == crate::params::spec_effect_code(effect),
            *final(self) == (AudioPipeline { parameters: final(self).parameters, ..*old(self) }),
            final(self).parameters == (AudioParameters {
                current_effect: final(self).parameters.current_effect,
                ..old(self).parameters
            }),
    {
        self.parameters.current_effect = effect_code(effect);
    }

    /// Select the noise coloration and its level, clamped into `[0, 1]`.
    pub fn set_noise(&mut self, noise_type: NoiseType, level: i64)
        requires
            old(self).wf(),
        ensures
            final(self).wf(),
            final(self).parameters.noise_type == crate::params::spec_noise_code(noise_type),
            final(self).parameters.noise_level == clamp_spec(level as int, 0, Q as int),
            *final(self) == (AudioPipeline { parameters: final(self).parameters, ..*old(self) }),
            final(self).parameters == (AudioParameters {
                noise_type: final(self).parameters.noise_type,
                noise_level: final(self).parameters.noise_level,
                ..old(self).parameters
            }),
    {
        self.parameters.noise_type = noise_code(noise_type);
        self.parameters.noise_level = clamp_i64(level, 0, Q);
    }

    /// Enter the running state.
    pub fn start_processing(&mut self)
        requires
            old(self).wf(),
        ensures
            final(self).wf(),
            final(self).is_processing,
            *final(self) == (AudioPipeline { is_processing: true, ..*old(self) }),
    {
        self.is_processing = true;
    }

    /// Enter the stopped state.
    pub fn stop_processing(&mut self)
        requires
            old(self).wf(),
        ensures
            final(self).wf(),
            !final(self).is_processing,
            *final(self) == (AudioPipeline { is_processing: false, ..*old(self) }),
    {
        self.is_processing = false;
    }

    /// Process one block into the caller's output buffer.
    ///
    /// Stopped, the pipeline writes exact zeros over the whole buffer and
    /// changes nothing else. Running, it writes `spec_block_out` of the
    /// snapshot: the accelerator path for the routed effects, the direct path
    /// otherwise. The output buffer keeps its length either way, and entries
    /// past the processed length keep their old values.
    #[verifier::rlimit(100)]
    #[verifier::spinoff_prover]
    pub fn process_block(&mut self, input: &Vec<i64>, output: &mut Vec<i64>)
        requires
            old(self).wf(),
            input@.len() <= MAX_BLOCK,
            old(output)@.len() <= MAX_BLOCK,
            forall|i: int|
                0 <= i < input@.len() ==> abs_i(#[trigger] (input@[i]) as int) <= PIPE_INPUT_LIMIT,
            old(self).samples_processed + input@.len() <= u64::MAX,
        ensures
            final(self).wf(),
            final(output)@.len() == old(output)@.len(),
            seq_int(final(output)@) == spec_block_out(
                *old(self),
                seq_int(input@),
                seq_int(old(output)@),
            ),
            !old(self).is_processing ==> *final(self) == *old(self) && (forall|i: int|
                0 <= i < final(output)@.len() ==> final(output)@[i] == 0),
            old(self).is_processing ==> final(self).is_processing
                && final(self).parameters == old(self).parameters
                && final(self).samples_processed == old(self).samples_processed + input@.len(),
            old(self).neural_processor is Some <==> final(self).neural_processor is Some,
            final(self).neural_processor is Some
                ==> (final(self).neural_processor->0).effects_chain == (old(
                self).neural_processor->0).effects_chain
                && (final(self).neural_processor->0).config == (old(
                self).neural_processor->0).config,
    {
        let ghost xs = seq_int(input@);
        let ghost out0 = seq_int(old(output)@);
        let olen = output.len();
        if !self.is_processing {
            let mut i: usize = 0;
            while i < olen
                invariant
                    0 <= i <= olen,
                    output@.len() == olen,
                    forall|j: int| 0 <= j < i ==> output@[j] == 0,
                    forall|j: int| i <= j < olen ==> output@[j] == old(output)@[j],
                decreases olen - i,
            {
                output.set(i, 0);
                i = i + 1;
            }
            proof {
                assert(seq_int(output@) =~= spec_block_out(*old(self), xs, out0));
            }
            return ;
        }
        let effect_type = effect_from_code(self.parameters.current_effect);
        let nt = noise_from_code(self.parameters.noise_type);
        self.noise_generator.noise_type = nt;
        self.noise_generator.level = self.parameters.noise_level;
        let ghost p0 = *old(self);
        proof {
            assert(*self == (AudioPipeline { noise_generator: configured_noise(p0), ..p0 }));
        }
        let ai_route = match effect_type {
            EffectType::Robot => true,
            EffectType::Demon => true,
            EffectType::Alien => true,
            EffectType::VoiceChanger => true,
            _ => false,
        } && !self.parameters.effect_bypass;
        let ilen = input.len();
        if ai_route {
            self.run_accelerated_block(input, output, Ghost(p0));
        } else {
            self.run_direct_block(input, output, Ghost(p0));
        }
        self.samples_processed = self.samples_processed + (ilen as u64);
    }

    /// The accelerator route of one block: scale and add noise, run the
    /// software accelerator stage and the voice-effect chain, and write the
    /// result (for VoiceChanger, blended with a Cave-style pass) under the
    /// output gain.
    #[verifier::rlimit(100)]
    #[verifier::spinoff_prover]
    fn run_accelerated_block(
        &mut self,
        input: &Vec<i64>,
        output: &mut Vec<i64>,
        Ghost(p0): Ghost<AudioPipeline>,
    )
        requires
            p0.wf(),
            p0.is_processing,
            routes_to_accelerator(p0),
            *old(self) == (AudioPipeline { noise_generator: configured_noise(p0), ..p0 }),
            input@.len() <= MAX_BLOCK,
            old(output)@.len() <= MAX_BLOCK,
            forall|i: int|
                0 <= i < input@.len() ==> abs_i(#[trigger] (input@[i]) as int) <= PIPE_INPUT_LIMIT,
        ensures
            final(self).wf(),
            final(output)@.len() == old(output)@.len(),
            seq_int(final(output)@) == spec_block_out(p0, seq_int(input@), seq_int(old(output)@)),
            final(self).parameters == p0.parameters,
            final(self).is_processing,
            final(self).samples_processed == p0.samples_processed,
            final(self).neural_processor is Some <==> p0.neural_processor is Some,
            final(self).neural_processor is Some
                ==> (final(self).neural_processor->0).effects_chain == (
            p0.neural_processor->0).effects_chain
                && (final(self).neural_processor->0).config == (p0.neural_processor->0).config,
    {
        let ghost xs = seq_int(input@);
        let ghost out0 = seq_int(old(output)@);
        let ghost ng0 = configured_noise(p0);
        let ghost d0 = dsp_m(p0.dsp_processor);
        let ghost pr = p0.parameters;
        let olen = output.len();
        let ilen = input.len();
        let effect_type = effect_from_code(self.parameters.current_effect);
        {
            let mut ai_input: Vec<i64> = Vec::new();
            let mut i: usize = 0;
            while i < ilen
                invariant
                    0 <= i <= ilen,
                    ilen == input@.len() <= MAX_BLOCK,
                    xs == seq_int(input@),
                    forall|j: int|
                        0 <= j < input@.len() ==> abs_i(#[trigger] (input@[j]) as int)
                            <= PIPE_INPUT_LIMIT,
                    self.parameters == pr,
                    pr.wf(),
                    self.noise_generator == noisy_state(ng0, i as int),
                    self.noise_generator.wf(),
                    ai_input@.len() == i,
                    forall|j: int|
                        0 <= j < i ==> #[trigger] (ai_input@[j]) as int == noisy_at(
                            ng0,
                            xs,
                            pr.input_gain as int,
                            j,
                        ),
                    forall|j: int|
                        0 <= j < i ==> abs_i(#[trigger] (ai_input@[j]) as int) <= SAMPLE_LIMIT,
                    self.dsp_processor == p0.dsp_processor,
                    self.ai_processor == p0.ai_processor,
                    self.neural_processor == p0.neural_processor,
                    self.samples_processed == p0.samples_processed,
                    self.is_processing,
                    self.performance_stats == p0.performance_stats,
                decreases ilen - i,
            {
                let x = input[i];
                proof {
                    assert(xs[i as int] == x as int);
                    lemma_qmul_bound(
                        x as int,
                        self.parameters.input_gain as int,
                        PIPE_INPUT_LIMIT as int,
                        16 * Q as int,
                    );
                }
                let mut sample = qmul(x, self.parameters.input_gain);
                let noise = self.noise_generator.generate_sample();
                sample = sample + noise;
                ai_input.push(sample);
                i = i + 1;
            }
            self.finish_accelerated_block(&ai_input, output, Ghost(p0), Ghost(xs), Ghost(out0));
        }
    }

    /// The back half of the accelerator route: run the software accelerator
    /// stage and the chain over the prepared block, record the statistics,
    /// and write the result under the output gain.
    #[verifier::rlimit(100)]
    #[verifier::spinoff_prover]
    fn finish_accelerated_block(
        &mut self,
        ai_input: &Vec<i64>,
        output: &mut Vec<i64>,
        Ghost(p0): Ghost<AudioPipeline>,
        Ghost(xs): Ghost<Seq<int>>,
        Ghost(out0): Ghost<Seq<int>>,
    )
        requires
            p0.wf(),
            p0.is_processing,
            routes_to_accelerator(p0),
            old(self).parameters == p0.parameters,
            old(self).dsp_processor == p0.dsp_processor,
            old(self).ai_processor == p0.ai_processor,
            old(self).neural_processor == p0.neural_processor,
            old(self).is_processing,
            old(self).samples_processed == p0.samples_processed,
            old(self).noise_generator.wf(),
            ai_input@.len() == xs.len(),
            xs.len() <= MAX_BLOCK,
            old(output)@.len() <= MAX_BLOCK,
            out0 == seq_int(old(output)@),
            block_bounded(seq_int(ai_input@)),
            forall|i: int|
                0 <= i < ai_input@.len() ==> #[trigger] (ai_input@[i]) as int == noisy_at(
                    configured_noise(p0),
                    xs,
                    p0.parameters.input_gain as int,
                    i,
                ),
        ensures
            final(self).wf(),
            final(output)@.len() == old(output)@.len(),
            seq_int(final(output)@) == spec_block_out(p0, xs, out0),
            final(self).parameters == p0.parameters,
            final(self).is_processing,
            final(self).samples_processed == p0.samples_processed,
            final(self).noise_generator == old(self).noise_generator,
            final(self).neural_processor is Some <==> p0.neural_processor is Some,
            final(self).neural_processor is Some
                ==> (final(self).neural_processor->0).effects_chain == (
            p0.neural_processor->0).effects_chain
                && (final(self).neural_processor->0).config == (p0.neural_processor->0).config,
    {
        let ghost ng0 = configured_noise(p0);
        let ghost d0 = dsp_m(p0.dsp_processor);
        let ghost pr = p0.parameters;
        let olen = output.len();
        let effect_type = effect_from_code(self.parameters.current_effect);
        {
            let ai_result = self.ai_processor.process(ai_input);
            let mut processed = ai_result.output;
            let ghost accel = accel_block(p0, xs);
            proof {
                assert forall|k: int| 0 <= k < processed@.len() implies #[trigger] seq_int(
                    processed@,
                )[k] == accel[k] by {
                    assert(seq_int(processed@)[k] == processed@[k] as int);
                    assert(seq_int(ai_input@)[k] == ai_input@[k] as int);
                }
                assert(seq_int(processed@) =~= accel);
            }
            match &mut self.neural_processor {
                Some(neural) => {
                    let chained = neural.process(&processed);
                    match chained {
                        Ok(neural_result) => {
                            processed = neural_result.output;
                        },
                        Err(_) => {},
                    }
                    proof {
                        assert(seq_int(processed@) == chained_block(p0, xs));
                    }
                },
                Option::None => {
                    proof {
                        assert(seq_int(processed@) == chained_block(p0, xs));
                    }
                },
            }
            self.performance_stats.ai_processing_time = ai_result.latency_ms;
            self.performance_stats.npu_usage = ai_result.npu_utilization;
            self.write_accelerated_output(&processed, output, Ghost(p0), Ghost(xs), Ghost(out0));
        }
    }

    /// Write the chained block into the caller's buffer under the output
    /// gain; for VoiceChanger, blend each sample with a Cave-style pass at
    /// the current mix first.
    #[verifier::rlimit(100)]
    #[verifier::spinoff_prover]
    fn write_accelerated_output(
        &mut self,
        processed: &Vec<i64>,
        output: &mut Vec<i64>,
        Ghost(p0): Ghost<AudioPipeline>,
        Ghost(xs): Ghost<Seq<int>>,
        Ghost(out0): Ghost<Seq<int>>,
    )
        requires
            p0.wf(),
            p0.is_processing,
            routes_to_accelerator(p0),
            old(self).parameters == p0.parameters,
            old(self).dsp_processor == p0.dsp_processor,
            old(self).noise_generator.wf(),
            seq_int(processed@) == chained_block(p0, xs),
            processed@.len() == xs.len(),
            xs.len() <= MAX_BLOCK,
            block_bounded(seq_int(processed@)),
            old(output)@.len() <= MAX_BLOCK,
            out0 == seq_int(old(output)@),
        ensures
            final(output)@.len() == old(output)@.len(),
            seq_int(final(output)@) == spec_block_out(p0, xs, out0),
            final(self).dsp_processor.wf(),
            final(self).dsp_processor.sample_rate == p0.parameters.sample_rate,
            *final(self) == (AudioPipeline {
                dsp_processor: final(self).dsp_processor,
                ..*old(self)
            }),
    {
        let ghost d0 = dsp_m(p0.dsp_processor);
        let ghost pr = p0.parameters;
        let olen = output.len();
        let effect_type = effect_from_code(self.parameters.current_effect);
        {
            let ghost ys = chained_block(p0, xs);
            let plen = processed.len();
            let n_out = if plen < olen {
                plen
            } else {
                olen
            };
            if match effect_type {
                EffectType::VoiceChanger => true,
                _ => false,
            } {
                let mut i: usize = 0;
                while i < n_out
                    invariant
                        0 <= i <= n_out,
                        n_out <= olen && n_out <= plen,
                        olen == output@.len(),
                        plen == processed@.len() <= MAX_BLOCK,
                        n_out == if plen < olen {
                            plen as int
                        } else {
                            olen as int
                        },
                        ys == seq_int(processed@),
                        block_bounded(ys),
                        self.parameters == pr,
                        pr.wf(),
                        self.dsp_processor.wf(),
                        self.dsp_processor.sample_rate == pr.sample_rate,
                        dsp_m(self.dsp_processor) == vc_state(d0, ys, pr, i as int),
                        self.ai_processor == old(self).ai_processor,
                        self.neural_processor == old(self).neural_processor,
                        self.noise_generator == old(self).noise_generator,
                        self.samples_processed == old(self).samples_processed,
                        self.is_processing == old(self).is_processing,
                        self.performance_stats == old(self).performance_stats,
                        forall|j: int|
                            0 <= j < i ==> #[trigger] (output@[j]) as int == vc_out_at(
                                d0,
                                ys,
                                pr,
                                j,
                            ),
                        forall|j: int| i <= j < olen ==> output@[j] == old(output)@[j],
                    decreases n_out - i,
                {
                    let ai_sample = processed[i];
                    proof {
                        assert(ys[i as int] == ai_sample as int);
                        assert(abs_i(ai_sample as int) <= SAMPLE_LIMIT);
                    }
                    let ghost d_pre = dsp_m(self.dsp_processor);
                    let dsp_processed = self.dsp_processor.process_effect(
                        ai_sample,
                        EffectType::Cave,
                        &self.parameters,
                    );
                    proof {
                        let target = dsp_effect_step(
                            d_pre,
                            ai_sample as int,
                            EffectType::Cave,
                            pr.delay_time as int,
                            pr.bandpass_center as int,
                        );
                        assert(dsp_m(self.dsp_processor) =~~= target.0);
                        lemma_qmul_bound(
                            ai_sample as int,
                            Q as int - pr.effect_mix as int,
                            SAMPLE_LIMIT as int,
                            Q as int,
                        );
                        lemma_qmul_bound(
                            dsp_processed as int,
                            pr.effect_mix as int,
                            SAMPLE_LIMIT as int + DELAY_LIMIT as int,
                            Q as int,
                        );
                    }
                    let mixed = qmul(ai_sample, Q - self.parameters.effect_mix) + qmul(
                        dsp_processed,
                        self.parameters.effect_mix,
                    );
                    proof {
                        lemma_qmul_bound(
                            mixed as int,
                            pr.output_gain as int,
                            2147483648,
                            16 * Q as int,
                        );
                    }
                    output.set(i, qmul(mixed, self.parameters.output_gain));
                    i = i + 1;
                }
                proof {
                    assert(routes_to_accelerator(p0));
                    assert forall|j: int| 0 <= j < olen implies #[trigger] seq_int(output@)[j]
                        == spec_block_out(p0, xs, out0)[j] by {
                        assert(seq_int(output@)[j] == output@[j] as int);
                    }
                    assert(seq_int(output@) =~= spec_block_out(p0, xs, out0));
                }
            } else {
                let mut i: usize = 0;
                while i < n_out
                    invariant
                        0 <= i <= n_out,
                        n_out <= olen && n_out <= plen,
                        olen == output@.len(),
                        plen == processed@.len(),
                        ys == seq_int(processed@),
                        block_bounded(ys),
                        self.parameters == pr,
                        pr.wf(),
                        self.dsp_processor == old(self).dsp_processor,
                        self.ai_processor == old(self).ai_processor,
                        self.neural_processor == old(self).neural_processor,
                        self.noise_generator == old(self).noise_generator,
                        self.samples_processed == old(self).samples_processed,
                        self.is_processing == old(self).is_processing,
                        self.performance_stats == old(self).performance_stats,
                        forall|j: int|
                            0 <= j < i ==> #[trigger] (output@[j]) as int == spec_qmul(
                                ys[j],
                                pr.output_gain as int,
                            ),
                        forall|j: int| i <= j < olen ==> output@[j] == old(output)@[j],
                    decreases n_out - i,
                {
                    let ai_sample = processed[i];
                    proof {
                        assert(ys[i as int] == ai_sample as int);
                        assert(abs_i(ai_sample as int) <= SAMPLE_LIMIT);
                        lemma_qmul_bound(
                            ai_sample as int,
                            pr.output_gain as int,
                            SAMPLE_LIMIT as int,
                            16 * Q as int,
                        );
                    }
                    output.set(i, qmul(ai_sample, self.parameters.output_gain));
                    i = i + 1;
                }
                proof {
                    assert(routes_to_accelerator(p0));
                    assert forall|j: int| 0 <= j < olen implies #[trigger] seq_int(output@)[j]
                        == spec_block_out(p0, xs, out0)[j] by {
                        assert(seq_int(output@)[j] == output@[j] as int);
                    }
                    assert(seq_int(output@) =~= spec_block_out(p0, xs, out0));
                }
            }
        }
    }

    /// The direct route of one block: per sample, input gain, noise, the
    /// optional named-effect crossfade, and the output gain.
    #[verifier::rlimit(100)]
    #[verifier::spinoff_prover]
    fn run_direct_block(
        &mut self,
        input: &Vec<i64>,
        output: &mut Vec<i64>,
        Ghost(p0): Ghost<AudioPipeline>,
    )
        requires
            p0.wf(),
            p0.is_processing,
            !routes_to_accelerator(p0),
            *old(self) == (AudioPipeline { noise_generator: configured_noise(p0), ..p0 }),
            input@.len() <= MAX_BLOCK,
            old(output)@.len() <= MAX_BLOCK,
            forall|i: int|
                0 <= i < input@.len() ==> abs_i(#[trigger] (input@[i]) as int) <= PIPE_INPUT_LIMIT,
        ensures
            final(self).wf(),
            final(output)@.len() == old(output)@.len(),
            seq_int(final(output)@) == spec_block_out(p0, seq_int(input@), seq_int(old(output)@)),
            final(self).parameters == p0.parameters,
            final(self).is_processing,
            final(self).samples_processed == p0.samples_processed,
            final(self).neural_processor is Some <==> p0.neural_processor is Some,
            final(self).neural_processor is Some
                ==> (final(self).neural_processor->0).effects_chain == (
            p0.neural_processor->0).effects_chain
                && (final(self).neural_processor->0).config == (p0.neural_processor->0).config,
    {
        let ghost xs = seq_int(input@);
        let ghost out0 = seq_int(old(output)@);
        let ghost ng0 = configured_noise(p0);
        let ghost d0 = dsp_m(p0.dsp_processor);
        let ghost pr = p0.parameters;
        let olen = output.len();
        let ilen = input.len();
        let effect_type = effect_from_code(self.parameters.current_effect);
        {
            let n_dsp = if ilen < olen {
                ilen
            } else {
                olen
            };
            let mut i: usize = 0;
            while i < n_dsp
                invariant
                    0 <= i <= n_dsp,
                    n_dsp <= ilen && n_dsp <= olen,
                    ilen == input@.len() <= MAX_BLOCK,
                    olen == output@.len(),
                    xs == seq_int(input@),
                    forall|j: int|
                        0 <= j < input@.len() ==> abs_i(#[trigger] (input@[j]) as int)
                            <= PIPE_INPUT_LIMIT,
                    self.parameters == pr,
                    pr.wf(),
                    effect_type == spec_effect_from_code(pr.current_effect),
                    !(effect_type == EffectType::Robot || effect_type == EffectType::Demon
                        || effect_type == EffectType::Alien || effect_type
                        == EffectType::VoiceChanger) || pr.effect_bypass,
                    self.noise_generator == pipe_state(ng0, d0, xs, pr, i as int).0,
                    self.noise_generator.wf(),
                    dsp_m(self.dsp_processor) == pipe_state(ng0, d0, xs, pr, i as int).1,
                    self.dsp_processor.wf(),
                    self.dsp_processor.sample_rate == pr.sample_rate,
                    forall|j: int|
                        0 <= j < i ==> #[trigger] (output@[j]) as int == pipe_out_at(
                            ng0,
                            d0,
                            xs,
                            pr,
                            j,
                        ),
                    forall|j: int| i <= j < olen ==> output@[j] == old(output)@[j],
                    self.ai_processor == p0.ai_processor,
                    self.neural_processor == p0.neural_processor,
                    self.samples_processed == p0.samples_processed,
                    self.is_processing,
                    self.performance_stats == p0.performance_stats,
                decreases n_dsp - i,
            {
                let x = input[i];
                proof {
                    assert(xs[i as int] == x as int);
                    lemma_qmul_bound(
                        x as int,
                        self.parameters.input_gain as int,
                        PIPE_INPUT_LIMIT as int,
                        16 * Q as int,
                    );
                }
                let mut sample = qmul(x, self.parameters.input_gain);
                let noise = self.noise_generator.generate_sample();
                sample = sample + noise;
                if !self.parameters.effect_bypass {
                    let ghost d_pre = dsp_m(self.dsp_processor);
                    let ghost s0 = sample as int;
                    let processed = self.dsp_processor.process_effect(
                        sample,
                        effect_type,
                        &self.parameters,
                    );
                    proof {
                        let target = dsp_effect_step(
                            d_pre,
                            s0,
                            effect_type,
                            pr.delay_time as int,
                            pr.bandpass_center as int,
                        );
                        assert(dsp_m(self.dsp_processor) =~~= target.0 && processed as int
                            == target.1) by {
                            match effect_type {
                                EffectType::Cave => {
                                    assert(dsp_m(self.dsp_processor).delay =~= target.0.delay);
                                },
                                EffectType::Cathedral => {
                                    assert(dsp_m(self.dsp_processor).delay =~= target.0.delay);
                                },
                                _ => {
                                    assert(dsp_m(self.dsp_processor).delay =~= target.0.delay);
                                },
                            }
                        }
                        lemma_qmul_bound(
                            s0,
                            Q as int - pr.effect_mix as int,
                            66650112,
                            Q as int,
                        );
                        lemma_qmul_bound(
                            processed as int,
                            pr.effect_mix as int,
                            SAMPLE_LIMIT as int + DELAY_LIMIT as int,
                            Q as int,
                        );
                    }
                    sample = qmul(sample, Q - self.parameters.effect_mix) + qmul(
                        processed,
                        self.parameters.effect_mix,
                    );
                }
                proof {
                    lemma_qmul_bound(sample as int, pr.output_gain as int, 2147483648, 16 * Q as int);
                }
                output.set(i, qmul(sample, self.parameters.output_gain));
                i = i + 1;
            }
            proof {
                assert(!routes_to_accelerator(p0));
                assert forall|j: int| 0 <= j < olen implies #[trigger] seq_int(output@)[j]
                    == spec_block_out(p0, xs, out0)[j] by {
                    assert(seq_int(output@)[j] == output@[j] as int);
                }
                assert(seq_int(output@) =~= spec_block_out(p0, xs, out0));
            }
        }
    }

    /// Where the pipeline runs: this build has no platform audio backend.
    pub fn platform_info(&self) -> (r: String)
        ensures
            r@ == "software engine without a platform audio backend"@,
    {
        "software engine without a platform audio backend".to_owned()
    }

    /// Low-latency support comes only from a platform backend; none is here.
    pub fn supports_low_latency(&self) -> (r: bool)
        ensures
            !r,
    {
        false
    }

    /// Whether accelerator-backed processing is available.
    pub fn supports_neural_engine(&self) -> (r: bool)
        ensures
            !r,
    {
        self.ai_processor.supports_npu()
    }

    /// A statistics snapshot with the accelerator averages filled in.
    pub fn get_performance_stats(&self) -> (r: PerformanceStats)
        requires
            self.wf(),
        ensures
            r.cpu_usage == self.performance_stats.cpu_usage,
            r.gpu_usage == self.performance_stats.gpu_usage,
            r.memory_usage == self.performance_stats.memory_usage,
            r.audio_latency == self.performance_stats.audio_latency,
    {
        let mut stats = self.performance_stats;
        stats.npu_usage = self.ai_processor.get_average_npu_load();
        stats.ai_processing_time = self.ai_processor.get_average_latency();
        stats
    }

    /// Add a voice effect to the chain; without a chain the call fails, at
    /// capacity the chain is left unchanged.
    pub fn add_voice_effect(&mut self, effect: VoiceEffect) -> (r: Result<(), String>)
        requires
            old(self).wf(),
            effect.wf(),
        ensures
            final(self).wf(),
            old(self).neural_processor is None ==> r is Err && *final(self) == *old(self),
            old(self).neural_processor is Some ==> {
                let n = old(self).neural_processor->0;
                &&& (n.effects_chain@.len() >= n.config.max_effects ==> r is Err && *final(self)
                    == *old(self))
                &&& (n.effects_chain@.len() < n.config.max_effects ==> r is Ok
                    && (final(self).neural_processor->0).effects_chain@
                        == n.effects_chain@.push(effect))
            },
    {
        match &mut self.neural_processor {
            Some(neural) => neural.add_effect(effect),
            Option::None => Err("no voice-effect chain is available".to_owned()),
        }
    }

    /// Remove a voice effect from the chain by structural equality.
    pub fn remove_voice_effect(&mut self, effect: &VoiceEffect)
        requires
            old(self).wf(),
        ensures
            final(self).wf(),
            old(self).neural_processor is None ==> *final(self) == *old(self),
            old(self).neural_processor is Some ==> (final(self).neural_processor->0).effects_chain@
                == crate::chain::spec_retain_ne(
                (old(self).neural_processor->0).effects_chain@,
                *effect,
                (old(self).neural_processor->0).effects_chain@.len() as int,
            ),
    {
        match &mut self.neural_processor {
            Some(neural) => neural.remove_effect(effect),
            Option::None => {},
        }
    }

    /// Empty the voice-effect chain.
    pub fn clear_voice_effects(&mut self)
        requires
            old(self).wf(),
        ensures
            final(self).wf(),
            old(self).neural_processor is None ==> *final(self) == *old(self),
            old(self).neural_processor is Some ==> (final(self).neural_processor->0).effects_chain@
                == Seq::<VoiceEffect>::empty(),
    {
        match &mut self.neural_processor {
            Some(neural) => neural.clear_effects(),
            Option::None => {},
        }
    }

    /// What the chain reports about accelerator availability.
    pub fn neural_engine_info(&self) -> (r: String)
        ensures
            self.neural_processor is None ==> r@ == "no voice-effect chain is available"@,
            self.neural_processor is Some ==> r@
                == "Neural Engine unavailable; the software chain is active"@,
    {
        match &self.neural_processor {
            Some(neural) => neural.neural_engine_info(),
            Option::None => "no voice-effect chain is available".to_owned(),
        }
    }

    /// The chain's mean recorded latency in nanoseconds; zero without a chain
    /// or before any block.
    pub fn get_neural_latency_ns(&self) -> (r: u64)
        requires
            self.wf(),
        ensures
            self.neural_processor is None ==> r == 0,
    {
        match &self.neural_processor {
            Some(neural) => neural.get_average_latency_ns(),
            Option::None => 0,
        }
    }

    /// The chain's mean recorded load; zero without a chain or before any
    /// block.
    pub fn get_neural_load(&self) -> (r: i64)
        requires
            self.wf(),
        ensures
            self.neural_processor is None ==> r == 0,
    {
        match &self.neural_processor {
            Some(neural) => neural.get_average_neural_load(),
            Option::None => 0,
        }
    }
}

/// Determinism: two pipelines in the same state, fed the same block into
/// buffers of the same content, write bit-identical output.
pub proof fn lemma_process_block_deterministic(
    p1: AudioPipeline,
    p2: AudioPipeline,
    xs: Seq<int>,
    out0: Seq<int>,
)
    requires
        p1 == p2,
    ensures
        spec_block_out(p1, xs, out0) == spec_block_out(p2, xs, out0),
{
}

/// A stopped pipeline writes exact zeros whatever the input and parameters.
pub proof fn lemma_stopped_writes_silence(p: AudioPipeline, xs: Seq<int>, out0: Seq<int>, i: int)
    requires
        !p.is_processing,
        0 <= i < out0.len(),
    ensures
        spec_block_out(p, xs, out0).len() == out0.len(),
        spec_block_out(p, xs, out0)[i] == 0,
{
}

/// The engine never writes past the caller's buffer: the output of a block
/// keeps the output buffer's length, whatever the input length.
pub proof fn lemma_block_length_preserved(p: AudioPipeline, xs: Seq<int>, out0: Seq<int>)
    ensures
        spec_block_out(p, xs, out0).len() == out0.len(),
{
}

} // verus!
