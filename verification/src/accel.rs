//! Accelerator-backed block processing with a deterministic CPU fallback.
//!
//! An accelerator is an outside capability; this build has none, so every
//! block runs the software algorithm. The routing policy is verified for
//! every accelerator outcome: a delivered result is taken as is, any failure
//! falls back to the CPU algorithm within the same call.

use vstd::prelude::*;
use std::collections::VecDeque;
use crate::fixed::{
    abs_i, lemma_qmul_bound, qmul, seq_int, sin_turn, spec_qmul, spec_sin_turn, spec_tanh, tanh_q,
    wrap_turn, Q, SAMPLE_LIMIT,
};
use crate::params::AIProcessingMode;
use crate::voicefx::{block_bounded, MAX_BLOCK};

verus! {

/// The fixed nominal latency the CPU path records: fifteen milliseconds, Q16.
pub const CPU_LATENCY_MS: i64 = 983040;

/// What one accelerated (or fallen-back) block reports.
#[derive(Debug, Clone)]
pub struct AIProcessingResult {
    pub output: Vec<i64>,
    /// Q16 milliseconds.
    pub latency_ms: i64,
    /// Q16 percentage; zero whenever the CPU path ran.
    pub npu_utilization: i64,
}

/// Configuration of the accelerated processor.
#[derive(Debug, Clone)]
pub struct AIConfig {
    pub sample_rate: u32,
    pub buffer_size: usize,
    pub model_path: Option<String>,
    pub use_npu: bool,
    pub processing_mode: AIProcessingMode,
}

impl AIConfig {
    pub open spec fn wf(&self) -> bool {
        8000 <= self.sample_rate <= 1000000
    }
}

impl Default for AIConfig {
    fn default() -> (d: AIConfig)
        ensures
            d.wf(),
            d.sample_rate == 44100,
            d.buffer_size == 512,
            d.model_path is None,
            d.use_npu,
            d.processing_mode == AIProcessingMode::Balanced,
    {
        AIConfig {
            sample_rate: 44100,
            buffer_size: 512,
            model_path: Option::None,
            use_npu: true,
            processing_mode: AIProcessingMode::Balanced,
        }
    }
}

/// The deterministic CPU voice transformation: a slow sinusoidal pitch-like
/// wobble into a soft clip, scaled by `0.8`.
pub open spec fn spec_cpu_voice(x: int, i: int) -> int {
    spec_qmul(
        spec_tanh(spec_qmul(x, Q as int + spec_qmul(spec_sin_turn((i * 104) % (Q as int)), 13107))),
        52429,
    )
}

/// The always-available software voice processor.
#[derive(Debug, Clone)]
pub struct CPUVoiceProcessor {
    pub config: AIConfig,
    pub frame_buffer: Vec<i64>,
    pub filter_state: Vec<i64>,
}

impl CPUVoiceProcessor {
    pub fn new(config: &AIConfig) -> (p: CPUVoiceProcessor)
        ensures
            p.config.sample_rate == config.sample_rate,
            p.config.buffer_size == config.buffer_size,
            p.config.use_npu == config.use_npu,
            p.config.processing_mode == config.processing_mode,
            p.config.model_path is Some <==> config.model_path is Some,
            p.frame_buffer@.len() == 0,
            p.filter_state@.len() == 8,
    {
        let mut filter_state: Vec<i64> = Vec::new();
        let mut i: usize = 0;
        while i < 8
            invariant
                i <= 8,
                filter_state@.len() == i,
            decreases 8 - i,
        {
            filter_state.push(0);
            i = i + 1;
        }
        let model_path: Option<String> = match &config.model_path {
            Some(p) => Some(p.as_str().to_owned()),
            Option::None => Option::None,
        };
        let own = AIConfig {
            sample_rate: config.sample_rate,
            buffer_size: config.buffer_size,
            model_path,
            use_npu: config.use_npu,
            processing_mode: config.processing_mode,
        };
        CPUVoiceProcessor { config: own, frame_buffer: Vec::new(), filter_state }
    }

    /// One block through the software transformation; fifteen milliseconds of
    /// nominal latency, no accelerator use.
    pub fn process(&mut self, input: &Vec<i64>) -> (r: AIProcessingResult)
        requires
            input@.len() <= MAX_BLOCK,
            block_bounded(seq_int(input@)),
        ensures
            *final(self) == *old(self),
            r.output@.len() == input@.len(),
            block_bounded(seq_int(r.output@)),
            forall|i: int|
                0 <= i < r.output@.len() ==> #[trigger] seq_int(r.output@)[i] == spec_cpu_voice(
                    seq_int(input@)[i],
                    i,
                ),
            r.latency_ms == CPU_LATENCY_MS,
            r.npu_utilization == 0,
    {
        let mut out: Vec<i64> = Vec::new();
        let len = input.len();
        let mut i: usize = 0;
        while i < len
            invariant
                0 <= i <= len,
                len == input@.len() <= MAX_BLOCK,
                block_bounded(seq_int(input@)),
                out@.len() == i,
                forall|j: int|
                    0 <= j < i ==> #[trigger] (out@[j]) as int == spec_cpu_voice(
                        seq_int(input@)[j],
                        j,
                    ),
                forall|j: int| 0 <= j < i ==> abs_i(#[trigger] (out@[j]) as int) <= SAMPLE_LIMIT,
            decreases len - i,
        {
            let x = input[i];
            proof {
                assert(seq_int(input@)[i as int] == x as int);
                assert(abs_i(x as int) <= SAMPLE_LIMIT);
                assert(0 <= (i as int) * 104 <= 0x40000000 * 104int) by (nonlinear_arith)
                    requires
                        0 <= i as int <= 0x40000000,
                ;
            }
            let t = wrap_turn((i as i64) * 104);
            let s = sin_turn(t);
            let pm = qmul(s, 13107);
            proof {
                lemma_qmul_bound(s as int, 13107, Q as int, 13107);
                lemma_qmul_bound(x as int, Q as int + pm as int, SAMPLE_LIMIT as int, 78643);
            }
            let modulated = qmul(x, Q + pm);
            let shaped = tanh_q(modulated);
            proof {
                lemma_qmul_bound(shaped as int, 52429, Q as int, 52429);
            }
            let y = qmul(shaped, 52429);
            out.push(y);
            i = i + 1;
        }
        proof {
            assert forall|j: int| 0 <= j < out@.len() implies #[trigger] seq_int(out@)[j]
                == spec_cpu_voice(seq_int(input@)[j], j) by {
                assert(seq_int(out@)[j] == out@[j] as int);
            }
            assert forall|j: int| 0 <= j < out@.len() implies abs_i(
                #[trigger] seq_int(out@)[j],
            ) <= SAMPLE_LIMIT by {
                assert(seq_int(out@)[j] == out@[j] as int);
            }
        }
        AIProcessingResult { output: out, latency_ms: CPU_LATENCY_MS, npu_utilization: 0 }
    }
}

/// Attempts accelerator-backed block processing and falls back to the CPU
/// algorithm; tracks rolling latency and utilization histories.
#[derive(Debug)]
pub struct AIProcessor {
    pub config: AIConfig,
    pub is_processing: bool,
    /// Q16 milliseconds, newest last, at most one hundred.
    pub processing_time_history: VecDeque<i64>,
    /// Q16 percentages, newest last, at most one hundred.
    pub npu_load_history: VecDeque<i64>,
    pub cpu_processor: CPUVoiceProcessor,
}

impl AIProcessor {
    pub open spec fn wf(&self) -> bool {
        &&& self.config.wf()
        &&& self.processing_time_history@.len() <= 100
        &&& forall|i: int|
            0 <= i < self.processing_time_history@.len()
                ==> 0 <= #[trigger] self.processing_time_history@[i] <= 65536000000
        &&& self.npu_load_history@.len() <= 100
        &&& forall|i: int|
            0 <= i < self.npu_load_history@.len() ==> 0 <= #[trigger] self.npu_load_history@[i]
                <= 6553600
    }

    pub fn new(config: AIConfig) -> (p: AIProcessor)
        requires
            config.wf(),
        ensures
            p.wf(),
            p.config == config,
            !p.is_processing,
            p.processing_time_history@.len() == 0,
            p.npu_load_history@.len() == 0,
    {
        let cpu_processor = CPUVoiceProcessor::new(&config);
        AIProcessor {
            config,
            is_processing: false,
            processing_time_history: VecDeque::new(),
            npu_load_history: VecDeque::new(),
            cpu_processor,
        }
    }

    /// Record one latency/utilization pair, keeping the last hundred of each.
    fn update_stats(&mut self, processing_time: i64, npu_load: i64)
        requires
            old(self).wf(),
            0 <= processing_time <= 65536000000,
            0 <= npu_load <= 6553600,
        ensures
            final(self).wf(),
            final(self).processing_time_history@ == roll_history(
                old(self).processing_time_history@,
                processing_time,
            ),
            final(self).npu_load_history@ == roll_history(old(self).npu_load_history@, npu_load),
            *final(self) == (AIProcessor {
                processing_time_history: final(self).processing_time_history,
                npu_load_history: final(self).npu_load_history,
                ..*old(self)
            }),
    {
        self.processing_time_history.push_back(processing_time);
        if self.processing_time_history.len() > 100 {
            let dropped = self.processing_time_history.pop_front();
        }
        self.npu_load_history.push_back(npu_load);
        if self.npu_load_history.len() > 100 {
            let dropped = self.npu_load_history.pop_front();
        }
    }

    /// The routing policy, verified for every accelerator outcome: a
    /// delivered result is returned as is with its statistics recorded; any
    /// failure falls back to the CPU algorithm within the same call, with the
    /// fixed nominal latency and zero utilization recorded.
    pub fn process_with_accelerator(
        &mut self,
        input: &Vec<i64>,
        accelerated: Option<AIProcessingResult>,
    ) -> (r: AIProcessingResult)
        requires
            old(self).wf(),
            input@.len() <= MAX_BLOCK,
            block_bounded(seq_int(input@)),
            accelerated is Some ==> {
                &&& (accelerated->0).output@.len() == input@.len()
                &&& block_bounded(seq_int((accelerated->0).output@))
                &&& 0 <= (accelerated->0).latency_ms <= 65536000000
                &&& 0 <= (accelerated->0).npu_utilization <= 6553600
            },
        ensures
            final(self).wf(),
            r.output@.len() == input@.len(),
            block_bounded(seq_int(r.output@)),
            accelerated is Some ==> {
                &&& r == accelerated->0
                &&& final(self).processing_time_history@ == roll_history(
                    old(self).processing_time_history@,
                    (accelerated->0).latency_ms,
                )
                &&& final(self).npu_load_history@ == roll_history(
                    old(self).npu_load_history@,
                    (accelerated->0).npu_utilization,
                )
            },
            accelerated is None ==> {
                &&& forall|i: int|
                    0 <= i < r.output@.len() ==> #[trigger] seq_int(r.output@)[i]
                        == spec_cpu_voice(seq_int(input@)[i], i)
                &&& r.latency_ms == CPU_LATENCY_MS
                &&& r.npu_utilization == 0
                &&& final(self).processing_time_history@ == roll_history(
                    old(self).processing_time_history@,
                    CPU_LATENCY_MS,
                )
                &&& final(self).npu_load_history@ == roll_history(old(self).npu_load_history@, 0)
            },
            final(self).config == old(self).config,
            final(self).cpu_processor == old(self).cpu_processor,
    {
        match accelerated {
            Some(result) => {
                self.update_stats(result.latency_ms, result.npu_utilization);
                result
            },
            Option::None => {
                let result = self.cpu_processor.process(input);
                self.update_stats(result.latency_ms, 0);
                result
            },
        }
    }

    /// One block without an accelerator: this build always takes the CPU
    /// fallback.
    pub fn process(&mut self, input: &Vec<i64>) -> (r: AIProcessingResult)
        requires
            old(self).wf(),
            input@.len() <= MAX_BLOCK,
            block_bounded(seq_int(input@)),
        ensures
            final(self).wf(),
            r.output@.len() == input@.len(),
            block_bounded(seq_int(r.output@)),
            forall|i: int|
                0 <= i < r.output@.len() ==> #[trigger] seq_int(r.output@)[i] == spec_cpu_voice(
                    seq_int(input@)[i],
                    i,
                ),
            r.latency_ms == CPU_LATENCY_MS,
            r.npu_utilization == 0,
            final(self).processing_time_history@ == roll_history(
                old(self).processing_time_history@,
                CPU_LATENCY_MS,
            ),
            final(self).npu_load_history@ == roll_history(old(self).npu_load_history@, 0),
            final(self).config == old(self).config,
            final(self).cpu_processor == old(self).cpu_processor,
    {
        self.process_with_accelerator(input, Option::None)
    }

    /// The mean recorded latency in Q16 milliseconds, zero while the history
    /// is empty.
    pub fn get_average_latency(&self) -> (r: i64)
        requires
            self.wf(),
        ensures
            self.processing_time_history@.len() == 0 ==> r == 0,
            self.processing_time_history@.len() > 0 ==> r as int == history_sum(
                self.processing_time_history@,
                self.processing_time_history@.len() as int,
            ) / self.processing_time_history@.len() as int,
    {
        average_history(&self.processing_time_history, 65536000000)
    }

    /// The mean recorded utilization in Q16 percent, zero while the history
    /// is empty.
    pub fn get_average_npu_load(&self) -> (r: i64)
        requires
            self.wf(),
        ensures
            self.npu_load_history@.len() == 0 ==> r == 0,
            self.npu_load_history@.len() > 0 ==> r as int == history_sum(
                self.npu_load_history@,
                self.npu_load_history@.len() as int,
            ) / self.npu_load_history@.len() as int,
    {
        average_history(&self.npu_load_history, 6553600)
    }

    /// Whether an accelerator is present: never, in this software-only build.
    pub fn supports_npu(&self) -> (r: bool)
        ensures
            !r,
    {
        false
    }
}

/// A history after one recording: the new entry last, at most one hundred
/// kept.
pub open spec fn roll_history(s: Seq<i64>, v: i64) -> Seq<i64> {
    if s.len() + 1 > 100 {
        s.push(v).subrange(1, s.len() as int + 1)
    } else {
        s.push(v)
    }
}

/// The total of the first `k` history entries.
pub open spec fn history_sum(s: Seq<i64>, k: int) -> int
    decreases k,
{
    if k <= 0 {
        0
    } else {
        history_sum(s, k - 1) + s[k - 1]
    }
}

/// The mean of a nonnegative bounded history, zero when empty.
fn average_history(h: &VecDeque<i64>, bound: i64) -> (r: i64)
    requires
        h@.len() <= 100,
        0 < bound <= 65536000000,
        forall|i: int| 0 <= i < h@.len() ==> 0 <= #[trigger] h@[i] <= bound,
    ensures
        h@.len() == 0 ==> r == 0,
        h@.len() > 0 ==> r as int == history_sum(h@, h@.len() as int) / h@.len() as int,
{
    let n = h.len();
    if n == 0 {
        return 0;
    }
    let mut sum: i64 = 0;
    let mut i: usize = 0;
    while i < n
        invariant
            0 <= i <= n,
            n == h@.len() <= 100,
            0 < bound <= 65536000000,
            forall|j: int| 0 <= j < h@.len() ==> 0 <= #[trigger] h@[j] <= bound,
            sum as int == history_sum(h@, i as int),
            0 <= sum as int <= (i as int) * 65536000000,
        decreases n - i,
    {
        proof {
            assert(0 <= h@[i as int] <= bound);
        }
        sum = sum + h[i];
        i = i + 1;
    }
    proof {
        crate::fixed::lemma_div_trunc_sign(sum as int, n as int);
    }
    crate::fixed::div_trunc_i64(sum, n as i64)
}

} // verus!
