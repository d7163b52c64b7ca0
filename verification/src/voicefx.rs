//! The per-effect signal processors behind the voice-effect chain: pitch
//! resampling, formant filters, and modulation.

use vstd::prelude::*;
use crate::fixed::{
    abs_i, clamp_spec, clamp_i64, div_trunc, div_trunc_i64, lemma_interp_bound, lemma_qdiv_bound,
    lemma_qdiv_sign, lemma_qmul_bound, lemma_qmul_sign, pitch_ratio_q, qdiv, qmul, seq_int,
    sin_turn, spec_cos_turn, spec_pitch_ratio, spec_qdiv, spec_qmul, spec_sin_turn, wrap_turn,
    cos_turn, Q, SAMPLE_LIMIT,
};

verus! {

/// The largest block the engine accepts in one call.
pub const MAX_BLOCK: usize = 1073741824;

/// Every sample of a block is within the engine headroom.
pub open spec fn block_bounded(s: Seq<int>) -> bool {
    forall|i: int| 0 <= i < s.len() ==> abs_i(#[trigger] s[i]) <= SAMPLE_LIMIT
}

/// One resampled value: the input read at `i / ratio`, linearly interpolated
/// between its two neighbors, or passed through near the end of the block.
pub open spec fn spec_pitch_sample(s: Seq<int>, i: int, ratio: int) -> int {
    let src = spec_qdiv(i * Q as int, ratio);
    let idx = src / Q as int;
    let frac = src % Q as int;
    if idx + 1 < s.len() {
        div_trunc(s[idx] * (Q as int - frac) + s[idx + 1] * frac, Q as int)
    } else {
        s[i]
    }
}

/// Resamples a block by the pitch ratio of a semitone shift.
#[derive(Debug, Clone)]
pub struct PitchProcessor {
    pub sample_rate: u32,
    pub window_size: usize,
    pub overlap: usize,
}

impl PitchProcessor {
    pub fn new(sample_rate: u32) -> (p: PitchProcessor)
        ensures
            p.sample_rate == sample_rate,
    {
        PitchProcessor { sample_rate, window_size: 2048, overlap: 1024 }
    }

    /// Resample by `2^(semitones/12)` with linear interpolation; the output
    /// keeps the block length and the headroom bound.
    pub fn shift_pitch(&mut self, input: &Vec<i64>, semitones: i64) -> (out: Vec<i64>)
        requires
            input@.len() <= MAX_BLOCK,
            block_bounded(seq_int(input@)),
        ensures
            *final(self) == *old(self),
            out@.len() == input@.len(),
            block_bounded(seq_int(out@)),
            forall|i: int|
                0 <= i < out@.len() ==> seq_int(out@)[i] == spec_pitch_sample(
                    seq_int(input@),
                    i,
                    spec_pitch_ratio(semitones as int),
                ),
    {
        let ratio = pitch_ratio_q(semitones);
        let mut out: Vec<i64> = Vec::new();
        let len = input.len();
        let mut i: usize = 0;
        while i < len
            invariant
                0 <= i <= len,
                len == input@.len() <= MAX_BLOCK,
                block_bounded(seq_int(input@)),
                32768 <= ratio <= 2 * Q,
                ratio == spec_pitch_ratio(semitones as int),
                out@.len() == i,
                forall|j: int|
                    0 <= j < i ==> #[trigger] (out@[j]) as int == spec_pitch_sample(
                        seq_int(input@),
                        j,
                        ratio as int,
                    ),
                forall|j: int| 0 <= j < i ==> abs_i(#[trigger] (out@[j]) as int) <= SAMPLE_LIMIT,
            decreases len - i,
        {
            let scaled: i64 = (i as i64) * Q;
            let src = qdiv(scaled, ratio);
            proof {
                lemma_qdiv_sign(scaled as int, ratio as int);
                assert(abs_i(scaled as int) <= 2 * (i as int) * (ratio as int))
                    by (nonlinear_arith)
                    requires
                        scaled as int == (i as int) * 65536,
                        ratio as int >= 32768,
                        i as int >= 0,
                ;
                lemma_qdiv_bound(scaled as int, ratio as int, 2 * i as int);
                crate::fixed::lemma_div_trunc_sign(src as int, Q as int);
                crate::fixed::lemma_div_trunc_abs(src as int, Q as int);
                assert(2 * i as int * (Q as int) / (Q as int) == 2 * i as int) by (nonlinear_arith);
                assert(abs_i(src as int) / (Q as int) <= 2 * i as int) by (nonlinear_arith)
                    requires
                        0 <= abs_i(src as int) <= 2 * i as int * (Q as int),
                        Q == 65536,
                ;
            }
            let idx_i64 = div_trunc_i64(src, Q);
            let frac = wrap_turn(src);
            proof {
                assert(seq_int(input@)[i as int] == input@[i as int] as int);
                assert(abs_i(input@[i as int] as int) <= SAMPLE_LIMIT);
            }
            let v: i64 = if idx_i64 + 1 < (len as i64) {
                let idx = idx_i64 as usize;
                let a = input[idx];
                let b = input[idx + 1];
                proof {
                    assert(seq_int(input@)[idx as int] == a as int);
                    assert(seq_int(input@)[idx as int + 1] == b as int);
                    assert(abs_i(a as int) <= SAMPLE_LIMIT);
                    assert(abs_i(b as int) <= SAMPLE_LIMIT);
                    lemma_interp_bound(a as int, b as int, frac as int, SAMPLE_LIMIT as int);
                    assert(abs_i(a as int * (Q as int - frac as int)) <= 0x1000_0000_0000int)
                        by (nonlinear_arith)
                        requires
                            abs_i(a as int) <= 0x4000000,
                            0 <= frac as int <= 65536,
                            Q == 65536,
                    ;
                    assert(abs_i(b as int * (frac as int)) <= 0x1000_0000_0000int)
                        by (nonlinear_arith)
                        requires
                            abs_i(b as int) <= 0x4000000,
                            0 <= frac as int <= 65536,
                    ;
                }
                div_trunc_i64(a * (Q - frac) + b * frac, Q)
            } else {
                input[i]
            };
            proof {
                assert(v as int == spec_pitch_sample(seq_int(input@), i as int, ratio as int));
            }
            out.push(v);
            i = i + 1;
        }
        proof {
            assert forall|i: int| 0 <= i < out@.len() implies seq_int(out@)[i] == spec_pitch_sample(
                seq_int(input@),
                i,
                spec_pitch_ratio(semitones as int),
            ) by {
                assert(seq_int(out@)[i] == out@[i] as int);
            }
            assert forall|i: int| 0 <= i < out@.len() implies abs_i(
                #[trigger] seq_int(out@)[i],
            ) <= SAMPLE_LIMIT by {
                assert(seq_int(out@)[i] == out@[i] as int);
            }
        }
        out
    }
}

/// The coefficients of one formant resonator design.
pub struct FCoef {
    pub alpha: int,
    pub cosw: int,
}

/// The re-centered frequency of a formant filter: `center * (1 + shift/2)`.
pub open spec fn spec_formant_shifted(center: int, shift: int) -> int {
    spec_qmul(center, Q as int + spec_qmul(shift, 32768))
}

/// The design terms of a formant resonator at the engine's reference rate of
/// `44100` hertz.
pub open spec fn spec_formant_coef(center: int, bw: int, shift: int) -> FCoef {
    let shifted = spec_formant_shifted(center, shift);
    let t = div_trunc(shifted, 44100);
    FCoef {
        alpha: spec_qdiv(spec_qmul(spec_sin_turn(t), shifted), 2 * bw),
        cosw: spec_cos_turn(t),
    }
}

/// One resonator step: the new two-deep state and the output, saturated at
/// the engine headroom.
pub open spec fn formant_step(s0: int, s1: int, x: int, c: FCoef) -> (int, int, int) {
    let num = spec_qmul(c.alpha, x) + spec_qmul(-c.alpha, s1) - spec_qmul(-2 * c.cosw, s0)
        - spec_qmul(Q as int - c.alpha, s1);
    let y = clamp_spec(
        spec_qdiv(num, Q as int + c.alpha),
        -(SAMPLE_LIMIT as int),
        SAMPLE_LIMIT as int,
    );
    (y, s0, y)
}

/// The resonator state after the first `k` samples of a block.
pub open spec fn formant_state(s0: int, s1: int, c: FCoef, xs: Seq<int>, k: int) -> (int, int)
    decreases k,
{
    if k <= 0 {
        (s0, s1)
    } else {
        let prev = formant_state(s0, s1, c, xs, k - 1);
        let st = formant_step(prev.0, prev.1, xs[k - 1], c);
        (st.0, st.1)
    }
}

/// The resonator output at index `i` of a block.
pub open spec fn formant_out_at(s0: int, s1: int, c: FCoef, xs: Seq<int>, i: int) -> int {
    let prev = formant_state(s0, s1, c, xs, i);
    formant_step(prev.0, prev.1, xs[i], c).2
}

/// The whole filtered block.
pub open spec fn formant_block(s0: int, s1: int, c: FCoef, xs: Seq<int>) -> Seq<int> {
    Seq::new(xs.len(), |i: int| formant_out_at(s0, s1, c, xs, i))
}

/// A second-order resonator centered on one formant band.
#[derive(Debug, Clone)]
pub struct FormantFilter {
    /// Q16 center frequency in hertz.
    pub center_freq: i64,
    /// Q16 bandwidth in hertz.
    pub bandwidth: i64,
    pub s0: i64,
    pub s1: i64,
}

impl FormantFilter {
    pub open spec fn wf(&self) -> bool {
        &&& 0 < self.center_freq <= 157286400
        &&& Q <= self.bandwidth <= 13107200
        &&& abs_i(self.s0 as int) <= SAMPLE_LIMIT
        &&& abs_i(self.s1 as int) <= SAMPLE_LIMIT
    }

    pub fn new(center_freq: i64, bandwidth: i64) -> (f: FormantFilter)
        requires
            0 < center_freq <= 157286400,
            Q <= bandwidth <= 13107200,
        ensures
            f.wf(),
            f.center_freq == center_freq,
            f.bandwidth == bandwidth,
            f.s0 == 0 && f.s1 == 0,
    {
        FormantFilter { center_freq, bandwidth, s0: 0, s1: 0 }
    }

    /// Run the whole block through the resonator re-centered by `shift`.
    pub fn process(&mut self, input: &Vec<i64>, shift: i64) -> (out: Vec<i64>)
        requires
            old(self).wf(),
            abs_i(shift as int) <= 2 * Q as int,
            input@.len() <= MAX_BLOCK,
            block_bounded(seq_int(input@)),
        ensures
            final(self).wf(),
            final(self).center_freq == old(self).center_freq,
            final(self).bandwidth == old(self).bandwidth,
            out@.len() == input@.len(),
            block_bounded(seq_int(out@)),
            seq_int(out@) == formant_block(
                old(self).s0 as int,
                old(self).s1 as int,
                spec_formant_coef(
                    old(self).center_freq as int,
                    old(self).bandwidth as int,
                    shift as int,
                ),
                seq_int(input@),
            ),
            (final(self).s0 as int, final(self).s1 as int) == formant_state(
                old(self).s0 as int,
                old(self).s1 as int,
                spec_formant_coef(
                    old(self).center_freq as int,
                    old(self).bandwidth as int,
                    shift as int,
                ),
                seq_int(input@),
                input@.len() as int,
            ),
    {
        let ghost c = spec_formant_coef(
            old(self).center_freq as int,
            old(self).bandwidth as int,
            shift as int,
        );
        let factor = Q + qmul(shift, 32768);
        proof {
            lemma_qmul_bound(shift as int, 32768, 2 * Q as int, 32768);
        }
        let shifted = qmul(self.center_freq, factor);
        proof {
            lemma_qmul_bound(self.center_freq as int, factor as int, 157286400, 2 * Q as int);
            lemma_qmul_sign(self.center_freq as int, factor as int);
            assert(157286400int * (2 * Q as int) / (Q as int) == 314572800) by (nonlinear_arith);
        }
        let t = div_trunc_i64(shifted, 44100);
        proof {
            crate::fixed::lemma_div_trunc_abs(shifted as int, 44100);
            crate::fixed::lemma_div_trunc_sign(shifted as int, 44100);
            assert(abs_i(shifted as int) / 44100 <= 7133) by (nonlinear_arith)
                requires
                    0 <= abs_i(shifted as int) <= 314572800,
            ;
        }
        let sinw = sin_turn(t);
        let cosw = cos_turn(t);
        let num0 = qmul(sinw, shifted);
        proof {
            lemma_qmul_bound(sinw as int, shifted as int, Q as int, 314572800);
        }
        let alpha = qdiv(num0, 2 * self.bandwidth);
        proof {
            lemma_qdiv_bound(num0 as int, 2 * self.bandwidth as int, 2400);
            lemma_qdiv_sign(num0 as int, 2 * self.bandwidth as int);
            lemma_qmul_sign(sinw as int, shifted as int);
            assert(c.alpha == alpha as int && c.cosw == cosw as int);
        }
        let mut out: Vec<i64> = Vec::new();
        let len = input.len();
        let mut i: usize = 0;
        while i < len
            invariant
                0 <= i <= len,
                len == input@.len() <= MAX_BLOCK,
                block_bounded(seq_int(input@)),
                0 <= alpha <= 157286400,
                -Q <= cosw <= Q,
                c.alpha == alpha as int && c.cosw == cosw as int,
                out@.len() == i,
                forall|j: int|
                    0 <= j < i ==> #[trigger] (out@[j]) as int == formant_out_at(
                        old(self).s0 as int,
                        old(self).s1 as int,
                        c,
                        seq_int(input@),
                        j,
                    ),
                forall|j: int| 0 <= j < i ==> abs_i(#[trigger] (out@[j]) as int) <= SAMPLE_LIMIT,
                (self.s0 as int, self.s1 as int) == formant_state(
                    old(self).s0 as int,
                    old(self).s1 as int,
                    c,
                    seq_int(input@),
                    i as int,
                ),
                abs_i(self.s0 as int) <= SAMPLE_LIMIT,
                abs_i(self.s1 as int) <= SAMPLE_LIMIT,
                self.center_freq == old(self).center_freq,
                self.bandwidth == old(self).bandwidth,
            decreases len - i,
        {
            let x = input[i];
            proof {
                assert(seq_int(input@)[i as int] == x as int);
                assert(abs_i(x as int) <= SAMPLE_LIMIT);
                lemma_qmul_bound(alpha as int, x as int, 157286400, SAMPLE_LIMIT as int);
                lemma_qmul_bound(-(alpha as int), self.s1 as int, 157286400, SAMPLE_LIMIT as int);
                lemma_qmul_bound(-2 * cosw as int, self.s0 as int, 2 * Q as int, SAMPLE_LIMIT as int);
                lemma_qmul_bound(
                    Q as int - alpha as int,
                    self.s1 as int,
                    157351936,
                    SAMPLE_LIMIT as int,
                );
            }
            let n1 = qmul(alpha, x);
            let n2 = qmul(-alpha, self.s1);
            let n3 = qmul(-2 * cosw, self.s0);
            let n4 = qmul(Q - alpha, self.s1);
            let num = n1 + n2 - n3 - n4;
            let y = clamp_i64(qdiv(num, Q + alpha), -SAMPLE_LIMIT, SAMPLE_LIMIT);
            proof {
                assert(y as int == formant_out_at(
                    old(self).s0 as int,
                    old(self).s1 as int,
                    c,
                    seq_int(input@),
                    i as int,
                ));
            }
            self.s1 = self.s0;
            self.s0 = y;
            out.push(y);
            i = i + 1;
        }
        proof {
            assert forall|j: int| 0 <= j < out@.len() implies #[trigger] seq_int(out@)[j]
                == formant_block(old(self).s0 as int, old(self).s1 as int, c, seq_int(input@))[j]
                by {
                assert(seq_int(out@)[j] == out@[j] as int);
            }
            assert(seq_int(out@) =~= formant_block(
                old(self).s0 as int,
                old(self).s1 as int,
                c,
                seq_int(input@),
            ));
            assert forall|j: int| 0 <= j < out@.len() implies abs_i(
                #[trigger] seq_int(out@)[j],
            ) <= SAMPLE_LIMIT by {
                assert(seq_int(out@)[j] == out@[j] as int);
            }
        }
        out
    }
}

/// The three-band formant stage: resonators at `800`, `1200` and `2400`
/// hertz, applied in cascade.
#[derive(Debug, Clone)]
pub struct FormantProcessor {
    pub sample_rate: u32,
    pub f1: FormantFilter,
    pub f2: FormantFilter,
    pub f3: FormantFilter,
}

impl FormantProcessor {
    pub open spec fn wf(&self) -> bool {
        &&& self.f1.wf()
        &&& self.f2.wf()
        &&& self.f3.wf()
    }

    pub fn new(sample_rate: u32) -> (p: FormantProcessor)
        ensures
            p.wf(),
            p.sample_rate == sample_rate,
            p.f1.center_freq == 800 * Q && p.f1.bandwidth == 80 * Q,
            p.f2.center_freq == 1200 * Q && p.f2.bandwidth == 90 * Q,
            p.f3.center_freq == 2400 * Q && p.f3.bandwidth == 120 * Q,
            p.f1.s0 == 0 && p.f1.s1 == 0 && p.f2.s0 == 0 && p.f2.s1 == 0 && p.f3.s0 == 0
                && p.f3.s1 == 0,
    {
        FormantProcessor {
            sample_rate,
            f1: FormantFilter::new(800 * Q, 80 * Q),
            f2: FormantFilter::new(1200 * Q, 90 * Q),
            f3: FormantFilter::new(2400 * Q, 120 * Q),
        }
    }

    /// Cascade the three re-centered resonators over the block.
    pub fn shift_formants(&mut self, input: &Vec<i64>, shift: i64) -> (out: Vec<i64>)
        requires
            old(self).wf(),
            abs_i(shift as int) <= 2 * Q as int,
            input@.len() <= MAX_BLOCK,
            block_bounded(seq_int(input@)),
        ensures
            final(self).wf(),
            final(self).sample_rate == old(self).sample_rate,
            final(self).f1.center_freq == old(self).f1.center_freq,
            final(self).f2.center_freq == old(self).f2.center_freq,
            final(self).f3.center_freq == old(self).f3.center_freq,
            final(self).f1.bandwidth == old(self).f1.bandwidth,
            final(self).f2.bandwidth == old(self).f2.bandwidth,
            final(self).f3.bandwidth == old(self).f3.bandwidth,
            out@.len() == input@.len(),
            block_bounded(seq_int(out@)),
            (final(self).f1.s0 as int, final(self).f1.s1 as int) == formant_state(
                old(self).f1.s0 as int,
                old(self).f1.s1 as int,
                spec_formant_coef(
                    old(self).f1.center_freq as int,
                    old(self).f1.bandwidth as int,
                    shift as int,
                ),
                seq_int(input@),
                input@.len() as int,
            ),
            (final(self).f2.s0 as int, final(self).f2.s1 as int) == formant_state(
                old(self).f2.s0 as int,
                old(self).f2.s1 as int,
                spec_formant_coef(
                    old(self).f2.center_freq as int,
                    old(self).f2.bandwidth as int,
                    shift as int,
                ),
                formant_block(
                    old(self).f1.s0 as int,
                    old(self).f1.s1 as int,
                    spec_formant_coef(
                        old(self).f1.center_freq as int,
                        old(self).f1.bandwidth as int,
                        shift as int,
                    ),
                    seq_int(input@),
                ),
                input@.len() as int,
            ),
            (final(self).f3.s0 as int, final(self).f3.s1 as int) == formant_state(
                old(self).f3.s0 as int,
                old(self).f3.s1 as int,
                spec_formant_coef(
                    old(self).f3.center_freq as int,
                    old(self).f3.bandwidth as int,
                    shift as int,
                ),
                formant_block(
                    old(self).f2.s0 as int,
                    old(self).f2.s1 as int,
                    spec_formant_coef(
                        old(self).f2.center_freq as int,
                        old(self).f2.bandwidth as int,
                        shift as int,
                    ),
                    formant_block(
                        old(self).f1.s0 as int,
                        old(self).f1.s1 as int,
                        spec_formant_coef(
                            old(self).f1.center_freq as int,
                            old(self).f1.bandwidth as int,
                            shift as int,
                        ),
                        seq_int(input@),
                    ),
                ),
                input@.len() as int,
            ),
            seq_int(out@) == formant_block(
                old(self).f3.s0 as int,
                old(self).f3.s1 as int,
                spec_formant_coef(
                    old(self).f3.center_freq as int,
                    old(self).f3.bandwidth as int,
                    shift as int,
                ),
                formant_block(
                    old(self).f2.s0 as int,
                    old(self).f2.s1 as int,
                    spec_formant_coef(
                        old(self).f2.center_freq as int,
                        old(self).f2.bandwidth as int,
                        shift as int,
                    ),
                    formant_block(
                        old(self).f1.s0 as int,
                        old(self).f1.s1 as int,
                        spec_formant_coef(
                            old(self).f1.center_freq as int,
                            old(self).f1.bandwidth as int,
                            shift as int,
                        ),
                        seq_int(input@),
                    ),
                ),
            ),
    {
        let mid1 = self.f1.process(input, shift);
        let mid2 = self.f2.process(&mid1, shift);
        self.f3.process(&mid2, shift)
    }
}

/// The tremolo phase after `k` samples at a given per-sample increment.
pub open spec fn phase_after(p0: int, inc: int, k: int) -> int
    decreases k,
{
    if k <= 0 {
        p0
    } else {
        (phase_after(p0, inc, k - 1) + inc) % (Q as int)
    }
}

/// One modulated sample: a tremolo gain `1 + depth * sin(phase)`, saturated
/// at the engine headroom.
pub open spec fn modulation_out(x: int, depth: int, tp: int) -> int {
    clamp_spec(
        spec_qmul(x, Q as int + spec_qmul(depth, spec_sin_turn(tp))),
        -(SAMPLE_LIMIT as int),
        SAMPLE_LIMIT as int,
    )
}

/// Tracks a vibrato and a tremolo oscillator; only the tremolo is audible,
/// the vibrato phase advances without modulating the signal.
#[derive(Debug, Clone)]
pub struct ModulationProcessor {
    pub sample_rate: u32,
    /// Q16 turns in `[0, 1)`.
    pub vibrato_phase: i64,
    /// Q16 turns in `[0, 1)`.
    pub tremolo_phase: i64,
}

impl ModulationProcessor {
    pub open spec fn wf(&self) -> bool {
        &&& 8000 <= self.sample_rate <= 1000000
        &&& 0 <= self.vibrato_phase < Q
        &&& 0 <= self.tremolo_phase < Q
    }

    pub fn new(sample_rate: u32) -> (p: ModulationProcessor)
        requires
            8000 <= sample_rate <= 1000000,
        ensures
            p.wf(),
            p.sample_rate == sample_rate,
            p.vibrato_phase == 0,
            p.tremolo_phase == 0,
    {
        ModulationProcessor { sample_rate, vibrato_phase: 0, tremolo_phase: 0 }
    }

    /// Apply the tremolo gain across the block while both oscillator phases
    /// advance by `rate / sample_rate` turns per sample.
    pub fn apply_modulation(
        &mut self,
        input: &Vec<i64>,
        vibrato_rate: i64,
        vibrato_depth: i64,
        tremolo_rate: i64,
        tremolo_depth: i64,
    ) -> (out: Vec<i64>)
        requires
            old(self).wf(),
            0 <= vibrato_rate <= 20 * Q as int,
            0 <= tremolo_rate <= 20 * Q as int,
            0 <= tremolo_depth <= Q,
            input@.len() <= MAX_BLOCK,
            block_bounded(seq_int(input@)),
        ensures
            final(self).wf(),
            final(self).sample_rate == old(self).sample_rate,
            out@.len() == input@.len(),
            block_bounded(seq_int(out@)),
            forall|i: int|
                0 <= i < out@.len() ==> seq_int(out@)[i] == modulation_out(
                    seq_int(input@)[i],
                    tremolo_depth as int,
                    phase_after(
                        old(self).tremolo_phase as int,
                        div_trunc(tremolo_rate as int, old(self).sample_rate as int),
                        i,
                    ),
                ),
            final(self).tremolo_phase as int == phase_after(
                old(self).tremolo_phase as int,
                div_trunc(tremolo_rate as int, old(self).sample_rate as int),
                input@.len() as int,
            ),
            final(self).vibrato_phase as int == phase_after(
                old(self).vibrato_phase as int,
                div_trunc(vibrato_rate as int, old(self).sample_rate as int),
                input@.len() as int,
            ),
    {
        let v_inc = div_trunc_i64(vibrato_rate, self.sample_rate as i64);
        let t_inc = div_trunc_i64(tremolo_rate, self.sample_rate as i64);
        proof {
            crate::fixed::lemma_div_trunc_sign(vibrato_rate as int, self.sample_rate as int);
            crate::fixed::lemma_div_trunc_abs(vibrato_rate as int, self.sample_rate as int);
            crate::fixed::lemma_div_trunc_sign(tremolo_rate as int, self.sample_rate as int);
            crate::fixed::lemma_div_trunc_abs(tremolo_rate as int, self.sample_rate as int);
        }
        let mut out: Vec<i64> = Vec::new();
        let len = input.len();
        let mut i: usize = 0;
        while i < len
            invariant
                0 <= i <= len,
                len == input@.len() <= MAX_BLOCK,
                block_bounded(seq_int(input@)),
                0 <= tremolo_depth <= Q,
                0 <= v_inc <= 20 * Q as int,
                0 <= t_inc <= 20 * Q as int,
                v_inc as int == div_trunc(vibrato_rate as int, old(self).sample_rate as int),
                t_inc as int == div_trunc(tremolo_rate as int, old(self).sample_rate as int),
                out@.len() == i,
                forall|j: int|
                    0 <= j < i ==> #[trigger] (out@[j]) as int == modulation_out(
                        seq_int(input@)[j],
                        tremolo_depth as int,
                        phase_after(old(self).tremolo_phase as int, t_inc as int, j),
                    ),
                forall|j: int| 0 <= j < i ==> abs_i(#[trigger] (out@[j]) as int) <= SAMPLE_LIMIT,
                self.tremolo_phase as int == phase_after(
                    old(self).tremolo_phase as int,
                    t_inc as int,
                    i as int,
                ),
                self.vibrato_phase as int == phase_after(
                    old(self).vibrato_phase as int,
                    v_inc as int,
                    i as int,
                ),
                0 <= self.tremolo_phase < Q,
                0 <= self.vibrato_phase < Q,
                self.sample_rate == old(self).sample_rate,
            decreases len - i,
        {
            let x = input[i];
            self.vibrato_phase = wrap_turn(self.vibrato_phase + v_inc);
            let s = sin_turn(self.tremolo_phase);
            proof {
                lemma_qmul_bound(tremolo_depth as int, s as int, Q as int, Q as int);
                assert(seq_int(input@)[i as int] == x as int);
                assert(abs_i(x as int) <= SAMPLE_LIMIT);
                lemma_qmul_bound(
                    x as int,
                    Q as int + spec_qmul(tremolo_depth as int, s as int),
                    SAMPLE_LIMIT as int,
                    2 * Q as int,
                );
            }
            let gain = Q + qmul(tremolo_depth, s);
            let modulated = clamp_i64(qmul(x, gain), -SAMPLE_LIMIT, SAMPLE_LIMIT);
            proof {
                assert(modulated as int == modulation_out(
                    seq_int(input@)[i as int],
                    tremolo_depth as int,
                    phase_after(old(self).tremolo_phase as int, t_inc as int, i as int),
                ));
            }
            self.tremolo_phase = wrap_turn(self.tremolo_phase + t_inc);
            out.push(modulated);
            i = i + 1;
        }
        proof {
            assert forall|i: int| 0 <= i < out@.len() implies #[trigger] seq_int(out@)[i]
                == modulation_out(
                seq_int(input@)[i],
                tremolo_depth as int,
                phase_after(
                    old(self).tremolo_phase as int,
                    div_trunc(tremolo_rate as int, old(self).sample_rate as int),
                    i,
                ),
            ) by {
                assert(seq_int(out@)[i] == out@[i] as int);
            }
            assert forall|i: int| 0 <= i < out@.len() implies abs_i(
                #[trigger] seq_int(out@)[i],
            ) <= SAMPLE_LIMIT by {
                assert(seq_int(out@)[i] == out@[i] as int);
            }
        }
        out
    }
}

/// The reverb tap length in samples: `room * rate * 0.1`.
pub open spec fn spec_reverb_delay(room: int, rate: int) -> int {
    div_trunc(spec_qmul(room, 6554) * rate, Q as int)
}

/// One reverb step: the queue after pushing the input and popping once it
/// holds more than the tap length, and the popped sample (zero before the
/// queue fills).
pub open spec fn reverb_step(buf: Seq<int>, x: int, ds: int) -> (Seq<int>, int) {
    let grown = buf.push(x);
    if grown.len() > ds {
        (grown.subrange(1, grown.len() as int), grown[0])
    } else {
        (grown, 0)
    }
}

/// The reverb queue after the first `k` samples.
pub open spec fn reverb_state(buf: Seq<int>, xs: Seq<int>, ds: int, k: int) -> Seq<int>
    decreases k,
{
    if k <= 0 {
        buf
    } else {
        reverb_step(reverb_state(buf, xs, ds, k - 1), xs[k - 1], ds).0
    }
}

/// The wet/dry reverb output at index `i`.
pub open spec fn reverb_out_at(
    buf: Seq<int>,
    xs: Seq<int>,
    ds: int,
    damping: int,
    wet: int,
    i: int,
) -> int {
    let delayed = reverb_step(reverb_state(buf, xs, ds, i), xs[i], ds).1;
    let damped = spec_qmul(delayed, Q as int - damping);
    spec_qmul(xs[i], Q as int - wet) + spec_qmul(damped, wet)
}

/// The chorus tap length in samples: `delay_ms * rate / 1000`.
pub open spec fn spec_chorus_delay(delay_ms: int, rate: int) -> int {
    div_trunc(spec_qmul(delay_ms, rate), 1000)
}

/// The tap length of one voice at one step, swung by the voice's oscillator.
pub open spec fn spec_chorus_md(ds: int, depth: int, lfo: int) -> int {
    ds + div_trunc(spec_qmul(spec_qmul(depth, lfo), 32768) * ds, Q as int)
}

/// One chorus-voice step: the voice's queue and phase afterward, and its
/// contribution (`0.3` of the delayed sample once the queue is long enough).
pub open spec fn voice_step(
    buf: Seq<int>,
    phase: int,
    x: int,
    ds: int,
    depth: int,
    inc: int,
) -> (Seq<int>, int, int) {
    let lfo = spec_sin_turn(phase);
    let md = spec_chorus_md(ds, depth, lfo);
    let tap_term = if buf.len() > md {
        spec_qmul(buf[0], 19661)
    } else {
        0
    };
    let shrunk = if buf.len() > md {
        buf.subrange(1, buf.len() as int)
    } else {
        buf
    };
    (shrunk.push(x), (phase + inc) % (Q as int), tap_term)
}

/// One voice's queue and phase after the first `k` samples.
pub open spec fn voice_state(
    buf: Seq<int>,
    phase: int,
    xs: Seq<int>,
    ds: int,
    depth: int,
    inc: int,
    k: int,
) -> (Seq<int>, int)
    decreases k,
{
    if k <= 0 {
        (buf, phase)
    } else {
        let prev = voice_state(buf, phase, xs, ds, depth, inc, k - 1);
        let st = voice_step(prev.0, prev.1, xs[k - 1], ds, depth, inc);
        (st.0, st.1)
    }
}

/// One voice's contribution at index `i`.
pub open spec fn voice_contrib_at(
    buf: Seq<int>,
    phase: int,
    xs: Seq<int>,
    ds: int,
    depth: int,
    inc: int,
    i: int,
) -> int {
    let prev = voice_state(buf, phase, xs, ds, depth, inc, i);
    voice_step(prev.0, prev.1, xs[i], ds, depth, inc).2
}

/// The starting queue and phase of chorus voice `v`.
pub open spec fn voice_of(s: SpatialProcessor, v: int) -> (Seq<int>, int) {
    if v == 0 {
        (seq_int(s.cb0@), s.ph0 as int)
    } else if v == 1 {
        (seq_int(s.cb1@), s.ph1 as int)
    } else if v == 2 {
        (seq_int(s.cb2@), s.ph2 as int)
    } else if v == 3 {
        (seq_int(s.cb3@), s.ph3 as int)
    } else if v == 4 {
        (seq_int(s.cb4@), s.ph4 as int)
    } else if v == 5 {
        (seq_int(s.cb5@), s.ph5 as int)
    } else if v == 6 {
        (seq_int(s.cb6@), s.ph6 as int)
    } else {
        (seq_int(s.cb7@), s.ph7 as int)
    }
}

/// The queues and oscillators of a spatial stage, as mathematics.
#[verifier::ext_equal]
pub struct SpatialModel {
    pub reverb: Seq<int>,
    pub voices: Seq<(Seq<int>, int)>,
}

/// The model of a spatial stage: the reverb queue and the eight voices.
pub open spec fn spatial_m(s: SpatialProcessor) -> SpatialModel {
    SpatialModel {
        reverb: seq_int(s.reverb_buffer@),
        voices: Seq::new(8, |v: int| voice_of(s, v)),
    }
}

/// The summed contribution of the first `nv` voices at index `i`.
pub open spec fn chorus_sum(
    voices: Seq<(Seq<int>, int)>,
    nv: int,
    xs: Seq<int>,
    ds: int,
    depth: int,
    inc: int,
    i: int,
) -> int
    decreases nv,
{
    if nv <= 0 {
        0
    } else {
        chorus_sum(voices, nv - 1, xs, ds, depth, inc, i) + voice_contrib_at(
            voices[nv - 1].0,
            voices[nv - 1].1,
            xs,
            ds,
            depth,
            inc,
            i,
        )
    }
}

/// All samples of a queue are within the engine headroom.
pub open spec fn deque_bounded(s: Seq<i64>) -> bool {
    forall|i: int| 0 <= i < s.len() ==> abs_i(#[trigger] (s[i]) as int) <= SAMPLE_LIMIT
}

/// Accumulate one chorus voice over the block: advance the voice's queue and
/// oscillator and add its contribution into the accumulator.
fn chorus_voice_pass(
    buf: &mut std::collections::VecDeque<i64>,
    phase: &mut i64,
    input: &Vec<i64>,
    acc: &mut Vec<i64>,
    ds: i64,
    depth: i64,
    inc: i64,
    bound: i64,
)
    requires
        deque_bounded(old(buf)@),
        0 <= *old(phase) < Q,
        0 <= ds <= 0x100000,
        0 <= depth <= Q,
        0 <= inc < Q,
        0 <= bound <= 8 * 20132864,
        input@.len() <= MAX_BLOCK,
        block_bounded(seq_int(input@)),
        old(acc)@.len() == input@.len(),
        forall|i: int| 0 <= i < old(acc)@.len() ==> abs_i(#[trigger] (old(acc)@[i]) as int) <= bound,
    ensures
        deque_bounded(final(buf)@),
        0 <= *final(phase) < Q,
        final(acc)@.len() == input@.len(),
        (seq_int(final(buf)@), *final(phase) as int) == voice_state(
            seq_int(old(buf)@),
            *old(phase) as int,
            seq_int(input@),
            ds as int,
            depth as int,
            inc as int,
            input@.len() as int,
        ),
        forall|i: int|
            0 <= i < input@.len() ==> #[trigger] (final(acc)@[i]) as int == old(acc)@[i]
                + voice_contrib_at(
                seq_int(old(buf)@),
                *old(phase) as int,
                seq_int(input@),
                ds as int,
                depth as int,
                inc as int,
                i,
            ),
        forall|i: int|
            0 <= i < input@.len() ==> abs_i(#[trigger] (final(acc)@[i]) as int) <= bound + 20132864,
{
    let len = input.len();
    let mut i: usize = 0;
    while i < len
        invariant
            0 <= i <= len,
            len == input@.len() <= MAX_BLOCK,
            block_bounded(seq_int(input@)),
            0 <= ds <= 0x100000,
            0 <= depth <= Q,
            0 <= inc < Q,
            0 <= bound <= 8 * 20132864,
            deque_bounded(buf@),
            0 <= *phase < Q,
            acc@.len() == len,
            old(acc)@.len() == len,
            (seq_int(buf@), *phase as int) == voice_state(
                seq_int(old(buf)@),
                *old(phase) as int,
                seq_int(input@),
                ds as int,
                depth as int,
                inc as int,
                i as int,
            ),
            forall|j: int|
                0 <= j < i ==> #[trigger] (acc@[j]) as int == old(acc)@[j] + voice_contrib_at(
                    seq_int(old(buf)@),
                    *old(phase) as int,
                    seq_int(input@),
                    ds as int,
                    depth as int,
                    inc as int,
                    j,
                ),
            forall|j: int| i <= j < len ==> acc@[j] == old(acc)@[j],
            forall|j: int| 0 <= j < i ==> abs_i(#[trigger] (acc@[j]) as int) <= bound + 20132864,
            forall|j: int| 0 <= j < old(acc)@.len() ==> abs_i(#[trigger] (old(acc)@[j]) as int) <= bound,
        decreases len - i,
    {
        let ghost pre_buf = seq_int(buf@);
        let ghost pre_phase = *phase as int;
        let x = input[i];
        let lfo = sin_turn(*phase);
        let swing = qmul(depth, lfo);
        proof {
            lemma_qmul_bound(depth as int, lfo as int, Q as int, Q as int);
            lemma_qmul_bound(spec_qmul(depth as int, lfo as int), 32768, Q as int, 32768);
        }
        let sw2 = qmul(swing, 32768);
        proof {
            assert(abs_i(sw2 as int * ds as int) <= 34359738368int) by (nonlinear_arith)
                requires
                    abs_i(sw2 as int) <= 32768,
                    0 <= ds as int <= 0x100000,
            ;
            crate::fixed::lemma_div_trunc_bound(sw2 as int * ds as int, Q as int, 34359738368int);
            assert(abs_i(div_trunc(sw2 as int * ds as int, Q as int)) <= ds as int) by {
                assert(abs_i(sw2 as int * ds as int) <= 65536 * ds as int) by (nonlinear_arith)
                    requires
                        abs_i(sw2 as int) <= 32768,
                        0 <= ds as int,
                ;
                crate::fixed::lemma_div_trunc_bound(
                    sw2 as int * ds as int,
                    Q as int,
                    65536 * ds as int,
                );
                assert(65536 * ds as int / (Q as int) == ds as int) by (nonlinear_arith)
                    requires
                        0 <= ds as int,
                        Q == 65536,
                ;
            }
        }
        let md = ds + div_trunc_i64(sw2 * ds, Q);
        proof {
            assert(md >= 0);
        }
        let tap_term: i64 = if buf.len() > md as usize {
            let popped = buf.pop_front();
            let d = match popped {
                Some(d) => d,
                Option::None => 0,
            };
            proof {
                assert(abs_i(pre_buf[0]) <= SAMPLE_LIMIT);
                lemma_qmul_bound(d as int, 19661, SAMPLE_LIMIT as int, 19661);
            }
            qmul(d, 19661)
        } else {
            0
        };
        buf.push_back(x);
        proof {
            assert(seq_int(input@)[i as int] == x as int);
            assert(abs_i(x as int) <= SAMPLE_LIMIT);
            assert(abs_i(tap_term as int) <= 20132864);
            let st = voice_step(pre_buf, pre_phase, x as int, ds as int, depth as int, inc as int);
            assert(seq_int(buf@) =~= st.0);
            assert(tap_term as int == st.2);
        }
        *phase = wrap_turn(*phase + inc);
        let prev = acc[i];
        proof {
            assert(acc@[i as int] == old(acc)@[i as int]);
            assert(abs_i((old(acc)@[i as int]) as int) <= bound);
            assert(abs_i(prev as int + tap_term as int) <= bound + 20132864);
        }
        acc.set(i, prev + tap_term);
        i = i + 1;
    }
}

/// Spatial effects: one reverb queue and up to eight chorus voices, each a
/// delayed copy swung by its own oscillator.
#[derive(Debug, Clone)]
pub struct SpatialProcessor {
    pub sample_rate: u32,
    pub reverb_buffer: std::collections::VecDeque<i64>,
    pub cb0: std::collections::VecDeque<i64>,
    pub cb1: std::collections::VecDeque<i64>,
    pub cb2: std::collections::VecDeque<i64>,
    pub cb3: std::collections::VecDeque<i64>,
    pub cb4: std::collections::VecDeque<i64>,
    pub cb5: std::collections::VecDeque<i64>,
    pub cb6: std::collections::VecDeque<i64>,
    pub cb7: std::collections::VecDeque<i64>,
    pub ph0: i64,
    pub ph1: i64,
    pub ph2: i64,
    pub ph3: i64,
    pub ph4: i64,
    pub ph5: i64,
    pub ph6: i64,
    pub ph7: i64,
}

impl SpatialProcessor {
    pub open spec fn wf(&self) -> bool {
        &&& 8000 <= self.sample_rate <= 1000000
        &&& deque_bounded(self.reverb_buffer@)
        &&& deque_bounded(self.cb0@) && deque_bounded(self.cb1@) && deque_bounded(self.cb2@)
        &&& deque_bounded(self.cb3@) && deque_bounded(self.cb4@) && deque_bounded(self.cb5@)
        &&& deque_bounded(self.cb6@) && deque_bounded(self.cb7@)
        &&& 0 <= self.ph0 < Q && 0 <= self.ph1 < Q && 0 <= self.ph2 < Q && 0 <= self.ph3 < Q
        &&& 0 <= self.ph4 < Q && 0 <= self.ph5 < Q && 0 <= self.ph6 < Q && 0 <= self.ph7 < Q
    }

    pub fn new(sample_rate: u32) -> (p: SpatialProcessor)
        requires
            8000 <= sample_rate <= 1000000,
        ensures
            p.wf(),
            p.sample_rate == sample_rate,
            p.reverb_buffer@.len() == 0,
            p.cb0@.len() == 0 && p.cb7@.len() == 0,
            p.ph0 == 0 && p.ph7 == 0,
    {
        SpatialProcessor {
            sample_rate,
            reverb_buffer: std::collections::VecDeque::new(),
            cb0: std::collections::VecDeque::new(),
            cb1: std::collections::VecDeque::new(),
            cb2: std::collections::VecDeque::new(),
            cb3: std::collections::VecDeque::new(),
            cb4: std::collections::VecDeque::new(),
            cb5: std::collections::VecDeque::new(),
            cb6: std::collections::VecDeque::new(),
            cb7: std::collections::VecDeque::new(),
            ph0: 0,
            ph1: 0,
            ph2: 0,
            ph3: 0,
            ph4: 0,
            ph5: 0,
            ph6: 0,
            ph7: 0,
        }
    }

    /// A single-tap reverb: the tap length follows the room size, the tap is
    /// damped and mixed against the dry signal by the wet level.
    pub fn apply_reverb(&mut self, input: &Vec<i64>, room_size: i64, damping: i64, wet_level: i64) -> (out: Vec<i64>)
        requires
            old(self).wf(),
            0 <= room_size <= Q,
            0 <= damping <= Q,
            0 <= wet_level <= Q,
            input@.len() <= MAX_BLOCK,
            block_bounded(seq_int(input@)),
        ensures
            final(self).wf(),
            final(self).sample_rate == old(self).sample_rate,
            out@.len() == input@.len(),
            block_bounded(seq_int(out@)),
            seq_int(final(self).reverb_buffer@) == reverb_state(
                seq_int(old(self).reverb_buffer@),
                seq_int(input@),
                spec_reverb_delay(room_size as int, old(self).sample_rate as int),
                input@.len() as int,
            ),
            forall|i: int|
                0 <= i < out@.len() ==> #[trigger] seq_int(out@)[i] == reverb_out_at(
                    seq_int(old(self).reverb_buffer@),
                    seq_int(input@),
                    spec_reverb_delay(room_size as int, old(self).sample_rate as int),
                    damping as int,
                    wet_level as int,
                    i,
                ),
            final(self).cb0 == old(self).cb0 && final(self).cb1 == old(self).cb1,
            final(self).cb2 == old(self).cb2 && final(self).cb3 == old(self).cb3,
            final(self).cb4 == old(self).cb4 && final(self).cb5 == old(self).cb5,
            final(self).cb6 == old(self).cb6 && final(self).cb7 == old(self).cb7,
            final(self).ph0 == old(self).ph0 && final(self).ph1 == old(self).ph1,
            final(self).ph2 == old(self).ph2 && final(self).ph3 == old(self).ph3,
            final(self).ph4 == old(self).ph4 && final(self).ph5 == old(self).ph5,
            final(self).ph6 == old(self).ph6 && final(self).ph7 == old(self).ph7,
    {
        let scaled = qmul(room_size, 6554);
        proof {
            lemma_qmul_bound(room_size as int, 6554, Q as int, 6554);
            lemma_qmul_sign(room_size as int, 6554);
            assert(abs_i(scaled as int * self.sample_rate as int) <= 6554000000int)
                by (nonlinear_arith)
                requires
                    0 <= scaled as int <= 6554,
                    0 <= self.sample_rate as int <= 1000000,
            ;
            crate::fixed::lemma_div_trunc_bound(
                scaled as int * self.sample_rate as int,
                Q as int,
                6554000000int,
            );
            crate::fixed::lemma_div_trunc_sign(scaled as int * self.sample_rate as int, Q as int);
        }
        let ds = div_trunc_i64(scaled * (self.sample_rate as i64), Q);
        let ghost ds_int = ds as int;
        let ghost xs = seq_int(input@);
        let ghost buf0 = seq_int(old(self).reverb_buffer@);
        let mut out: Vec<i64> = Vec::new();
        let len = input.len();
        let mut i: usize = 0;
        while i < len
            invariant
                0 <= i <= len,
                len == input@.len() <= MAX_BLOCK,
                xs == seq_int(input@),
                block_bounded(xs),
                0 <= damping <= Q,
                0 <= wet_level <= Q,
                0 <= ds_int <= 100007,
                ds_int == ds as int,
                deque_bounded(self.reverb_buffer@),
                seq_int(self.reverb_buffer@) == reverb_state(buf0, xs, ds_int, i as int),
                out@.len() == i,
                forall|j: int|
                    0 <= j < i ==> #[trigger] (out@[j]) as int == reverb_out_at(
                        buf0,
                        xs,
                        ds_int,
                        damping as int,
                        wet_level as int,
                        j,
                    ),
                forall|j: int| 0 <= j < i ==> abs_i(#[trigger] (out@[j]) as int) <= SAMPLE_LIMIT,
                self.sample_rate == old(self).sample_rate,
                self.cb0 == old(self).cb0 && self.cb1 == old(self).cb1,
                self.cb2 == old(self).cb2 && self.cb3 == old(self).cb3,
                self.cb4 == old(self).cb4 && self.cb5 == old(self).cb5,
                self.cb6 == old(self).cb6 && self.cb7 == old(self).cb7,
                self.ph0 == old(self).ph0 && self.ph1 == old(self).ph1,
                self.ph2 == old(self).ph2 && self.ph3 == old(self).ph3,
                self.ph4 == old(self).ph4 && self.ph5 == old(self).ph5,
                self.ph6 == old(self).ph6 && self.ph7 == old(self).ph7,
            decreases len - i,
        {
            let ghost pre = seq_int(self.reverb_buffer@);
            let x = input[i];
            proof {
                assert(xs[i as int] == x as int);
                assert(abs_i(x as int) <= SAMPLE_LIMIT);
            }
            self.reverb_buffer.push_back(x);
            let delayed: i64 = if self.reverb_buffer.len() > ds as usize {
                let popped = self.reverb_buffer.pop_front();
                match popped {
                    Some(d) => d,
                    Option::None => 0,
                }
            } else {
                0
            };
            proof {
                let st = reverb_step(pre, x as int, ds_int);
                assert(seq_int(self.reverb_buffer@) =~= st.0);
                assert(delayed as int == st.1);
                assert(abs_i(delayed as int) <= SAMPLE_LIMIT);
                lemma_qmul_bound(delayed as int, Q as int - damping as int, SAMPLE_LIMIT as int, Q as int);
                crate::fixed::lemma_qmul_unit(delayed as int, Q as int - damping as int);
                crate::fixed::lemma_mix_bound(
                    x as int,
                    spec_qmul(delayed as int, Q as int - damping as int),
                    wet_level as int,
                    SAMPLE_LIMIT as int,
                );
            }
            let damped = qmul(delayed, Q - damping);
            let mixed = qmul(x, Q - wet_level) + qmul(damped, wet_level);
            out.push(mixed);
            i = i + 1;
        }
        proof {
            assert forall|j: int| 0 <= j < out@.len() implies #[trigger] seq_int(out@)[j]
                == reverb_out_at(buf0, xs, ds_int, damping as int, wet_level as int, j) by {
                assert(seq_int(out@)[j] == out@[j] as int);
            }
            assert forall|j: int| 0 <= j < out@.len() implies abs_i(
                #[trigger] seq_int(out@)[j],
            ) <= SAMPLE_LIMIT by {
                assert(seq_int(out@)[j] == out@[j] as int);
            }
        }
        out
    }

    /// Up to eight chorus voices, each an oscillator-swung delayed copy added
    /// at weight `0.3`, the total normalized by `voices + 1`.
    pub fn apply_chorus(&mut self, input: &Vec<i64>, voices: u32, delay: i64, depth: i64, rate: i64) -> (out: Vec<i64>)
        requires
            old(self).wf(),
            1 <= voices <= 8,
            0 <= delay <= 100 * Q as int,
            0 <= depth <= Q,
            0 <= rate <= 20 * Q as int,
            input@.len() <= MAX_BLOCK,
            block_bounded(seq_int(input@)),
        ensures
            final(self).wf(),
            final(self).sample_rate == old(self).sample_rate,
            final(self).reverb_buffer == old(self).reverb_buffer,
            out@.len() == input@.len(),
            block_bounded(seq_int(out@)),
            forall|i: int|
                0 <= i < out@.len() ==> #[trigger] seq_int(out@)[i] == div_trunc(
                    seq_int(input@)[i] + chorus_sum(
                        spatial_m(*old(self)).voices,
                        voices as int,
                        seq_int(input@),
                        spec_chorus_delay(delay as int, old(self).sample_rate as int),
                        depth as int,
                        div_trunc(rate as int, old(self).sample_rate as int),
                        i,
                    ),
                    voices as int + 1,
                ),
            forall|v: int|
                0 <= v < voices ==> #[trigger] voice_of(*final(self), v) == voice_state(
                    voice_of(*old(self), v).0,
                    voice_of(*old(self), v).1,
                    seq_int(input@),
                    spec_chorus_delay(delay as int, old(self).sample_rate as int),
                    depth as int,
                    div_trunc(rate as int, old(self).sample_rate as int),
                    input@.len() as int,
                ),
            forall|v: int|
                voices <= v < 8 ==> #[trigger] voice_of(*final(self), v) == voice_of(
                    *old(self),
                    v,
                ),
    {
        let scaled = qmul(delay, self.sample_rate as i64);
        proof {
            lemma_qmul_bound(delay as int, self.sample_rate as int, 100 * Q as int, 1000000);
            lemma_qmul_sign(delay as int, self.sample_rate as int);
            crate::fixed::lemma_div_trunc_bound(scaled as int, 1000, 100000000000int);
            crate::fixed::lemma_div_trunc_sign(scaled as int, 1000);
        }
        let ds = div_trunc_i64(scaled, 1000);
        let inc = div_trunc_i64(rate, self.sample_rate as i64);
        proof {
            crate::fixed::lemma_div_trunc_abs(rate as int, self.sample_rate as int);
            crate::fixed::lemma_div_trunc_sign(rate as int, self.sample_rate as int);
            assert(abs_i(rate as int) / (self.sample_rate as int) < 65536) by (nonlinear_arith)
                requires
                    0 <= rate as int <= 1310720,
                    8000 <= self.sample_rate as int,
                    abs_i(rate as int) == rate as int,
            ;
        }
        let ghost ds_int = ds as int;
        let ghost inc_int = inc as int;
        let ghost xs = seq_int(input@);
        let len = input.len();
        let mut acc: Vec<i64> = Vec::new();
        let mut k: usize = 0;
        while k < len
            invariant
                k <= len,
                acc@.len() == k,
                forall|j: int| 0 <= j < k ==> acc@[j] == 0,
            decreases len - k,
        {
            acc.push(0);
            k = k + 1;
        }
        let mut v: u32 = 0;
        while v < voices
            invariant
                0 <= v <= voices,
                1 <= voices <= 8,
                len == input@.len() <= MAX_BLOCK,
                xs == seq_int(input@),
                block_bounded(xs),
                0 <= ds_int <= 0x100000,
                ds_int == ds as int,
                0 <= inc_int < Q,
                inc_int == inc as int,
                0 <= depth <= Q,
                acc@.len() == len,
                self.wf(),
                self.sample_rate == old(self).sample_rate,
                self.reverb_buffer == old(self).reverb_buffer,
                forall|i: int|
                    0 <= i < len ==> #[trigger] (acc@[i]) as int == chorus_sum(
                        spatial_m(*old(self)).voices,
                        v as int,
                        xs,
                        ds_int,
                        depth as int,
                        inc_int,
                        i,
                    ),
                forall|i: int|
                    0 <= i < len ==> abs_i(#[trigger] (acc@[i]) as int) <= (v as int) * 20132864,
                forall|w: int|
                    0 <= w < v ==> #[trigger] voice_of(*self, w) == voice_state(
                        voice_of(*old(self), w).0,
                        voice_of(*old(self), w).1,
                        xs,
                        ds_int,
                        depth as int,
                        inc_int,
                        len as int,
                    ),
                forall|w: int| v <= w < 8 ==> #[trigger] voice_of(*self, w) == voice_of(*old(self), w),
            decreases voices - v,
        {
            let ghost acc_pre = acc@;
            let ghost self_pre = *self;
            let bound: i64 = (v as i64) * 20132864;
            match v {
                0 => chorus_voice_pass(&mut self.cb0, &mut self.ph0, input, &mut acc, ds, depth, inc, bound),
                1 => chorus_voice_pass(&mut self.cb1, &mut self.ph1, input, &mut acc, ds, depth, inc, bound),
                2 => chorus_voice_pass(&mut self.cb2, &mut self.ph2, input, &mut acc, ds, depth, inc, bound),
                3 => chorus_voice_pass(&mut self.cb3, &mut self.ph3, input, &mut acc, ds, depth, inc, bound),
                4 => chorus_voice_pass(&mut self.cb4, &mut self.ph4, input, &mut acc, ds, depth, inc, bound),
                5 => chorus_voice_pass(&mut self.cb5, &mut self.ph5, input, &mut acc, ds, depth, inc, bound),
                6 => chorus_voice_pass(&mut self.cb6, &mut self.ph6, input, &mut acc, ds, depth, inc, bound),
                _ => chorus_voice_pass(&mut self.cb7, &mut self.ph7, input, &mut acc, ds, depth, inc, bound),
            }
            proof {
                assert(voice_of(self_pre, v as int) == voice_of(*old(self), v as int));
                assert(voice_of(*self, v as int) == voice_state(
                    voice_of(*old(self), v as int).0,
                    voice_of(*old(self), v as int).1,
                    xs,
                    ds_int,
                    depth as int,
                    inc_int,
                    len as int,
                ));
                assert forall|w: int| 0 <= w < 8 && w != v as int implies #[trigger] voice_of(
                    *self,
                    w,
                ) == voice_of(self_pre, w) by {}
                assert forall|i: int| 0 <= i < len implies #[trigger] (acc@[i]) as int == chorus_sum(
                    spatial_m(*old(self)).voices,
                    v as int + 1,
                    xs,
                    ds_int,
                    depth as int,
                    inc_int,
                    i,
                ) by {
                    assert(acc_pre[i] as int == chorus_sum(
                        spatial_m(*old(self)).voices,
                        v as int,
                        xs,
                        ds_int,
                        depth as int,
                        inc_int,
                        i,
                    ));
                    assert(acc@[i] as int == acc_pre[i] + voice_contrib_at(
                        voice_of(self_pre, v as int).0,
                        voice_of(self_pre, v as int).1,
                        xs,
                        ds_int,
                        depth as int,
                        inc_int,
                        i,
                    ));
                }
            }
            v = v + 1;
        }
        let divisor: i64 = (voices as i64) + 1;
        let mut out: Vec<i64> = Vec::new();
        let mut i: usize = 0;
        while i < len
            invariant
                0 <= i <= len,
                len == input@.len() <= MAX_BLOCK,
                xs == seq_int(input@),
                block_bounded(xs),
                acc@.len() == len,
                1 <= voices <= 8,
                divisor == voices as int + 1,
                forall|j: int|
                    0 <= j < len ==> #[trigger] (acc@[j]) as int == chorus_sum(
                        spatial_m(*old(self)).voices,
                        voices as int,
                        xs,
                        ds_int,
                        depth as int,
                        inc_int,
                        j,
                    ),
                forall|j: int|
                    0 <= j < len ==> abs_i(#[trigger] (acc@[j]) as int) <= (voices as int)
                        * 20132864,
                out@.len() == i,
                forall|j: int|
                    0 <= j < i ==> #[trigger] (out@[j]) as int == div_trunc(
                        xs[j] + chorus_sum(
                            spatial_m(*old(self)).voices,
                            voices as int,
                            xs,
                            ds_int,
                            depth as int,
                            inc_int,
                            j,
                        ),
                        voices as int + 1,
                    ),
                forall|j: int| 0 <= j < i ==> abs_i(#[trigger] (out@[j]) as int) <= SAMPLE_LIMIT,
            decreases len - i,
        {
            let x = input[i];
            let a = acc[i];
            proof {
                assert(xs[i as int] == x as int);
                assert(abs_i(x as int) <= SAMPLE_LIMIT);
                crate::fixed::lemma_div_trunc_bound(
                    x as int + a as int,
                    divisor as int,
                    abs_i(x as int + a as int),
                );
                assert(abs_i(x as int + a as int) / (divisor as int) <= SAMPLE_LIMIT)
                    by (nonlinear_arith)
                    requires
                        abs_i(x as int + a as int) <= SAMPLE_LIMIT as int + (voices as int)
                            * 20132864,
                        divisor as int == voices as int + 1,
                        1 <= voices as int <= 8,
                        SAMPLE_LIMIT == 67108864,
                ;
            }
            let y = div_trunc_i64(x + a, divisor);
            out.push(y);
            i = i + 1;
        }
        proof {
            assert forall|j: int| 0 <= j < out@.len() implies #[trigger] seq_int(out@)[j]
                == div_trunc(
                seq_int(input@)[j] + chorus_sum(
                    spatial_m(*old(self)).voices,
                    voices as int,
                    seq_int(input@),
                    ds_int,
                    depth as int,
                    inc_int,
                    j,
                ),
                voices as int + 1,
            ) by {
                assert(seq_int(out@)[j] == out@[j] as int);
            }
            assert forall|j: int| 0 <= j < out@.len() implies abs_i(
                #[trigger] seq_int(out@)[j],
            ) <= SAMPLE_LIMIT by {
                assert(seq_int(out@)[j] == out@[j] as int);
            }
        }
        out
    }
}

} // verus!
