//! A second-order IIR filter with lowpass, highpass and bandpass designs
//! derived from the bilinear-transform cookbook formulas.

use vstd::prelude::*;
use crate::fixed::{
    abs_i, clamp_spec, clamp_i64, cos_turn, div_trunc, div_trunc_i64, lemma_qdiv_bound,
    lemma_qdiv_sign, lemma_qmul_bound, qdiv, qmul, sin_turn, spec_cos_turn, spec_qdiv, spec_qmul,
    spec_sin_turn, Q, SAMPLE_LIMIT,
};

verus! {

/// The normalized coefficient set of one design.
pub struct BiquadCoeffs {
    pub b0: int,
    pub b1: int,
    pub b2: int,
    pub a1: int,
    pub a2: int,
}

/// The angular position of a frequency within the sampling cycle, in Q16
/// turns: `freq / rate` (both the Q16 frequency and the plain rate carry
/// hertz).
pub open spec fn spec_turn(freq: int, rate: int) -> int {
    div_trunc(freq, rate)
}

/// `alpha = sin(omega) / (2 q)`, the bandwidth term of the cookbook designs.
pub open spec fn spec_alpha(s: int, q: int) -> int {
    spec_qdiv(s, 2 * q)
}

/// Lowpass design: `b = [(1-cos)/2, 1-cos, (1-cos)/2]`, `a = [1+alpha,
/// -2 cos, 1-alpha]`, all divided through by `a0`.
pub open spec fn spec_lowpass(freq: int, rate: int, q: int) -> BiquadCoeffs {
    let t = spec_turn(freq, rate);
    let s = spec_sin_turn(t);
    let c = spec_cos_turn(t);
    let al = spec_alpha(s, q);
    let a0 = Q as int + al;
    BiquadCoeffs {
        b0: spec_qdiv((Q as int - c) / 2, a0),
        b1: spec_qdiv(Q as int - c, a0),
        b2: spec_qdiv((Q as int - c) / 2, a0),
        a1: spec_qdiv(-2 * c, a0),
        a2: spec_qdiv(Q as int - al, a0),
    }
}

/// Highpass design: `b = [(1+cos)/2, -(1+cos), (1+cos)/2]`, same `a` row.
pub open spec fn spec_highpass(freq: int, rate: int, q: int) -> BiquadCoeffs {
    let t = spec_turn(freq, rate);
    let s = spec_sin_turn(t);
    let c = spec_cos_turn(t);
    let al = spec_alpha(s, q);
    let a0 = Q as int + al;
    BiquadCoeffs {
        b0: spec_qdiv((Q as int + c) / 2, a0),
        b1: spec_qdiv(-(Q as int + c), a0),
        b2: spec_qdiv((Q as int + c) / 2, a0),
        a1: spec_qdiv(-2 * c, a0),
        a2: spec_qdiv(Q as int - al, a0),
    }
}

/// Bandpass design: `b = [alpha, 0, -alpha]`, same `a` row.
pub open spec fn spec_bandpass(freq: int, rate: int, q: int) -> BiquadCoeffs {
    let t = spec_turn(freq, rate);
    let s = spec_sin_turn(t);
    let c = spec_cos_turn(t);
    let al = spec_alpha(s, q);
    let a0 = Q as int + al;
    BiquadCoeffs {
        b0: spec_qdiv(al, a0),
        b1: 0,
        b2: spec_qdiv(-al, a0),
        a1: spec_qdiv(-2 * c, a0),
        a2: spec_qdiv(Q as int - al, a0),
    }
}

/// The direct-form output of one step before history shifts, saturated at the
/// engine headroom.
pub open spec fn spec_biquad_out(f: BiquadFilter, x: int) -> int {
    clamp_spec(
        spec_qmul(f.b0 as int, x) + spec_qmul(f.b1 as int, f.x1 as int) + spec_qmul(
            f.b2 as int,
            f.x2 as int,
        ) - spec_qmul(f.a1 as int, f.y1 as int) - spec_qmul(f.a2 as int, f.y2 as int),
        -(SAMPLE_LIMIT as int),
        SAMPLE_LIMIT as int,
    )
}

/// A single second-order section: five Q16 coefficients and the last two
/// inputs and outputs.
#[derive(Debug, Clone)]
pub struct BiquadFilter {
    pub b0: i64,
    pub b1: i64,
    pub b2: i64,
    pub a1: i64,
    pub a2: i64,
    pub x1: i64,
    pub x2: i64,
    pub y1: i64,
    pub y2: i64,
}

impl BiquadFilter {
    /// The normalized coefficients stay within `2.0` and the history within
    /// the engine headroom.
    pub open spec fn wf(&self) -> bool {
        &&& abs_i(self.b0 as int) <= 2 * Q as int
        &&& abs_i(self.b1 as int) <= 2 * Q as int
        &&& abs_i(self.b2 as int) <= 2 * Q as int
        &&& abs_i(self.a1 as int) <= 2 * Q as int
        &&& abs_i(self.a2 as int) <= 2 * Q as int
        &&& abs_i(self.x1 as int) <= SAMPLE_LIMIT
        &&& abs_i(self.x2 as int) <= SAMPLE_LIMIT
        &&& abs_i(self.y1 as int) <= SAMPLE_LIMIT
        &&& abs_i(self.y2 as int) <= SAMPLE_LIMIT
    }

    pub open spec fn coeffs(&self) -> BiquadCoeffs {
        BiquadCoeffs {
            b0: self.b0 as int,
            b1: self.b1 as int,
            b2: self.b2 as int,
            a1: self.a1 as int,
            a2: self.a2 as int,
        }
    }

    /// The identity filter, with silent history.
    pub fn new() -> (f: BiquadFilter)
        ensures
            f.wf(),
            f.b0 == Q,
            f.b1 == 0 && f.b2 == 0 && f.a1 == 0 && f.a2 == 0,
            f.x1 == 0 && f.x2 == 0 && f.y1 == 0 && f.y2 == 0,
    {
        BiquadFilter { b0: Q, b1: 0, b2: 0, a1: 0, a2: 0, x1: 0, x2: 0, y1: 0, y2: 0 }
    }

    /// Compute the turn fraction, sine, cosine and alpha shared by the three
    /// designs; the frequency must lie in `(0, rate/2)`.
    fn design_terms(&self, freq: i64, sample_rate: u32, q: i64) -> (t: (i64, i64, i64))
        requires
            0 < freq,
            2 * freq < (sample_rate as int) * (Q as int),
            8000 <= sample_rate <= 1000000,
            0 < q <= 16 * Q as int,
        ensures
            t.0 as int == spec_sin_turn(spec_turn(freq as int, sample_rate as int)),
            t.1 as int == spec_cos_turn(spec_turn(freq as int, sample_rate as int)),
            t.2 as int == spec_alpha(t.0 as int, q as int),
            0 <= t.0 <= Q,
            -Q <= t.1 <= Q,
            0 <= t.2 <= 0x1_0000_0000,
    {
        let turn = div_trunc_i64(freq, sample_rate as i64);
        proof {
            assert((freq as int) / (sample_rate as int) <= 32768) by (nonlinear_arith)
                requires
                    0 < freq as int,
                    2 * (freq as int) < (sample_rate as int) * 65536,
                    (sample_rate as int) > 0,
            ;
            assert((freq as int) / (sample_rate as int) >= 0) by (nonlinear_arith)
                requires
                    0 < freq as int,
                    (sample_rate as int) > 0,
            ;
        }
        let s = sin_turn(turn);
        let c = cos_turn(turn);
        proof {
            lemma_qdiv_sign(s as int, 2 * q as int);
            lemma_qdiv_bound(s as int, 2 * q as int, 32768);
        }
        let al = qdiv(s, 2 * q);
        (s, c, al)
    }

    /// Configure as a lowpass at `freq` (Q16 hertz) for the given rate and
    /// quality; the history is kept.
    pub fn lowpass(&mut self, freq: i64, sample_rate: u32, q: i64)
        requires
            old(self).wf(),
            0 < freq,
            2 * freq < (sample_rate as int) * (Q as int),
            8000 <= sample_rate <= 1000000,
            0 < q <= 16 * Q as int,
        ensures
            final(self).wf(),
            final(self).coeffs() == spec_lowpass(freq as int, sample_rate as int, q as int),
            final(self).x1 == old(self).x1 && final(self).x2 == old(self).x2,
            final(self).y1 == old(self).y1 && final(self).y2 == old(self).y2,
    {
        let (s, c, al) = self.design_terms(freq, sample_rate, q);
        let a0 = Q + al;
        proof {
            lemma_qdiv_bound((Q as int - c as int) / 2, a0 as int, 1);
            lemma_qdiv_bound(Q as int - c as int, a0 as int, 2);
            lemma_qdiv_bound(-2 * c as int, a0 as int, 2);
            lemma_qdiv_bound(Q as int - al as int, a0 as int, 1);
        }
        self.b0 = qdiv((Q - c) / 2, a0);
        self.b1 = qdiv(Q - c, a0);
        self.b2 = qdiv((Q - c) / 2, a0);
        self.a1 = qdiv(-2 * c, a0);
        self.a2 = qdiv(Q - al, a0);
    }

    /// Configure as a highpass at `freq` (Q16 hertz); the history is kept.
    pub fn highpass(&mut self, freq: i64, sample_rate: u32, q: i64)
        requires
            old(self).wf(),
            0 < freq,
            2 * freq < (sample_rate as int) * (Q as int),
            8000 <= sample_rate <= 1000000,
            0 < q <= 16 * Q as int,
        ensures
            final(self).wf(),
            final(self).coeffs() == spec_highpass(freq as int, sample_rate as int, q as int),
            final(self).x1 == old(self).x1 && final(self).x2 == old(self).x2,
            final(self).y1 == old(self).y1 && final(self).y2 == old(self).y2,
    {
        let (s, c, al) = self.design_terms(freq, sample_rate, q);
        let a0 = Q + al;
        proof {
            lemma_qdiv_bound((Q as int + c as int) / 2, a0 as int, 1);
            lemma_qdiv_bound(-(Q as int + c as int), a0 as int, 2);
            lemma_qdiv_bound(-2 * c as int, a0 as int, 2);
            lemma_qdiv_bound(Q as int - al as int, a0 as int, 1);
        }
        self.b0 = qdiv((Q + c) / 2, a0);
        self.b1 = qdiv(-(Q + c), a0);
        self.b2 = qdiv((Q + c) / 2, a0);
        self.a1 = qdiv(-2 * c, a0);
        self.a2 = qdiv(Q - al, a0);
    }

    /// Configure as a bandpass at `freq` (Q16 hertz); the history is kept.
    pub fn bandpass(&mut self, freq: i64, sample_rate: u32, q: i64)
        requires
            old(self).wf(),
            0 < freq,
            2 * freq < (sample_rate as int) * (Q as int),
            8000 <= sample_rate <= 1000000,
            0 < q <= 16 * Q as int,
        ensures
            final(self).wf(),
            final(self).coeffs() == spec_bandpass(freq as int, sample_rate as int, q as int),
            final(self).x1 == old(self).x1 && final(self).x2 == old(self).x2,
            final(self).y1 == old(self).y1 && final(self).y2 == old(self).y2,
    {
        let (s, c, al) = self.design_terms(freq, sample_rate, q);
        let a0 = Q + al;
        proof {
            lemma_qdiv_bound(al as int, a0 as int, 1);
            lemma_qdiv_bound(-(al as int), a0 as int, 1);
            lemma_qdiv_bound(-2 * c as int, a0 as int, 2);
            lemma_qdiv_bound(Q as int - al as int, a0 as int, 1);
        }
        self.b0 = qdiv(al, a0);
        self.b1 = 0;
        self.b2 = qdiv(-al, a0);
        self.a1 = qdiv(-2 * c, a0);
        self.a2 = qdiv(Q - al, a0);
    }

    /// One sample through the direct-form difference equation; the output and
    /// the shifted history saturate at the engine headroom, so a finite input
    /// always yields a finite, bounded output.
    pub fn process(&mut self, x: i64) -> (r: i64)
        requires
            old(self).wf(),
            abs_i(x as int) <= SAMPLE_LIMIT,
        ensures
            final(self).wf(),
            r as int == spec_biquad_out(*old(self), x as int),
            abs_i(r as int) <= SAMPLE_LIMIT,
            final(self).x1 == x && final(self).x2 == old(self).x1,
            final(self).y1 == r && final(self).y2 == old(self).y1,
            final(self).coeffs() == old(self).coeffs(),
    {
        proof {
            lemma_qmul_bound(self.b0 as int, x as int, 2 * Q as int, SAMPLE_LIMIT as int);
            lemma_qmul_bound(self.b1 as int, self.x1 as int, 2 * Q as int, SAMPLE_LIMIT as int);
            lemma_qmul_bound(self.b2 as int, self.x2 as int, 2 * Q as int, SAMPLE_LIMIT as int);
            lemma_qmul_bound(self.a1 as int, self.y1 as int, 2 * Q as int, SAMPLE_LIMIT as int);
            lemma_qmul_bound(self.a2 as int, self.y2 as int, 2 * Q as int, SAMPLE_LIMIT as int);
        }
        let y = qmul(self.b0, x) + qmul(self.b1, self.x1) + qmul(self.b2, self.x2) - qmul(
            self.a1,
            self.y1,
        ) - qmul(self.a2, self.y2);
        let out = clamp_i64(y, -SAMPLE_LIMIT, SAMPLE_LIMIT);
        self.x2 = self.x1;
        self.x1 = x;
        self.y2 = self.y1;
        self.y1 = out;
        out
    }
}

} // verus!
