//! Noise synthesis: white, pink and brown noise from a linear-congruential
//! generator, a Paul-Kellet-style filter bank, and a leaky integrator.

use vstd::prelude::*;
use crate::fixed::{
    abs_i, clamp_spec, lemma_qmul_bound, lemma_qmul_sign, qmul, spec_qmul, clamp_i64, div_trunc,
    div_trunc_i64, Q,
};
use crate::params::NoiseType;

verus! {

/// Bound kept on every pink-filter state cell (49.0 in Q16, the fixed point
/// of the slowest decaying cell).
pub const PINK_LIMIT: i64 = 3211264;

/// The raw generator state after one step of the linear-congruential rule
/// `state * 1103515245 + 12345`, wrapping at 32 bits.
#[verifier::opaque]
pub open spec fn spec_white_next(s: u32) -> u32 {
    let m = ((s as nat * 1103515245nat) % 4294967296nat) as u32;
    if m as int + 12345 > u32::MAX as int {
        (m as int + 12345 - 4294967296) as u32
    } else {
        (m as int + 12345) as u32
    }
}

/// The white-noise sample a raw state stands for, mapped onto `[-Q, Q]`.
#[verifier::opaque]
pub open spec fn spec_white_val(s: u32) -> int {
    div_trunc((s as int) * 2 * (Q as int), 4294967295) - Q as int
}

/// One synthesis step: the generator state after the step and the unscaled
/// noise value it produced.
pub open spec fn spec_noise_step(g: NoiseGenerator) -> (NoiseGenerator, int) {
    match g.noise_type {
        NoiseType::NoNoise => (g, 0),
        NoiseType::White => {
            let s = spec_white_next(g.white_state);
            (NoiseGenerator { white_state: s, ..g }, spec_white_val(s))
        },
        NoiseType::Pink => {
            let s = spec_white_next(g.white_state);
            let w = spec_white_val(s);
            let p0 = spec_qmul(g.pink0 as int, 65461) + spec_qmul(w, 3638);
            let p1 = spec_qmul(g.pink1 as int, 65098) + spec_qmul(w, 4921);
            let p2 = spec_qmul(g.pink2 as int, 63504) + spec_qmul(w, 10084);
            let p3 = spec_qmul(g.pink3 as int, 56787) + spec_qmul(w, 20348);
            let p4 = spec_qmul(g.pink4 as int, 36045) + spec_qmul(w, 34928);
            let p5 = spec_qmul(g.pink5 as int, -49917) - spec_qmul(w, 1107);
            let sum = p0 + p1 + p2 + p3 + p4 + p5 + g.pink6 + spec_qmul(w, 35141);
            let p6 = spec_qmul(w, 7597);
            let g2 = NoiseGenerator {
                white_state: s,
                pink0: p0 as i64,
                pink1: p1 as i64,
                pink2: p2 as i64,
                pink3: p3 as i64,
                pink4: p4 as i64,
                pink5: p5 as i64,
                pink6: p6 as i64,
                ..g
            };
            (g2, spec_qmul(sum, 7209))
        },
        NoiseType::Brown => {
            let s = spec_white_next(g.white_state);
            let w = spec_white_val(s);
            let b = clamp_spec(g.brown_state + spec_qmul(w, 1311), -(Q as int), Q as int);
            (
                NoiseGenerator { white_state: s, brown_state: b as i64, ..g },
                spec_qmul(b, 229376),
            )
        },
    }
}

/// The generator after one call of `generate_sample`: the state does not
/// advance while the level is zero.
pub open spec fn spec_generator_after(g: NoiseGenerator) -> NoiseGenerator {
    if g.level <= 0 {
        g
    } else {
        spec_noise_step(g).0
    }
}

/// The sample one call of `generate_sample` returns.
pub open spec fn spec_generator_out(g: NoiseGenerator) -> int {
    if g.level <= 0 {
        0
    } else {
        spec_qmul(spec_noise_step(g).1, g.level as int)
    }
}

/// Synthesizes white, pink or brown noise one sample at a time.
#[derive(Debug, Clone)]
pub struct NoiseGenerator {
    /// The active coloration.
    pub noise_type: NoiseType,
    /// Q16 output level in `[0, 1]`; at zero the generator is silent and idle.
    pub level: i64,
    /// Raw linear-congruential state.
    pub white_state: u32,
    /// Pink filter bank cells.
    pub pink0: i64,
    pub pink1: i64,
    pub pink2: i64,
    pub pink3: i64,
    pub pink4: i64,
    pub pink5: i64,
    pub pink6: i64,
    /// Brown-noise integrator.
    pub brown_state: i64,
}

impl NoiseGenerator {
    /// The state bounds every step keeps: a level within `[0, 1]`, pink cells
    /// within their decay fixed points, an integrator within full scale.
    pub open spec fn wf(&self) -> bool {
        &&& 0 <= self.level <= Q
        &&& abs_i(self.pink0 as int) <= PINK_LIMIT
        &&& abs_i(self.pink1 as int) <= 786432
        &&& abs_i(self.pink2 as int) <= 327680
        &&& abs_i(self.pink3 as int) <= 196608
        &&& abs_i(self.pink4 as int) <= 131072
        &&& abs_i(self.pink5 as int) <= 65536
        &&& abs_i(self.pink6 as int) <= 65536
        &&& abs_i(self.brown_state as int) <= Q
    }

    /// A silent generator seeded as the engine seeds it.
    pub fn new() -> (g: NoiseGenerator)
        ensures
            g.wf(),
            g.noise_type == NoiseType::NoNoise,
            g.level == 0,
    {
        NoiseGenerator {
            noise_type: NoiseType::NoNoise,
            level: 0,
            white_state: 12345,
            pink0: 0,
            pink1: 0,
            pink2: 0,
            pink3: 0,
            pink4: 0,
            pink5: 0,
            pink6: 0,
            brown_state: 0,
        }
    }

    /// Set the coloration and the level; the level is clamped into `[0, 1]`.
    pub fn configure(&mut self, noise_type: NoiseType, level: i64)
        requires
            old(self).wf(),
        ensures
            final(self).wf(),
            final(self).noise_type == noise_type,
            final(self).level == clamp_spec(level as int, 0, Q as int),
            final(self).white_state == old(self).white_state,
            final(self).brown_state == old(self).brown_state,
    {
        self.noise_type = noise_type;
        self.level = clamp_i64(level, 0, Q);
    }

    /// One noise sample, already scaled by the level.
    ///
    /// A zero level returns exactly zero and leaves the state untouched, for
    /// every noise type. A white sample before scaling lies in `[-Q, Q]`, so
    /// the scaled result does too.
    #[verifier::rlimit(50)]
    pub fn generate_sample(&mut self) -> (r: i64)
        requires
            old(self).wf(),
        ensures
            final(self).wf(),
            *final(self) == spec_generator_after(*old(self)),
            r as int == spec_generator_out(*old(self)),
            old(self).level <= 0 ==> r == 0 && *final(self) == *old(self),
            abs_i(r as int) <= 9 * Q as int,
            final(self).noise_type == old(self).noise_type,
            final(self).level == old(self).level,
    {
        if self.level <= 0 {
            return 0;
        }
        let noise: i64 = match self.noise_type {
            NoiseType::NoNoise => 0,
            NoiseType::White => self.white_noise(),
            NoiseType::Pink => self.pink_noise(),
            NoiseType::Brown => self.brown_noise(),
        };
        proof {
            lemma_qmul_bound(noise as int, self.level as int, 9 * Q as int, Q as int);
        }
        qmul(noise, self.level)
    }

    /// Advance the linear-congruential state and map it onto `[-Q, Q]`.
    fn white_noise(&mut self) -> (r: i64)
        ensures
            *final(self) == (NoiseGenerator {
                white_state: spec_white_next(old(self).white_state),
                ..*old(self)
            }),
            r as int == spec_white_val(final(self).white_state),
            -Q <= r <= Q,
    {
        proof {
            reveal(spec_white_next);
            reveal(spec_white_val);
        }
        self.white_state = self.white_state.wrapping_mul(1103515245).wrapping_add(12345);
        let wide: i64 = self.white_state as i64;
        let r = div_trunc_i64(wide * (2 * Q), 4294967295) - Q;
        proof {
            crate::fixed::lemma_div_trunc_bound(
                wide as int * (2 * Q as int),
                4294967295,
                562949953290240,
            );
            crate::fixed::lemma_div_trunc_sign(wide as int * (2 * Q as int), 4294967295);
        }
        r
    }

    /// One step of the pink filter bank: six decaying cells plus a direct tap.
    #[verifier::rlimit(100)]
    #[verifier::spinoff_prover]
    fn pink_noise(&mut self) -> (r: i64)
        requires
            old(self).wf(),
            old(self).noise_type == NoiseType::Pink,
        ensures
            (*final(self), r as int) == spec_noise_step(*old(self)),
            final(self).noise_type == old(self).noise_type,
            final(self).level == old(self).level,
            final(self).wf(),
            abs_i(r as int) <= 9 * Q as int,
    {
        let ghost st = spec_noise_step(*old(self));
        let w = self.white_noise();
        let p0 = qmul(self.pink0, 65461) + qmul(w, 3638);
        proof {
            lemma_qmul_bound(old(self).pink0 as int, 65461, PINK_LIMIT as int, 65461);
            lemma_qmul_bound(w as int, 3638, Q as int, 3638);
            assert(-3211264 <= p0 <= 3211264);
        }
        let p1 = qmul(self.pink1, 65098) + qmul(w, 4921);
        proof {
            lemma_qmul_bound(old(self).pink1 as int, 65098, 786432, 65098);
            lemma_qmul_bound(w as int, 4921, Q as int, 4921);
            assert(-786432 <= p1 <= 786432);
        }
        let p2 = qmul(self.pink2, 63504) + qmul(w, 10084);
        proof {
            lemma_qmul_bound(old(self).pink2 as int, 63504, 327680, 63504);
            lemma_qmul_bound(w as int, 10084, Q as int, 10084);
            assert(-327680 <= p2 <= 327680);
        }
        let p3 = qmul(self.pink3, 56787) + qmul(w, 20348);
        proof {
            lemma_qmul_bound(old(self).pink3 as int, 56787, 196608, 56787);
            lemma_qmul_bound(w as int, 20348, Q as int, 20348);
            assert(-196608 <= p3 <= 196608);
        }
        let p4 = qmul(self.pink4, 36045) + qmul(w, 34928);
        proof {
            lemma_qmul_bound(old(self).pink4 as int, 36045, 131072, 36045);
            lemma_qmul_bound(w as int, 34928, Q as int, 34928);
            assert(-131072 <= p4 <= 131072);
        }
        let p5 = qmul(self.pink5, -49917) - qmul(w, 1107);
        proof {
            lemma_qmul_bound(old(self).pink5 as int, -49917, 65536, 49917);
            lemma_qmul_bound(w as int, 1107, Q as int, 1107);
            assert(-65536 <= p5 <= 65536);
        }
        let direct = qmul(w, 35141);
        proof {
            lemma_qmul_bound(w as int, 35141, Q as int, 35141);
            assert(-35141 <= direct <= 35141);
        }
        let sum = p0 + p1 + p2 + p3 + p4 + p5 + self.pink6 + direct;
        self.pink0 = p0;
        self.pink1 = p1;
        self.pink2 = p2;
        self.pink3 = p3;
        self.pink4 = p4;
        self.pink5 = p5;
        self.pink6 = qmul(w, 7597);
        proof {
            lemma_qmul_bound(w as int, 7597, Q as int, 7597);
        }
        let r = qmul(sum, 7209);
        proof {
            lemma_qmul_bound(sum as int, 7209, 4849664, 7209);
            assert(st.0.pink0 == self.pink0);
            assert(st.0.pink1 == self.pink1);
            assert(st.0.pink2 == self.pink2);
            assert(st.0.pink3 == self.pink3);
            assert(st.0.pink4 == self.pink4);
            assert(st.0.pink5 == self.pink5);
            assert(st.0.pink6 == self.pink6);
            assert(st.0.white_state == self.white_state);
            assert(st.0 == *self);
            assert(st.1 == r as int);
        }
        r
    }

    /// Leaky integration of white noise, clamped to full scale.
    #[verifier::rlimit(100)]
    #[verifier::spinoff_prover]
    fn brown_noise(&mut self) -> (r: i64)
        requires
            old(self).wf(),
            old(self).noise_type == NoiseType::Brown,
        ensures
            (*final(self), r as int) == spec_noise_step(*old(self)),
            final(self).noise_type == old(self).noise_type,
            final(self).level == old(self).level,
            final(self).wf(),
            abs_i(r as int) <= 9 * Q as int,
    {
        let w = self.white_noise();
        proof {
            lemma_qmul_bound(w as int, 1311, Q as int, 1311);
        }
        let step = qmul(w, 1311);
        self.brown_state = clamp_i64(self.brown_state + step, -Q, Q);
        proof {
            lemma_qmul_bound(self.brown_state as int, 229376, Q as int, 229376);
        }
        qmul(self.brown_state, 229376)
    }
}

} // verus!
