//! A fixed-capacity circular delay line with feedback and dry/wet mix.

use vstd::prelude::*;
use vstd::arithmetic::div_mod::{lemma_mod_self_0, lemma_small_mod};
use crate::fixed::{
    abs_i, clamp_spec, clamp_i64, lemma_qmul_bound, lemma_qmul_unit, qmul, spec_qmul, Q,
    SAMPLE_LIMIT,
};

verus! {

/// Headroom bound kept on every stored sample: feedback at most `0.95` keeps
/// the loop gain below one, so the buffer stays under `30` input limits.
pub const DELAY_LIMIT: i64 = 2013265920;

/// The mathematical state of a delay line.
#[verifier::ext_equal]
pub struct DelayModel {
    pub buf: Seq<int>,
    pub write_pos: int,
    pub delay: int,
    pub feedback: int,
    pub mix: int,
}

impl DelayModel {
    pub open spec fn wf(&self) -> bool {
        &&& 1 <= self.buf.len()
        &&& 0 <= self.write_pos < self.buf.len()
        &&& 0 <= self.delay < self.buf.len()
        &&& 0 <= self.feedback <= 62259
        &&& 0 <= self.mix <= Q
        &&& forall|i: int|
            0 <= i < self.buf.len() ==> abs_i(#[trigger] self.buf[i]) <= DELAY_LIMIT
    }
}

/// The tap the next read comes from.
pub open spec fn delay_read(m: DelayModel) -> int {
    m.buf[(m.write_pos + m.buf.len() - m.delay) % (m.buf.len() as int)]
}

/// One step of the delay line: the state after writing
/// `input + delayed * feedback`, and the output `input + delayed * mix`.
pub open spec fn delay_step(m: DelayModel, input: int) -> (DelayModel, int) {
    let delayed = delay_read(m);
    let stored = input + spec_qmul(delayed, m.feedback);
    let m2 = DelayModel {
        buf: m.buf.update(m.write_pos, stored),
        write_pos: (m.write_pos + 1) % (m.buf.len() as int),
        ..m
    };
    (m2, input + spec_qmul(delayed, m.mix))
}

/// Feedback delay over a circular buffer: each call reads the sample written
/// `delay_samples` steps ago, mixes it into the output, and stores the input
/// plus the scaled feedback.
#[derive(Debug, Clone)]
pub struct DelayEffect {
    pub buffer: Vec<i64>,
    pub write_pos: usize,
    pub delay_samples: usize,
    /// Q16 feedback in `[0, 0.95]`.
    pub feedback: i64,
    /// Q16 dry/wet mix in `[0, 1]`.
    pub mix: i64,
}

impl DelayEffect {
    /// The delay line this value stands for.
    pub open spec fn m(&self) -> DelayModel {
        DelayModel {
            buf: Seq::new(self.buffer@.len(), |i: int| self.buffer@[i] as int),
            write_pos: self.write_pos as int,
            delay: self.delay_samples as int,
            feedback: self.feedback as int,
            mix: self.mix as int,
        }
    }

    pub open spec fn wf(&self) -> bool {
        &&& self.m().wf()
        &&& self.buffer@.len() <= 0x10000000
    }

    /// A silent line of the given capacity, a quarter of it as the initial
    /// delay, and gentle default feedback and mix.
    pub fn new(max_delay_samples: usize) -> (d: DelayEffect)
        requires
            1 <= max_delay_samples <= 0x10000000,
        ensures
            d.wf(),
            d.m().buf == Seq::new(max_delay_samples as nat, |i: int| 0int),
            d.m().write_pos == 0,
            d.m().delay == max_delay_samples as int / 4,
            d.m().feedback == 19661,
            d.m().mix == 19661,
    {
        let mut buffer: Vec<i64> = Vec::new();
        let mut i: usize = 0;
        while i < max_delay_samples
            invariant
                i <= max_delay_samples,
                buffer@.len() == i as nat,
                forall|j: int| 0 <= j < i ==> buffer@[j] == 0,
            decreases max_delay_samples - i,
        {
            buffer.push(0);
            i = i + 1;
        }
        let d = DelayEffect {
            buffer,
            write_pos: 0,
            delay_samples: max_delay_samples / 4,
            feedback: 19661,
            mix: 19661,
        };
        proof {
            assert(d.m().buf =~= Seq::new(max_delay_samples as nat, |i: int| 0int));
        }
        d
    }

    /// One sample through the line: returns `input + delayed * mix`, stores
    /// `input + delayed * feedback` at the write position, and advances it.
    pub fn process(&mut self, input: i64) -> (r: i64)
        requires
            old(self).wf(),
            abs_i(input as int) <= SAMPLE_LIMIT,
        ensures
            final(self).wf(),
            final(self).m() == delay_step(old(self).m(), input as int).0,
            r as int == delay_step(old(self).m(), input as int).1,
            abs_i(r as int) <= SAMPLE_LIMIT as int + DELAY_LIMIT as int,
    {
        let len = self.buffer.len();
        let read_pos = (self.write_pos + len - self.delay_samples) % len;
        let delayed = self.buffer[read_pos];
        proof {
            assert(abs_i(old(self).m().buf[read_pos as int]) <= DELAY_LIMIT);
            lemma_qmul_bound(delayed as int, self.feedback as int, DELAY_LIMIT as int, 62259);
            lemma_qmul_unit(delayed as int, self.mix as int);
        }
        let stored = input + qmul(delayed, self.feedback);
        self.buffer.set(self.write_pos, stored);
        self.write_pos = (self.write_pos + 1) % len;
        let r = input + qmul(delayed, self.mix);
        proof {
            assert(final(self).m().buf =~= delay_step(old(self).m(), input as int).0.buf);
        }
        r
    }

    /// Set the delay to `time_sec * sample_rate` samples, capped one below the
    /// capacity. The time is Q16 seconds, the rate plain hertz.
    pub fn set_delay_time(&mut self, time_sec: i64, sample_rate: u32)
        requires
            old(self).wf(),
            0 <= time_sec <= 16 * Q as int,
            sample_rate <= 1000000,
        ensures
            final(self).wf(),
            final(self).m() == (DelayModel {
                delay: min_int(
                    spec_qmul(time_sec as int, sample_rate as int),
                    old(self).m().buf.len() as int - 1,
                ),
                ..old(self).m()
            }),
    {
        let samples = qmul(time_sec, sample_rate as i64);
        proof {
            lemma_qmul_bound(time_sec as int, sample_rate as int, 16 * Q as int, 1000000);
            crate::fixed::lemma_qmul_sign(time_sec as int, sample_rate as int);
        }
        let cap = self.buffer.len() - 1;
        let samples_usize = samples as usize;
        self.delay_samples = if samples_usize < cap {
            samples_usize
        } else {
            cap
        };
    }

    /// Clamp and set the feedback, into `[0, 0.95]`.
    pub fn set_feedback(&mut self, feedback: i64)
        requires
            old(self).wf(),
        ensures
            final(self).wf(),
            final(self).m() == (DelayModel {
                feedback: clamp_spec(feedback as int, 0, 62259),
                ..old(self).m()
            }),
    {
        self.feedback = clamp_i64(feedback, 0, 62259);
    }

    /// Clamp and set the mix, into `[0, 1]`.
    pub fn set_mix(&mut self, mix: i64)
        requires
            old(self).wf(),
        ensures
            final(self).wf(),
            final(self).m() == (DelayModel {
                mix: clamp_spec(mix as int, 0, Q as int),
                ..old(self).m()
            }),
    {
        self.mix = clamp_i64(mix, 0, Q);
    }
}

pub open spec fn min_int(a: int, b: int) -> int {
    if a < b {
        a
    } else {
        b
    }
}

/// The state of a delay line that was fed one impulse and then `j` zeros.
pub open spec fn impulse_state(m: DelayModel, imp: int, j: nat) -> DelayModel
    decreases j,
{
    if j == 0 {
        delay_step(m, imp).0
    } else {
        delay_step(impulse_state(m, imp, (j - 1) as nat), 0).0
    }
}

/// A delay line in its starting state: an all-zero buffer, write position
/// zero, no feedback, full wet mix.
pub open spec fn fresh_line(m: DelayModel, d: int) -> bool {
    &&& m.wf()
    &&& m.buf == Seq::new(m.buf.len(), |i: int| 0int)
    &&& m.write_pos == 0
    &&& m.delay == d
    &&& 1 <= d < m.buf.len()
    &&& m.feedback == 0
    &&& m.mix == Q
}

proof fn lemma_impulse_state_shape(m: DelayModel, imp: int, d: int, j: nat)
    requires
        fresh_line(m, d),
        abs_i(imp) <= SAMPLE_LIMIT,
        j < d,
    ensures
        impulse_state(m, imp, j).wf(),
        impulse_state(m, imp, j) == (DelayModel {
            buf: m.buf.update(0, imp),
            write_pos: j as int + 1,
            ..m
        }),
    decreases j,
{
    lemma_qmul_zero_factor(delay_read(m), 0);
    if j == 0 {
        let m1 = delay_step(m, imp).0;
        assert(m1.write_pos == 1int % (m.buf.len() as int));
        lemma_small_mod(1nat, m.buf.len());
        assert(spec_qmul(delay_read(m), 0) == 0);
        assert(m1.buf =~= m.buf.update(0, imp + 0));
        assert(m1.buf =~= m.buf.update(0, imp));
    } else {
        lemma_impulse_state_shape(m, imp, d, (j - 1) as nat);
        let prev = impulse_state(m, imp, (j - 1) as nat);
        let read = (prev.write_pos + prev.buf.len() - prev.delay) % (prev.buf.len() as int);
        lemma_qmul_zero_factor(delay_read(prev), 0);
        if j < d {
            assert(0 <= j + m.buf.len() - d < m.buf.len());
            lemma_small_mod((j + m.buf.len() - d) as nat, m.buf.len());
            assert(read == j + m.buf.len() - d);
        }
        lemma_small_mod((j + 1) as nat, m.buf.len());
        assert(impulse_state(m, imp, j).buf =~= m.buf.update(0, imp));
    }
}

/// One Q16 multiply by zero is zero.
proof fn lemma_qmul_zero_factor(a: int, b: int)
    requires
        b == 0,
    ensures
        spec_qmul(a, b) == 0,
{
    assert(a * 0 == 0) by (nonlinear_arith);
    crate::fixed::lemma_div_trunc_sign(0, Q as int);
}

/// A full-scale multiply is exact: `x * Q / Q == x`.
proof fn lemma_qmul_full(a: int)
    ensures
        spec_qmul(a, Q as int) == a,
{
    if a >= 0 {
        assert(a * (Q as int) / (Q as int) == a) by (nonlinear_arith);
    } else {
        assert((-(a * (Q as int))) / (Q as int) == -a) by (nonlinear_arith);
    }
}

/// The delay-line round trip: on a fresh line with no feedback and a full wet
/// mix, an impulse passes through dry at once, the next `delay - 1` outputs
/// are silent, and the impulse reappears, exactly, `delay` steps later.
pub proof fn lemma_delay_round_trip(m: DelayModel, imp: int, d: int, j: nat)
    requires
        fresh_line(m, d),
        abs_i(imp) <= SAMPLE_LIMIT,
        1 <= j <= d,
    ensures
        delay_step(m, imp).1 == imp,
        j < d ==> delay_step(impulse_state(m, imp, (j - 1) as nat), 0).1 == 0,
        j == d ==> delay_step(impulse_state(m, imp, (j - 1) as nat), 0).1 == imp,
{
    lemma_qmul_zero_factor(delay_read(m), 0);
    assert(0 <= m.buf.len() - d < m.buf.len());
    lemma_small_mod((m.buf.len() - d) as nat, m.buf.len());
    lemma_qmul_full(delay_read(m));
    assert(delay_read(m) == 0);
    lemma_qmul_full(0);
    lemma_impulse_state_shape(m, imp, d, (j - 1) as nat);
    let prev = impulse_state(m, imp, (j - 1) as nat);
    assert(prev.write_pos == j);
    let read = (prev.write_pos + prev.buf.len() - prev.delay) % (prev.buf.len() as int);
    if j < d {
        assert(0 <= j + m.buf.len() - d < m.buf.len());
        lemma_small_mod((j + m.buf.len() - d) as nat, m.buf.len());
        assert(read == j + m.buf.len() - d);
        assert(prev.buf[read] == 0);
        lemma_qmul_full(0);
    } else {
        lemma_mod_self_0(m.buf.len() as int);
        assert(read == 0) by {
            assert((j + m.buf.len() - d) == m.buf.len());
        }
        assert(prev.buf[0] == imp);
        lemma_qmul_full(imp);
    }
}

} // verus!
