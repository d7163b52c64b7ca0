//! Q16 fixed-point arithmetic: the numeric substrate of the engine.
//!
//! A value `x: i64` stands for the real number `x / 65536`. All
//! signal-processing code works on these values; the helpers here perform the
//! scaled multiplications and divisions and prove their bounds.

use vstd::prelude::*;

verus! {

/// Full scale: the Q16 representation of `1.0`.
pub const Q: i64 = 65536;

/// Headroom bound on a block sample accepted by the engine (1024 full scale).
pub const SAMPLE_LIMIT: i64 = 67108864;

/// Magnitude of an integer.
pub open spec fn abs_i(x: int) -> int {
    if x < 0 {
        -x
    } else {
        x
    }
}

/// Division rounding toward zero, as the hardware divide instruction rounds.
pub open spec fn div_trunc(a: int, b: int) -> int {
    if a >= 0 {
        a / b
    } else {
        -((-a) / b)
    }
}

/// Q16 product: `(a * b) / Q`, rounded toward zero.
pub open spec fn spec_qmul(a: int, b: int) -> int {
    div_trunc(a * b, Q as int)
}

/// Q16 quotient: `(a * Q) / b`, rounded toward zero.
pub open spec fn spec_qdiv(a: int, b: int) -> int {
    div_trunc(a * Q, b)
}

pub open spec fn clamp_spec(x: int, lo: int, hi: int) -> int {
    if x < lo {
        lo
    } else if x > hi {
        hi
    } else {
        x
    }
}

pub proof fn lemma_div_trunc_abs(a: int, b: int)
    requires
        b > 0,
    ensures
        abs_i(div_trunc(a, b)) == abs_i(a) / b,
        abs_i(div_trunc(a, b)) <= abs_i(a),
{
    if a >= 0 {
        assert(a / b <= a) by (nonlinear_arith)
            requires
                a >= 0,
                b > 0,
        ;
        assert(a / b >= 0) by (nonlinear_arith)
            requires
                a >= 0,
                b > 0,
        ;
    } else {
        assert((-a) / b <= -a) by (nonlinear_arith)
            requires
                a < 0,
                b > 0,
        ;
        assert((-a) / b >= 0) by (nonlinear_arith)
            requires
                a < 0,
                b > 0,
        ;
    }
}

/// Truncating division is bounded by any bound on the dividend.
pub proof fn lemma_div_trunc_bound(a: int, b: int, c: int)
    requires
        b > 0,
        abs_i(a) <= c,
    ensures
        abs_i(div_trunc(a, b)) <= c / b,
{
    lemma_div_trunc_abs(a, b);
    assert(abs_i(a) / b <= c / b) by (nonlinear_arith)
        requires
            b > 0,
            0 <= abs_i(a) <= c,
    ;
}

/// The product bound: magnitudes multiply.
pub proof fn lemma_abs_mul(a: int, b: int)
    ensures
        abs_i(a * b) == abs_i(a) * abs_i(b),
{
    assert(abs_i(a * b) == abs_i(a) * abs_i(b)) by (nonlinear_arith);
}

/// A Q16 product of bounded factors is bounded.
pub proof fn lemma_qmul_bound(a: int, b: int, ca: int, cb: int)
    requires
        abs_i(a) <= ca,
        abs_i(b) <= cb,
    ensures
        abs_i(spec_qmul(a, b)) <= ca * cb / (Q as int),
{
    lemma_abs_mul(a, b);
    assert(abs_i(a) * abs_i(b) <= ca * cb) by (nonlinear_arith)
        requires
            0 <= abs_i(a) <= ca,
            0 <= abs_i(b) <= cb,
    ;
    lemma_div_trunc_bound(a * b, Q as int, ca * cb);
}

/// Truncating division keeps the sign of the dividend.
pub proof fn lemma_div_trunc_sign(a: int, b: int)
    requires
        b > 0,
    ensures
        a >= 0 ==> div_trunc(a, b) >= 0,
        a <= 0 ==> div_trunc(a, b) <= 0,
        a == 0 ==> div_trunc(a, b) == 0,
{
    if a >= 0 {
        assert(a / b >= 0) by (nonlinear_arith)
            requires
                a >= 0,
                b > 0,
        ;
        if a == 0 {
            assert(0int / b == 0) by (nonlinear_arith)
                requires
                    b > 0,
            ;
        }
    } else {
        assert((-a) / b >= 0) by (nonlinear_arith)
            requires
                -a >= 0,
                b > 0,
        ;
    }
}

/// A Q16 product of nonnegative factors is nonnegative.
pub proof fn lemma_qmul_sign(a: int, b: int)
    ensures
        a >= 0 && b >= 0 ==> spec_qmul(a, b) >= 0,
        a <= 0 && b >= 0 ==> spec_qmul(a, b) <= 0,
        a >= 0 && b <= 0 ==> spec_qmul(a, b) <= 0,
{
    if a >= 0 && b >= 0 {
        assert(a * b >= 0) by (nonlinear_arith)
            requires
                a >= 0,
                b >= 0,
        ;
    }
    if a <= 0 && b >= 0 {
        assert(a * b <= 0) by (nonlinear_arith)
            requires
                a <= 0,
                b >= 0,
        ;
    }
    if a >= 0 && b <= 0 {
        assert(a * b <= 0) by (nonlinear_arith)
            requires
                a >= 0,
                b <= 0,
        ;
    }
    lemma_div_trunc_sign(a * b, Q as int);
}

/// A Q16 quotient with a dividend within `k` divisors is within `k`.
pub proof fn lemma_qdiv_bound(a: int, b: int, k: int)
    requires
        b > 0,
        k >= 0,
        abs_i(a) <= k * b,
    ensures
        abs_i(spec_qdiv(a, b)) <= k * Q as int,
{
    lemma_abs_mul(a, Q as int);
    assert(abs_i(a) * (Q as int) <= k * b * (Q as int)) by (nonlinear_arith)
        requires
            0 <= abs_i(a) <= k * b,
            Q == 65536,
    ;
    lemma_div_trunc_bound(a * Q as int, b, k * b * (Q as int));
    assert(k * b * (Q as int) / b == k * (Q as int)) by (nonlinear_arith)
        requires
            b > 0,
    ;
}

/// The sign of a Q16 quotient follows the dividend when the divisor is
/// positive.
pub proof fn lemma_qdiv_sign(a: int, b: int)
    requires
        b > 0,
    ensures
        a >= 0 ==> spec_qdiv(a, b) >= 0,
        a <= 0 ==> spec_qdiv(a, b) <= 0,
{
    if a >= 0 {
        assert(a * (Q as int) >= 0) by (nonlinear_arith)
            requires
                a >= 0,
        ;
    } else {
        assert(a * (Q as int) <= 0) by (nonlinear_arith)
            requires
                a <= 0,
        ;
    }
    lemma_div_trunc_sign(a * Q as int, b);
}

/// Multiplying by a factor of magnitude at most `Q` cannot grow a value.
pub proof fn lemma_qmul_unit(a: int, b: int)
    requires
        abs_i(b) <= Q,
    ensures
        abs_i(spec_qmul(a, b)) <= abs_i(a),
{
    lemma_qmul_bound(a, b, abs_i(a), Q as int);
    assert(abs_i(a) * (Q as int) / (Q as int) == abs_i(a)) by (nonlinear_arith)
        requires
            abs_i(a) >= 0,
    ;
}

/// The integers a sample vector stands for.
pub open spec fn seq_int(s: Seq<i64>) -> Seq<int> {
    Seq::new(s.len(), |i: int| s[i] as int)
}

/// Linear interpolation between two bounded values stays bounded.
pub proof fn lemma_interp_bound(a: int, b: int, f: int, c: int)
    requires
        abs_i(a) <= c,
        abs_i(b) <= c,
        0 <= f <= Q,
    ensures
        abs_i(div_trunc(a * (Q as int - f) + b * f, Q as int)) <= c,
{
    assert(abs_i(a * (Q as int - f) + b * f) <= c * (Q as int)) by (nonlinear_arith)
        requires
            abs_i(a) <= c,
            abs_i(b) <= c,
            0 <= f <= Q as int,
            Q == 65536,
    ;
    lemma_div_trunc_bound(a * (Q as int - f) + b * f, Q as int, c * (Q as int));
    assert(c * (Q as int) / (Q as int) == c) by (nonlinear_arith)
        requires
            abs_i(a) <= c,
    ;
}

/// A crossfade of two bounded values at any ratio stays bounded.
pub proof fn lemma_mix_bound(a: int, b: int, w: int, c: int)
    requires
        abs_i(a) <= c,
        abs_i(b) <= c,
        0 <= w <= Q,
    ensures
        abs_i(spec_qmul(a, Q as int - w) + spec_qmul(b, w)) <= c,
{
    lemma_qmul_bound(a, Q as int - w, c, Q as int - w);
    lemma_qmul_bound(b, w, c, w);
    assert(c * (Q as int - w) / (Q as int) + c * w / (Q as int) <= c) by (nonlinear_arith)
        requires
            0 <= w <= Q as int,
            c >= 0,
            Q == 65536,
    ;
}

/// Clamp `x` into `[lo, hi]`.
pub fn clamp_i64(x: i64, lo: i64, hi: i64) -> (r: i64)
    requires
        lo <= hi,
    ensures
        r == clamp_spec(x as int, lo as int, hi as int),
        lo <= r <= hi,
{
    if x < lo {
        lo
    } else if x > hi {
        hi
    } else {
        x
    }
}

/// Division rounded toward zero; the divisor must be positive.
pub fn div_trunc_i64(a: i64, b: i64) -> (r: i64)
    requires
        b > 0,
        a > i64::MIN,
    ensures
        r == div_trunc(a as int, b as int),
{
    proof {
        lemma_div_trunc_abs(a as int, b as int);
    }
    if a >= 0 {
        a / b
    } else {
        -((-a) / b)
    }
}

/// Q16 multiply with truncation toward zero.
pub fn qmul(a: i64, b: i64) -> (r: i64)
    requires
        -0x8000_0000 <= a <= 0x8000_0000,
        -0x8000_0000 <= b <= 0x8000_0000,
    ensures
        r == spec_qmul(a as int, b as int),
{
    proof {
        assert(-0x4000_0000_0000_0000 <= a as int * b as int <= 0x4000_0000_0000_0000)
            by (nonlinear_arith)
            requires
                -0x8000_0000 <= a as int <= 0x8000_0000,
                -0x8000_0000 <= b as int <= 0x8000_0000,
        ;
    }
    let p: i64 = a * b;
    div_trunc_i64(p, Q)
}

/// Q16 divide with truncation toward zero; the divisor must be positive.
pub fn qdiv(a: i64, b: i64) -> (r: i64)
    requires
        b > 0,
        -0x4000_0000_0000 <= a <= 0x4000_0000_0000,
    ensures
        r == spec_qdiv(a as int, b as int),
{
    let p: i64 = a * Q;
    div_trunc_i64(p, b)
}

/// Reduce a nonnegative phase into one turn, `[0, Q)`.
pub fn wrap_turn(p: i64) -> (r: i64)
    requires
        0 <= p,
    ensures
        r == (p as int) % (Q as int),
        0 <= r < Q,
{
    p % Q
}

/// Half-wave sine arch: `sin(pi * x / 32768)` approximated by the parabola
/// `4 * u * (1 - u)` with `u = x / 32768`, expressed in Q16.
pub open spec fn spec_sin_half(x: int) -> int {
    x * (32768 - x) / 4096
}

/// One full turn of the sine approximation; `p` is a phase in Q16 turns.
pub open spec fn spec_sin_turn(p: int) -> int {
    if p < 32768 {
        spec_sin_half(p)
    } else {
        -spec_sin_half(p - 32768)
    }
}

proof fn lemma_sin_half_range(x: int)
    requires
        0 <= x <= 32768,
    ensures
        0 <= spec_sin_half(x) <= Q,
        x == 0 ==> spec_sin_half(x) == 0,
{
    assert(0 <= x * (32768 - x) <= 268435456) by (nonlinear_arith)
        requires
            0 <= x <= 32768,
    ;
    assert(x * (32768 - x) / 4096 <= 268435456int / 4096) by (nonlinear_arith)
        requires
            0 <= x * (32768 - x) <= 268435456,
    ;
    assert(x * (32768 - x) / 4096 >= 0) by (nonlinear_arith)
        requires
            x * (32768 - x) >= 0,
    ;
}

/// Sine of a phase given in Q16 turns (`Q` is one full cycle).
pub fn sin_turn(p: i64) -> (r: i64)
    requires
        0 <= p < Q,
    ensures
        r == spec_sin_turn(p as int),
        -Q <= r <= Q,
        p == 0 ==> r == 0,
        p <= 32768 ==> r >= 0,
{
    if p < 32768 {
        proof {
            lemma_sin_half_range(p as int);
        }
        (p * (32768 - p)) / 4096
    } else {
        let x = p - 32768;
        proof {
            lemma_sin_half_range(x as int);
        }
        -((x * (32768 - x)) / 4096)
    }
}

/// Cosine of a phase given in Q16 turns.
pub open spec fn spec_cos_turn(p: int) -> int {
    spec_sin_turn((p + 16384) % (Q as int))
}

pub fn cos_turn(p: i64) -> (r: i64)
    requires
        0 <= p < Q,
    ensures
        r == spec_cos_turn(p as int),
        -Q <= r <= Q,
{
    let shifted = wrap_turn(p + 16384);
    sin_turn(shifted)
}

/// `27 * Q * Q`, the constant of the rational tanh approximation.
pub const TANH_K: i64 = 115964116992;

/// Soft-saturation curve: `tanh(x / Q)` in Q16, via the rational
/// approximation `u * (27 + u^2) / (27 + 9 * u^2)` with the argument
/// saturated at `3.0`, where the approximation reaches exactly `1.0`.
pub open spec fn spec_tanh(x: int) -> int {
    let c = clamp_spec(x, -3 * Q as int, 3 * Q as int);
    div_trunc(c * (TANH_K as int + c * c), TANH_K as int + 9 * c * c)
}

proof fn lemma_tanh_range(x: int)
    ensures
        abs_i(spec_tanh(x)) <= Q,
        abs_i(spec_tanh(x)) <= abs_i(x),
        x == 0 ==> spec_tanh(x) == 0,
        x >= 0 ==> spec_tanh(x) >= 0,
        x <= 0 ==> spec_tanh(x) <= 0,
{
    let c = clamp_spec(x, -3 * Q as int, 3 * Q as int);
    let num = c * (TANH_K as int + c * c);
    let den = TANH_K as int + 9 * c * c;
    assert(den > 0) by (nonlinear_arith)
        requires
            den == TANH_K as int + 9 * c * c,
    ;
    // |c| * (K + c^2) <= Q * (K + 9 c^2) because (3Q - |c|)^3 >= 0.
    assert(abs_i(num) <= (Q as int) * den) by (nonlinear_arith)
        requires
            num == c * (TANH_K as int + c * c),
            den == TANH_K as int + 9 * c * c,
            -3 * Q as int <= c <= 3 * Q as int,
            TANH_K as int == 27 * (Q as int) * (Q as int),
    ;
    lemma_div_trunc_bound(num, den, (Q as int) * den);
    assert((Q as int) * den / den == Q as int) by (nonlinear_arith)
        requires
            den > 0,
    ;
    assert(abs_i(num) <= abs_i(c) * den) by (nonlinear_arith)
        requires
            num == c * (TANH_K as int + c * c),
            den == TANH_K as int + 9 * c * c,
    ;
    lemma_div_trunc_bound(num, den, abs_i(c) * den);
    assert(abs_i(c) * den / den == abs_i(c)) by (nonlinear_arith)
        requires
            den > 0,
            abs_i(c) >= 0,
    ;
    assert(abs_i(c) <= abs_i(x));
    if x >= 0 {
        assert(num >= 0) by (nonlinear_arith)
            requires
                num == c * (TANH_K as int + c * c),
                c >= 0,
                TANH_K as int > 0,
        ;
        assert(num / den >= 0) by (nonlinear_arith)
            requires
                num >= 0,
                den > 0,
        ;
    }
    if x <= 0 {
        assert(num <= 0) by (nonlinear_arith)
            requires
                num == c * (TANH_K as int + c * c),
                c <= 0,
                TANH_K as int > 0,
        ;
        assert((-num) / den >= 0) by (nonlinear_arith)
            requires
                num <= 0,
                den > 0,
        ;
    }
}

/// Soft saturation (tanh curve) of a Q16 value.
pub fn tanh_q(x: i64) -> (r: i64)
    ensures
        r == spec_tanh(x as int),
        abs_i(r as int) <= Q,
        abs_i(r as int) <= abs_i(x as int),
        x == 0 ==> r == 0,
        x >= 0 ==> r >= 0,
        x <= 0 ==> r <= 0,
{
    proof {
        lemma_tanh_range(x as int);
    }
    let c = clamp_i64(x, -3 * Q, 3 * Q);
    proof {
        assert(0 <= c as int * c as int <= 38654705664int) by (nonlinear_arith)
            requires
                -196608 <= c as int <= 196608,
        ;
        assert(abs_i(c as int * (TANH_K as int + c as int * c as int)) <= 0x4000_0000_0000_0000int)
            by (nonlinear_arith)
            requires
                -196608 <= c as int <= 196608,
                0 <= c as int * c as int <= 38654705664int,
        ;
        assert(0 <= 9 * c as int * c as int <= 347892350976int) by (nonlinear_arith)
            requires
                -196608 <= c as int <= 196608,
        ;
    }
    let num: i64 = c * (TANH_K + c * c);
    let den: i64 = TANH_K + 9 * c * c;
    div_trunc_i64(num, den)
}

/// `exp(-x / Q)` in Q16 for nonnegative `x`, via the reciprocal of the
/// degree-three Taylor polynomial of `exp`, with the argument saturated at
/// `32.0`.
pub open spec fn spec_exp_neg(x: int) -> int {
    let c = clamp_spec(x, 0, 32 * Q as int);
    let den = Q as int + c + spec_qmul(c, c) / 2 + spec_qmul(spec_qmul(c, c), c) / 6;
    (Q as int) * (Q as int) / den
}

proof fn lemma_exp_neg_range(x: int)
    ensures
        0 <= spec_exp_neg(x) <= Q,
        x <= 0 ==> spec_exp_neg(x) == Q,
{
    let c = clamp_spec(x, 0, 32 * Q as int);
    lemma_qmul_bound(c, c, 2097152, 2097152);
    lemma_qmul_sign(c, c);
    let c2 = spec_qmul(c, c);
    lemma_qmul_bound(c2, c, 67108864, 2097152);
    lemma_qmul_sign(c2, c);
    let c3 = spec_qmul(c2, c);
    assert(c2 / 2 >= 0 && c3 / 6 >= 0) by (nonlinear_arith)
        requires
            c2 >= 0,
            c3 >= 0,
    ;
    let den = Q as int + c + c2 / 2 + c3 / 6;
    assert(den >= Q as int);
    assert((Q as int) * (Q as int) / den <= Q) by (nonlinear_arith)
        requires
            den >= Q as int,
            Q == 65536,
    ;
    assert((Q as int) * (Q as int) / den >= 0) by (nonlinear_arith)
        requires
            den > 0,
            Q == 65536,
    ;
    if x <= 0 {
        assert(c == 0);
        lemma_qmul_sign(0, 0);
        lemma_qmul_bound(0, 0, 0, 0);
        assert(spec_qmul(0, 0) == 0);
        lemma_qmul_sign(spec_qmul(0, 0), 0);
        lemma_qmul_bound(spec_qmul(0, 0), 0, 0, 0);
        assert(den == Q as int);
        assert((Q as int) * (Q as int) / (Q as int) == Q as int) by (nonlinear_arith)
            requires
                Q == 65536,
        ;
    }
}

/// Decaying exponential used by the distortion soft clip.
pub fn exp_neg_q(x: i64) -> (r: i64)
    ensures
        r == spec_exp_neg(x as int),
        0 <= r <= Q,
        x <= 0 ==> r == Q,
{
    proof {
        lemma_exp_neg_range(x as int);
    }
    let c = clamp_i64(x, 0, 32 * Q);
    proof {
        assert(abs_i(c as int) * abs_i(c as int) <= 0x4000_0000_0000_0000int) by (nonlinear_arith)
            requires
                0 <= c as int <= 2097152,
        ;
    }
    let c2 = qmul(c, c);
    proof {
        lemma_qmul_bound(c as int, c as int, 2097152, 2097152);
        lemma_qmul_sign(c as int, c as int);
        assert(abs_i(c2 as int) * abs_i(c as int) <= 0x4000_0000_0000_0000int) by (nonlinear_arith)
            requires
                0 <= c2 as int <= 67108864,
                0 <= c as int <= 2097152,
        ;
    }
    let c3 = qmul(c2, c);
    proof {
        lemma_qmul_bound(c2 as int, c as int, 67108864, 2097152);
        lemma_qmul_sign(c2 as int, c as int);
    }
    let den: i64 = Q + c + c2 / 2 + c3 / 6;
    (Q * Q) / den
}

/// `2^(v / Q)` for `v` in `[0, Q]`: a quadratic fit that is exact at both
/// endpoints and monotone in between.
pub open spec fn spec_pow2_unit(v: int) -> int {
    Q as int + spec_qmul(v, 43007 + spec_qmul(v, 22529))
}

proof fn lemma_pow2_unit_range(v: int)
    requires
        0 <= v <= Q as int,
    ensures
        Q as int <= spec_pow2_unit(v) <= 2 * Q as int,
{
    lemma_qmul_bound(v, 22529, Q as int, 22529);
    lemma_qmul_sign(v, 22529);
    let inner = 43007 + spec_qmul(v, 22529);
    assert(43007 <= inner <= Q as int);
    lemma_qmul_bound(v, inner, Q as int, Q as int);
    lemma_qmul_sign(v, inner);
}

/// The resampling ratio `2^(semitones / 12)` with the shift saturated at one
/// octave each way; the result lies in `[Q/2, 2Q]`.
pub open spec fn spec_pitch_ratio(s: int) -> int {
    let c = clamp_spec(s, -12 * Q as int, 12 * Q as int);
    let v = div_trunc(c, 12);
    if v >= 0 {
        spec_pow2_unit(v)
    } else {
        (Q as int) * (Q as int) / spec_pow2_unit(-v)
    }
}

pub fn pitch_ratio_q(s: i64) -> (r: i64)
    ensures
        r == spec_pitch_ratio(s as int),
        32768 <= r <= 2 * Q,
        s == 0 ==> r == Q,
{
    let c = clamp_i64(s, -12 * Q, 12 * Q);
    let v = div_trunc_i64(c, 12);
    proof {
        lemma_div_trunc_abs(c as int, 12);
    }
    if v >= 0 {
        proof {
            lemma_pow2_unit_range(v as int);
        }
        let inner = qmul(v, 22529);
        proof {
            lemma_qmul_bound(v as int, 22529, Q as int, 22529);
            lemma_qmul_sign(v as int, 22529);
            assert(abs_i(v as int) * abs_i(43007 + inner as int) <= 0x4000_0000_0000_0000int)
                by (nonlinear_arith)
                requires
                    0 <= v as int <= Q as int,
                    0 <= inner as int <= 22529,
                    Q == 65536,
            ;
        }
        let outer = qmul(v, 43007 + inner);
        proof {
            lemma_qmul_bound(v as int, 43007 + inner as int, Q as int, Q as int);
            lemma_qmul_sign(v as int, 43007 + inner as int);
        }
        Q + outer
    } else {
        let w = -v;
        proof {
            lemma_pow2_unit_range(w as int);
        }
        let inner = qmul(w, 22529);
        proof {
            lemma_qmul_bound(w as int, 22529, Q as int, 22529);
            lemma_qmul_sign(w as int, 22529);
            assert(abs_i(w as int) * abs_i(43007 + inner as int) <= 0x4000_0000_0000_0000int)
                by (nonlinear_arith)
                requires
                    0 <= w as int <= Q as int,
                    0 <= inner as int <= 22529,
                    Q == 65536,
            ;
        }
        let outer = qmul(w, 43007 + inner);
        proof {
            lemma_qmul_bound(w as int, 43007 + inner as int, Q as int, Q as int);
            lemma_qmul_sign(w as int, 43007 + inner as int);
        }
        let den: i64 = Q + outer;
        let r = (Q * Q) / den;
        proof {
            assert((Q as int) * (Q as int) / den as int >= 32768) by (nonlinear_arith)
                requires
                    Q as int <= den as int <= 2 * Q as int,
                    Q == 65536,
            ;
            assert((Q as int) * (Q as int) / den as int <= Q as int) by (nonlinear_arith)
                requires
                    den as int >= Q as int,
                    Q == 65536,
            ;
        }
        r
    }
}

/// Digit-by-digit integer square root: try each bit from `k` downward on top
/// of the partial root `r`.
pub open spec fn isqrt_rec(n: int, k: nat, r: int) -> int
    decreases k,
{
    let cand = r + pow2_int(k);
    let r2 = if cand * cand <= n {
        cand
    } else {
        r
    };
    if k == 0 {
        r2
    } else {
        isqrt_rec(n, (k - 1) as nat, r2)
    }
}

pub open spec fn pow2_int(k: nat) -> int
    decreases k,
{
    if k == 0 {
        1
    } else {
        2 * pow2_int((k - 1) as nat)
    }
}

/// The integer square root of `n`, truncated.
pub open spec fn spec_isqrt(n: int) -> int {
    isqrt_rec(n, 30, 0)
}

proof fn lemma_isqrt_rec_bound(n: int, k: nat, r: int)
    requires
        r >= 0,
        r * r <= n,
    ensures
        isqrt_rec(n, k, r) >= r,
        isqrt_rec(n, k, r) * isqrt_rec(n, k, r) <= n,
        isqrt_rec(n, k, r) < r + 2 * pow2_int(k),
    decreases k,
{
    let cand = r + pow2_int(k);
    lemma_pow2_int_pos(k);
    let r2 = if cand * cand <= n {
        cand
    } else {
        r
    };
    if k == 0 {
    } else {
        lemma_isqrt_rec_bound(n, (k - 1) as nat, r2);
    }
}

proof fn lemma_pow2_int_pos(k: nat)
    ensures
        pow2_int(k) >= 1,
    decreases k,
{
    if k > 0 {
        lemma_pow2_int_pos((k - 1) as nat);
    }
}

/// The square root of a Q16 value, in Q16: `isqrt(x * Q)`.
pub open spec fn spec_sqrt_q(x: int) -> int {
    spec_isqrt(x * Q as int)
}

/// Integer square root by binary descent over the bits of the root.
pub fn sqrt_q(x: i64) -> (r: i64)
    requires
        0 <= x <= SAMPLE_LIMIT,
    ensures
        r == spec_sqrt_q(x as int),
        0 <= r,
        r * r <= x * Q,
{
    let n: i64 = x * Q;
    let ghost n_int = n as int;
    let mut r: i64 = 0;
    let mut k: u32 = 30;
    let mut bit: i64 = 1073741824;
    proof {
        reveal_with_fuel(pow2_int, 31);
        assert(pow2_int(30) == 1073741824);
    }
    loop
        invariant_except_break
            0 <= r,
            r as int * r as int <= n_int,
            n_int == n as int,
            0 <= x <= SAMPLE_LIMIT,
            n_int == x as int * Q as int,
            k <= 30,
            bit == pow2_int(k as nat),
            1 <= bit <= 1073741824,
            isqrt_rec(n_int, k as nat, r as int) == spec_isqrt(n_int),
        ensures
            0 <= r,
            r as int * r as int <= n_int,
            n_int == n as int,
            n_int == x as int * Q as int,
            r as int == spec_isqrt(n_int),
        decreases k,
    {
        proof {
            assert(r as int <= 2097152) by (nonlinear_arith)
                requires
                    0 <= r as int,
                    r as int * r as int <= n_int,
                    n_int <= 0x400_0000_0000,
            ;
        }
        let cand: i64 = r + bit;
        proof {
            assert(cand as int * cand as int <= 0x4000_0000_0000_0000) by (nonlinear_arith)
                requires
                    0 <= cand as int <= 0x8000_0000,
            ;
        }
        let ghost r_old = r as int;
        if cand * cand <= n {
            r = cand;
        }
        proof {
            assert(isqrt_rec(n_int, k as nat, r_old) == if k == 0 {
                r as int
            } else {
                isqrt_rec(n_int, (k - 1) as nat, r as int)
            });
        }
        if k == 0 {
            break ;
        }
        k = k - 1;
        bit = bit / 2;
        proof {
            lemma_pow2_int_pos(k as nat);
            assert(pow2_int((k + 1) as nat) == 2 * pow2_int(k as nat));
        }
    }
    r
}

} // verus!
