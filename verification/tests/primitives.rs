//! The DSP primitives: filters, the delay line, and the noise generator.

use dsp_core::biquad::BiquadFilter;
use dsp_core::delay::DelayEffect;
use dsp_core::fixed::SAMPLE_LIMIT;
use dsp_core::noise::NoiseGenerator;
use dsp_core::NoiseType;
use dsp_core::Q;

#[test]
fn test_filters() {
    let mut filter = BiquadFilter::new();

    filter.lowpass(1000 * Q, 44100, Q);
    let out = filter.process(Q);
    assert!(-SAMPLE_LIMIT <= out && out <= SAMPLE_LIMIT);

    filter.highpass(1000 * Q, 44100, Q);
    let out = filter.process(Q);
    assert!(-SAMPLE_LIMIT <= out && out <= SAMPLE_LIMIT);

    filter.bandpass(1000 * Q, 44100, Q);
    let out = filter.process(Q);
    assert!(-SAMPLE_LIMIT <= out && out <= SAMPLE_LIMIT);
}

#[test]
fn test_filters_lowpass_passes_dc_energy() {
    // A unit step into a lowpass keeps some signal: not everything is zeroed.
    let mut filter = BiquadFilter::new();
    filter.lowpass(1000 * Q, 44100, Q);
    let mut acc: i64 = 0;
    let mut i = 0;
    while i < 64 {
        let out = filter.process(Q);
        acc += if out < 0 { -out } else { out };
        i += 1;
    }
    assert!(acc > 0);
}

#[test]
fn test_delay_effect() {
    let mut delay = DelayEffect::new(4410);
    delay.set_delay_time(6554, 44100);
    delay.set_feedback(32768);
    delay.set_mix(19661);

    let out = delay.process(Q);
    assert!(-SAMPLE_LIMIT * 33 <= out && out <= SAMPLE_LIMIT * 33);
}

#[test]
fn test_delay_round_trip_ten_samples() {
    // Capacity 4410; fifteen Q16 seconds scale to a ten-sample tap at 44100.
    let mut delay = DelayEffect::new(4410);
    delay.set_delay_time(15, 44100);
    delay.set_feedback(0);
    delay.set_mix(Q);

    let first = delay.process(1000);
    assert_eq!(first, 1000);
    let mut step = 1;
    while step < 10 {
        let out = delay.process(0);
        assert_eq!(out, 0);
        step += 1;
    }
    let reappeared = delay.process(0);
    assert_eq!(reappeared, 1000);
}

#[test]
fn test_noise_generator() {
    let mut generator = NoiseGenerator::new();

    generator.configure(NoiseType::White, Q);
    let white = generator.generate_sample();
    assert!(-Q <= white && white <= Q);

    generator.configure(NoiseType::Pink, Q);
    let pink = generator.generate_sample();
    assert!(-9 * Q <= pink && pink <= 9 * Q);

    generator.configure(NoiseType::Brown, Q);
    let brown = generator.generate_sample();
    assert!(-9 * Q <= brown && brown <= 9 * Q);
}

#[test]
fn test_noise_silent_at_zero_level() {
    let mut generator = NoiseGenerator::new();
    let kinds = [NoiseType::NoNoise, NoiseType::White, NoiseType::Pink, NoiseType::Brown];
    for kind in kinds.iter() {
        generator.configure(*kind, 0);
        assert_eq!(generator.generate_sample(), 0);
    }
}

#[test]
fn test_white_noise_bounded_with_energy() {
    let mut generator = NoiseGenerator::new();
    generator.configure(NoiseType::White, Q);
    let mut sum_squares: i64 = 0;
    let mut i = 0;
    while i < 1000 {
        let s = generator.generate_sample();
        assert!(-Q <= s && s <= Q);
        sum_squares += s * s;
        i += 1;
    }
    assert!(sum_squares > 0);
}
