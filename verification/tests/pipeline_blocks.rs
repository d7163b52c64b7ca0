//! Block routing through the pipeline: the two-state machine, the named
//! effects, the accelerator path, and determinism.

use dsp_core::AudioPipeline;
use dsp_core::EffectType;
use dsp_core::NoiseType;
use dsp_core::VoiceEffect;
use dsp_core::Q;

#[test]
fn test_audio_pipeline_creation() {
    let pipeline = AudioPipeline::new(44100, 512);
    assert_eq!(pipeline.samples_processed, 0);
    assert!(!pipeline.is_processing);
}

#[test]
fn test_effects() {
    let mut pipeline = AudioPipeline::new(44100, 512);
    pipeline.start_processing();

    let effects = [
        EffectType::NoEffect,
        EffectType::Monster,
        EffectType::HighPitch,
        EffectType::Cave,
        EffectType::Radio,
        EffectType::Cathedral,
        EffectType::Underwater,
        EffectType::Robot,
        EffectType::Demon,
        EffectType::Alien,
    ];

    let input = vec![32768i64; 100];
    let mut output = vec![0i64; 100];

    for effect in effects.iter() {
        pipeline.set_effect(*effect);
        pipeline.process_block(&input, &mut output);
        assert!(output.iter().any(|&x| x != 0));
    }
}

#[test]
fn test_effects_change_the_signal() {
    // Every named effect but the passthrough leaves at least one sample that
    // differs from the plain gained input.
    let effects = [
        EffectType::Monster,
        EffectType::HighPitch,
        EffectType::Cave,
        EffectType::Radio,
        EffectType::Cathedral,
        EffectType::Underwater,
        EffectType::Robot,
        EffectType::Demon,
        EffectType::Alien,
        EffectType::VoiceChanger,
    ];
    // A block longer than the Cathedral tap (0.8 s at 44100), so even the
    // delay-based recipes wrap around within one call.
    let input = vec![32768i64; 40000];
    for effect in effects.iter() {
        let mut pipeline = AudioPipeline::new(44100, 512);
        pipeline.start_processing();
        pipeline.set_effect(*effect);
        let mut output = vec![0i64; 40000];
        pipeline.process_block(&input, &mut output);
        assert!(
            output.iter().zip(input.iter()).any(|(&o, &x)| o != x),
            "effect left the block identical"
        );
    }
}

#[test]
fn test_noise_generators() {
    let mut pipeline = AudioPipeline::new(44100, 512);
    pipeline.start_processing();

    let noise_types = [NoiseType::White, NoiseType::Pink, NoiseType::Brown];
    let input = vec![0i64; 100];
    let mut output = vec![0i64; 100];

    for noise_type in noise_types.iter() {
        pipeline.set_noise(*noise_type, 6554);
        pipeline.process_block(&input, &mut output);
        let sum_squares: i64 = output.iter().map(|&x| x * x).sum();
        assert!(sum_squares > 0, "noise left the block silent");
    }
}

#[test]
fn test_stopped_pipeline_writes_silence() {
    let mut pipeline = AudioPipeline::new(44100, 512);
    let input = vec![32768i64; 256];
    let mut output = vec![7i64; 256];
    pipeline.process_block(&input, &mut output);
    assert!(output.iter().all(|&x| x == 0));
    assert_eq!(pipeline.samples_processed, 0);
}

#[test]
fn test_voice_changer_preserves_block_length() {
    for len in [2048usize, 100usize] {
        let mut pipeline = AudioPipeline::new(44100, 512);
        pipeline.start_processing();
        pipeline.set_effect(EffectType::VoiceChanger);
        let input = vec![16384i64; len];
        let mut output = vec![0i64; len];
        pipeline.process_block(&input, &mut output);
        assert_eq!(output.len(), input.len());
    }
}

#[test]
fn test_process_block_deterministic() {
    let build = || {
        let mut p = AudioPipeline::new(44100, 512);
        p.start_processing();
        p.set_effect(EffectType::Robot);
        p.set_noise(NoiseType::White, 13107);
        let added = p.add_voice_effect(VoiceEffect::Distortion { drive: 32768, tone: 16384, level: Q });
        assert!(added.is_ok());
        p
    };
    let mut p1 = build();
    let mut p2 = build();
    let input: Vec<i64> = (0..512).map(|i| ((i % 97) as i64 - 48) * 1000).collect();
    let mut out1 = vec![0i64; 512];
    let mut out2 = vec![0i64; 512];
    p1.process_block(&input, &mut out1);
    p2.process_block(&input, &mut out2);
    assert_eq!(out1, out2);
}

#[test]
fn test_effect_code_boundary_mapping() {
    let mut pipeline = AudioPipeline::new(44100, 512);
    pipeline.set_effect(EffectType::Cave);
    assert_eq!(pipeline.parameters.current_effect, 3);
    pipeline.set_noise(NoiseType::Brown, 2 * Q);
    assert_eq!(pipeline.parameters.noise_type, 3);
    // Out-of-range levels are clamped to full scale.
    assert_eq!(pipeline.parameters.noise_level, Q);
    assert!(!pipeline.supports_neural_engine());
    assert!(!pipeline.supports_low_latency());
    assert_eq!(pipeline.get_neural_load(), 0);
    assert_eq!(pipeline.get_neural_latency_ns(), 0);
}
