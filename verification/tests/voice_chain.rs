//! The voice-effect chain: capacity, removal by value, the per-effect
//! algorithms, and the derived metrics.

use dsp_core::params::effect_from_code;
use dsp_core::params::noise_from_code;
use dsp_core::EffectType;
use dsp_core::NeuralConfig;
use dsp_core::NeuralVoiceProcessor;
use dsp_core::NoiseType;
use dsp_core::VoiceEffect;
use dsp_core::Q;

fn fresh_chain() -> NeuralVoiceProcessor {
    NeuralVoiceProcessor::new(NeuralConfig::default()).unwrap()
}

#[test]
fn test_chain_capacity_is_enforced() {
    let mut chain = fresh_chain();
    let mut added = 0usize;
    while added < 8 {
        assert!(chain.add_effect(VoiceEffect::PitchShift((added as i64) * 1000)).is_ok());
        added += 1;
    }
    assert_eq!(chain.effects_chain.len(), 8);
    let overflow = chain.add_effect(VoiceEffect::PitchShift(12345));
    assert!(overflow.is_err());
    assert_eq!(chain.effects_chain.len(), 8);
}

#[test]
fn test_remove_effect_by_structural_equality() {
    let mut chain = fresh_chain();
    let keep = VoiceEffect::Distortion { drive: 32768, tone: 0, level: Q };
    let drop_me = VoiceEffect::PitchShift(65536);
    assert!(chain.add_effect(drop_me).is_ok());
    assert!(chain.add_effect(keep).is_ok());
    assert!(chain.add_effect(drop_me).is_ok());
    chain.remove_effect(&drop_me);
    assert_eq!(chain.effects_chain.len(), 1);
    assert_eq!(chain.effects_chain[0], keep);
    chain.clear_effects();
    assert_eq!(chain.effects_chain.len(), 0);
}

#[test]
fn test_process_applies_the_chain_in_order() {
    let mut chain = fresh_chain();
    assert!(chain.add_effect(VoiceEffect::Distortion { drive: Q, tone: 0, level: Q }).is_ok());
    let input = vec![16384i64; 64];
    let result = chain.process(&input).unwrap();
    assert_eq!(result.output.len(), 64);
    assert_eq!(result.effects_applied.len(), 1);
    assert!(result.output.iter().zip(input.iter()).any(|(&o, &x)| o != x));
}

#[test]
fn test_neural_load_formula() {
    // One pitch shift under the default preset: (10 + 15) * 1.0 percent.
    let mut chain = fresh_chain();
    assert!(chain.add_effect(VoiceEffect::PitchShift(0)).is_ok());
    let result = chain.process(&vec![0i64; 16]).unwrap();
    assert_eq!(result.neural_engine_load, 25 * Q);
}

#[test]
fn test_quality_score_of_a_clean_block() {
    // No effects over silence: no clipping, no penalty, a unit dynamic range.
    let mut chain = fresh_chain();
    let result = chain.process(&vec![0i64; 32]).unwrap();
    assert_eq!(result.quality_score, Q);
}

#[test]
fn test_empty_chain_passes_the_block_through() {
    let mut chain = fresh_chain();
    let input: Vec<i64> = (0..40).map(|i| (i as i64) * 777 - 15000).collect();
    let result = chain.process(&input).unwrap();
    assert_eq!(result.output, input);
    assert_eq!(result.effects_applied.len(), 0);
}

#[test]
fn test_code_mappings() {
    assert_eq!(effect_from_code(0), EffectType::NoEffect);
    assert_eq!(effect_from_code(3), EffectType::Cave);
    assert_eq!(effect_from_code(10), EffectType::VoiceChanger);
    assert_eq!(effect_from_code(11), EffectType::NoEffect);
    assert_eq!(effect_from_code(4096), EffectType::NoEffect);
    assert_eq!(noise_from_code(1), NoiseType::White);
    assert_eq!(noise_from_code(3), NoiseType::Brown);
    assert_eq!(noise_from_code(99), NoiseType::NoNoise);
}

#[test]
fn test_modulation_effect_runs() {
    let mut chain = fresh_chain();
    let added = chain.add_effect(VoiceEffect::Modulation {
        vibrato_rate: 5 * Q,
        vibrato_depth: 32768,
        tremolo_rate: 5 * Q,
        tremolo_depth: Q,
    });
    assert!(added.is_ok());
    let input = vec![32768i64; 512];
    let result = chain.process(&input).unwrap();
    assert_eq!(result.output.len(), 512);
    assert!(result.output.iter().zip(input.iter()).any(|(&o, &x)| o != x));
}

#[test]
fn test_chorus_and_reverb_effects_run() {
    let mut chain = fresh_chain();
    assert!(chain.add_effect(VoiceEffect::Reverb {
        room_size: 32768,
        damping: 16384,
        wet_level: 32768,
    }).is_ok());
    assert!(chain.add_effect(VoiceEffect::Chorus {
        voices: 4,
        delay: 20 * Q,
        depth: 32768,
        rate: 2 * Q,
    }).is_ok());
    let input = vec![20000i64; 256];
    let result = chain.process(&input).unwrap();
    assert_eq!(result.output.len(), 256);
    assert_eq!(result.effects_applied.len(), 2);
}
