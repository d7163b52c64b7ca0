//! A real-time voice/audio effects engine.
//!
//! The engine ingests fixed-size blocks of audio samples, applies a
//! configurable chain of signal-processing transformations (filters, delay,
//! noise injection, voice-morphing effects, accelerator-backed processing with
//! automatic CPU fallback), and returns processed blocks.
//!
//! Samples are held in Q16 fixed point: the `i64` value `65536` stands for
//! full scale `1.0`. The host converts to and from its native sample format at
//! the boundary.

pub mod accel;
pub mod biquad;
pub mod chain;
pub mod delay;
pub mod engine;
pub mod fixed;
pub mod noise;
pub mod params;
pub mod pipeline;
pub mod platform;
pub mod voicefx;

pub use fixed::Q;
pub use params::AIProcessingMode;
pub use params::AudioParameters;
pub use params::EffectType;
pub use params::NoiseType;
pub use params::PerformanceStats;
pub use pipeline::AudioPipeline;
pub use chain::NeuralVoiceProcessor;
pub use chain::NeuralConfig;
pub use chain::NeuralProcessingResult;
pub use chain::QualityPreset;
pub use chain::VoiceEffect;
pub use accel::AIConfig;
pub use accel::AIProcessingResult;
pub use accel::AIProcessor;
pub use accel::CPUVoiceProcessor;
pub use biquad::BiquadFilter;
pub use delay::DelayEffect;
pub use engine::DspProcessor;
pub use noise::NoiseGenerator;
