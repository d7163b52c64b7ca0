//! Platform capability descriptors: the error taxonomies of the per-system
//! audio backends, the always-available software fallback, and the
//! accelerator stub. Actual device and driver calls belong to the host; what
//! stands here is the pure, platform-independent part.

use vstd::prelude::*;
use vstd::string::StringExecFns;

verus! {

/// Faults of the Linux audio backend.
#[derive(Debug)]
pub enum AlsaError {
    InitializationFailed(String),
    AlsaError(String),
    DeviceNotFound,
    UnsupportedFormat,
}

impl AlsaError {
    /// A short description of the fault.
    pub fn message(&self) -> (r: String)
        ensures
            self is DeviceNotFound ==> r@ == "audio device not found"@,
            self is UnsupportedFormat ==> r@ == "unsupported sample format"@,
    {
        match self {
            AlsaError::InitializationFailed(m) => m.as_str().to_owned(),
            AlsaError::AlsaError(m) => m.as_str().to_owned(),
            AlsaError::DeviceNotFound => "audio device not found".to_owned(),
            AlsaError::UnsupportedFormat => "unsupported sample format".to_owned(),
        }
    }
}

/// Faults of the macOS audio backend.
#[derive(Debug)]
pub enum CoreAudioError {
    InitializationFailed(String),
    AudioUnitError(String),
    DeviceNotFound,
    UnsupportedFormat,
}

impl CoreAudioError {
    /// A short description of the fault.
    pub fn message(&self) -> (r: String)
        ensures
            self is DeviceNotFound ==> r@ == "audio device not found"@,
            self is UnsupportedFormat ==> r@ == "unsupported sample format"@,
    {
        match self {
            CoreAudioError::InitializationFailed(m) => m.as_str().to_owned(),
            CoreAudioError::AudioUnitError(m) => m.as_str().to_owned(),
            CoreAudioError::DeviceNotFound => "audio device not found".to_owned(),
            CoreAudioError::UnsupportedFormat => "unsupported sample format".to_owned(),
        }
    }
}

/// Faults of the Windows audio backend.
#[derive(Debug)]
pub enum WasapiError {
    InitializationFailed(String),
    ComError(String),
    DeviceNotFound,
    UnsupportedFormat,
}

impl WasapiError {
    /// A short description of the fault.
    pub fn message(&self) -> (r: String)
        ensures
            self is DeviceNotFound ==> r@ == "audio device not found"@,
            self is UnsupportedFormat ==> r@ == "unsupported sample format"@,
    {
        match self {
            WasapiError::InitializationFailed(m) => m.as_str().to_owned(),
            WasapiError::ComError(m) => m.as_str().to_owned(),
            WasapiError::DeviceNotFound => "audio device not found".to_owned(),
            WasapiError::UnsupportedFormat => "unsupported sample format".to_owned(),
        }
    }
}

/// The stand-in where no platform backend exists: fixed nominal stream
/// parameters, no low-latency promise.
#[derive(Debug, Clone, Copy, PartialEq, Eq, Structural)]
pub struct DefaultPlatform;

impl DefaultPlatform {
    /// No real stream can be opened without a backend.
    pub fn initialize() -> (r: Result<DefaultPlatform, String>)
        ensures
            r is Err,
    {
        Err("this platform has no audio backend".to_owned())
    }

    pub fn get_sample_rate(&self) -> (r: u32)
        ensures
            r == 44100,
    {
        44100
    }

    pub fn get_buffer_size(&self) -> (r: usize)
        ensures
            r == 512,
    {
        512
    }

    /// Starting a nonexistent stream is a no-op that succeeds.
    pub fn start(&mut self) -> (r: Result<(), String>)
        ensures
            r is Ok,
            *final(self) == *old(self),
    {
        Ok(())
    }

    /// Stopping a nonexistent stream is a no-op that succeeds.
    pub fn stop(&mut self) -> (r: Result<(), String>)
        ensures
            r is Ok,
            *final(self) == *old(self),
    {
        Ok(())
    }

    pub fn supports_low_latency(&self) -> (r: bool)
        ensures
            !r,
    {
        false
    }

    pub fn platform_info(&self) -> (r: String)
        ensures
            r@ == "unknown platform"@,
    {
        "unknown platform".to_owned()
    }
}

/// The accelerator model stub: in this software build no model can load and
/// no accelerated block can run.
#[derive(Debug, Clone, Copy, PartialEq, Eq, Structural)]
pub struct CoreMLProcessor {
    pub model_loaded: bool,
    pub supports_ane: bool,
}

impl CoreMLProcessor {
    pub fn new() -> (p: CoreMLProcessor)
        ensures
            !p.model_loaded,
            !p.supports_ane,
    {
        CoreMLProcessor { model_loaded: false, supports_ane: false }
    }

    /// Without accelerator support no model ever loads; the state is kept.
    pub fn load_voice_model(&mut self, model_path: &str) -> (r: Result<(), String>)
        ensures
            r is Err,
            *final(self) == *old(self),
    {
        Err("no neural accelerator is available in this build".to_owned())
    }

    /// Without a loaded model no block can be accelerated.
    pub fn process_with_npu(&self, input: &Vec<i64>) -> (r: Result<Vec<i64>, String>)
        ensures
            r is Err,
    {
        Err("no neural accelerator is available in this build".to_owned())
    }

    pub fn neural_engine_info(&self) -> (r: String)
        ensures
            self.supports_ane ==> r@ == "neural accelerator available"@,
            !self.supports_ane ==> r@ == "neural accelerator unavailable"@,
    {
        if self.supports_ane {
            "neural accelerator available".to_owned()
        } else {
            "neural accelerator unavailable".to_owned()
        }
    }
}

/// A one-line summary of the audio systems the host probed; probing itself is
/// the host's work, the summary takes the detected names as plain values.
pub fn get_system_info(audio_systems: &Vec<String>) -> (r: String)
    ensures
        audio_systems@.len() == 0 ==> r@ == "audio systems: none detected"@,
{
    if audio_systems.len() == 0 {
        return "audio systems: none detected".to_owned();
    }
    let mut out: String = "audio systems:".to_owned();
    let mut i: usize = 0;
    while i < audio_systems.len()
        invariant
            i <= audio_systems@.len(),
        decreases audio_systems@.len() - i,
    {
        out.append(" ");
        out.append(audio_systems[i].as_str());
        i = i + 1;
    }
    out
}

/// Fixed guidance for running the engine under a real-time scheduler.
pub fn optimization_tips() -> (r: Vec<String>)
    ensures
        r@.len() == 5,
{
    let mut tips: Vec<String> = Vec::new();
    tips.push("use a preemptible kernel for the lowest latency".to_owned());
    tips.push("pin the audio thread and raise its scheduling priority".to_owned());
    tips.push("disable processor frequency scaling while recording".to_owned());
    tips.push("route through a professional audio server where one runs".to_owned());
    tips.push("grant the process access to the audio device group".to_owned());
    tips
}

} // verus!
