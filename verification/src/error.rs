//! The errors of the engine.

use vstd::prelude::*;
use vstd::string::*;

verus! {

/// All errors produced by the engine.
#[derive(Debug, Clone)]
pub enum DictumError {
    AudioDevice(String),
    AudioStream(String),
    NoDefaultInputDevice,
    RingBufferFull,
    Inference(String),
    AlreadyRunning,
    NotRunning,
    OnnxSession(String),
    ModelNotFound { path: String },
    Io(String),
    Other(String),
}

impl DictumError {
    /// The text of the message for this error.
    pub open spec fn message_text(self) -> Seq<char> {
        match self {
            DictumError::AudioDevice(d) => "audio device error: "@ + d@,
            DictumError::AudioStream(d) => "audio stream error: "@ + d@,
            DictumError::NoDefaultInputDevice => "no default input device found"@,
            DictumError::RingBufferFull => "ring buffer is full — pipeline cannot keep up"@,
            DictumError::Inference(d) => "inference error: "@ + d@,
            DictumError::AlreadyRunning => "engine is already running"@,
            DictumError::NotRunning => "engine is not running"@,
            DictumError::OnnxSession(d) => "ONNX session error: "@ + d@,
            DictumError::ModelNotFound { path } => "model file not found: "@ + path@,
            DictumError::Io(d) => "IO error: "@ + d@,
            DictumError::Other(d) => d@,
        }
    }

    /// The human-readable message for this error.
    pub fn message(&self) -> (s: String)
        ensures
            s@ == self.message_text(),
    {
        match self {
            DictumError::AudioDevice(d) => String::from_str("audio device error: ").concat(
                d.as_str(),
            ),
            DictumError::AudioStream(d) => String::from_str("audio stream error: ").concat(
                d.as_str(),
            ),
            DictumError::NoDefaultInputDevice => String::from_str("no default input device found"),
            DictumError::RingBufferFull => String::from_str(
                "ring buffer is full — pipeline cannot keep up",
            ),
            DictumError::Inference(d) => String::from_str("inference error: ").concat(d.as_str()),
            DictumError::AlreadyRunning => String::from_str("engine is already running"),
            DictumError::NotRunning => String::from_str("engine is not running"),
            DictumError::OnnxSession(d) => String::from_str("ONNX session error: ").concat(
                d.as_str(),
            ),
            DictumError::ModelNotFound { path } => String::from_str(
                "model file not found: ",
            ).concat(path.as_str()),
            DictumError::Io(d) => String::from_str("IO error: ").concat(d.as_str()),
            DictumError::Other(d) => d.clone(),
        }
    }
}

} // verus!
