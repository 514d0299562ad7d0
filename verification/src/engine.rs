//! Engine configuration and lifecycle.

use vstd::prelude::*;
use crate::engine::pipeline::{DiagnosticsSnapshot, PipelineDiagnostics, zero_diagnostics};
use crate::error::DictumError;
use crate::ipc::events::{EngineStatus, EngineStatusEvent, StatusEventModel};
use crate::text::{chars_equal, chars_of};

pub mod pipeline;

verus! {

/// Per-session configuration. Levels and probabilities are given in
/// millionths of full scale.
#[derive(Debug, Clone, Copy, PartialEq, Eq, Structural)]
pub struct EngineConfig {
    /// Target sample rate for inference (Hz).
    pub target_sample_rate: u32,
    /// Level threshold of the energy detector, in millionths.
    pub vad_threshold_millionths: u32,
    /// Hangover of the energy detector, in chunks.
    pub vad_hangover_frames: u32,
    /// Speech probability threshold of the neural detector, in millionths.
    pub silero_vad_threshold_millionths: u32,
    /// Least accumulated speech (samples at the target rate) for an inference.
    pub min_speech_samples: usize,
    /// Accumulated speech (samples) at which an inference is forced.
    pub max_speech_samples: usize,
    /// Whether partial inferences run during active speech.
    pub enable_partial_inference: bool,
}

/// The default configuration: 16 kHz, level threshold 0.01, eight chunks of
/// hangover, probability threshold 0.20, a quarter of a second at least and
/// thirty seconds at most per inference, partial inference on.
pub open spec fn default_config() -> EngineConfig {
    EngineConfig {
        target_sample_rate: 16_000,
        vad_threshold_millionths: 10_000,
        vad_hangover_frames: 8,
        silero_vad_threshold_millionths: 200_000,
        min_speech_samples: 4_000,
        max_speech_samples: 480_000,
        enable_partial_inference: true,
    }
}

impl Default for EngineConfig {
    fn default() -> (c: EngineConfig)
        ensures
            c == default_config(),
    {
        EngineConfig {
            target_sample_rate: 16_000,
            vad_threshold_millionths: 10_000,
            vad_hangover_frames: 8,
            silero_vad_threshold_millionths: 200_000,
            min_speech_samples: 4_000,
            max_speech_samples: 480_000,
            enable_partial_inference: true,
        }
    }
}


/// Capacity of each broadcast stream: events kept for slow consumers.
pub const BROADCAST_CAP: usize = 256;

/// The least that the probability threshold of the neural detector may be, in millionths.
pub const SILERO_THRESHOLD_MIN: u32 = 30_000;

/// The most that the probability threshold of the neural detector may be, in millionths.
pub const SILERO_THRESHOLD_MAX: u32 = 950_000;

impl EngineConfig {
    /// The probability threshold that the neural detector runs with: the
    /// configured one, kept between 0.03 and 0.95.
    pub open spec fn clamped_silero_threshold(self) -> u32 {
        if self.silero_vad_threshold_millionths < SILERO_THRESHOLD_MIN {
            SILERO_THRESHOLD_MIN
        } else if self.silero_vad_threshold_millionths > SILERO_THRESHOLD_MAX {
            SILERO_THRESHOLD_MAX
        } else {
            self.silero_vad_threshold_millionths
        }
    }

    /// The probability threshold that the neural detector runs with, in millionths.
    pub fn silero_threshold(&self) -> (t: u32)
        ensures
            t == self.clamped_silero_threshold(),
            SILERO_THRESHOLD_MIN <= t <= SILERO_THRESHOLD_MAX,
    {
        if self.silero_vad_threshold_millionths < SILERO_THRESHOLD_MIN {
            SILERO_THRESHOLD_MIN
        } else if self.silero_vad_threshold_millionths > SILERO_THRESHOLD_MAX {
            SILERO_THRESHOLD_MAX
        } else {
            self.silero_vad_threshold_millionths
        }
    }
}

/// The configuration that a performance profile stands for. The sample
/// rate stays as it is. A name that is no profile stands for the profile
/// for long dictation.
pub open spec fn profiled(config: EngineConfig, profile: Seq<char>) -> EngineConfig {
    if profile == "whisper_balanced_english"@ {
        EngineConfig {
            vad_threshold_millionths: 1_250,
            min_speech_samples: 460,
            max_speech_samples: 96_000,
            vad_hangover_frames: 7,
            enable_partial_inference: true,
            silero_vad_threshold_millionths: 45_000,
            ..config
        }
    } else if profile == "latency_short_utterance"@ {
        EngineConfig {
            vad_threshold_millionths: 1_950,
            min_speech_samples: 420,
            max_speech_samples: 72_000,
            vad_hangover_frames: 3,
            enable_partial_inference: true,
            silero_vad_threshold_millionths: 65_000,
            ..config
        }
    } else if profile == "balanced_general"@ {
        EngineConfig {
            vad_threshold_millionths: 1_700,
            min_speech_samples: 600,
            max_speech_samples: 88_000,
            vad_hangover_frames: 4,
            enable_partial_inference: true,
            silero_vad_threshold_millionths: 58_000,
            ..config
        }
    } else {
        EngineConfig {
            vad_threshold_millionths: 1_450,
            min_speech_samples: 520,
            max_speech_samples: 104_000,
            vad_hangover_frames: 6,
            enable_partial_inference: true,
            silero_vad_threshold_millionths: 52_000,
            ..config
        }
    }
}

/// Sets the configuration to what a performance profile stands for.
pub fn apply_engine_profile(config: &mut EngineConfig, profile: &str)
    ensures
        *final(config) == profiled(*old(config), profile@),
{
    let name = chars_of(profile);
    if chars_equal(&name, &chars_of("whisper_balanced_english")) {
        config.vad_threshold_millionths = 1_250;
        config.min_speech_samples = 460;
        config.max_speech_samples = 96_000;
        config.vad_hangover_frames = 7;
        config.enable_partial_inference = true;
        config.silero_vad_threshold_millionths = 45_000;
    } else if chars_equal(&name, &chars_of("latency_short_utterance")) {
        config.vad_threshold_millionths = 1_950;
        config.min_speech_samples = 420;
        config.max_speech_samples = 72_000;
        config.vad_hangover_frames = 3;
        config.enable_partial_inference = true;
        config.silero_vad_threshold_millionths = 65_000;
    } else if chars_equal(&name, &chars_of("balanced_general")) {
        config.vad_threshold_millionths = 1_700;
        config.min_speech_samples = 600;
        config.max_speech_samples = 88_000;
        config.vad_hangover_frames = 4;
        config.enable_partial_inference = true;
        config.silero_vad_threshold_millionths = 58_000;
    } else {
        config.vad_threshold_millionths = 1_450;
        config.min_speech_samples = 520;
        config.max_speech_samples = 104_000;
        config.vad_hangover_frames = 6;
        config.enable_partial_inference = true;
        config.silero_vad_threshold_millionths = 52_000;
    }
}

// ---------------------------------------------------------------------------
// Lifecycle
// ---------------------------------------------------------------------------

/// The mathematical state of a [`DictumEngine`].
pub struct EngineModel {
    pub config: EngineConfig,
    /// Whether capture and pipeline are active.
    pub running: bool,
    pub status: EngineStatus,
    /// The sequence number that the next transcript event gets.
    pub seq: u64,
    /// The counters of the last session.
    pub diagnostics: DiagnosticsSnapshot,
}

/// The status event for a status without detail.
pub open spec fn plain_status(status: EngineStatus) -> StatusEventModel {
    StatusEventModel { status, detail: None }
}

/// The status event for a failure.
pub open spec fn error_status(error: DictumError) -> StatusEventModel {
    StatusEventModel { status: EngineStatus::Error, detail: Some(error.message_text()) }
}

/// The lifecycle of the engine: its configuration, its status and what
/// lasts from one session to the next. The caller owns the model, the
/// device and the streams, and does as the lifecycle says.
pub struct DictumEngine {
    config: EngineConfig,
    running: bool,
    status: EngineStatus,
    seq: u64,
    diagnostics: PipelineDiagnostics,
}

impl View for DictumEngine {
    type V = EngineModel;

    closed spec fn view(&self) -> EngineModel {
        EngineModel {
            config: self.config,
            running: self.running,
            status: self.status,
            seq: self.seq,
            diagnostics: self.diagnostics@,
        }
    }
}

impl DictumEngine {
    /// A new engine: idle, not running, all counters at zero.
    pub fn new(config: EngineConfig) -> (engine: DictumEngine)
        ensures
            engine@ == (EngineModel {
                config,
                running: false,
                status: EngineStatus::Idle,
                seq: 0,
                diagnostics: zero_diagnostics(),
            }),
    {
        DictumEngine {
            config,
            running: false,
            status: EngineStatus::Idle,
            seq: 0,
            diagnostics: PipelineDiagnostics::default(),
        }
    }

    /// The configuration.
    pub fn config(&self) -> (c: EngineConfig)
        ensures
            c == self@.config,
    {
        self.config
    }

    /// Current engine status.
    pub fn status(&self) -> (s: EngineStatus)
        ensures
            s == self@.status,
    {
        self.status
    }

    /// Whether capture and pipeline are active.
    pub fn is_running(&self) -> (b: bool)
        ensures
            b == self@.running,
    {
        self.running
    }

    /// The sequence number that the next session numbers its transcript events from.
    pub fn transcript_seq(&self) -> (n: u64)
        ensures
            n == self@.seq,
    {
        self.seq
    }

    /// The counters of the session in progress or, between sessions, of the last one.
    pub fn pipeline_diagnostics_snapshot(&self) -> (d: DiagnosticsSnapshot)
        ensures
            d == self@.diagnostics,
    {
        self.diagnostics.snapshot()
    }

    /// The model begins to load.
    pub fn begin_warm_up(&mut self) -> (event: EngineStatusEvent)
        ensures
            final(self)@ == (EngineModel { status: EngineStatus::WarmingUp, ..old(self)@ }),
            event@ == plain_status(EngineStatus::WarmingUp),
    {
        self.status = EngineStatus::WarmingUp;
        EngineStatusEvent { status: EngineStatus::WarmingUp, detail: None }
    }

    /// The model has loaded, or has failed to: the engine is idle again, or
    /// in error with the failure as detail.
    pub fn finish_warm_up(&mut self, outcome: &Result<(), DictumError>) -> (event:
        EngineStatusEvent)
        ensures
            outcome is Ok ==> (final(self)@ == (EngineModel {
                status: EngineStatus::Idle,
                ..old(self)@
            }) && event@ == plain_status(EngineStatus::Idle)),
            outcome matches Err(e) ==> (final(self)@ == (EngineModel {
                status: EngineStatus::Error,
                ..old(self)@
            }) && event@ == error_status(*e)),
    {
        match outcome {
            Ok(_) => {
                self.status = EngineStatus::Idle;
                EngineStatusEvent { status: EngineStatus::Idle, detail: None }
            },
            Err(e) => {
                self.status = EngineStatus::Error;
                EngineStatusEvent { status: EngineStatus::Error, detail: Some(e.message()) }
            },
        }
    }

    /// Begins a session: refused while one is running; else the engine runs
    /// and listens, and the counters start from zero.
    pub fn start(&mut self) -> (r: Result<EngineStatusEvent, DictumError>)
        ensures
            old(self)@.running ==> (r matches Err(e) && e is AlreadyRunning && final(self)@ == old(
                self,
            )@),
            !old(self)@.running ==> (r matches Ok(event) && event@ == plain_status(
                EngineStatus::Listening,
            ) && final(self)@ == (EngineModel {
                running: true,
                status: EngineStatus::Listening,
                diagnostics: zero_diagnostics(),
                ..old(self)@
            })),
    {
        if self.running {
            return Err(DictumError::AlreadyRunning);
        }
        self.diagnostics.reset();
        self.running = true;
        self.status = EngineStatus::Listening;
        Ok(EngineStatusEvent { status: EngineStatus::Listening, detail: None })
    }

    /// The device could not be opened: the session is over before it
    /// began, and the engine is in error with the failure as detail.
    pub fn start_failed(&mut self, error: &DictumError) -> (event: EngineStatusEvent)
        ensures
            final(self)@ == (EngineModel {
                running: false,
                status: EngineStatus::Error,
                ..old(self)@
            }),
            event@ == error_status(*error),
    {
        self.running = false;
        self.status = EngineStatus::Error;
        EngineStatusEvent { status: EngineStatus::Error, detail: Some(error.message()) }
    }

    /// Asks the session to end: refused while none is running.
    pub fn stop(&mut self) -> (r: Result<EngineStatusEvent, DictumError>)
        ensures
            !old(self)@.running ==> (r matches Err(e) && e is NotRunning && final(self)@ == old(
                self,
            )@),
            old(self)@.running ==> (r matches Ok(event) && event@ == plain_status(
                EngineStatus::Stopped,
            ) && final(self)@ == (EngineModel {
                running: false,
                status: EngineStatus::Stopped,
                ..old(self)@
            })),
    {
        if !self.running {
            return Err(DictumError::NotRunning);
        }
        self.running = false;
        self.status = EngineStatus::Stopped;
        Ok(EngineStatusEvent { status: EngineStatus::Stopped, detail: None })
    }

    /// Takes over what a session leaves behind: the sequence number for the
    /// next transcript event and the counters.
    pub fn session_ended(&mut self, transcript_seq: u64, diagnostics: DiagnosticsSnapshot)
        ensures
            final(self)@ == (EngineModel { seq: transcript_seq, diagnostics, ..old(self)@ }),
    {
        self.seq = transcript_seq;
        self.diagnostics.frames_in = diagnostics.frames_in;
        self.diagnostics.frames_resampled = diagnostics.frames_resampled;
        self.diagnostics.vad_windows = diagnostics.vad_windows;
        self.diagnostics.vad_speech = diagnostics.vad_speech;
        self.diagnostics.inference_calls = diagnostics.inference_calls;
        self.diagnostics.inference_errors = diagnostics.inference_errors;
        self.diagnostics.segments_emitted = diagnostics.segments_emitted;
        self.diagnostics.fallback_emitted = diagnostics.fallback_emitted;
    }
}

} // verus!
