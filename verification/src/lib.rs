//! Streaming speech-to-text engine: the verified decision logic.
//!
//! The crate holds what the engine decides: how audio is buffered for rate
//! conversion, when a chunk counts as speech, when an utterance is flushed to
//! the model and what is told to the host, how decoding is steered and how
//! its text is judged. Devices, models and threads live with the caller,
//! which feeds measurements and results in and carries requests out.
//!
//! Beside the engine stands what a host decides around it: what becomes of
//! a transcript, how text is typed into another application, how settings,
//! corrections, history and updates are kept in order.

pub mod audio;
pub mod benchmark;
pub mod buffering;
pub mod corrections;
pub mod delivery;
pub mod engine;
pub mod error;
pub mod inference;
pub mod ipc;
pub mod model_profiles;
pub mod settings;
pub mod shortcut;
pub mod stats;
pub mod storage;
pub mod text;
pub mod text_injector;
pub mod transform;
pub mod tuning;
pub mod update;
pub mod vad;
