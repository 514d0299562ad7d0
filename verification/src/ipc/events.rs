//! Event payloads: transcript segments, engine status and audio activity.
//!
//! Each stream numbers its own events; the numbers let a consumer detect
//! gaps and reordering.

use vstd::prelude::*;

verus! {

/// Distinguishes streaming partials from committed finals.
#[derive(Debug, Clone, Copy, PartialEq, Eq, Structural)]
pub enum SegmentKind {
    /// Streaming partial: the text may change on the next event with the same id.
    Partial,
    /// Committed final: the utterance is complete and will not change.
    Final,
}

/// A single recognised speech segment.
#[derive(Debug, Clone)]
pub struct TranscriptSegment {
    /// Id of the utterance, stable across partial and final updates.
    pub id: String,
    /// Recognised text.
    pub text: String,
    /// Whether this is a streaming partial or a committed final.
    pub kind: SegmentKind,
    /// Model confidence in hundredths (5 to 98 where the decoder sets it), if available.
    pub confidence: Option<u8>,
}

/// The mathematical content of a [`TranscriptSegment`].
pub struct SegmentModel {
    pub id: Seq<char>,
    pub text: Seq<char>,
    pub kind: SegmentKind,
    pub confidence: Option<u8>,
}

impl View for TranscriptSegment {
    type V = SegmentModel;

    open spec fn view(&self) -> SegmentModel {
        SegmentModel {
            id: self.id@,
            text: self.text@,
            kind: self.kind,
            confidence: self.confidence,
        }
    }
}

/// The contents of a vector of segments.
pub open spec fn segment_models(segments: Seq<TranscriptSegment>) -> Seq<SegmentModel> {
    Seq::new(segments.len(), |i: int| segments[i]@)
}

/// Emitted when the pipeline produces output.
#[derive(Debug, Clone)]
pub struct TranscriptEvent {
    /// Sequence number of the event on the transcript stream.
    pub seq: u64,
    /// One or more transcript segments from this inference pass.
    pub segments: Vec<TranscriptSegment>,
}

/// The mathematical content of a [`TranscriptEvent`].
pub struct TranscriptEventModel {
    pub seq: u64,
    pub segments: Seq<SegmentModel>,
}

impl View for TranscriptEvent {
    type V = TranscriptEventModel;

    open spec fn view(&self) -> TranscriptEventModel {
        TranscriptEventModel { seq: self.seq, segments: segment_models(self.segments@) }
    }
}

/// Emitted for each processed audio chunk. `L` is the type of the level
/// measurement, which the engine carries through untouched.
#[derive(Debug, Clone, Copy)]
pub struct AudioActivityEvent<L> {
    /// Sequence number of the event on the activity stream.
    pub seq: u64,
    /// Root-mean-square level of the chunk.
    pub rms: L,
    /// Voice-activity decision for the chunk.
    pub is_speech: bool,
}

/// Current state of the engine.
#[derive(Debug, Clone, Copy, PartialEq, Eq, Structural)]
pub enum EngineStatus {
    /// Engine created, or warmed up, and not capturing.
    Idle,
    /// Warming up the model.
    WarmingUp,
    /// Actively capturing audio and transcribing.
    Listening,
    /// Capture stopped; the engine may be restarted.
    Stopped,
    /// A start or warm-up failed.
    Error,
}

/// Emitted when the engine state changes.
#[derive(Debug, Clone)]
pub struct EngineStatusEvent {
    pub status: EngineStatus,
    /// Optional human-readable detail (for example an error message).
    pub detail: Option<String>,
}

/// The mathematical content of an [`EngineStatusEvent`].
pub struct StatusEventModel {
    pub status: EngineStatus,
    pub detail: Option<Seq<char>>,
}

impl View for EngineStatusEvent {
    type V = StatusEventModel;

    open spec fn view(&self) -> StatusEventModel {
        StatusEventModel {
            status: self.status,
            detail: match self.detail {
                Some(d) => Some(d@),
                None => None,
            },
        }
    }
}

} // verus!
