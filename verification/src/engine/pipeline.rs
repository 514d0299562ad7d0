//! The segmentation state machine of the pipeline.
//!
//! Per chunk the worker drains the ring, converts the rate, measures the
//! level and asks the detector; then it tells this state machine, which
//! accumulates speech and says when the model has to run and on what. The
//! worker runs the model and reports back; the state machine answers with
//! the events for the host.
//!
//! Time is a monotonic clock in milliseconds that the worker reads.

use vstd::prelude::*;
use vstd::string::*;
use crate::buffering::chunk::AudioChunk;
use crate::buffering::{append_rolling_samples, copy_vec, extend_from, retain_tail_samples, rolling_append, tail_of};
use crate::engine::EngineConfig;
use crate::error::DictumError;
use crate::ipc::events::{
    segment_models, AudioActivityEvent, EngineStatus, EngineStatusEvent, SegmentKind, SegmentModel,
    StatusEventModel, TranscriptEvent, TranscriptEventModel, TranscriptSegment,
};
use crate::text::{
    decimal, push_decimal, push_str, string_of,
};
use crate::vad::VadDecision;

verus! {

/// Samples taken from the ring per iteration: 20 ms at 48 kHz.
pub const DRAIN_CHUNK: usize = 960;

/// Final inferences in a row that may come back empty or failed before a
/// placeholder is emitted.
pub const EMPTY_FINAL_STREAK_FOR_FALLBACK: usize = 2;

/// The session counts as active once this fraction of `min_speech_samples`
/// was at or above the level threshold: one over this factor.
pub const STOP_FALLBACK_RMS_ACTIVITY_FACTOR: usize = 2;

/// Least time between two partial inferences of an utterance.
pub const PARTIAL_MIN_INTERVAL_MS: u64 = 900;

/// Most new samples that a partial inference waits for.
pub const PARTIAL_MIN_NEW_SAMPLES: usize = 12_000;

/// Seconds of audio kept for a retry after a forced flush without output.
pub const MAX_FLUSH_RETRY_TAIL_SECONDS: usize = 12;

/// Milliseconds of audio kept as overlap after a forced flush with output.
pub const MAX_FLUSH_CONTINUATION_OVERLAP_MS: usize = 1_600;

// ---------------------------------------------------------------------------
// Diagnostics
// ---------------------------------------------------------------------------

/// A read-only copy of the pipeline's counters.
#[derive(Debug, Clone, Copy, PartialEq, Eq, Structural)]
pub struct DiagnosticsSnapshot {
    pub frames_in: usize,
    pub frames_resampled: usize,
    pub vad_windows: usize,
    pub vad_speech: usize,
    pub inference_calls: usize,
    pub inference_errors: usize,
    pub segments_emitted: usize,
    pub fallback_emitted: usize,
}

/// All counters at zero.
pub open spec fn zero_diagnostics() -> DiagnosticsSnapshot {
    DiagnosticsSnapshot {
        frames_in: 0,
        frames_resampled: 0,
        vad_windows: 0,
        vad_speech: 0,
        inference_calls: 0,
        inference_errors: 0,
        segments_emitted: 0,
        fallback_emitted: 0,
    }
}

/// No counter of `a` is above its counterpart in `b`.
pub open spec fn diagnostics_le(a: DiagnosticsSnapshot, b: DiagnosticsSnapshot) -> bool {
    &&& a.frames_in <= b.frames_in
    &&& a.frames_resampled <= b.frames_resampled
    &&& a.vad_windows <= b.vad_windows
    &&& a.vad_speech <= b.vad_speech
    &&& a.inference_calls <= b.inference_calls
    &&& a.inference_errors <= b.inference_errors
    &&& a.segments_emitted <= b.segments_emitted
    &&& a.fallback_emitted <= b.fallback_emitted
}

/// The counters of one session. They only grow, and stop at the largest
/// value they can hold.
#[derive(Debug)]
pub struct PipelineDiagnostics {
    pub frames_in: usize,
    pub frames_resampled: usize,
    pub vad_windows: usize,
    pub vad_speech: usize,
    pub inference_calls: usize,
    pub inference_errors: usize,
    pub segments_emitted: usize,
    pub fallback_emitted: usize,
}

impl View for PipelineDiagnostics {
    type V = DiagnosticsSnapshot;

    open spec fn view(&self) -> DiagnosticsSnapshot {
        DiagnosticsSnapshot {
            frames_in: self.frames_in,
            frames_resampled: self.frames_resampled,
            vad_windows: self.vad_windows,
            vad_speech: self.vad_speech,
            inference_calls: self.inference_calls,
            inference_errors: self.inference_errors,
            segments_emitted: self.segments_emitted,
            fallback_emitted: self.fallback_emitted,
        }
    }
}

impl Default for PipelineDiagnostics {
    fn default() -> (d: PipelineDiagnostics)
        ensures
            d@ == zero_diagnostics(),
    {
        PipelineDiagnostics {
            frames_in: 0,
            frames_resampled: 0,
            vad_windows: 0,
            vad_speech: 0,
            inference_calls: 0,
            inference_errors: 0,
            segments_emitted: 0,
            fallback_emitted: 0,
        }
    }
}

impl PipelineDiagnostics {
    /// Sets every counter back to zero.
    pub fn reset(&mut self)
        ensures
            final(self)@ == zero_diagnostics(),
    {
        self.frames_in = 0;
        self.frames_resampled = 0;
        self.vad_windows = 0;
        self.vad_speech = 0;
        self.inference_calls = 0;
        self.inference_errors = 0;
        self.segments_emitted = 0;
        self.fallback_emitted = 0;
    }

    /// The counters as they stand.
    pub fn snapshot(&self) -> (s: DiagnosticsSnapshot)
        ensures
            s == self@,
    {
        DiagnosticsSnapshot {
            frames_in: self.frames_in,
            frames_resampled: self.frames_resampled,
            vad_windows: self.vad_windows,
            vad_speech: self.vad_speech,
            inference_calls: self.inference_calls,
            inference_errors: self.inference_errors,
            segments_emitted: self.segments_emitted,
            fallback_emitted: self.fallback_emitted,
        }
    }
}

// ---------------------------------------------------------------------------
// Arithmetic that stops at the top
// ---------------------------------------------------------------------------

/// `a + b`, or the largest `usize` where the sum does not fit.
pub open spec fn sat_add(a: usize, b: nat) -> usize {
    if a + b > usize::MAX {
        usize::MAX
    } else {
        (a + b) as usize
    }
}

/// `a * b`, or the largest `usize` where the product does not fit.
pub open spec fn sat_mul(a: nat, b: nat) -> usize {
    if a * b > usize::MAX {
        usize::MAX
    } else {
        (a * b) as usize
    }
}

/// The sequence number after `n`; the largest number repeats.
pub open spec fn next_seq(n: u64) -> u64 {
    if n == u64::MAX {
        n
    } else {
        (n + 1) as u64
    }
}

fn add_saturating(a: usize, b: usize) -> (r: usize)
    ensures
        r == sat_add(a, b as nat),
{
    if a > usize::MAX - b {
        usize::MAX
    } else {
        a + b
    }
}

fn seq_after(n: u64) -> (r: u64)
    ensures
        r == next_seq(n),
{
    if n == u64::MAX {
        n
    } else {
        n + 1
    }
}

// ---------------------------------------------------------------------------
// Policy values
// ---------------------------------------------------------------------------

/// Samples kept after a forced flush that produced output: 1.6 s, at least one sample.
pub open spec fn continuation_overlap_samples(rate: u32) -> usize {
    let kept = sat_mul(rate as nat, MAX_FLUSH_CONTINUATION_OVERLAP_MS as nat) / 1000;
    if kept < 1 {
        1
    } else {
        kept as usize
    }
}

/// Samples kept after a forced flush without output: 12 s, at least `min_speech_samples`.
pub open spec fn retry_tail_samples(rate: u32, min_speech_samples: usize) -> usize {
    let kept = sat_mul(rate as nat, MAX_FLUSH_RETRY_TAIL_SECONDS as nat);
    if kept < min_speech_samples {
        min_speech_samples
    } else {
        kept
    }
}

/// New samples that a partial inference waits for.
pub open spec fn partial_delta_threshold(min_speech_samples: usize) -> usize {
    let floor = if min_speech_samples < 1 {
        1
    } else {
        min_speech_samples
    };
    if floor < PARTIAL_MIN_NEW_SAMPLES {
        floor
    } else {
        PARTIAL_MIN_NEW_SAMPLES
    }
}

/// Whether enough time has passed since the last partial inference.
pub open spec fn enough_time(last: Option<u64>, now_ms: u64) -> bool {
    match last {
        None => true,
        Some(t) => now_ms >= t && now_ms - t >= PARTIAL_MIN_INTERVAL_MS,
    }
}

/// Level activity that counts as speech the detector may have missed.
pub open spec fn rescue_threshold(min_speech_samples: usize) -> usize {
    min_speech_samples / STOP_FALLBACK_RMS_ACTIVITY_FACTOR
}

/// The id of the `n`-th utterance of a session.
pub open spec fn utterance_label(n: u64) -> Seq<char> {
    "utt-"@ + decimal(n as nat)
}

/// The id of a placeholder that belongs to no utterance.
pub open spec fn fallback_label(seq: u64) -> Seq<char> {
    "fallback-"@ + decimal(seq as nat)
}

/// The text of the placeholder segment.
pub open spec fn fallback_text() -> Seq<char> {
    "[speech captured]"@
}

/// The detail of the status event that goes with a placeholder after empty output.
pub open spec fn degraded_detail() -> Seq<char> {
    "Transcription degraded: speech detected but model returned empty output; using fallback."@
}

/// The detail of the status event that goes with a placeholder after a failure.
pub open spec fn failed_detail() -> Seq<char> {
    "Transcription error: inference failed during finalization."@
}

fn continuation_overlap(rate: u32) -> (r: usize)
    ensures
        r == continuation_overlap_samples(rate),
{
    let factor: u128 = MAX_FLUSH_CONTINUATION_OVERLAP_MS as u128;
    assert(factor == 1_600);
    let product: u128 = (rate as u128) * factor;
    let capped: usize = if product > usize::MAX as u128 {
        usize::MAX
    } else {
        product as usize
    };
    let kept: usize = capped / 1000;
    if kept < 1 {
        1
    } else {
        kept
    }
}

fn retry_tail(rate: u32, min_speech_samples: usize) -> (r: usize)
    ensures
        r == retry_tail_samples(rate, min_speech_samples),
{
    let factor: u128 = MAX_FLUSH_RETRY_TAIL_SECONDS as u128;
    assert(factor == 12);
    let product: u128 = (rate as u128) * factor;
    let kept: usize = if product > usize::MAX as u128 {
        usize::MAX
    } else {
        product as usize
    };
    if kept < min_speech_samples {
        min_speech_samples
    } else {
        kept
    }
}

fn delta_threshold(min_speech_samples: usize) -> (r: usize)
    ensures
        r == partial_delta_threshold(min_speech_samples),
{
    let floor: usize = if min_speech_samples < 1 {
        1
    } else {
        min_speech_samples
    };
    if floor < PARTIAL_MIN_NEW_SAMPLES {
        floor
    } else {
        PARTIAL_MIN_NEW_SAMPLES
    }
}

fn time_is_enough(last: Option<u64>, now_ms: u64) -> (r: bool)
    ensures
        r == enough_time(last, now_ms),
{
    match last {
        None => true,
        Some(t) => now_ms >= t && now_ms - t >= PARTIAL_MIN_INTERVAL_MS,
    }
}

/// The id `utt-N` of utterance `n`.
pub fn utterance_id(n: u64) -> (id: String)
    ensures
        id@ == utterance_label(n),
{
    let mut out: Vec<char> = Vec::new();
    push_str(&mut out, "utt-");
    push_decimal(&mut out, n);
    string_of(&out)
}

/// The id `fallback-N` of the placeholder with sequence number `seq`.
pub fn fallback_id(seq: u64) -> (id: String)
    ensures
        id@ == fallback_label(seq),
{
    let mut out: Vec<char> = Vec::new();
    push_str(&mut out, "fallback-");
    push_decimal(&mut out, seq);
    string_of(&out)
}


/// How long the worker sleeps when the ring is empty, in milliseconds,
/// where nothing is configured.
pub const DEFAULT_SLEEP_EMPTY_MS: u64 = 5;

/// The sleep for an empty ring: the configured one kept between 1 ms and
/// 20 ms, or 5 ms.
pub open spec fn empty_sleep_of(configured: Option<u64>) -> u64 {
    match configured {
        Some(v) => if v < 1 {
            1
        } else if v > 20 {
            20
        } else {
            v
        },
        None => DEFAULT_SLEEP_EMPTY_MS,
    }
}

/// How long the worker sleeps when the ring is empty, in milliseconds.
pub fn empty_sleep_ms(configured: Option<u64>) -> (ms: u64)
    ensures
        ms == empty_sleep_of(configured),
        1 <= ms <= 20,
{
    match configured {
        Some(v) => if v < 1 {
            1
        } else if v > 20 {
            20
        } else {
            v
        },
        None => DEFAULT_SLEEP_EMPTY_MS,
    }
}

// ---------------------------------------------------------------------------
// Requests to run the model
// ---------------------------------------------------------------------------

/// Why the model is asked to run.
#[derive(Debug, Clone, Copy, PartialEq, Eq, Structural)]
pub enum FlushReason {
    /// A streaming update during speech; the accumulator stays as it is.
    Partial,
    /// The accumulator reached `max_speech_samples`.
    MaxLength,
    /// Silence ended an utterance that is long enough.
    Silence,
    /// The session was stopped with unflushed speech.
    Stop,
    /// The session ends without any final output although the level was up.
    Rescue,
}

/// What the worker hands back with the model's answer.
#[derive(Debug, Clone, Copy)]
pub struct FlushTicket {
    pub reason: FlushReason,
    /// The number of the utterance that the audio belongs to, if any.
    pub utterance: Option<u64>,
}

/// A request to run the model on `chunk`.
#[derive(Debug)]
pub struct FlushRequest<S> {
    pub ticket: FlushTicket,
    /// Whether a partial (streaming) result is asked for.
    pub partial: bool,
    /// A copy of the audio to transcribe.
    pub chunk: AudioChunk<S>,
}

/// The mathematical content of a [`FlushRequest`].
pub struct FlushRequestModel<S> {
    pub ticket: FlushTicket,
    pub partial: bool,
    pub samples: Seq<S>,
    pub sample_rate: u32,
}

impl<S> View for FlushRequest<S> {
    type V = FlushRequestModel<S>;

    open spec fn view(&self) -> FlushRequestModel<S> {
        FlushRequestModel {
            ticket: self.ticket,
            partial: self.partial,
            samples: self.chunk.samples@,
            sample_rate: self.chunk.sample_rate,
        }
    }
}

/// The content of a request that may be absent.
pub open spec fn request_model<S>(r: Option<FlushRequest<S>>) -> Option<FlushRequestModel<S>> {
    match r {
        Some(req) => Some(req@),
        None => None,
    }
}

/// The request for `reason` on `samples`.
pub open spec fn make_request<S>(
    reason: FlushReason,
    utterance: Option<u64>,
    samples: Seq<S>,
    sample_rate: u32,
) -> FlushRequestModel<S> {
    FlushRequestModel {
        ticket: FlushTicket { reason, utterance },
        partial: reason == FlushReason::Partial,
        samples,
        sample_rate,
    }
}

/// What an inference came to.
#[derive(Debug, Clone, Copy, PartialEq, Eq, Structural)]
pub enum FlushOutcome {
    /// The model returned segments.
    Emitted,
    /// The model returned no segment.
    Empty,
    /// The model failed.
    Error,
}

/// An event for the host.
#[derive(Debug)]
pub enum PipelineEvent {
    Transcript(TranscriptEvent),
    Status(EngineStatusEvent),
}

/// The mathematical content of a [`PipelineEvent`].
pub enum PipelineEventModel {
    Transcript(TranscriptEventModel),
    Status(StatusEventModel),
}

impl View for PipelineEvent {
    type V = PipelineEventModel;

    open spec fn view(&self) -> PipelineEventModel {
        match self {
            PipelineEvent::Transcript(e) => PipelineEventModel::Transcript(e@),
            PipelineEvent::Status(e) => PipelineEventModel::Status(e@),
        }
    }
}

/// The contents of a vector of events.
pub open spec fn event_models(events: Seq<PipelineEvent>) -> Seq<PipelineEventModel> {
    Seq::new(events.len(), |i: int| events[i]@)
}

/// What [`Pipeline::on_chunk`] answers.
#[derive(Debug)]
pub struct ChunkOutcome<S, L> {
    /// The activity event for this chunk; none for an empty chunk.
    pub activity: Option<AudioActivityEvent<L>>,
    /// The inference to run now, if any.
    pub flush: Option<FlushRequest<S>>,
    /// Whether detector and model state are to be reset, after the inference if there is one.
    pub reset_detectors: bool,
}

/// What [`Pipeline::begin_stop`] answers.
#[derive(Debug)]
pub struct StopOutcome<S> {
    /// The terminal inference to run, if any.
    pub flush: Option<FlushRequest<S>>,
    /// Whether detector and model state are to be reset, after the inference if there is one.
    pub reset_detectors: bool,
}

// ---------------------------------------------------------------------------
// The state and its transitions
// ---------------------------------------------------------------------------

/// The mathematical state of a [`Pipeline`].
pub struct PipelineModel<S> {
    pub config: EngineConfig,
    /// Accumulated speech awaiting inference.
    pub speech: Seq<S>,
    /// The most recent audio, speech or not, up to `max_speech_samples`.
    pub recent: Seq<S>,
    /// Whether the previous chunk was speech.
    pub was_speech: bool,
    /// The number of the utterance in progress.
    pub active_utterance: Option<u64>,
    /// The number that the next utterance gets.
    pub next_utterance_id: u64,
    /// The sequence number of the next activity event.
    pub activity_seq: u64,
    /// The sequence number of the next transcript event.
    pub transcript_seq: u64,
    /// Final inferences in a row without output.
    pub empty_final_streak: usize,
    /// Final outputs, real or placeholder, emitted in this session.
    pub final_output_count: usize,
    /// Samples of chunks whose level reached the threshold.
    pub rms_active_samples: usize,
    /// When the last partial inference of this utterance was asked for.
    pub last_partial_infer_at: Option<u64>,
    /// How long the accumulator was at that time.
    pub last_partial_infer_samples: usize,
    /// Speech accumulated since the last final output.
    pub new_speech_samples_since_final: usize,
    pub diagnostics: DiagnosticsSnapshot,
}

/// The state at the start of a session.
pub open spec fn initial_state<S>(config: EngineConfig, first_transcript_seq: u64) -> PipelineModel<
    S,
> {
    PipelineModel {
        config,
        speech: Seq::empty(),
        recent: Seq::empty(),
        was_speech: false,
        active_utterance: None,
        next_utterance_id: 0,
        activity_seq: 0,
        transcript_seq: first_transcript_seq,
        empty_final_streak: 0,
        final_output_count: 0,
        rms_active_samples: 0,
        last_partial_infer_at: None,
        last_partial_infer_samples: 0,
        new_speech_samples_since_final: 0,
        diagnostics: zero_diagnostics(),
    }
}

/// The state with one more inference asked for.
pub open spec fn with_inference_call<S>(st: PipelineModel<S>) -> PipelineModel<S> {
    PipelineModel {
        diagnostics: DiagnosticsSnapshot {
            inference_calls: sat_add(st.diagnostics.inference_calls, 1),
            ..st.diagnostics
        },
        ..st
    }
}

/// The bookkeeping for any chunk: rolling window, level activity, counters
/// and the activity stream.
pub open spec fn observed<S>(
    st: PipelineModel<S>,
    samples: Seq<S>,
    rms_active: bool,
    decision: VadDecision,
) -> PipelineModel<S> {
    PipelineModel {
        recent: rolling_append(st.recent, samples, st.config.max_speech_samples as nat),
        rms_active_samples: if rms_active {
            sat_add(st.rms_active_samples, samples.len())
        } else {
            st.rms_active_samples
        },
        activity_seq: next_seq(st.activity_seq),
        diagnostics: DiagnosticsSnapshot {
            frames_resampled: sat_add(st.diagnostics.frames_resampled, samples.len()),
            vad_windows: sat_add(st.diagnostics.vad_windows, 1),
            vad_speech: if decision == VadDecision::Speech {
                sat_add(st.diagnostics.vad_speech, 1)
            } else {
                st.diagnostics.vad_speech
            },
            ..st.diagnostics
        },
        ..st
    }
}

/// A speech chunk joins the accumulator; the first chunk of an utterance
/// gives it its number.
pub open spec fn accumulated<S>(st: PipelineModel<S>, samples: Seq<S>) -> PipelineModel<S> {
    let fresh = st.active_utterance is None;
    PipelineModel {
        was_speech: true,
        speech: st.speech + samples,
        new_speech_samples_since_final: sat_add(st.new_speech_samples_since_final, samples.len()),
        active_utterance: if fresh {
            Some(st.next_utterance_id)
        } else {
            st.active_utterance
        },
        next_utterance_id: if fresh {
            next_seq(st.next_utterance_id)
        } else {
            st.next_utterance_id
        },
        last_partial_infer_at: if fresh {
            None
        } else {
            st.last_partial_infer_at
        },
        last_partial_infer_samples: if fresh {
            0
        } else {
            st.last_partial_infer_samples
        },
        ..st
    }
}

/// The accumulator has reached the length at which a flush is forced.
pub open spec fn must_flush_for_length<S>(st: PipelineModel<S>) -> bool {
    st.speech.len() >= st.config.max_speech_samples
}

/// Samples accumulated since the last partial inference.
pub open spec fn samples_since_partial<S>(st: PipelineModel<S>) -> nat {
    if st.speech.len() >= st.last_partial_infer_samples {
        (st.speech.len() - st.last_partial_infer_samples) as nat
    } else {
        0
    }
}

/// A partial inference is due: no flush is forced, partial inference is on,
/// the accumulator is long enough, and enough time and enough new samples
/// have come since the last one.
pub open spec fn partial_is_due<S>(st: PipelineModel<S>, now_ms: u64) -> bool {
    &&& !must_flush_for_length(st)
    &&& st.config.enable_partial_inference
    &&& st.speech.len() >= st.config.min_speech_samples
    &&& enough_time(st.last_partial_infer_at, now_ms)
    &&& samples_since_partial(st) >= partial_delta_threshold(st.config.min_speech_samples)
}

/// Silence after speech closes the utterance.
pub open spec fn closed_utterance<S>(st: PipelineModel<S>) -> PipelineModel<S> {
    if st.was_speech {
        PipelineModel {
            speech: Seq::empty(),
            was_speech: false,
            active_utterance: None,
            last_partial_infer_at: None,
            last_partial_infer_samples: 0,
            new_speech_samples_since_final: 0,
            ..st
        }
    } else {
        st
    }
}

/// The inference that a chunk calls for.
pub open spec fn chunk_request<S>(
    st: PipelineModel<S>,
    samples: Seq<S>,
    decision: VadDecision,
    now_ms: u64,
) -> Option<FlushRequestModel<S>> {
    if samples.len() == 0 {
        None
    } else {
        match decision {
            VadDecision::Speech => {
                let acc = accumulated(st, samples);
                if must_flush_for_length(acc) {
                    Some(
                        make_request(
                            FlushReason::MaxLength,
                            acc.active_utterance,
                            acc.speech,
                            st.config.target_sample_rate,
                        ),
                    )
                } else if partial_is_due(acc, now_ms) {
                    Some(
                        make_request(
                            FlushReason::Partial,
                            acc.active_utterance,
                            acc.speech,
                            st.config.target_sample_rate,
                        ),
                    )
                } else {
                    None
                }
            },
            VadDecision::Silence => {
                if st.was_speech && st.speech.len() >= st.config.min_speech_samples {
                    Some(
                        make_request(
                            FlushReason::Silence,
                            st.active_utterance,
                            st.speech,
                            st.config.target_sample_rate,
                        ),
                    )
                } else {
                    None
                }
            },
        }
    }
}

/// Whether a chunk ends with a reset of detector and model.
pub open spec fn chunk_resets<S>(st: PipelineModel<S>, samples: Seq<S>, decision: VadDecision) -> bool {
    samples.len() > 0 && decision == VadDecision::Silence && st.was_speech
}

/// The state after a chunk. An empty chunk changes nothing.
pub open spec fn after_chunk<S>(
    st: PipelineModel<S>,
    samples: Seq<S>,
    rms_active: bool,
    decision: VadDecision,
    now_ms: u64,
) -> PipelineModel<S> {
    if samples.len() == 0 {
        st
    } else {
        let obs = observed(st, samples, rms_active, decision);
        let next = match decision {
            VadDecision::Speech => {
                let acc = accumulated(obs, samples);
                if partial_is_due(acc, now_ms) {
                    PipelineModel {
                        last_partial_infer_at: Some(now_ms),
                        last_partial_infer_samples: acc.speech.len() as usize,
                        ..acc
                    }
                } else {
                    acc
                }
            },
            VadDecision::Silence => closed_utterance(obs),
        };
        if chunk_request(st, samples, decision, now_ms) is Some {
            with_inference_call(next)
        } else {
            next
        }
    }
}

/// The outcome that a model's answer stands for.
pub open spec fn outcome_of(result: Result<Seq<SegmentModel>, DictumError>) -> FlushOutcome {
    match result {
        Ok(segments) => if segments.len() > 0 {
            FlushOutcome::Emitted
        } else {
            FlushOutcome::Empty
        },
        Err(_) => FlushOutcome::Error,
    }
}

/// The segments under the id of their utterance. Without an utterance they
/// keep the ids that the model gave them.
pub open spec fn relabeled(segments: Seq<SegmentModel>, utterance: Option<u64>) -> Seq<SegmentModel> {
    match utterance {
        Some(u) => Seq::new(
            segments.len(),
            |i: int|
                SegmentModel {
                    id: utterance_label(u),
                    text: segments[i].text,
                    kind: segments[i].kind,
                    confidence: segments[i].confidence,
                },
        ),
        None => segments,
    }
}

/// The placeholder event: one final segment without confidence, under the
/// id of its utterance or, without one, under an id made of its sequence number.
pub open spec fn fallback_event(seq: u64, utterance: Option<u64>) -> TranscriptEventModel {
    TranscriptEventModel {
        seq,
        segments: seq![
            SegmentModel {
                id: match utterance {
                    Some(u) => utterance_label(u),
                    None => fallback_label(seq),
                },
                text: fallback_text(),
                kind: SegmentKind::Final,
                confidence: None,
            },
        ],
    }
}

/// The state with one more final output.
pub open spec fn counted<S>(st: PipelineModel<S>) -> PipelineModel<S> {
    PipelineModel {
        final_output_count: sat_add(st.final_output_count, 1),
        new_speech_samples_since_final: 0,
        ..st
    }
}

/// The state after a placeholder went out with sequence number `st.transcript_seq`.
pub open spec fn with_fallback<S>(st: PipelineModel<S>) -> PipelineModel<S> {
    PipelineModel {
        transcript_seq: next_seq(st.transcript_seq),
        diagnostics: DiagnosticsSnapshot {
            segments_emitted: sat_add(st.diagnostics.segments_emitted, 1),
            fallback_emitted: sat_add(st.diagnostics.fallback_emitted, 1),
            ..st.diagnostics
        },
        ..st
    }
}

/// First part of completing an inference: segments go out as one
/// transcript event under the utterance's id; an empty answer goes nowhere;
/// a failure is counted.
pub open spec fn transcript_step<S>(
    st: PipelineModel<S>,
    ticket: FlushTicket,
    result: Result<Seq<SegmentModel>, DictumError>,
) -> (PipelineModel<S>, Seq<PipelineEventModel>) {
    match outcome_of(result) {
        FlushOutcome::Emitted => (
            PipelineModel {
                transcript_seq: next_seq(st.transcript_seq),
                diagnostics: DiagnosticsSnapshot {
                    segments_emitted: sat_add(
                        st.diagnostics.segments_emitted,
                        result->Ok_0.len(),
                    ),
                    ..st.diagnostics
                },
                ..st
            },
            seq![
                PipelineEventModel::Transcript(
                    TranscriptEventModel {
                        seq: st.transcript_seq,
                        segments: relabeled(result->Ok_0, ticket.utterance),
                    },
                ),
            ],
        ),
        FlushOutcome::Empty => (st, Seq::empty()),
        FlushOutcome::Error => (
            PipelineModel {
                diagnostics: DiagnosticsSnapshot {
                    inference_errors: sat_add(st.diagnostics.inference_errors, 1),
                    ..st.diagnostics
                },
                ..st
            },
            Seq::empty(),
        ),
    }
}

/// The status event that tells the host that transcription works again.
pub open spec fn recovered_status() -> PipelineEventModel {
    PipelineEventModel::Status(StatusEventModel { status: EngineStatus::Listening, detail: None })
}

/// The status event that goes with a placeholder.
pub open spec fn degraded_status(outcome: FlushOutcome) -> PipelineEventModel {
    PipelineEventModel::Status(
        StatusEventModel {
            status: EngineStatus::Listening,
            detail: Some(
                if outcome == FlushOutcome::Error {
                    failed_detail()
                } else {
                    degraded_detail()
                },
            ),
        },
    )
}

/// Final-result policy. Output ends a streak of empty or failed finals, and
/// the host hears of it. An empty or failed final lengthens the streak; at
/// the threshold a placeholder goes out and the streak starts again.
pub open spec fn final_policy_step<S>(
    st: PipelineModel<S>,
    ticket: FlushTicket,
    outcome: FlushOutcome,
) -> (PipelineModel<S>, Seq<PipelineEventModel>) {
    if outcome == FlushOutcome::Emitted {
        if st.empty_final_streak > 0 {
            (counted(PipelineModel { empty_final_streak: 0, ..st }), seq![recovered_status()])
        } else {
            (counted(st), Seq::empty())
        }
    } else {
        let streak = sat_add(st.empty_final_streak, 1);
        if streak >= EMPTY_FINAL_STREAK_FOR_FALLBACK {
            (
                counted(with_fallback(PipelineModel { empty_final_streak: 0, ..st })),
                seq![
                    PipelineEventModel::Transcript(
                        fallback_event(st.transcript_seq, ticket.utterance),
                    ),
                    degraded_status(outcome),
                ],
            )
        } else {
            (PipelineModel { empty_final_streak: streak, ..st }, Seq::empty())
        }
    }
}

/// What is kept of the accumulator after a forced flush: a short overlap
/// where the flush produced output, and the utterance ends; a longer tail
/// for a retry where it did not, and the utterance goes on.
pub open spec fn retention_step<S>(
    st: PipelineModel<S>,
    outcome: FlushOutcome,
    now_ms: u64,
) -> PipelineModel<S> {
    if outcome == FlushOutcome::Emitted {
        PipelineModel {
            speech: tail_of(
                st.speech,
                continuation_overlap_samples(st.config.target_sample_rate) as nat,
            ),
            active_utterance: None,
            last_partial_infer_at: Some(now_ms),
            last_partial_infer_samples: 0,
            was_speech: true,
            ..st
        }
    } else {
        let kept = tail_of(
            st.speech,
            retry_tail_samples(st.config.target_sample_rate, st.config.min_speech_samples) as nat,
        );
        PipelineModel {
            speech: kept,
            last_partial_infer_at: Some(now_ms),
            last_partial_infer_samples: kept.len() as usize,
            ..st
        }
    }
}

/// The state after the model has answered, with the events for the host in
/// the order in which they go out.
pub open spec fn after_flush<S>(
    st: PipelineModel<S>,
    ticket: FlushTicket,
    result: Result<Seq<SegmentModel>, DictumError>,
    now_ms: u64,
) -> (PipelineModel<S>, Seq<PipelineEventModel>) {
    let (st1, ev1) = transcript_step(st, ticket, result);
    if ticket.reason == FlushReason::Partial {
        (st1, ev1)
    } else {
        let outcome = outcome_of(result);
        let (st2, ev2) = final_policy_step(st1, ticket, outcome);
        let st3 = if ticket.reason == FlushReason::MaxLength {
            retention_step(st2, outcome, now_ms)
        } else {
            st2
        };
        (st3, ev1 + ev2)
    }
}

/// The accumulator holds speech that no final output covers.
pub open spec fn has_unflushed_speech<S>(st: PipelineModel<S>) -> bool {
    st.speech.len() > 0 && (st.new_speech_samples_since_final > 0 || st.final_output_count == 0)
}

/// The terminal inference that a stop calls for.
pub open spec fn stop_request<S>(st: PipelineModel<S>) -> Option<FlushRequestModel<S>> {
    if has_unflushed_speech(st) {
        Some(
            make_request(
                FlushReason::Stop,
                st.active_utterance,
                st.speech,
                st.config.target_sample_rate,
            ),
        )
    } else {
        None
    }
}

/// The state after a stop was begun: the accumulator is empty.
pub open spec fn after_stop<S>(st: PipelineModel<S>) -> PipelineModel<S> {
    let cleared = PipelineModel { speech: Seq::empty(), ..st };
    if stop_request(st) is Some {
        with_inference_call(cleared)
    } else {
        cleared
    }
}

/// The session saw level activity but produced no final output.
pub open spec fn needs_rescue<S>(st: PipelineModel<S>) -> bool {
    st.final_output_count == 0 && st.rms_active_samples >= rescue_threshold(
        st.config.min_speech_samples,
    )
}

/// The rescue inference over the most recent audio.
pub open spec fn rescue_request<S>(st: PipelineModel<S>) -> Option<FlushRequestModel<S>> {
    if needs_rescue(st) && st.recent.len() > 0 {
        Some(make_request(FlushReason::Rescue, None, st.recent, st.config.target_sample_rate))
    } else {
        None
    }
}

/// The state after the rescue was asked for.
pub open spec fn after_rescue<S>(st: PipelineModel<S>) -> PipelineModel<S> {
    if rescue_request(st) is Some {
        with_inference_call(st)
    } else {
        st
    }
}

/// The last-resort placeholder at the end of a session.
pub open spec fn finish_event<S>(st: PipelineModel<S>) -> Option<TranscriptEventModel> {
    if needs_rescue(st) {
        Some(fallback_event(st.transcript_seq, None))
    } else {
        None
    }
}

/// The state at the end of a session.
pub open spec fn after_finish<S>(st: PipelineModel<S>) -> PipelineModel<S> {
    if needs_rescue(st) {
        with_fallback(st)
    } else {
        st
    }
}


// ---------------------------------------------------------------------------
// The executable state machine
// ---------------------------------------------------------------------------

/// The segmentation state of one session.
pub struct Pipeline<S> {
    config: EngineConfig,
    speech_buf: Vec<S>,
    recent_audio_buf: Vec<S>,
    was_speech: bool,
    active_utterance: Option<u64>,
    next_utterance_id: u64,
    activity_seq: u64,
    transcript_seq: u64,
    empty_final_streak: usize,
    final_output_count: usize,
    rms_active_samples: usize,
    last_partial_infer_at: Option<u64>,
    last_partial_infer_samples: usize,
    new_speech_samples_since_final: usize,
    diagnostics: PipelineDiagnostics,
}

impl<S> View for Pipeline<S> {
    type V = PipelineModel<S>;

    closed spec fn view(&self) -> PipelineModel<S> {
        PipelineModel {
            config: self.config,
            speech: self.speech_buf@,
            recent: self.recent_audio_buf@,
            was_speech: self.was_speech,
            active_utterance: self.active_utterance,
            next_utterance_id: self.next_utterance_id,
            activity_seq: self.activity_seq,
            transcript_seq: self.transcript_seq,
            empty_final_streak: self.empty_final_streak,
            final_output_count: self.final_output_count,
            rms_active_samples: self.rms_active_samples,
            last_partial_infer_at: self.last_partial_infer_at,
            last_partial_infer_samples: self.last_partial_infer_samples,
            new_speech_samples_since_final: self.new_speech_samples_since_final,
            diagnostics: self.diagnostics@,
        }
    }
}

/// The content of a model's answer.
pub open spec fn result_model(result: Result<Vec<TranscriptSegment>, DictumError>) -> Result<
    Seq<SegmentModel>,
    DictumError,
> {
    match result {
        Ok(segments) => Ok(segment_models(segments@)),
        Err(e) => Err(e),
    }
}

/// The content of an event that may be absent.
pub open spec fn transcript_model(e: Option<TranscriptEvent>) -> Option<TranscriptEventModel> {
    match e {
        Some(ev) => Some(ev@),
        None => None,
    }
}

/// The segments under the id of their utterance.
fn relabel(segments: Vec<TranscriptSegment>, utterance: Option<u64>) -> (r: Vec<TranscriptSegment>)
    ensures
        segment_models(r@) == relabeled(segment_models(segments@), utterance),
{
    match utterance {
        None => segments,
        Some(u) => {
            let id = utterance_id(u);
            let mut out: Vec<TranscriptSegment> = Vec::new();
            let mut i: usize = 0;
            while i < segments.len()
                invariant
                    i <= segments.len(),
                    utterance == Some(u),
                    id@ == utterance_label(u),
                    out@.len() == i,
                    forall|j: int|
                        0 <= j < i ==> (#[trigger] out@[j])@ == relabeled(
                            segment_models(segments@),
                            utterance,
                        )[j],
                decreases segments.len() - i,
            {
                let seg = &segments[i];
                let relabeled_segment = TranscriptSegment {
                    id: id.clone(),
                    text: seg.text.clone(),
                    kind: seg.kind,
                    confidence: seg.confidence,
                };
                assert(segment_models(segments@)[i as int] == segments@[i as int]@);
                assert(relabeled_segment@ == relabeled(segment_models(segments@), utterance)[i as int]);
                out.push(relabeled_segment);
                i += 1;
            }
            assert(segment_models(out@) =~= relabeled(segment_models(segments@), utterance));
            out
        },
    }
}

/// The placeholder event.
fn make_fallback_event(seq: u64, utterance: Option<u64>) -> (e: TranscriptEvent)
    ensures
        e@ == fallback_event(seq, utterance),
{
    let id = match utterance {
        Some(u) => utterance_id(u),
        None => fallback_id(seq),
    };
    let mut segments: Vec<TranscriptSegment> = Vec::new();
    segments.push(
        TranscriptSegment {
            id,
            text: String::from_str("[speech captured]"),
            kind: SegmentKind::Final,
            confidence: None,
        },
    );
    let e = TranscriptEvent { seq, segments };
    assert(e@.segments =~= fallback_event(seq, utterance).segments);
    e
}

impl<S: Copy> Pipeline<S> {
    /// The state at the start of a session. Transcript events are numbered
    /// from `first_transcript_seq` on.
    pub fn new(config: EngineConfig, first_transcript_seq: u64) -> (p: Self)
        ensures
            p@ == initial_state::<S>(config, first_transcript_seq),
    {
        Pipeline {
            config,
            speech_buf: Vec::new(),
            recent_audio_buf: Vec::new(),
            was_speech: false,
            active_utterance: None,
            next_utterance_id: 0,
            activity_seq: 0,
            transcript_seq: first_transcript_seq,
            empty_final_streak: 0,
            final_output_count: 0,
            rms_active_samples: 0,
            last_partial_infer_at: None,
            last_partial_infer_samples: 0,
            new_speech_samples_since_final: 0,
            diagnostics: PipelineDiagnostics::default(),
        }
    }

    /// The counters as they stand.
    pub fn diagnostics(&self) -> (d: DiagnosticsSnapshot)
        ensures
            d == self@.diagnostics,
    {
        self.diagnostics.snapshot()
    }

    /// The sequence number that the next transcript event gets.
    pub fn transcript_seq(&self) -> (n: u64)
        ensures
            n == self@.transcript_seq,
    {
        self.transcript_seq
    }

    /// The length of the speech accumulator.
    pub fn buffered_samples(&self) -> (n: usize)
        ensures
            n == self@.speech.len(),
    {
        self.speech_buf.len()
    }

    /// The number of the utterance in progress.
    pub fn active_utterance(&self) -> (u: Option<u64>)
        ensures
            u == self@.active_utterance,
    {
        self.active_utterance
    }

    /// Counts `n` samples taken from the ring.
    pub fn note_drained(&mut self, n: usize)
        ensures
            final(self)@ == (PipelineModel {
                diagnostics: DiagnosticsSnapshot {
                    frames_in: sat_add(old(self)@.diagnostics.frames_in, n as nat),
                    ..old(self)@.diagnostics
                },
                ..old(self)@
            }),
    {
        self.diagnostics.frames_in = add_saturating(self.diagnostics.frames_in, n);
    }

    fn request(&self, reason: FlushReason, from_recent: bool) -> (r: FlushRequest<S>)
        ensures
            r@ == make_request(
                reason,
                if from_recent {
                    None
                } else {
                    self@.active_utterance
                },
                if from_recent {
                    self@.recent
                } else {
                    self@.speech
                },
                self@.config.target_sample_rate,
            ),
    {
        let samples = if from_recent {
            copy_vec(&self.recent_audio_buf)
        } else {
            copy_vec(&self.speech_buf)
        };
        FlushRequest {
            ticket: FlushTicket {
                reason,
                utterance: if from_recent {
                    None
                } else {
                    self.active_utterance
                },
            },
            partial: match reason {
                FlushReason::Partial => true,
                _ => false,
            },
            chunk: AudioChunk::new(samples, self.config.target_sample_rate),
        }
    }

    /// Takes one chunk of audio at the target rate with what was measured
    /// of it: its level `rms`, whether that level reaches the threshold, and
    /// the detector's decision. Answers with the activity event and, where
    /// the policy calls for one, the inference to run.
    pub fn on_chunk<L>(
        &mut self,
        samples: &Vec<S>,
        rms: L,
        rms_active: bool,
        decision: VadDecision,
        now_ms: u64,
    ) -> (out: ChunkOutcome<S, L>)
        ensures
            final(self)@ == after_chunk(old(self)@, samples@, rms_active, decision, now_ms),
            request_model(out.flush) == chunk_request(old(self)@, samples@, decision, now_ms),
            out.reset_detectors == chunk_resets(old(self)@, samples@, decision),
            samples@.len() == 0 ==> out.activity is None,
            samples@.len() > 0 ==> out.activity == Some(
                AudioActivityEvent {
                    seq: old(self)@.activity_seq,
                    rms,
                    is_speech: decision == VadDecision::Speech,
                },
            ),
    {
        if samples.len() == 0 {
            return ChunkOutcome { activity: None, flush: None, reset_detectors: false };
        }
        let n = samples.len();
        append_rolling_samples(&mut self.recent_audio_buf, samples, self.config.max_speech_samples);
        if rms_active {
            self.rms_active_samples = add_saturating(self.rms_active_samples, n);
        }
        let is_speech = decision.is_speech();
        let activity = AudioActivityEvent { seq: self.activity_seq, rms, is_speech };
        self.activity_seq = seq_after(self.activity_seq);
        self.diagnostics.frames_resampled = add_saturating(self.diagnostics.frames_resampled, n);
        self.diagnostics.vad_windows = add_saturating(self.diagnostics.vad_windows, 1);
        if is_speech {
            self.diagnostics.vad_speech = add_saturating(self.diagnostics.vad_speech, 1);
        }
        let mut flush: Option<FlushRequest<S>> = None;
        let mut reset_detectors = false;
        match decision {
            VadDecision::Speech => {
                self.was_speech = true;
                extend_from(&mut self.speech_buf, samples, 0);
                assert(samples@.subrange(0, samples@.len() as int) == samples@);
                self.new_speech_samples_since_final = add_saturating(
                    self.new_speech_samples_since_final,
                    n,
                );
                if self.active_utterance.is_none() {
                    self.active_utterance = Some(self.next_utterance_id);
                    self.next_utterance_id = seq_after(self.next_utterance_id);
                    self.last_partial_infer_at = None;
                    self.last_partial_infer_samples = 0;
                }
                let len = self.speech_buf.len();
                if len >= self.config.max_speech_samples {
                    flush = Some(self.request(FlushReason::MaxLength, false));
                } else if self.config.enable_partial_inference && len
                    >= self.config.min_speech_samples && time_is_enough(
                    self.last_partial_infer_at,
                    now_ms,
                ) {
                    let new_samples: usize = if len >= self.last_partial_infer_samples {
                        len - self.last_partial_infer_samples
                    } else {
                        0
                    };
                    if new_samples >= delta_threshold(self.config.min_speech_samples) {
                        flush = Some(self.request(FlushReason::Partial, false));
                        self.last_partial_infer_at = Some(now_ms);
                        self.last_partial_infer_samples = len;
                    }
                }
            },
            VadDecision::Silence => {
                if self.was_speech {
                    if self.speech_buf.len() >= self.config.min_speech_samples {
                        flush = Some(self.request(FlushReason::Silence, false));
                    }
                    self.speech_buf.clear();
                    self.active_utterance = None;
                    self.last_partial_infer_at = None;
                    self.last_partial_infer_samples = 0;
                    self.new_speech_samples_since_final = 0;
                    self.was_speech = false;
                    reset_detectors = true;
                }
            },
        }
        if flush.is_some() {
            self.diagnostics.inference_calls = add_saturating(self.diagnostics.inference_calls, 1);
        }
        ChunkOutcome { activity: Some(activity), flush, reset_detectors }
    }

    /// Takes the model's answer to the request that `ticket` came with and
    /// answers with the events for the host, in the order in which they are
    /// to go out.
    pub fn complete_flush(
        &mut self,
        ticket: FlushTicket,
        result: Result<Vec<TranscriptSegment>, DictumError>,
        now_ms: u64,
    ) -> (events: Vec<PipelineEvent>)
        ensures
            final(self)@ == after_flush(old(self)@, ticket, result_model(result), now_ms).0,
            event_models(events@) == after_flush(
                old(self)@,
                ticket,
                result_model(result),
                now_ms,
            ).1,
    {
        let ghost st0 = self@;
        let ghost model = result_model(result);
        let mut events: Vec<PipelineEvent> = Vec::new();
        let outcome = match result {
            Ok(segments) => {
                if segments.len() > 0 {
                    self.diagnostics.segments_emitted = add_saturating(
                        self.diagnostics.segments_emitted,
                        segments.len(),
                    );
                    let relabeled_segments = relabel(segments, ticket.utterance);
                    let event = TranscriptEvent {
                        seq: self.transcript_seq,
                        segments: relabeled_segments,
                    };
                    self.transcript_seq = seq_after(self.transcript_seq);
                    events.push(PipelineEvent::Transcript(event));
                    FlushOutcome::Emitted
                } else {
                    FlushOutcome::Empty
                }
            },
            Err(_) => {
                self.diagnostics.inference_errors = add_saturating(
                    self.diagnostics.inference_errors,
                    1,
                );
                FlushOutcome::Error
            },
        };
        assert(outcome == outcome_of(model));
        assert(self@ == transcript_step(st0, ticket, model).0);
        assert(event_models(events@) =~= transcript_step(st0, ticket, model).1);
        let is_partial = match ticket.reason {
            FlushReason::Partial => true,
            _ => false,
        };
        if is_partial {
            return events;
        }
        let ghost st1 = self@;
        let ghost ev1 = event_models(events@);
        match outcome {
            FlushOutcome::Emitted => {
                if self.empty_final_streak > 0 {
                    self.empty_final_streak = 0;
                    events.push(
                        PipelineEvent::Status(
                            EngineStatusEvent { status: EngineStatus::Listening, detail: None },
                        ),
                    );
                }
                self.final_output_count = add_saturating(self.final_output_count, 1);
                self.new_speech_samples_since_final = 0;
            },
            _ => {
                let streak = add_saturating(self.empty_final_streak, 1);
                if streak >= EMPTY_FINAL_STREAK_FOR_FALLBACK {
                    self.empty_final_streak = 0;
                    let event = make_fallback_event(self.transcript_seq, ticket.utterance);
                    self.transcript_seq = seq_after(self.transcript_seq);
                    self.diagnostics.segments_emitted = add_saturating(
                        self.diagnostics.segments_emitted,
                        1,
                    );
                    self.diagnostics.fallback_emitted = add_saturating(
                        self.diagnostics.fallback_emitted,
                        1,
                    );
                    events.push(PipelineEvent::Transcript(event));
                    let detail = match outcome {
                        FlushOutcome::Error => String::from_str(
                            "Transcription error: inference failed during finalization.",
                        ),
                        _ => String::from_str(
                            "Transcription degraded: speech detected but model returned empty output; using fallback.",
                        ),
                    };
                    events.push(
                        PipelineEvent::Status(
                            EngineStatusEvent {
                                status: EngineStatus::Listening,
                                detail: Some(detail),
                            },
                        ),
                    );
                    self.final_output_count = add_saturating(self.final_output_count, 1);
                    self.new_speech_samples_since_final = 0;
                } else {
                    self.empty_final_streak = streak;
                }
            },
        }
        assert(self@ == final_policy_step(st1, ticket, outcome).0);
        assert(event_models(events@) =~= ev1 + final_policy_step(st1, ticket, outcome).1);
        let is_forced = match ticket.reason {
            FlushReason::MaxLength => true,
            _ => false,
        };
        if is_forced {
            match outcome {
                FlushOutcome::Emitted => {
                    let keep = continuation_overlap(self.config.target_sample_rate);
                    retain_tail_samples(&mut self.speech_buf, keep);
                    self.active_utterance = None;
                    self.last_partial_infer_at = Some(now_ms);
                    self.last_partial_infer_samples = 0;
                    self.was_speech = true;
                },
                _ => {
                    let keep = retry_tail(
                        self.config.target_sample_rate,
                        self.config.min_speech_samples,
                    );
                    retain_tail_samples(&mut self.speech_buf, keep);
                    self.last_partial_infer_at = Some(now_ms);
                    self.last_partial_infer_samples = self.speech_buf.len();
                },
            }
        }
        events
    }

    /// Begins the end of a session. Speech that no final output covers is
    /// flushed once more; the accumulator is emptied either way.
    pub fn begin_stop(&mut self) -> (out: StopOutcome<S>)
        ensures
            final(self)@ == after_stop(old(self)@),
            request_model(out.flush) == stop_request(old(self)@),
            out.reset_detectors == (old(self)@.speech.len() > 0),
    {
        let mut flush: Option<FlushRequest<S>> = None;
        let mut reset_detectors = false;
        if self.speech_buf.len() > 0 {
            if self.new_speech_samples_since_final > 0 || self.final_output_count == 0 {
                flush = Some(self.request(FlushReason::Stop, false));
                self.diagnostics.inference_calls = add_saturating(
                    self.diagnostics.inference_calls,
                    1,
                );
            }
            self.speech_buf.clear();
            reset_detectors = true;
        }
        assert(self@.speech =~= Seq::<S>::empty());
        StopOutcome { flush, reset_detectors }
    }

    /// After the terminal flush: the rescue inference over the most recent
    /// audio, where the session saw level activity but no final output.
    pub fn begin_rescue(&mut self) -> (flush: Option<FlushRequest<S>>)
        ensures
            final(self)@ == after_rescue(old(self)@),
            request_model(flush) == rescue_request(old(self)@),
    {
        let threshold = self.config.min_speech_samples / STOP_FALLBACK_RMS_ACTIVITY_FACTOR;
        if self.final_output_count == 0 && self.rms_active_samples >= threshold
            && self.recent_audio_buf.len() > 0 {
            let r = self.request(FlushReason::Rescue, true);
            self.diagnostics.inference_calls = add_saturating(self.diagnostics.inference_calls, 1);
            Some(r)
        } else {
            None
        }
    }

    /// After the rescue: the placeholder of last resort, where there is
    /// still no final output for the activity that was seen.
    pub fn finish(&mut self) -> (event: Option<TranscriptEvent>)
        ensures
            final(self)@ == after_finish(old(self)@),
            transcript_model(event) == finish_event(old(self)@),
    {
        let threshold = self.config.min_speech_samples / STOP_FALLBACK_RMS_ACTIVITY_FACTOR;
        if self.final_output_count == 0 && self.rms_active_samples >= threshold {
            let event = make_fallback_event(self.transcript_seq, None);
            self.transcript_seq = seq_after(self.transcript_seq);
            self.diagnostics.segments_emitted = add_saturating(
                self.diagnostics.segments_emitted,
                1,
            );
            self.diagnostics.fallback_emitted = add_saturating(
                self.diagnostics.fallback_emitted,
                1,
            );
            Some(event)
        } else {
            None
        }
    }
}


// ---------------------------------------------------------------------------
// Laws of the state machine
// ---------------------------------------------------------------------------

/// The event is a transcript event.
pub open spec fn is_transcript(e: PipelineEventModel) -> bool {
    e is Transcript
}

/// Forced flush. A speech chunk that brings the accumulator to
/// `max_speech_samples` or past it calls for a final inference over the
/// whole accumulator at once, without waiting for silence.
pub proof fn lemma_max_length_forces_flush<S>(
    st: PipelineModel<S>,
    samples: Seq<S>,
    now_ms: u64,
)
    requires
        samples.len() > 0,
        st.speech.len() + samples.len() >= st.config.max_speech_samples,
    ensures
        chunk_request(st, samples, VadDecision::Speech, now_ms) matches Some(r) && {
            &&& r.ticket.reason == FlushReason::MaxLength
            &&& !r.partial
            &&& r.samples == st.speech + samples
            &&& r.ticket.utterance is Some
        },
{
}

/// Silence after speech. Once speech has accumulated to at least
/// `min_speech_samples`, the next chunk of silence calls for exactly one
/// inference, a final one, over the whole accumulator and under the number
/// of the utterance in progress; it empties the accumulator and asks for
/// the detector and the model to be reset.
pub proof fn lemma_silence_ends_utterance<S>(
    st: PipelineModel<S>,
    samples: Seq<S>,
    rms_active: bool,
    now_ms: u64,
)
    requires
        samples.len() > 0,
        st.was_speech,
        st.speech.len() >= st.config.min_speech_samples,
    ensures
        chunk_request(st, samples, VadDecision::Silence, now_ms) matches Some(r) && {
            &&& r.ticket.reason == FlushReason::Silence
            &&& !r.partial
            &&& r.samples == st.speech
            &&& r.ticket.utterance == st.active_utterance
        },
        chunk_resets(st, samples, VadDecision::Silence),
        after_chunk(st, samples, rms_active, VadDecision::Silence, now_ms).speech.len() == 0,
        after_chunk(st, samples, rms_active, VadDecision::Silence, now_ms).active_utterance is None,
        chunk_request(
            after_chunk(st, samples, rms_active, VadDecision::Silence, now_ms),
            samples,
            VadDecision::Silence,
            now_ms,
        ) is None,
{
}

/// Partial, then final, one utterance. Where a speech chunk brings a
/// partial inference, whatever the model answers to it, a following chunk
/// of silence brings a final inference under the same utterance number and
/// over the same audio. Where the model answers that one with segments,
/// exactly one transcript event goes out: it comes first, and each of its
/// segments carries the id of that utterance.
pub proof fn lemma_final_shares_partial_id<S>(
    st: PipelineModel<S>,
    speech: Seq<S>,
    silence: Seq<S>,
    rms_active: bool,
    t_speech: u64,
    partial_answer: Result<Seq<SegmentModel>, DictumError>,
    t_partial: u64,
    t_silence: u64,
    final_segments: Seq<SegmentModel>,
    t_final: u64,
)
    requires
        speech.len() > 0,
        silence.len() > 0,
        final_segments.len() > 0,
        chunk_request(st, speech, VadDecision::Speech, t_speech) matches Some(p)
            && p.ticket.reason == FlushReason::Partial,
    ensures
        ({
            let p = chunk_request(st, speech, VadDecision::Speech, t_speech)->Some_0;
            let st1 = after_chunk(st, speech, rms_active, VadDecision::Speech, t_speech);
            let st2 = after_flush(st1, p.ticket, partial_answer, t_partial).0;
            let f = chunk_request(st2, silence, VadDecision::Silence, t_silence);
            let st3 = after_chunk(st2, silence, rms_active, VadDecision::Silence, t_silence);
            let events = after_flush(st3, f->Some_0.ticket, Ok(final_segments), t_final).1;
            &&& p.partial
            &&& p.ticket.utterance is Some
            &&& f matches Some(r) && {
                &&& r.ticket.reason == FlushReason::Silence
                &&& !r.partial
                &&& r.ticket.utterance == p.ticket.utterance
                &&& r.samples == p.samples
            }
            &&& events.len() >= 1
            &&& events[0] matches PipelineEventModel::Transcript(e) && {
                &&& e.segments.len() == final_segments.len()
                &&& forall|i: int|
                    0 <= i < e.segments.len() ==> (#[trigger] e.segments[i]).id == utterance_label(
                        p.ticket.utterance->Some_0,
                    )
            }
            &&& forall|i: int| 1 <= i < events.len() ==> !is_transcript(#[trigger] events[i])
        }),
{
    let p = chunk_request(st, speech, VadDecision::Speech, t_speech)->Some_0;
    let st1 = after_chunk(st, speech, rms_active, VadDecision::Speech, t_speech);
    let st2 = after_flush(st1, p.ticket, partial_answer, t_partial).0;
    assert(st2.speech == st1.speech);
    assert(st2.active_utterance == st1.active_utterance);
    assert(st2.was_speech);
}

/// Stop. A stop with speech in the accumulator that no final output covers
/// calls for exactly one terminal final inference over it: the accumulator
/// is empty afterwards, so that a second stop asks for nothing; and where
/// the model answers with segments, no rescue and no placeholder follow.
pub proof fn lemma_stop_flushes_once<S>(
    st: PipelineModel<S>,
    segments: Seq<SegmentModel>,
    now_ms: u64,
)
    requires
        has_unflushed_speech(st),
        segments.len() > 0,
    ensures
        stop_request(st) matches Some(r) && {
            &&& r.ticket.reason == FlushReason::Stop
            &&& !r.partial
            &&& r.samples == st.speech
            &&& r.ticket.utterance == st.active_utterance
        },
        after_stop(st).speech.len() == 0,
        stop_request(after_stop(st)) is None,
        ({
            let done = after_flush(
                after_stop(st),
                stop_request(st)->Some_0.ticket,
                Ok(segments),
                now_ms,
            );
            &&& done.1.len() >= 1
            &&& is_transcript(done.1[0])
            &&& forall|i: int| 1 <= i < done.1.len() ==> !is_transcript(#[trigger] done.1[i])
            &&& rescue_request(done.0) is None
            &&& finish_event(done.0) is None
        }),
{
}

/// A stop with nothing left to flush asks for no inference.
pub proof fn lemma_stop_without_speech_is_quiet<S>(st: PipelineModel<S>)
    requires
        !has_unflushed_speech(st),
    ensures
        stop_request(st) is None,
{
}

/// The host is not starved. Two final inferences in a row that come back
/// empty or failed bring a placeholder: one final segment with the
/// placeholder text, under the utterance's id.
pub proof fn lemma_second_empty_final_brings_placeholder<S>(
    st: PipelineModel<S>,
    ticket: FlushTicket,
    first: Result<Seq<SegmentModel>, DictumError>,
    second: Result<Seq<SegmentModel>, DictumError>,
    t1: u64,
    t2: u64,
)
    requires
        ticket.reason != FlushReason::Partial,
        st.empty_final_streak == 0,
        outcome_of(first) != FlushOutcome::Emitted,
        outcome_of(second) != FlushOutcome::Emitted,
    ensures
        after_flush(st, ticket, first, t1).1.len() == 0,
        ({
            let st1 = after_flush(st, ticket, first, t1).0;
            let done = after_flush(st1, ticket, second, t2);
            &&& done.1.len() == 2
            &&& done.1[0] == PipelineEventModel::Transcript(
                fallback_event(st1.transcript_seq, ticket.utterance),
            )
            &&& done.1[1] == degraded_status(outcome_of(second))
            &&& done.0.empty_final_streak == 0
            &&& done.0.final_output_count >= 1 || st.final_output_count == usize::MAX
        }),
{
}

/// Counters and sequence numbers never go down, whatever happens.
pub proof fn lemma_counters_only_grow<S>(
    st: PipelineModel<S>,
    samples: Seq<S>,
    rms_active: bool,
    decision: VadDecision,
    ticket: FlushTicket,
    result: Result<Seq<SegmentModel>, DictumError>,
    now_ms: u64,
)
    ensures
        diagnostics_le(
            st.diagnostics,
            after_chunk(st, samples, rms_active, decision, now_ms).diagnostics,
        ),
        diagnostics_le(st.diagnostics, after_flush(st, ticket, result, now_ms).0.diagnostics),
        diagnostics_le(st.diagnostics, after_stop(st).diagnostics),
        diagnostics_le(st.diagnostics, after_rescue(st).diagnostics),
        diagnostics_le(st.diagnostics, after_finish(st).diagnostics),
        st.activity_seq <= after_chunk(st, samples, rms_active, decision, now_ms).activity_seq,
        st.transcript_seq <= after_chunk(st, samples, rms_active, decision, now_ms).transcript_seq,
        st.transcript_seq <= after_flush(st, ticket, result, now_ms).0.transcript_seq,
        st.transcript_seq <= after_finish(st).transcript_seq,
{
}

/// Each transcript event of one answer carries a sequence number of its
/// own: the first the number that was next, a second one the number after it.
pub proof fn lemma_transcript_events_are_numbered<S>(
    st: PipelineModel<S>,
    ticket: FlushTicket,
    result: Result<Seq<SegmentModel>, DictumError>,
    now_ms: u64,
)
    ensures
        ({
            let events = after_flush(st, ticket, result, now_ms).1;
            &&& forall|i: int|
                0 <= i < events.len() ==> ((#[trigger] events[i]) matches PipelineEventModel::Transcript(
                    e,
                ) ==> e.seq == st.transcript_seq)
            &&& events.len() <= 2
        }),
{
}

/// The window of recent audio stays within `max_speech_samples`.
pub proof fn lemma_recent_window_bounded<S>(
    st: PipelineModel<S>,
    samples: Seq<S>,
    rms_active: bool,
    decision: VadDecision,
    now_ms: u64,
)
    requires
        st.recent.len() <= st.config.max_speech_samples,
    ensures
        after_chunk(st, samples, rms_active, decision, now_ms).recent.len()
            <= st.config.max_speech_samples,
{
}

} // verus!
