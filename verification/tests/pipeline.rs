use dictum_core::engine::pipeline::{
    FlushReason, FlushRequest, FlushTicket, Pipeline, PipelineDiagnostics, PipelineEvent,
};
use dictum_core::engine::EngineConfig;
use dictum_core::error::DictumError;
use dictum_core::inference::stub::StubModel;
use dictum_core::ipc::events::{EngineStatus, SegmentKind, TranscriptEvent, TranscriptSegment};
use dictum_core::vad::VadDecision;

const FALLBACK_TEXT: &str = "[speech captured]";

struct TestModel {
    calls: Vec<bool>,
    resets: usize,
    empty_partial: bool,
    empty_final: bool,
    fail_final: bool,
}

impl TestModel {
    fn new(empty_partial: bool, empty_final: bool, fail_final: bool) -> Self {
        TestModel { calls: Vec::new(), resets: 0, empty_partial, empty_final, fail_final }
    }

    fn transcribe(&mut self, partial: bool) -> Result<Vec<TranscriptSegment>, DictumError> {
        self.calls.push(partial);
        if partial && self.empty_partial {
            return Ok(vec![]);
        }
        if !partial && self.empty_final {
            return Ok(vec![]);
        }
        if !partial && self.fail_final {
            return Err(DictumError::Inference("intentional test failure".into()));
        }
        let kind = if partial { SegmentKind::Partial } else { SegmentKind::Final };
        Ok(vec![TranscriptSegment {
            id: "test-utterance".into(),
            text: if partial { "partial".into() } else { "final".into() },
            kind,
            confidence: None,
        }])
    }
}

/// What a session leaves behind.
struct Session {
    transcripts: Vec<TranscriptEvent>,
    statuses: Vec<(EngineStatus, Option<String>)>,
    vad_resets: usize,
    model: TestModel,
    pipeline: Pipeline<f32>,
}

fn rms(samples: &[f32]) -> f32 {
    if samples.is_empty() {
        return 0.0;
    }
    let sum_sq = samples.iter().map(|s| s * s).sum::<f32>();
    (sum_sq / samples.len() as f32).sqrt()
}

fn take(events: Vec<PipelineEvent>, session: &mut Session) {
    for e in events {
        match e {
            PipelineEvent::Transcript(t) => session.transcripts.push(t),
            PipelineEvent::Status(s) => session.statuses.push((s.status, s.detail)),
        }
    }
}

fn flush(session: &mut Session, request: FlushRequest<f32>, now_ms: u64) {
    let result = session.model.transcribe(request.partial);
    let events = session.pipeline.complete_flush(request.ticket, result, now_ms);
    take(events, session);
}

/// Runs a session as the worker does: every chunk with its scripted
/// decision, then the stop.
fn run_session(config: EngineConfig, vad_threshold: f32, chunks: Vec<(Vec<f32>, VadDecision)>, model: TestModel) -> Session {
    let mut session = Session {
        transcripts: Vec::new(),
        statuses: Vec::new(),
        vad_resets: 0,
        model,
        pipeline: Pipeline::new(config, 0),
    };
    let mut now_ms = 0u64;
    for (samples, decision) in chunks {
        now_ms += 20;
        session.pipeline.note_drained(samples.len());
        let level = rms(&samples);
        let out = session.pipeline.on_chunk(&samples, level, level >= vad_threshold, decision, now_ms);
        if let Some(request) = out.flush {
            flush(&mut session, request, now_ms);
        }
        if out.reset_detectors {
            session.vad_resets += 1;
            session.model.resets += 1;
        }
    }
    let stop = session.pipeline.begin_stop();
    if let Some(request) = stop.flush {
        flush(&mut session, request, now_ms);
    }
    if stop.reset_detectors {
        session.vad_resets += 1;
        session.model.resets += 1;
    }
    if let Some(request) = session.pipeline.begin_rescue() {
        flush(&mut session, request, now_ms);
    }
    if let Some(event) = session.pipeline.finish() {
        session.transcripts.push(event);
    }
    session
}

fn base_config() -> EngineConfig {
    let mut cfg = EngineConfig::default();
    cfg.target_sample_rate = 16_000;
    cfg.min_speech_samples = 960;
    cfg.max_speech_samples = 8_000;
    cfg
}

#[test]
fn flush_inference_emits_events_and_increments_seq() {
    let mut pipeline: Pipeline<f32> = Pipeline::new(base_config(), 0);
    let mut model = TestModel::new(false, false, false);

    let partial = FlushTicket { reason: FlushReason::Partial, utterance: Some(0) };
    let events = pipeline.complete_flush(partial, model.transcribe(true), 0);
    let first = match events.into_iter().next().unwrap() {
        PipelineEvent::Transcript(t) => t,
        _ => panic!("expected a transcript"),
    };
    let last = FlushTicket { reason: FlushReason::Silence, utterance: Some(0) };
    let events = pipeline.complete_flush(last, model.transcribe(false), 0);
    let second = match events.into_iter().next().unwrap() {
        PipelineEvent::Transcript(t) => t,
        _ => panic!("expected a transcript"),
    };

    assert_eq!(first.seq, 0);
    assert_eq!(first.segments[0].kind, SegmentKind::Partial);
    assert_eq!(first.segments[0].id, "utt-0");
    assert_eq!(second.seq, 1);
    assert_eq!(second.segments[0].kind, SegmentKind::Final);
    assert_eq!(second.segments[0].id, "utt-0");
    assert_eq!(pipeline.transcript_seq(), 2);
}

#[test]
fn flush_inference_skips_empty_and_error_results() {
    let mut pipeline: Pipeline<f32> = Pipeline::new(base_config(), 0);
    let mut model = TestModel::new(true, false, true);

    let partial = FlushTicket { reason: FlushReason::Partial, utterance: Some(0) };
    let first = pipeline.complete_flush(partial, model.transcribe(true), 0);
    let last = FlushTicket { reason: FlushReason::Silence, utterance: Some(0) };
    let second = pipeline.complete_flush(last, model.transcribe(false), 0);

    assert!(first.is_empty());
    assert!(second.is_empty());
    assert_eq!(pipeline.transcript_seq(), 0);
    assert_eq!(pipeline.diagnostics().inference_errors, 1);
}

#[test]
fn run_emits_partial_then_final_on_speech_then_silence() {
    let session = run_session(
        base_config(),
        0.01,
        vec![(vec![0.2; 960], VadDecision::Speech), (vec![0.0; 960], VadDecision::Silence)],
        TestModel::new(false, false, false),
    );
    let first = &session.transcripts[0];
    let second = &session.transcripts[1];

    assert_eq!(first.segments[0].kind, SegmentKind::Partial);
    assert_eq!(second.segments[0].kind, SegmentKind::Final);
    assert_eq!(first.segments[0].id, second.segments[0].id);
    assert_eq!(&session.model.calls, &vec![true, false]);
    assert_eq!(session.vad_resets, 1);
    assert_eq!(session.model.resets, 1);
    assert_eq!(session.transcripts.len(), 2);
}

#[test]
fn run_forces_final_flush_when_max_speech_samples_reached() {
    let mut cfg = base_config();
    cfg.min_speech_samples = 4_000;
    cfg.max_speech_samples = 960;
    let session =
        run_session(cfg, 0.01, vec![(vec![0.3; 960], VadDecision::Speech)], TestModel::new(false, false, false));
    let event = &session.transcripts[0];

    assert_eq!(event.segments[0].kind, SegmentKind::Final);
    assert_eq!(event.segments[0].id, "utt-0");
    assert_eq!(&session.model.calls, &vec![false]);
    assert_eq!(session.vad_resets, 1);
    assert_eq!(session.model.resets, 1);
}

#[test]
fn run_forces_final_flush_on_stop_with_buffered_speech() {
    let mut cfg = base_config();
    cfg.min_speech_samples = 960;
    cfg.max_speech_samples = 8_000;
    let session =
        run_session(cfg, 0.01, vec![(vec![0.3; 960], VadDecision::Speech)], TestModel::new(false, false, false));
    let first = &session.transcripts[0];
    let second = &session.transcripts[1];

    assert_eq!(first.segments[0].kind, SegmentKind::Partial);
    assert_eq!(second.segments[0].kind, SegmentKind::Final);
    assert_eq!(first.segments[0].id, second.segments[0].id);
    assert_eq!(&session.model.calls, &vec![true, false]);
    assert_eq!(session.vad_resets, 1);
    assert_eq!(session.model.resets, 1);
    assert_eq!(session.transcripts.len(), 2);
}

#[test]
fn run_emits_fallback_segment_when_final_is_empty() {
    let mut cfg = base_config();
    cfg.min_speech_samples = 960;
    cfg.max_speech_samples = 8_000;
    let session =
        run_session(cfg, 0.01, vec![(vec![0.3; 960], VadDecision::Speech)], TestModel::new(false, true, false));
    let first = &session.transcripts[0];
    let second = &session.transcripts[1];

    assert_eq!(first.segments[0].kind, SegmentKind::Partial);
    assert_eq!(second.segments[0].kind, SegmentKind::Final);
    assert_eq!(second.segments[0].text, FALLBACK_TEXT);
    assert_eq!(session.vad_resets, 1);
    assert_eq!(session.model.resets, 1);
}

#[test]
fn run_rescues_final_inference_when_only_rms_activity_seen_without_vad_speech() {
    let mut cfg = base_config();
    cfg.vad_threshold_millionths = 10_000;
    cfg.min_speech_samples = 960;
    cfg.max_speech_samples = 8_000;
    let session =
        run_session(cfg, 0.01, vec![(vec![0.02; 960], VadDecision::Silence)], TestModel::new(false, false, false));
    let event = &session.transcripts[0];

    assert_eq!(event.segments[0].kind, SegmentKind::Final);
    assert_eq!(event.segments[0].text, "final");
    assert_eq!(&session.model.calls, &vec![false]);
    assert_eq!(session.vad_resets, 0);
    assert_eq!(session.model.resets, 0);
}

#[test]
fn first_transcript_comes_with_the_first_speech_chunk() {
    let mut cfg = EngineConfig::default();
    cfg.target_sample_rate = 16_000;
    cfg.min_speech_samples = 960;
    cfg.max_speech_samples = 16_000;
    let mut pipeline: Pipeline<f32> = Pipeline::new(cfg, 0);
    let out = pipeline.on_chunk(&vec![0.2; 960], 0.2f32, true, VadDecision::Speech, 5);
    let request = out.flush.expect("a partial inference is due at once");
    assert!(request.partial);
    assert_eq!(request.ticket.reason, FlushReason::Partial);
    assert_eq!(request.chunk.samples.len(), 960);
    assert_eq!(request.chunk.sample_rate, 16_000);
}

#[test]
fn end_to_end_partial_then_final_share_the_utterance_id() {
    let mut cfg = EngineConfig::default();
    cfg.target_sample_rate = 16_000;
    cfg.min_speech_samples = 960;
    cfg.max_speech_samples = 8_000;
    let mut pipeline: Pipeline<f32> = Pipeline::new(cfg, 0);
    let mut stub = StubModel::new();

    let out = pipeline.on_chunk(&vec![0.2; 960], 0.2f32, true, VadDecision::Speech, 20);
    let activity = out.activity.unwrap();
    assert_eq!(activity.seq, 0);
    assert!(activity.is_speech);
    assert_eq!(activity.rms, 0.2);
    let request = out.flush.unwrap();
    assert!(request.partial);
    let answer = stub.transcribe(&request.chunk, request.partial);
    let events = pipeline.complete_flush(request.ticket, answer, 21);
    assert_eq!(events.len(), 1);
    let partial = match &events[0] {
        PipelineEvent::Transcript(t) => t.clone(),
        _ => panic!(),
    };
    assert_eq!(partial.segments[0].kind, SegmentKind::Partial);
    assert_eq!(partial.segments[0].text, "\u{2026}");

    let out = pipeline.on_chunk(&vec![0.0; 960], 0.0f32, false, VadDecision::Silence, 40);
    assert!(out.reset_detectors);
    assert_eq!(out.activity.unwrap().seq, 1);
    let request = out.flush.unwrap();
    assert!(!request.partial);
    assert_eq!(request.ticket.reason, FlushReason::Silence);
    let answer = stub.transcribe(&request.chunk, request.partial);
    let events = pipeline.complete_flush(request.ticket, answer, 41);
    assert_eq!(events.len(), 1);
    let last = match &events[0] {
        PipelineEvent::Transcript(t) => t.clone(),
        _ => panic!(),
    };
    assert_eq!(last.segments[0].kind, SegmentKind::Final);
    assert_eq!(last.segments[0].text, "[stub: 960 samples @ 16000 Hz]");
    assert_eq!(last.segments[0].confidence, Some(100));
    assert_eq!(partial.segments[0].id, last.segments[0].id);
    assert_eq!(last.segments[0].id, "utt-0");
    assert_eq!(partial.seq, 0);
    assert_eq!(last.seq, 1);
    assert_eq!(pipeline.buffered_samples(), 0);
    assert_eq!(pipeline.active_utterance(), None);

    let stop = pipeline.begin_stop();
    assert!(stop.flush.is_none());
    assert!(!stop.reset_detectors);
    assert!(pipeline.begin_rescue().is_none());
    assert!(pipeline.finish().is_none());
}

#[test]
fn forced_flush_keeps_an_overlap_and_ends_the_utterance() {
    let mut cfg = base_config();
    cfg.target_sample_rate = 1_000;
    cfg.min_speech_samples = 10;
    cfg.max_speech_samples = 2_000;
    cfg.enable_partial_inference = false;
    let mut pipeline: Pipeline<u32> = Pipeline::new(cfg, 7);
    let samples: Vec<u32> = (0..2_500).collect();
    let out = pipeline.on_chunk(&samples, (), true, VadDecision::Speech, 0);
    let request = out.flush.unwrap();
    assert_eq!(request.ticket.reason, FlushReason::MaxLength);
    assert_eq!(request.ticket.utterance, Some(0));
    assert_eq!(request.chunk.samples, samples);
    let answer = Ok(vec![TranscriptSegment {
        id: "x".into(),
        text: "hello".into(),
        kind: SegmentKind::Final,
        confidence: Some(60),
    }]);
    let events = pipeline.complete_flush(request.ticket, answer, 50);
    assert_eq!(events.len(), 1);
    match &events[0] {
        PipelineEvent::Transcript(t) => {
            assert_eq!(t.seq, 7);
            assert_eq!(t.segments[0].id, "utt-0");
            assert_eq!(t.segments[0].confidence, Some(60));
        }
        _ => panic!(),
    }
    // 1.6 s at 1 kHz stay as overlap.
    assert_eq!(pipeline.buffered_samples(), 1_600);
    assert_eq!(pipeline.active_utterance(), None);
    // The next speech chunk begins a new utterance over the overlap.
    let out = pipeline.on_chunk(&vec![1u32; 10], (), true, VadDecision::Speech, 60);
    assert!(out.flush.is_none());
    assert_eq!(pipeline.active_utterance(), Some(1));
    assert_eq!(pipeline.buffered_samples(), 1_610);
}

#[test]
fn forced_flush_without_output_keeps_a_retry_tail() {
    let mut cfg = base_config();
    cfg.target_sample_rate = 100;
    cfg.min_speech_samples = 10;
    cfg.max_speech_samples = 2_000;
    cfg.enable_partial_inference = false;
    let mut pipeline: Pipeline<u8> = Pipeline::new(cfg, 0);
    let out = pipeline.on_chunk(&vec![0u8; 2_000], (), true, VadDecision::Speech, 0);
    let request = out.flush.unwrap();
    let events = pipeline.complete_flush(request.ticket, Ok(vec![]), 1);
    assert!(events.is_empty());
    // 12 s at 100 Hz stay for the retry, and the utterance goes on.
    assert_eq!(pipeline.buffered_samples(), 1_200);
    assert_eq!(pipeline.active_utterance(), Some(0));
}

#[test]
fn second_failed_final_brings_placeholder_and_status() {
    let mut pipeline: Pipeline<f32> = Pipeline::new(base_config(), 0);
    let ticket = FlushTicket { reason: FlushReason::Silence, utterance: Some(3) };
    let first = pipeline.complete_flush(ticket, Err(DictumError::Inference("a".into())), 0);
    assert!(first.is_empty());
    let second = pipeline.complete_flush(ticket, Err(DictumError::Inference("b".into())), 0);
    assert_eq!(second.len(), 2);
    match &second[0] {
        PipelineEvent::Transcript(t) => {
            assert_eq!(t.seq, 0);
            assert_eq!(t.segments.len(), 1);
            assert_eq!(t.segments[0].id, "utt-3");
            assert_eq!(t.segments[0].text, FALLBACK_TEXT);
            assert_eq!(t.segments[0].kind, SegmentKind::Final);
            assert_eq!(t.segments[0].confidence, None);
        }
        _ => panic!(),
    }
    match &second[1] {
        PipelineEvent::Status(s) => {
            assert_eq!(s.status, EngineStatus::Listening);
            assert_eq!(
                s.detail.as_deref(),
                Some("Transcription error: inference failed during finalization.")
            );
        }
        _ => panic!(),
    }
    let d = pipeline.diagnostics();
    assert_eq!(d.inference_errors, 2);
    assert_eq!(d.fallback_emitted, 1);
    assert_eq!(d.segments_emitted, 1);
    // The streak begins again: the next empty final alone brings nothing.
    let third = pipeline.complete_flush(ticket, Ok(vec![]), 0);
    assert!(third.is_empty());
    let fourth = pipeline.complete_flush(ticket, Ok(vec![]), 0);
    assert_eq!(fourth.len(), 2);
    match &fourth[1] {
        PipelineEvent::Status(s) => assert_eq!(
            s.detail.as_deref(),
            Some("Transcription degraded: speech detected but model returned empty output; using fallback.")
        ),
        _ => panic!(),
    }
}

#[test]
fn output_after_an_empty_final_tells_the_host() {
    let mut pipeline: Pipeline<f32> = Pipeline::new(base_config(), 0);
    let ticket = FlushTicket { reason: FlushReason::Silence, utterance: None };
    assert!(pipeline.complete_flush(ticket, Ok(vec![]), 0).is_empty());
    let seg = TranscriptSegment { id: "m-1".into(), text: "ok".into(), kind: SegmentKind::Final, confidence: None };
    let events = pipeline.complete_flush(ticket, Ok(vec![seg]), 0);
    assert_eq!(events.len(), 2);
    match &events[0] {
        PipelineEvent::Transcript(t) => assert_eq!(t.segments[0].id, "m-1"),
        _ => panic!(),
    }
    match &events[1] {
        PipelineEvent::Status(s) => {
            assert_eq!(s.status, EngineStatus::Listening);
            assert_eq!(s.detail, None);
        }
        _ => panic!(),
    }
}

#[test]
fn placeholder_of_last_resort_carries_its_sequence_number() {
    let mut cfg = base_config();
    cfg.min_speech_samples = 1_000;
    let mut pipeline: Pipeline<f32> = Pipeline::new(cfg, 41);
    // Level activity without a speech decision, and a model that finds nothing.
    let out = pipeline.on_chunk(&vec![0.5; 600], 0.5f32, true, VadDecision::Silence, 0);
    assert!(out.flush.is_none());
    assert!(!out.reset_detectors);
    assert!(pipeline.begin_stop().flush.is_none());
    let rescue = pipeline.begin_rescue().expect("rescue over the recent audio");
    assert_eq!(rescue.ticket.reason, FlushReason::Rescue);
    assert_eq!(rescue.ticket.utterance, None);
    assert_eq!(rescue.chunk.samples.len(), 600);
    assert!(pipeline.complete_flush(rescue.ticket, Ok(vec![]), 0).is_empty());
    let event = pipeline.finish().expect("placeholder");
    assert_eq!(event.seq, 41);
    assert_eq!(event.segments[0].id, "fallback-41");
    assert_eq!(event.segments[0].text, FALLBACK_TEXT);
    assert_eq!(pipeline.transcript_seq(), 42);
}

#[test]
fn quiet_session_ends_without_events() {
    let mut cfg = base_config();
    cfg.min_speech_samples = 1_000;
    let session = run_session(cfg, 0.01, vec![(vec![0.0; 960], VadDecision::Silence)], TestModel::new(false, false, false));
    assert!(session.transcripts.is_empty());
    assert!(session.model.calls.is_empty());
}

#[test]
fn empty_chunk_changes_nothing() {
    let mut pipeline: Pipeline<f32> = Pipeline::new(base_config(), 0);
    let out = pipeline.on_chunk(&vec![], 0.0f32, true, VadDecision::Speech, 0);
    assert!(out.activity.is_none());
    assert!(out.flush.is_none());
    assert!(!out.reset_detectors);
    assert_eq!(pipeline.diagnostics().vad_windows, 0);
    assert_eq!(pipeline.active_utterance(), None);
}

#[test]
fn partials_wait_for_time_and_new_samples() {
    let mut cfg = base_config();
    cfg.min_speech_samples = 100;
    cfg.max_speech_samples = 100_000;
    let mut pipeline: Pipeline<u8> = Pipeline::new(cfg, 0);
    let chunk = vec![0u8; 100];
    assert!(pipeline.on_chunk(&chunk, (), false, VadDecision::Speech, 1_000).flush.is_some());
    // Too early, although enough samples are new.
    assert!(pipeline.on_chunk(&chunk, (), false, VadDecision::Speech, 1_899).flush.is_none());
    // Late enough now.
    let out = pipeline.on_chunk(&chunk, (), false, VadDecision::Speech, 1_900);
    let request = out.flush.unwrap();
    assert!(request.partial);
    assert_eq!(request.chunk.samples.len(), 300);
    assert_eq!(request.ticket.utterance, Some(0));
}

#[test]
fn partial_inference_can_be_switched_off() {
    let mut cfg = base_config();
    cfg.enable_partial_inference = false;
    let mut pipeline: Pipeline<f32> = Pipeline::new(cfg, 0);
    assert!(pipeline.on_chunk(&vec![0.2; 960], 0.2f32, true, VadDecision::Speech, 0).flush.is_none());
    let out = pipeline.on_chunk(&vec![0.0; 960], 0.0f32, false, VadDecision::Silence, 20);
    assert_eq!(out.flush.unwrap().ticket.reason, FlushReason::Silence);
}

#[test]
fn short_utterance_is_dropped_at_silence() {
    let mut pipeline: Pipeline<f32> = Pipeline::new(base_config(), 0);
    assert!(pipeline.on_chunk(&vec![0.2; 100], 0.2f32, true, VadDecision::Speech, 0).flush.is_none());
    let out = pipeline.on_chunk(&vec![0.0; 100], 0.0f32, false, VadDecision::Silence, 20);
    assert!(out.flush.is_none());
    assert!(out.reset_detectors);
    assert_eq!(pipeline.buffered_samples(), 0);
}

#[test]
fn diagnostics_count_and_reset() {
    let session = run_session(
        base_config(),
        0.01,
        vec![(vec![0.2; 960], VadDecision::Speech), (vec![0.0; 960], VadDecision::Silence)],
        TestModel::new(false, false, false),
    );
    let d = session.pipeline.diagnostics();
    assert_eq!(d.frames_in, 1_920);
    assert_eq!(d.frames_resampled, 1_920);
    assert_eq!(d.vad_windows, 2);
    assert_eq!(d.vad_speech, 1);
    assert_eq!(d.inference_calls, 2);
    assert_eq!(d.inference_errors, 0);
    assert_eq!(d.segments_emitted, 2);
    assert_eq!(d.fallback_emitted, 0);

    let mut counters = PipelineDiagnostics::default();
    counters.frames_in = 5;
    counters.fallback_emitted = 2;
    assert_eq!(counters.snapshot().frames_in, 5);
    counters.reset();
    let zero = counters.snapshot();
    assert_eq!(zero.frames_in, 0);
    assert_eq!(zero.fallback_emitted, 0);
    assert_eq!(zero.segments_emitted, 0);
}
