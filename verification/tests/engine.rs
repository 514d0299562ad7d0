use dictum_core::audio::device::{
    rank_input_devices, best_microphone, frames_in, is_loopback_like_name, mic_preference_score, select_input_device,
    ChoiceReason, DeviceChoice,
};
use dictum_core::engine::pipeline::{empty_sleep_ms, DiagnosticsSnapshot};
use dictum_core::engine::{apply_engine_profile, DictumEngine, EngineConfig};
use dictum_core::error::DictumError;
use dictum_core::inference::stub::StubModel;
use dictum_core::buffering::chunk::AudioChunk;
use dictum_core::ipc::events::{EngineStatus, SegmentKind};
use dictum_core::settings::{
    normalize_cloud_mode, normalize_language_hint, normalize_learned_corrections,
    normalize_model_profile, normalize_ort_ep, normalize_performance_profile,
    normalize_phrase_bias_terms, normalize_toggle_shortcut, LearnedCorrection,
};
use dictum_core::vad::silero::{decide, resolve_io_names, resolve_name, SileroIoMode, SileroVad};
use dictum_core::vad::VadDecision;

fn names(list: &[&str]) -> Vec<String> {
    list.iter().map(|s| s.to_string()).collect()
}

#[test]
fn engine_goes_through_its_lifecycle() {
    let mut engine = DictumEngine::new(EngineConfig::default());
    assert_eq!(engine.status(), EngineStatus::Idle);
    assert!(!engine.is_running());

    let event = engine.begin_warm_up();
    assert_eq!(event.status, EngineStatus::WarmingUp);
    assert_eq!(engine.status(), EngineStatus::WarmingUp);
    let event = engine.finish_warm_up(&Ok(()));
    assert_eq!(event.status, EngineStatus::Idle);
    assert_eq!(event.detail, None);

    let event = engine.start().unwrap();
    assert_eq!(event.status, EngineStatus::Listening);
    assert!(engine.is_running());
    assert!(matches!(engine.start(), Err(DictumError::AlreadyRunning)));
    assert_eq!(engine.status(), EngineStatus::Listening);

    let event = engine.stop().unwrap();
    assert_eq!(event.status, EngineStatus::Stopped);
    assert!(!engine.is_running());
    assert!(matches!(engine.stop(), Err(DictumError::NotRunning)));
    assert_eq!(engine.status(), EngineStatus::Stopped);

    // A stopped engine starts again.
    assert!(engine.start().is_ok());
    assert_eq!(engine.status(), EngineStatus::Listening);
}

#[test]
fn failures_leave_the_engine_in_error_and_not_running() {
    let mut engine = DictumEngine::new(EngineConfig::default());
    engine.begin_warm_up();
    let error = DictumError::ModelNotFound { path: "/models/encoder_model.onnx".into() };
    let event = engine.finish_warm_up(&Err(error));
    assert_eq!(event.status, EngineStatus::Error);
    assert_eq!(event.detail.as_deref(), Some("model file not found: /models/encoder_model.onnx"));
    assert_eq!(engine.status(), EngineStatus::Error);

    engine.start().unwrap();
    let event = engine.start_failed(&DictumError::NoDefaultInputDevice);
    assert_eq!(event.status, EngineStatus::Error);
    assert_eq!(event.detail.as_deref(), Some("no default input device found"));
    assert!(!engine.is_running());
    assert!(matches!(engine.stop(), Err(DictumError::NotRunning)));
}

#[test]
fn sessions_hand_their_counters_on() {
    let mut engine = DictumEngine::new(EngineConfig::default());
    assert_eq!(engine.transcript_seq(), 0);
    engine.start().unwrap();
    let counters = DiagnosticsSnapshot {
        frames_in: 10,
        frames_resampled: 9,
        vad_windows: 8,
        vad_speech: 7,
        inference_calls: 6,
        inference_errors: 5,
        segments_emitted: 4,
        fallback_emitted: 3,
    };
    engine.session_ended(17, counters);
    assert_eq!(engine.transcript_seq(), 17);
    assert_eq!(engine.pipeline_diagnostics_snapshot(), counters);
    engine.stop().unwrap();
    // The next start begins the counters anew and keeps the sequence.
    engine.start().unwrap();
    assert_eq!(engine.pipeline_diagnostics_snapshot().frames_in, 0);
    assert_eq!(engine.transcript_seq(), 17);
}

#[test]
fn errors_have_messages() {
    assert_eq!(DictumError::AudioDevice("x".into()).message(), "audio device error: x");
    assert_eq!(DictumError::AudioStream("x".into()).message(), "audio stream error: x");
    assert_eq!(DictumError::NoDefaultInputDevice.message(), "no default input device found");
    assert_eq!(DictumError::RingBufferFull.message(), "ring buffer is full — pipeline cannot keep up");
    assert_eq!(DictumError::Inference("x".into()).message(), "inference error: x");
    assert_eq!(DictumError::AlreadyRunning.message(), "engine is already running");
    assert_eq!(DictumError::NotRunning.message(), "engine is not running");
    assert_eq!(DictumError::OnnxSession("x".into()).message(), "ONNX session error: x");
    assert_eq!(DictumError::ModelNotFound { path: "p".into() }.message(), "model file not found: p");
    assert_eq!(DictumError::Io("x".into()).message(), "IO error: x");
    assert_eq!(DictumError::Other("x".into()).message(), "x");
}

#[test]
fn default_configuration_is_as_documented() {
    let c = EngineConfig::default();
    assert_eq!(c.target_sample_rate, 16_000);
    assert_eq!(c.vad_threshold_millionths, 10_000);
    assert_eq!(c.vad_hangover_frames, 8);
    assert_eq!(c.silero_vad_threshold_millionths, 200_000);
    assert_eq!(c.min_speech_samples, 4_000);
    assert_eq!(c.max_speech_samples, 480_000);
    assert!(c.enable_partial_inference);
    assert_eq!(c.silero_threshold(), 200_000);
    let mut low = c;
    low.silero_vad_threshold_millionths = 10;
    assert_eq!(low.silero_threshold(), 30_000);
    low.silero_vad_threshold_millionths = 999_999;
    assert_eq!(low.silero_threshold(), 950_000);
}

#[test]
fn profiles_set_the_configuration() {
    let mut c = EngineConfig::default();
    c.target_sample_rate = 8_000;
    apply_engine_profile(&mut c, "whisper_balanced_english");
    assert_eq!(
        (c.vad_threshold_millionths, c.min_speech_samples, c.max_speech_samples, c.vad_hangover_frames, c.silero_vad_threshold_millionths),
        (1_250, 460, 96_000, 7, 45_000)
    );
    assert_eq!(c.target_sample_rate, 8_000);
    apply_engine_profile(&mut c, "latency_short_utterance");
    assert_eq!(
        (c.vad_threshold_millionths, c.min_speech_samples, c.max_speech_samples, c.vad_hangover_frames, c.silero_vad_threshold_millionths),
        (1_950, 420, 72_000, 3, 65_000)
    );
    apply_engine_profile(&mut c, "balanced_general");
    assert_eq!(
        (c.vad_threshold_millionths, c.min_speech_samples, c.max_speech_samples, c.vad_hangover_frames, c.silero_vad_threshold_millionths),
        (1_700, 600, 88_000, 4, 58_000)
    );
    c.enable_partial_inference = false;
    apply_engine_profile(&mut c, "anything else");
    assert_eq!(
        (c.vad_threshold_millionths, c.min_speech_samples, c.max_speech_samples, c.vad_hangover_frames, c.silero_vad_threshold_millionths),
        (1_450, 520, 104_000, 6, 52_000)
    );
    assert!(c.enable_partial_inference);
}

#[test]
fn stub_model_answers_by_size() {
    let mut stub = StubModel::new();
    assert!(stub.warm_up().is_ok());
    let short = AudioChunk::new(vec![0.0f32; 159], 16_000);
    assert!(stub.transcribe(&short, false).unwrap().is_empty());
    let chunk = AudioChunk::new(vec![0.0f32; 160], 44_100);
    let partial = stub.transcribe(&chunk, true).unwrap();
    assert_eq!(partial.len(), 1);
    assert_eq!(partial[0].id, "stub-1");
    assert_eq!(partial[0].text, "\u{2026}");
    assert_eq!(partial[0].kind, SegmentKind::Partial);
    assert_eq!(partial[0].confidence, None);
    let last = stub.transcribe(&chunk, false).unwrap();
    assert_eq!(last[0].id, "stub-2");
    assert_eq!(last[0].text, "[stub: 160 samples @ 44100 Hz]");
    assert_eq!(last[0].kind, SegmentKind::Final);
    assert_eq!(last[0].confidence, Some(100));
    stub.reset();
    assert_eq!(stub.transcribe(&chunk, true).unwrap()[0].id, "stub-3");
}

#[test]
fn microphones_are_told_from_loopback() {
    assert!(is_loopback_like_name("  MONITOR OF Built-in Audio "));
    assert!(is_loopback_like_name("Headphones (Realtek)"));
    assert!(!is_loopback_like_name("Headphones"));
    assert!(!is_loopback_like_name("Microphone (USB)"));
    assert!(!is_loopback_like_name(""));
    assert_eq!(mic_preference_score("Default Microphone"), 15);
    assert_eq!(mic_preference_score("Microphone Array (USB PnP Audio Device)"), 14);
    assert_eq!(mic_preference_score("Stereo Mix (Realtek Audio)"), -16);
    assert_eq!(mic_preference_score("Loopback Mic"), -10);
    assert_eq!(mic_preference_score("Line"), 8);
    assert_eq!(mic_preference_score("default"), 9);
}

#[test]
fn device_is_chosen_by_preference_default_and_score() {
    let devices = names(&["Stereo Mix (Realtek Audio)", "Microphone (USB)", "Headset Mic", "Line"]);
    // What was asked for, unless it looks like loopback.
    assert_eq!(
        select_input_device(&devices, Some("Line"), Some("Microphone (USB)")),
        Some(DeviceChoice { index: 3, reason: ChoiceReason::Preferred })
    );
    // Of microphones with the same score the last wins.
    assert_eq!(
        select_input_device(&devices, Some("Stereo Mix (Realtek Audio)"), Some("Microphone (USB)")),
        Some(DeviceChoice { index: 2, reason: ChoiceReason::InsteadOfPreferred })
    );
    assert_eq!(
        select_input_device(&devices, Some("unplugged"), Some("Microphone (USB)")),
        Some(DeviceChoice { index: 1, reason: ChoiceReason::Default })
    );
    assert_eq!(
        select_input_device(&devices, None, Some("Stereo Mix (Realtek Audio)")),
        Some(DeviceChoice { index: 2, reason: ChoiceReason::InsteadOfDefault })
    );
    assert_eq!(
        select_input_device(&devices, None, None),
        Some(DeviceChoice { index: 2, reason: ChoiceReason::BestMicrophone })
    );
    assert_eq!(best_microphone(&devices), Some(2));

    let loopbacks = names(&["Stereo Mix", "Loopback X"]);
    assert_eq!(
        select_input_device(&loopbacks, None, None),
        Some(DeviceChoice { index: 0, reason: ChoiceReason::FirstAvailable })
    );
    assert_eq!(
        select_input_device(&loopbacks, Some("Loopback X"), None),
        Some(DeviceChoice { index: 1, reason: ChoiceReason::Preferred })
    );
    assert_eq!(best_microphone(&loopbacks), None);
    assert_eq!(select_input_device(&vec![], Some("x"), Some("y")), None);
    assert_eq!(frames_in(10, 3), 3);
    assert_eq!(frames_in(10, 0), 0);
}

#[test]
fn network_names_are_resolved() {
    let inputs = names(&["Input", "SR", "h", "c"]);
    let outputs = names(&["output", "hn", "cn"]);
    assert_eq!(resolve_name(&inputs, &vec!["input", "audio", "x"]).as_deref(), Some("Input"));
    assert_eq!(resolve_name(&inputs, &vec!["state", "h_0"]), None);
    // The order of preference counts, not the order of the candidates.
    assert_eq!(resolve_name(&names(&["x", "audio"]), &vec!["input", "audio", "x"]).as_deref(), Some("audio"));
    let n = resolve_io_names(&inputs, &outputs).unwrap();
    assert_eq!(n.input, "Input");
    assert_eq!(n.sr.as_deref(), Some("SR"));
    assert_eq!(n.output, "output");
    assert_eq!(n.io_mode(), SileroIoMode::StatefulLstm);

    let n = resolve_io_names(&names(&["waveform", "state"]), &names(&["probabilities", "stateN"])).unwrap();
    assert_eq!(n.input, "waveform");
    assert_eq!(n.output, "probabilities");
    assert_eq!(n.state_out.as_deref(), Some("stateN"));
    assert_eq!(n.io_mode(), SileroIoMode::StatefulGru);

    let n = resolve_io_names(&names(&["audio"]), &names(&["prob"])).unwrap();
    assert_eq!(n.io_mode(), SileroIoMode::Stateless);
    assert!(matches!(resolve_io_names(&vec![], &outputs), Err(DictumError::OnnxSession(_))));
    assert!(matches!(resolve_io_names(&inputs, &vec![]), Err(DictumError::OnnxSession(_))));
}

#[test]
fn neural_detector_cuts_windows_and_keeps_the_rest() {
    let mut vad: SileroVad<u32> = SileroVad::new(SileroIoMode::StatefulGru);
    let windows = vad.take_windows(&(0..500).collect());
    assert!(windows.is_empty());
    let windows = vad.take_windows(&(500..1_100).collect());
    assert_eq!(windows.len(), 2);
    assert_eq!(windows[0], (0..512).collect::<Vec<u32>>());
    assert_eq!(windows[1], (512..1_024).collect::<Vec<u32>>());
    vad.reset();
    assert!(vad.take_windows(&(0..511).collect()).is_empty());
    assert_eq!(vad.take_windows(&vec![7]).len(), 1);

    assert_eq!(decide(&vec![false, true, false]), VadDecision::Speech);
    assert_eq!(decide(&vec![false, false]), VadDecision::Silence);
    assert_eq!(decide(&vec![]), VadDecision::Silence);

    vad.note_run(false, false, true, true);
    assert_eq!(vad.io_mode(), SileroIoMode::StatefulGru);
    vad.note_run(false, false, true, false);
    assert_eq!(vad.io_mode(), SileroIoMode::Stateless);
    let mut lstm: SileroVad<f32> = SileroVad::new(SileroIoMode::StatefulLstm);
    lstm.note_run(true, true, false, false);
    assert_eq!(lstm.io_mode(), SileroIoMode::StatefulLstm);
    lstm.note_run(true, false, false, false);
    assert_eq!(lstm.io_mode(), SileroIoMode::Stateless);
}

#[test]
fn settings_are_brought_to_canonical_names() {
    assert_eq!(normalize_model_profile(""), "distil-large-v3");
    assert_eq!(normalize_model_profile(" Turbo "), "large-v3-turbo");
    assert_eq!(normalize_model_profile("whisper-large-v3"), "large-v3");
    assert_eq!(normalize_model_profile("DISTIL"), "distil-large-v3");
    assert_eq!(normalize_model_profile("medium-en"), "medium.en");
    assert_eq!(normalize_model_profile("small-en"), "small.en");
    assert_eq!(normalize_model_profile("base-en"), "base.en");
    assert_eq!(normalize_model_profile("tiny-en"), "tiny.en");
    assert_eq!(normalize_model_profile(" Custom-Model "), "custom-model");
    assert_eq!(normalize_performance_profile("whisper"), "whisper_balanced_english");
    assert_eq!(normalize_performance_profile("Long_Form"), "stability_long_form");
    assert_eq!(normalize_performance_profile("balanced"), "balanced_general");
    assert_eq!(normalize_performance_profile("latency"), "latency_short_utterance");
    assert_eq!(normalize_performance_profile("?"), "whisper_balanced_english");
    assert_eq!(normalize_toggle_shortcut("  "), "Ctrl+Shift+Space");
    assert_eq!(normalize_toggle_shortcut(" Alt+D "), "Alt+D");
    assert_eq!(normalize_ort_ep("CPU"), "cpu");
    assert_eq!(normalize_ort_ep("dml"), "directml");
    assert_eq!(normalize_ort_ep("cuda"), "auto");
    assert_eq!(normalize_language_hint("ENG"), "english");
    assert_eq!(normalize_language_hint("zh-hans"), "mandarin");
    assert_eq!(normalize_language_hint("ru"), "russian");
    assert_eq!(normalize_language_hint("fr"), "auto");
    assert_eq!(normalize_cloud_mode("prefer_cloud"), "cloud_preferred");
    assert_eq!(normalize_cloud_mode("Fallback"), "hybrid");
    assert_eq!(normalize_cloud_mode(""), "local_only");
}

#[test]
fn phrase_bias_terms_are_cleaned() {
    let raw = names(&[" Rust ", "", "rust", "Verus", "   ", "VERUS", "z3"]);
    assert_eq!(normalize_phrase_bias_terms(&raw), names(&["Rust", "Verus", "z3"]));
    let many: Vec<String> = (0..100).map(|i| format!("term{i}")).collect();
    let kept = normalize_phrase_bias_terms(&many);
    assert_eq!(kept.len(), 64);
    assert_eq!(kept[63], "term63");
}

#[test]
fn learned_corrections_are_cleaned() {
    let c = |heard: &str, corrected: &str, hits: usize| LearnedCorrection {
        heard: heard.to_string(),
        corrected: corrected.to_string(),
        hits,
    };
    let out = normalize_learned_corrections(&vec![
        c(" Verse ", " Verus ", 0),
        c("verse", "VERUS", 5),
        c("", "x", 1),
        c("x", "  ", 1),
        c("verse", "verses", 2_000_000),
    ]);
    assert_eq!(out.len(), 2);
    assert_eq!((out[0].heard.as_str(), out[0].corrected.as_str(), out[0].hits), ("verse", "Verus", 1));
    assert_eq!((out[1].heard.as_str(), out[1].corrected.as_str(), out[1].hits), ("verse", "verses", 1_000_000));
    let many: Vec<LearnedCorrection> = (0..300).map(|i| c(&format!("h{i}"), "c", 3)).collect();
    assert_eq!(normalize_learned_corrections(&many).len(), 256);
}

#[test]
fn devices_are_listed_recommended_first() {
    let devices = names(&["Stereo Mix (Realtek Audio)", "zeta Microphone", "Line", "Alpha microphone", "Headset Mic"]);
    let listed = rank_input_devices(&devices, Some("Line"));
    let got: Vec<(&str, bool, bool, bool)> =
        listed.iter().map(|d| (d.name.as_str(), d.is_default, d.is_loopback_like, d.is_recommended)).collect();
    // Scores: the three microphones 14, the line 8 and 2 for the default, the mix -16.
    // Of equal scores the last is recommended.
    assert_eq!(
        got,
        vec![
            ("Headset Mic", false, false, true),
            ("Line", true, false, false),
            ("Alpha microphone", false, false, false),
            ("zeta Microphone", false, false, false),
            ("Stereo Mix (Realtek Audio)", false, true, false),
        ]
    );
    assert!(rank_input_devices(&vec![], None).is_empty());
    // Equal names keep their order; a default loopback device still comes behind microphones.
    let listed = rank_input_devices(&names(&["Loopback", "mic", "MIC"]), Some("Loopback"));
    let got: Vec<&str> = listed.iter().map(|d| d.name.as_str()).collect();
    assert_eq!(got, vec!["MIC", "mic", "Loopback"]);
    assert!(listed[0].is_recommended);
    assert!(listed[2].is_default);
}

#[test]
fn sleep_for_an_empty_ring_is_kept_in_range() {
    assert_eq!(empty_sleep_ms(None), 5);
    assert_eq!(empty_sleep_ms(Some(0)), 1);
    assert_eq!(empty_sleep_ms(Some(7)), 7);
    assert_eq!(empty_sleep_ms(Some(1_000)), 20);
}
