use dictum_core::delivery::{
    history_record, text_to_type, Delivery, Injection, Outcome, Skipped, DEDUPE_WINDOW_MS,
    PARTIAL_RESCUE_WINDOW_MS,
};
use dictum_core::ipc::events::{EngineStatus, SegmentKind, TranscriptEvent, TranscriptSegment};
use dictum_core::shortcut::{toggle_action, Press, ShortcutToggle, ToggleAction, TOGGLE_DEBOUNCE_MS};
use dictum_core::settings::LearnedCorrection;
use dictum_core::text_injector::{
    chord_events, paste_chords, unicode_events, InjectMethod, InjectRun, InjectSettings, InjectStep, KeyEvent,
    PasteChord,
};
use dictum_core::transform::{DictionaryEntry, SnippetEntry};

fn segment(text: &str, kind: SegmentKind) -> TranscriptSegment {
    TranscriptSegment { id: "utt-1".into(), text: text.into(), kind, confidence: None }
}

fn finals(seq: u64, texts: &[&str]) -> TranscriptEvent {
    TranscriptEvent { seq, segments: texts.iter().map(|t| segment(t, SegmentKind::Final)).collect() }
}

fn partial(seq: u64, text: &str) -> TranscriptEvent {
    TranscriptEvent { seq, segments: vec![segment(text, SegmentKind::Partial)] }
}

fn take(d: &mut Delivery, event: TranscriptEvent, now_ms: u64) -> (TranscriptEvent, Outcome) {
    let r = d.receive(event, &vec![], &vec![], &vec![], now_ms);
    (r.event, r.outcome)
}

fn injection(outcome: Outcome) -> Injection {
    match outcome {
        Outcome::Inject(i) => i,
        other => panic!("expected a text to type, got {other:?}"),
    }
}

fn skipped(outcome: &Outcome) -> Option<Skipped> {
    match outcome {
        Outcome::Skip(why) => Some(*why),
        _ => None,
    }
}

#[test]
fn a_final_text_is_typed_with_a_space_behind_it() {
    let mut d = Delivery::new();
    let (event, outcome) = take(&mut d, finals(7, &["  hello world  ", " ", "again"]), 1_000);
    assert_eq!(event.seq, 7);
    assert_eq!(event.segments[0].text, "hello world");
    assert_eq!(event.segments[1].text, " ");
    assert_eq!(event.segments[2].text, "again");
    let i = injection(outcome);
    assert_eq!(i.text, "hello world again");
    assert_eq!(i.at_ms, 1_000);
    assert!(!i.dictionary_applied && !i.snippet_applied && !i.used_partial_rescue);
    assert_eq!(text_to_type(&i), "hello world again ");
    let counters = d.diagnostics(3, 4);
    assert_eq!((counters.final_segments_seen, counters.inject_calls, counters.inject_success), (1, 1, 0));
    assert_eq!((counters.shortcut_toggle_executed, counters.shortcut_toggle_dropped), (3, 4));
    d.injected(&i, true);
    assert_eq!(d.diagnostics(0, 0).inject_success, 1);
}

#[test]
fn an_event_without_final_text_brings_nothing() {
    let mut d = Delivery::new();
    let (event, outcome) = take(&mut d, partial(1, " so far "), 10);
    assert!(matches!(outcome, Outcome::Nothing));
    assert_eq!(event.segments[0].text, " so far ");
    let (_, outcome) = take(&mut d, finals(2, &["   "]), 20);
    assert!(matches!(outcome, Outcome::Nothing));
    let (_, outcome) = take(&mut d, TranscriptEvent { seq: 3, segments: vec![] }, 30);
    assert!(matches!(outcome, Outcome::Nothing));
    assert_eq!(d.diagnostics(0, 0).final_segments_seen, 0);
}

#[test]
fn blanked_out_text_is_not_typed() {
    let mut d = Delivery::new();
    let (_, outcome) = take(&mut d, finals(1, &["***** ***"]), 5);
    assert_eq!(skipped(&outcome), Some(Skipped::Redacted));
    let counters = d.diagnostics(0, 0);
    assert_eq!((counters.final_segments_seen, counters.inject_calls, counters.fallback_stub_typed), (1, 0, 0));
}

#[test]
fn a_recent_partial_stands_in_for_the_placeholder() {
    let mut d = Delivery::new();
    take(&mut d, partial(1, "  what I said "), 1_000);
    let (event, outcome) = take(&mut d, finals(2, &["[Speech Captured]"]), 1_000 + PARTIAL_RESCUE_WINDOW_MS);
    assert_eq!(event.segments[0].text, "[Speech Captured]");
    let i = injection(outcome);
    assert_eq!(i.text, "what I said");
    assert!(i.used_partial_rescue);
    assert_eq!(d.diagnostics(0, 0).fallback_stub_typed, 0);
}

#[test]
fn a_placeholder_without_a_recent_partial_is_skipped() {
    let mut d = Delivery::new();
    let (_, outcome) = take(&mut d, finals(1, &["[speech captured]"]), 50);
    assert_eq!(skipped(&outcome), Some(Skipped::Placeholder));
    take(&mut d, partial(2, "old words"), 1_000);
    let (_, outcome) = take(&mut d, finals(3, &["[speech captured]"]), 1_001 + PARTIAL_RESCUE_WINDOW_MS);
    assert_eq!(skipped(&outcome), Some(Skipped::Placeholder));
    take(&mut d, partial(4, "***** ****"), 20_000);
    let (_, outcome) = take(&mut d, finals(5, &["[speech captured]"]), 20_001);
    assert_eq!(skipped(&outcome), Some(Skipped::Placeholder));
    let counters = d.diagnostics(0, 0);
    assert_eq!((counters.final_segments_seen, counters.fallback_stub_typed, counters.inject_calls), (3, 3, 0));
}

#[test]
fn partial_and_final_in_one_event() {
    let mut d = Delivery::new();
    let event = TranscriptEvent {
        seq: 1,
        segments: vec![segment("heard this", SegmentKind::Partial), segment("[speech captured]", SegmentKind::Final)],
    };
    let (_, outcome) = take(&mut d, event, 9);
    let i = injection(outcome);
    assert_eq!(i.text, "heard this");
    assert!(i.used_partial_rescue);
}

#[test]
fn the_same_text_is_not_typed_twice_in_a_moment() {
    let mut d = Delivery::new();
    let (_, outcome) = take(&mut d, finals(1, &["same words"]), 1_000);
    let first = injection(outcome);
    d.injected(&first, true);
    let (_, outcome) = take(&mut d, finals(2, &["same words"]), 1_000 + DEDUPE_WINDOW_MS);
    assert_eq!(skipped(&outcome), Some(Skipped::Duplicate));
    let (_, outcome) = take(&mut d, finals(3, &["other words"]), 1_100);
    let other = injection(outcome);
    assert_eq!(other.text, "other words");
    // Not typed after all: the next try of the first text is no repetition of it.
    d.injected(&other, false);
    let (_, outcome) = take(&mut d, finals(4, &["same words"]), 1_001 + DEDUPE_WINDOW_MS);
    assert_eq!(injection(outcome).text, "same words");
    let counters = d.diagnostics(0, 0);
    assert_eq!((counters.final_segments_seen, counters.inject_calls, counters.inject_success), (4, 3, 1));
}

#[test]
fn a_failed_injection_is_not_remembered() {
    let mut d = Delivery::new();
    let (_, outcome) = take(&mut d, finals(1, &["try me"]), 100);
    let i = injection(outcome);
    d.injected(&i, false);
    let (_, outcome) = take(&mut d, finals(2, &["try me"]), 150);
    assert_eq!(injection(outcome).text, "try me");
    assert_eq!(d.diagnostics(0, 0).inject_success, 0);
}

#[test]
fn final_texts_are_corrected_and_transformed() {
    let mut d = Delivery::new();
    let corrections = vec![LearnedCorrection { heard: "teh".into(), corrected: "the".into(), hits: 1 }];
    let dictionary = vec![DictionaryEntry {
        id: "d".into(),
        term: "Verus".into(),
        aliases: vec!["various".into()],
        language: None,
        enabled: true,
        created_at: String::new(),
        updated_at: String::new(),
    }];
    let snippets = vec![SnippetEntry {
        id: "s".into(),
        trigger: "sig".into(),
        expansion: "Kind regards".into(),
        mode: "phrase".into(),
        enabled: true,
        created_at: String::new(),
        updated_at: String::new(),
    }];
    let r = d.receive(finals(1, &["Teh proof is in various"]), &corrections, &dictionary, &snippets, 1);
    assert_eq!(r.event.segments[0].text, "The proof is in Verus");
    let i = injection(r.outcome);
    assert_eq!(i.text, "The proof is in Verus");
    assert!(i.dictionary_applied && !i.snippet_applied);

    let r = d.receive(finals(2, &["plain", "sig."]), &corrections, &dictionary, &snippets, 5_000);
    let i = injection(r.outcome);
    assert_eq!(i.text, "plain Kind regards");
    assert!(!i.dictionary_applied && i.snippet_applied);

    let r = d.receive(finals(3, &["teh end"]), &corrections, &vec![], &vec![], 9_000);
    let i = injection(r.outcome);
    assert_eq!(i.text, "the end");
    assert!(i.dictionary_applied);
}

#[test]
fn typed_text_is_recorded_where_the_history_is_kept() {
    let i = Injection {
        text: "for the record".into(),
        at_ms: 3,
        dictionary_applied: true,
        snippet_applied: false,
        used_partial_rescue: false,
    };
    assert!(history_record(&i, false, true).is_none());
    let local = history_record(&i, true, false).unwrap();
    assert_eq!(local.text, "for the record");
    assert_eq!(local.source, "local");
    assert_eq!(local.latency_ms, 0);
    assert!(local.dictionary_applied && !local.snippet_applied);
    assert_eq!(history_record(&i, true, true).unwrap().source, "hybrid");
}

fn no_settings() -> InjectSettings {
    InjectSettings { chunk_units: None, retries: None, retry_delay_ms: None, clipboard_restore_delay_ms: None }
}

#[test]
fn an_empty_text_needs_no_injection() {
    let run = InjectRun::new("", InjectMethod::Paste, "cmd.exe", no_settings());
    assert_eq!(run.step(), InjectStep::Succeeded);
    assert!(run.go().is_none());
    assert_eq!(run.error(), None);
}

#[test]
fn text_is_typed_go_by_go() {
    let text = "a\n".repeat(100);
    let settings = InjectSettings { chunk_units: Some(48), ..no_settings() };
    let mut run = InjectRun::new(&text, InjectMethod::Auto, "notepad.exe", settings);
    let mut sent: Vec<u16> = Vec::new();
    let mut goes = 0;
    loop {
        match run.step() {
            InjectStep::Send(i) => {
                assert_eq!(i, goes);
                sent.extend_from_slice(run.go().unwrap());
                goes += 1;
                run.record(Ok(()));
            }
            InjectStep::Succeeded => break,
            other => panic!("unexpected step {other:?}"),
        }
    }
    // 200 key events in goes of 48: four full goes and one of 8.
    assert_eq!(goes, 5);
    let expected: Vec<u16> = "a\r".repeat(100).encode_utf16().collect();
    assert_eq!(sent, expected);
    assert_eq!(run.error(), None);
    // Once over, nothing changes.
    run.record(Err("late".into()));
    run.waited();
    assert_eq!(run.step(), InjectStep::Succeeded);
}

#[test]
fn a_failed_go_is_sent_again_after_a_pause() {
    let settings = InjectSettings { retries: Some(3), retry_delay_ms: Some(9), ..no_settings() };
    let mut run = InjectRun::new("hi", InjectMethod::Unicode, "cmd.exe", settings);
    assert_eq!(run.step(), InjectStep::Send(0));
    run.record(Err("busy".into()));
    assert_eq!(run.step(), InjectStep::Wait(9));
    assert!(run.go().is_none());
    run.waited();
    assert_eq!(run.step(), InjectStep::Send(0));
    run.record(Err("busy again".into()));
    assert_eq!(run.step(), InjectStep::Wait(9));
    run.waited();
    run.record(Err("still busy".into()));
    assert_eq!(run.step(), InjectStep::Failed);
    assert_eq!(run.error(), Some("still busy".to_string()));

    // With the default of two attempts the second failure ends it; a success in between goes on.
    let mut run = InjectRun::new("hi", InjectMethod::Unicode, "x", no_settings());
    run.record(Err("once".into()));
    assert_eq!(run.step(), InjectStep::Wait(6));
    run.waited();
    run.record(Ok(()));
    assert_eq!(run.step(), InjectStep::Succeeded);
    let mut run = InjectRun::new("hi", InjectMethod::Unicode, "x", no_settings());
    run.record(Err("once".into()));
    run.waited();
    run.record(Err("twice".into()));
    assert_eq!(run.step(), InjectStep::Failed);
    assert_eq!(run.error(), Some("twice".to_string()));
}

#[test]
fn terminals_get_the_text_pasted() {
    let mut run = InjectRun::new("ls -la", InjectMethod::Auto, "powershell.exe", no_settings());
    assert_eq!(run.step(), InjectStep::Paste);
    run.record(Ok(()));
    assert_eq!(run.step(), InjectStep::Wait(60));
    run.waited();
    assert_eq!(run.step(), InjectStep::Succeeded);

    // A failed paste falls back to key events where the choice was open.
    let mut run = InjectRun::new("ls -la", InjectMethod::Auto, "powershell.exe", no_settings());
    run.record(Err("no clipboard".into()));
    assert_eq!(run.step(), InjectStep::Send(0));
    assert_eq!(run.go().unwrap().len(), 6);
    run.record(Ok(()));
    assert_eq!(run.step(), InjectStep::Succeeded);

    // And fails where nothing but a paste was allowed.
    let mut run = InjectRun::new("ls -la", InjectMethod::Paste, "notepad.exe", no_settings());
    assert_eq!(run.step(), InjectStep::Paste);
    run.record(Err("no clipboard".into()));
    assert_eq!(run.step(), InjectStep::Failed);
    assert_eq!(run.error(), Some("clipboard paste injection failed".to_string()));
}

#[test]
fn the_shortcut_toggles_once_a_press() {
    let mut t = ShortcutToggle::new();
    assert_eq!(t.press(1_000), Press::Accepted);
    assert!(t.inflight);
    // The echo of the press, and a press while the toggle is under way.
    assert_eq!(t.press(1_000 + TOGGLE_DEBOUNCE_MS - 1), Press::Debounced);
    assert_eq!(t.press(1_000 + TOGGLE_DEBOUNCE_MS), Press::Dropped);
    assert_eq!((t.executed, t.dropped), (1, 1));
    t.finished();
    assert!(!t.inflight);
    // The dropped press was remembered: what follows it closely is its echo.
    assert_eq!(t.press(1_100 + TOGGLE_DEBOUNCE_MS), Press::Debounced);
    assert_eq!(t.press(1_000 + 2 * TOGGLE_DEBOUNCE_MS), Press::Accepted);
    assert_eq!((t.executed, t.dropped), (2, 1));
    assert_eq!(t.last_press_ms, Some(1_000 + 2 * TOGGLE_DEBOUNCE_MS));
}

#[test]
fn a_toggle_stops_what_listens_and_starts_the_rest() {
    assert_eq!(toggle_action(EngineStatus::Listening), ToggleAction::Stop);
    for status in [EngineStatus::Idle, EngineStatus::WarmingUp, EngineStatus::Stopped, EngineStatus::Error] {
        assert_eq!(toggle_action(status), ToggleAction::Start);
    }
}

#[test]
fn chords_press_and_release_in_order() {
    let down = |code| KeyEvent { code, up: false };
    let up = |code| KeyEvent { code, up: true };
    assert_eq!(chord_events(&vec![0x11, 0x10], 0x56), vec![down(0x11), down(0x10), down(0x56), up(0x56), up(0x10), up(0x11)]);
    assert_eq!(chord_events(&vec![0x11], 0x56), vec![down(0x11), down(0x56), up(0x56), up(0x11)]);
    assert_eq!(chord_events(&vec![], 0x0d), vec![down(0x0d), up(0x0d)]);
    assert_eq!(unicode_events(&vec![104, 105]), vec![down(104), up(104), down(105), up(105)]);
    assert!(unicode_events(&vec![]).is_empty());
    assert_eq!(paste_chords("warp.exe"), (PasteChord::ControlShiftV, PasteChord::ControlV));
    assert_eq!(paste_chords("cmd.exe"), (PasteChord::ControlV, PasteChord::ControlShiftV));
    assert_eq!(paste_chords("Warp.exe"), (PasteChord::ControlV, PasteChord::ControlShiftV));
}
