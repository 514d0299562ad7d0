//! What the host does with a transcript event: final text is corrected
//! and transformed, and then typed into the focused application, unless
//! it is blanked out, stands for nothing, or repeats what was just typed.
//!
//! The host performs the typing and the recording; this module decides.
//! Times are milliseconds on a clock of the caller that never runs backwards.

use vstd::prelude::*;
use vstd::string::*;
use crate::inference::quality::{is_redacted_asterisk_text, redacted_text};
use crate::ipc::events::{
    segment_models, SegmentKind, SegmentModel, TranscriptEvent, TranscriptEventModel,
    TranscriptSegment,
};
use crate::settings::LearnedCorrection;
use crate::storage::{AppDiagnostics, HistoryRecordInput};
use crate::text::{
    chars_of, eq_ignore_ascii_case, join_with_space, joined, same_ignoring_case, string_of,
    trim, trimmed, views,
};
use crate::transform::{
    after_corrections, apply_learned_corrections, apply_transform, is_duplicate_transcript,
    repeats_last, transformed, DictionaryEntry, Rewritten, SnippetEntry,
};

verus! {

/// How long a partial text may stand in for a placeholder.
pub const PARTIAL_RESCUE_WINDOW_MS: u64 = 10_000;

/// How long after a text the same text counts as its repetition.
pub const DEDUPE_WINDOW_MS: u64 = 700;

/// The text of the placeholder that the engine sends for speech without a transcript.
pub open spec fn placeholder_text() -> Seq<char> {
    "[speech captured]"@
}

/// The counter after one more; behind the largest number it begins again.
pub open spec fn counted_up(n: usize) -> usize {
    if n == usize::MAX {
        0
    } else {
        (n + 1) as usize
    }
}

// ---------------------------------------------------------------------------
// The text of an event
// ---------------------------------------------------------------------------

/// The trimmed texts of the partial segments, without the blank ones.
pub open spec fn partial_parts(segments: Seq<SegmentModel>) -> Seq<Seq<char>>
    decreases segments.len(),
{
    if segments.len() == 0 {
        Seq::empty()
    } else {
        let before = partial_parts(segments.drop_last());
        let s = segments.last();
        if s.kind == SegmentKind::Partial && trimmed(s.text).len() > 0 {
            before.push(trimmed(s.text))
        } else {
            before
        }
    }
}

/// The partial text of an event: its partial segments, a space between each two.
pub open spec fn partial_text(segments: Seq<SegmentModel>) -> Seq<char> {
    joined(partial_parts(segments))
}

/// What a final text becomes: trimmed and corrected, then transformed.
/// With it, whether a correction or the dictionary changed it, and whether
/// a snippet did.
pub open spec fn final_rewritten(
    text: Seq<char>,
    corrections: Seq<LearnedCorrection>,
    dictionary: Seq<DictionaryEntry>,
    snippets: Seq<SnippetEntry>,
) -> (Seq<char>, bool, bool) {
    let c = after_corrections(Rewritten { text: trimmed(text), applied: false }, corrections);
    let t = transformed(c.text, dictionary, snippets);
    (t.0, t.1 || c.applied, t.2)
}

/// The segments of an event with their final texts rewritten.
pub struct Finals {
    /// All segments; a final one holds its rewritten text where that is not empty.
    pub segments: Seq<SegmentModel>,
    /// The rewritten final texts that are not empty.
    pub parts: Seq<Seq<char>>,
    /// A correction or the dictionary changed one of them.
    pub dictionary_applied: bool,
    /// A snippet changed one of them.
    pub snippet_applied: bool,
}

/// The segments of an event with their final texts rewritten.
pub open spec fn finals_of(
    segments: Seq<SegmentModel>,
    corrections: Seq<LearnedCorrection>,
    dictionary: Seq<DictionaryEntry>,
    snippets: Seq<SnippetEntry>,
) -> Finals
    decreases segments.len(),
{
    if segments.len() == 0 {
        Finals {
            segments: Seq::empty(),
            parts: Seq::empty(),
            dictionary_applied: false,
            snippet_applied: false,
        }
    } else {
        let before = finals_of(segments.drop_last(), corrections, dictionary, snippets);
        let s = segments.last();
        if s.kind == SegmentKind::Final {
            let r = final_rewritten(s.text, corrections, dictionary, snippets);
            if r.0.len() > 0 {
                Finals {
                    segments: before.segments.push(SegmentModel { text: r.0, ..s }),
                    parts: before.parts.push(r.0),
                    dictionary_applied: before.dictionary_applied || r.1,
                    snippet_applied: before.snippet_applied || r.2,
                }
            } else {
                Finals {
                    segments: before.segments.push(s),
                    parts: before.parts,
                    dictionary_applied: before.dictionary_applied || r.1,
                    snippet_applied: before.snippet_applied || r.2,
                }
            }
        } else {
            Finals { segments: before.segments.push(s), ..before }
        }
    }
}

// ---------------------------------------------------------------------------
// The decision
// ---------------------------------------------------------------------------

/// Why a final text is not typed.
#[derive(Debug, Clone, Copy, PartialEq, Eq, Structural)]
pub enum Skipped {
    /// A recogniser blanked the text out.
    Redacted,
    /// The text is the placeholder, and no recent partial text stands in for it.
    Placeholder,
    /// The text was typed a moment ago.
    Duplicate,
}

/// A text that is to be typed.
#[derive(Debug, Clone)]
pub struct Injection {
    /// The text, without the space that is typed behind it.
    pub text: String,
    /// When the decision was made.
    pub at_ms: u64,
    /// A correction or the dictionary changed the text.
    pub dictionary_applied: bool,
    /// A snippet changed the text.
    pub snippet_applied: bool,
    /// The text is a recent partial text that stands in for the placeholder.
    pub used_partial_rescue: bool,
}

/// The mathematical content of an [`Injection`].
pub struct InjectionModel {
    pub text: Seq<char>,
    pub at_ms: u64,
    pub dictionary_applied: bool,
    pub snippet_applied: bool,
    pub used_partial_rescue: bool,
}

impl View for Injection {
    type V = InjectionModel;

    open spec fn view(&self) -> InjectionModel {
        InjectionModel {
            text: self.text@,
            at_ms: self.at_ms,
            dictionary_applied: self.dictionary_applied,
            snippet_applied: self.snippet_applied,
            used_partial_rescue: self.used_partial_rescue,
        }
    }
}

/// What is done with the final text of an event.
#[derive(Debug, Clone)]
pub enum Outcome {
    /// The event has no final text.
    Nothing,
    /// The final text is not typed.
    Skip(Skipped),
    /// The text is to be typed.
    Inject(Injection),
}

/// The mathematical content of an [`Outcome`].
pub enum OutcomeModel {
    Nothing,
    Skip(Skipped),
    Inject(InjectionModel),
}

impl View for Outcome {
    type V = OutcomeModel;

    open spec fn view(&self) -> OutcomeModel {
        match self {
            Outcome::Nothing => OutcomeModel::Nothing,
            Outcome::Skip(why) => OutcomeModel::Skip(*why),
            Outcome::Inject(injection) => OutcomeModel::Inject(injection@),
        }
    }
}

/// What the host remembers between events.
pub struct DeliveryModel {
    /// The last partial text and when it was heard.
    pub last_partial: Option<(Seq<char>, u64)>,
    /// The last text that was typed and when.
    pub last_injected: Option<(Seq<char>, u64)>,
    pub final_segments_seen: usize,
    pub fallback_stub_typed: usize,
    pub inject_calls: usize,
    pub inject_success: usize,
}

/// The time `at` lies no more than `window` before `now`.
pub open spec fn is_recent(at: u64, now: u64, window: u64) -> bool {
    now <= at || now - at <= window
}

/// The partial text that stands in for a placeholder: the last one,
/// trimmed, where it is no older than ten seconds, not blank and not blanked out.
pub open spec fn rescue_text(last_partial: Option<(Seq<char>, u64)>, now: u64) -> Option<Seq<char>> {
    match last_partial {
        Some((text, at)) => if is_recent(at, now, PARTIAL_RESCUE_WINDOW_MS) && trimmed(text).len()
            > 0 && !redacted_text(text) {
            Some(trimmed(text))
        } else {
            None
        },
        None => None,
    }
}

/// The text that is typed for a final text, or why none is: a text that
/// is blanked out is skipped; for the placeholder a recent partial text
/// stands in, and without one it is skipped; what remains is typed unless
/// it repeats what was typed within the last 700 ms. With the text,
/// whether it is a partial text that stands in.
pub open spec fn typed_text(st: DeliveryModel, final_text: Seq<char>, now: u64) -> Result<
    (Seq<char>, bool),
    Skipped,
> {
    if redacted_text(final_text) {
        Err(Skipped::Redacted)
    } else {
        let chosen = if same_ignoring_case(final_text, placeholder_text()) {
            match rescue_text(st.last_partial, now) {
                Some(partial) => Some((partial, true)),
                None => None,
            }
        } else {
            Some((final_text, false))
        };
        match chosen {
            None => Err(Skipped::Placeholder),
            Some((text, rescued)) => if repeats_last(st.last_injected, text, now, DEDUPE_WINDOW_MS) {
                Err(Skipped::Duplicate)
            } else {
                Ok((text, rescued))
            },
        }
    }
}

/// What is done with the final text of an event.
pub open spec fn decided(
    st: DeliveryModel,
    final_text: Seq<char>,
    dictionary_applied: bool,
    snippet_applied: bool,
    now: u64,
) -> OutcomeModel {
    if final_text.len() == 0 {
        OutcomeModel::Nothing
    } else {
        match typed_text(st, final_text, now) {
            Ok((text, rescued)) => OutcomeModel::Inject(
                InjectionModel {
                    text,
                    at_ms: now,
                    dictionary_applied,
                    snippet_applied,
                    used_partial_rescue: rescued,
                },
            ),
            Err(why) => OutcomeModel::Skip(why),
        }
    }
}

/// The state after a decision: an event with final text is counted, and
/// so are a skipped placeholder and a text that is to be typed.
pub open spec fn after_decision(st: DeliveryModel, outcome: OutcomeModel) -> DeliveryModel {
    match outcome {
        OutcomeModel::Nothing => st,
        OutcomeModel::Skip(why) => DeliveryModel {
            final_segments_seen: counted_up(st.final_segments_seen),
            fallback_stub_typed: if why == Skipped::Placeholder {
                counted_up(st.fallback_stub_typed)
            } else {
                st.fallback_stub_typed
            },
            ..st
        },
        OutcomeModel::Inject(_) => DeliveryModel {
            final_segments_seen: counted_up(st.final_segments_seen),
            inject_calls: counted_up(st.inject_calls),
            ..st
        },
    }
}

/// The state with the partial text of an event remembered, where it has one.
pub open spec fn with_partial(st: DeliveryModel, segments: Seq<SegmentModel>, now: u64) -> DeliveryModel {
    if partial_text(segments).len() > 0 {
        DeliveryModel { last_partial: Some((partial_text(segments), now)), ..st }
    } else {
        st
    }
}

/// What is done with an event.
pub open spec fn outcome_of_event(
    st: DeliveryModel,
    segments: Seq<SegmentModel>,
    corrections: Seq<LearnedCorrection>,
    dictionary: Seq<DictionaryEntry>,
    snippets: Seq<SnippetEntry>,
    now: u64,
) -> OutcomeModel {
    let f = finals_of(segments, corrections, dictionary, snippets);
    decided(
        with_partial(st, segments, now),
        joined(f.parts),
        f.dictionary_applied,
        f.snippet_applied,
        now,
    )
}

/// The state after an event.
pub open spec fn after_event(
    st: DeliveryModel,
    segments: Seq<SegmentModel>,
    corrections: Seq<LearnedCorrection>,
    dictionary: Seq<DictionaryEntry>,
    snippets: Seq<SnippetEntry>,
    now: u64,
) -> DeliveryModel {
    after_decision(
        with_partial(st, segments, now),
        outcome_of_event(st, segments, corrections, dictionary, snippets, now),
    )
}

/// The state after the host has tried to type a text: a success is
/// counted, and the text is remembered with the time of its decision.
pub open spec fn after_injection(st: DeliveryModel, injection: InjectionModel, ok: bool) -> DeliveryModel {
    if ok {
        DeliveryModel {
            inject_success: counted_up(st.inject_success),
            last_injected: Some((injection.text, injection.at_ms)),
            ..st
        }
    } else {
        st
    }
}

// ---------------------------------------------------------------------------
// The state machine
// ---------------------------------------------------------------------------

/// What the host remembers between transcript events.
#[derive(Debug, Clone)]
pub struct Delivery {
    last_partial: Option<(String, u64)>,
    last_injected: Option<(String, u64)>,
    final_segments_seen: usize,
    fallback_stub_typed: usize,
    inject_calls: usize,
    inject_success: usize,
}

/// A text that may be absent, with its time.
pub open spec fn timed_text(t: Option<(String, u64)>) -> Option<(Seq<char>, u64)> {
    match t {
        Some((text, at)) => Some((text@, at)),
        None => None,
    }
}

impl View for Delivery {
    type V = DeliveryModel;

    closed spec fn view(&self) -> DeliveryModel {
        DeliveryModel {
            last_partial: timed_text(self.last_partial),
            last_injected: timed_text(self.last_injected),
            final_segments_seen: self.final_segments_seen,
            fallback_stub_typed: self.fallback_stub_typed,
            inject_calls: self.inject_calls,
            inject_success: self.inject_success,
        }
    }
}

/// An event as it is handed on, and what is done with its final text.
#[derive(Debug, Clone)]
pub struct Received {
    /// The event with its final texts rewritten.
    pub event: TranscriptEvent,
    /// What is done with the final text.
    pub outcome: Outcome,
}

fn count_up(n: usize) -> (r: usize)
    ensures
        r == counted_up(n),
{
    if n == usize::MAX {
        0
    } else {
        n + 1
    }
}

fn partial_text_of(segments: &Vec<TranscriptSegment>) -> (r: Vec<char>)
    ensures
        r@ == partial_text(segment_models(segments@)),
{
    let mut parts: Vec<Vec<char>> = Vec::new();
    let mut i: usize = 0;
    assert(segment_models(segments@).take(0) =~= Seq::<SegmentModel>::empty());
    assert(views(parts@) =~= Seq::<Seq<char>>::empty());
    while i < segments.len()
        invariant
            i <= segments.len(),
            views(parts@) == partial_parts(segment_models(segments@).take(i as int)),
        decreases segments.len() - i,
    {
        let ghost next = segment_models(segments@).take(i + 1);
        assert(next.drop_last() =~= segment_models(segments@).take(i as int));
        assert(next.last() == segments@[i as int]@);
        match segments[i].kind {
            SegmentKind::Partial => {
                let t = trim(&chars_of(segments[i].text.as_str()));
                if t.len() > 0 {
                    let ghost before = views(parts@);
                    parts.push(t);
                    assert(views(parts@) =~= before.push(t@));
                }
            },
            SegmentKind::Final => {},
        }
        i += 1;
    }
    assert(segment_models(segments@).take(segments.len() as int) =~= segment_models(segments@));
    join_with_space(&parts)
}

/// The rewritten segments of an event, as they are computed.
struct Rewrite {
    segments: Vec<TranscriptSegment>,
    parts: Vec<Vec<char>>,
    dictionary_applied: bool,
    snippet_applied: bool,
}

fn rewrite_finals(
    segments: &Vec<TranscriptSegment>,
    corrections: &Vec<LearnedCorrection>,
    dictionary: &Vec<DictionaryEntry>,
    snippets: &Vec<SnippetEntry>,
) -> (r: Rewrite)
    ensures
        segment_models(r.segments@) == finals_of(
            segment_models(segments@),
            corrections@,
            dictionary@,
            snippets@,
        ).segments,
        views(r.parts@) == finals_of(
            segment_models(segments@),
            corrections@,
            dictionary@,
            snippets@,
        ).parts,
        r.dictionary_applied == finals_of(
            segment_models(segments@),
            corrections@,
            dictionary@,
            snippets@,
        ).dictionary_applied,
        r.snippet_applied == finals_of(
            segment_models(segments@),
            corrections@,
            dictionary@,
            snippets@,
        ).snippet_applied,
{
    let mut out: Vec<TranscriptSegment> = Vec::new();
    let mut parts: Vec<Vec<char>> = Vec::new();
    let mut dictionary_applied = false;
    let mut snippet_applied = false;
    let mut i: usize = 0;
    assert(segment_models(segments@).take(0) =~= Seq::<SegmentModel>::empty());
    assert(views(parts@) =~= Seq::<Seq<char>>::empty());
    assert(segment_models(out@) =~= Seq::<SegmentModel>::empty());
    while i < segments.len()
        invariant
            i <= segments.len(),
            segment_models(out@) == finals_of(
                segment_models(segments@).take(i as int),
                corrections@,
                dictionary@,
                snippets@,
            ).segments,
            views(parts@) == finals_of(
                segment_models(segments@).take(i as int),
                corrections@,
                dictionary@,
                snippets@,
            ).parts,
            dictionary_applied == finals_of(
                segment_models(segments@).take(i as int),
                corrections@,
                dictionary@,
                snippets@,
            ).dictionary_applied,
            snippet_applied == finals_of(
                segment_models(segments@).take(i as int),
                corrections@,
                dictionary@,
                snippets@,
            ).snippet_applied,
        decreases segments.len() - i,
    {
        let ghost next = segment_models(segments@).take(i + 1);
        assert(next.drop_last() =~= segment_models(segments@).take(i as int));
        assert(next.last() == segments@[i as int]@);
        let ghost before_segments = segment_models(out@);
        let ghost before_parts = views(parts@);
        let seg = &segments[i];
        match seg.kind {
            SegmentKind::Final => {
                let corrected = apply_learned_corrections(seg.text.as_str(), corrections);
                let transformed = apply_transform(corrected.0.as_str(), dictionary, snippets);
                dictionary_applied = dictionary_applied || transformed.dictionary_applied
                    || corrected.1;
                snippet_applied = snippet_applied || transformed.snippet_applied;
                let text = chars_of(transformed.text.as_str());
                if text.len() > 0 {
                    let rewritten = TranscriptSegment {
                        id: seg.id.clone(),
                        text: transformed.text,
                        kind: seg.kind,
                        confidence: seg.confidence,
                    };
                    assert(rewritten@ == (SegmentModel { text: text@, ..seg@ }));
                    out.push(rewritten);
                    parts.push(text);
                    assert(segment_models(out@) =~= before_segments.push(
                        (SegmentModel { text: text@, ..seg@ }),
                    ));
                    assert(views(parts@) =~= before_parts.push(text@));
                } else {
                    let kept = TranscriptSegment {
                        id: seg.id.clone(),
                        text: seg.text.clone(),
                        kind: seg.kind,
                        confidence: seg.confidence,
                    };
                    assert(kept@ == seg@);
                    out.push(kept);
                    assert(segment_models(out@) =~= before_segments.push(seg@));
                }
            },
            SegmentKind::Partial => {
                let kept = TranscriptSegment {
                    id: seg.id.clone(),
                    text: seg.text.clone(),
                    kind: seg.kind,
                    confidence: seg.confidence,
                };
                assert(kept@ == seg@);
                out.push(kept);
                assert(segment_models(out@) =~= before_segments.push(seg@));
            },
        }
        i += 1;
    }
    assert(segment_models(segments@).take(segments.len() as int) =~= segment_models(segments@));
    Rewrite { segments: out, parts, dictionary_applied, snippet_applied }
}

impl Delivery {
    /// A host that has heard and typed nothing yet.
    pub fn new() -> (d: Delivery)
        ensures
            d@ == (DeliveryModel {
                last_partial: None,
                last_injected: None,
                final_segments_seen: 0,
                fallback_stub_typed: 0,
                inject_calls: 0,
                inject_success: 0,
            }),
    {
        Delivery {
            last_partial: None,
            last_injected: None,
            final_segments_seen: 0,
            fallback_stub_typed: 0,
            inject_calls: 0,
            inject_success: 0,
        }
    }

    /// The counters of the host, those of the shortcut left as they are given.
    pub fn diagnostics(&self, shortcut_toggle_executed: usize, shortcut_toggle_dropped: usize) -> (d:
        AppDiagnostics)
        ensures
            d.inject_calls == self@.inject_calls,
            d.inject_success == self@.inject_success,
            d.final_segments_seen == self@.final_segments_seen,
            d.fallback_stub_typed == self@.fallback_stub_typed,
            d.shortcut_toggle_executed == shortcut_toggle_executed,
            d.shortcut_toggle_dropped == shortcut_toggle_dropped,
            d.pipeline_frames_in == 0,
            d.pipeline_frames_resampled == 0,
            d.pipeline_vad_windows == 0,
            d.pipeline_vad_speech == 0,
            d.pipeline_inference_calls == 0,
            d.pipeline_inference_errors == 0,
            d.pipeline_segments_emitted == 0,
            d.pipeline_fallback_emitted == 0,
    {
        AppDiagnostics {
            inject_calls: self.inject_calls,
            inject_success: self.inject_success,
            final_segments_seen: self.final_segments_seen,
            fallback_stub_typed: self.fallback_stub_typed,
            shortcut_toggle_executed,
            shortcut_toggle_dropped,
            pipeline_frames_in: 0,
            pipeline_frames_resampled: 0,
            pipeline_vad_windows: 0,
            pipeline_vad_speech: 0,
            pipeline_inference_calls: 0,
            pipeline_inference_errors: 0,
            pipeline_segments_emitted: 0,
            pipeline_fallback_emitted: 0,
        }
    }

    /// Decides what is done with a final text.
    fn decide(
        &mut self,
        final_text: String,
        dictionary_applied: bool,
        snippet_applied: bool,
        now_ms: u64,
    ) -> (outcome: Outcome)
        ensures
            outcome@ == decided(old(self)@, final_text@, dictionary_applied, snippet_applied, now_ms),
            final(self)@ == after_decision(old(self)@, outcome@),
    {
        if chars_of(final_text.as_str()).len() == 0 {
            return Outcome::Nothing;
        }
        self.final_segments_seen = count_up(self.final_segments_seen);
        if is_redacted_asterisk_text(final_text.as_str()) {
            return Outcome::Skip(Skipped::Redacted);
        }
        let is_placeholder = eq_ignore_ascii_case(
            &chars_of(final_text.as_str()),
            &chars_of("[speech captured]"),
        );
        let chosen: Option<(String, bool)> = if is_placeholder {
            match &self.last_partial {
                Some((partial, at)) => {
                    let recent = now_ms <= *at || now_ms - *at <= PARTIAL_RESCUE_WINDOW_MS;
                    let t = trim(&chars_of(partial.as_str()));
                    if recent && t.len() > 0 && !is_redacted_asterisk_text(partial.as_str()) {
                        Some((string_of(&t), true))
                    } else {
                        None
                    }
                },
                None => None,
            }
        } else {
            Some((final_text, false))
        };
        match chosen {
            None => {
                self.fallback_stub_typed = count_up(self.fallback_stub_typed);
                Outcome::Skip(Skipped::Placeholder)
            },
            Some((text, rescued)) => {
                let repeats = match &self.last_injected {
                    Some((prev, at)) => is_duplicate_transcript(
                        Some((prev.as_str(), *at)),
                        text.as_str(),
                        now_ms,
                        DEDUPE_WINDOW_MS,
                    ),
                    None => false,
                };
                if repeats {
                    Outcome::Skip(Skipped::Duplicate)
                } else {
                    self.inject_calls = count_up(self.inject_calls);
                    Outcome::Inject(
                        Injection {
                            text,
                            at_ms: now_ms,
                            dictionary_applied,
                            snippet_applied,
                            used_partial_rescue: rescued,
                        },
                    )
                }
            },
        }
    }

    /// Takes a transcript event in. The event comes back with its final
    /// texts corrected and transformed, to be handed on to the user
    /// interface; with it comes what is to be done with the final text.
    pub fn receive(
        &mut self,
        event: TranscriptEvent,
        corrections: &Vec<LearnedCorrection>,
        dictionary: &Vec<DictionaryEntry>,
        snippets: &Vec<SnippetEntry>,
        now_ms: u64,
    ) -> (r: Received)
        ensures
            final(self)@ == after_event(
                old(self)@,
                event@.segments,
                corrections@,
                dictionary@,
                snippets@,
                now_ms,
            ),
            r.event@ == (TranscriptEventModel {
                seq: event.seq,
                segments: finals_of(event@.segments, corrections@, dictionary@, snippets@).segments,
            }),
            r.outcome@ == outcome_of_event(
                old(self)@,
                event@.segments,
                corrections@,
                dictionary@,
                snippets@,
                now_ms,
            ),
    {
        let partial = partial_text_of(&event.segments);
        if partial.len() > 0 {
            self.last_partial = Some((string_of(&partial), now_ms));
        }
        let rewrite = rewrite_finals(&event.segments, corrections, dictionary, snippets);
        let text = string_of(&join_with_space(&rewrite.parts));
        let outcome = self.decide(text, rewrite.dictionary_applied, rewrite.snippet_applied, now_ms);
        Received { event: TranscriptEvent { seq: event.seq, segments: rewrite.segments }, outcome }
    }

    /// Takes in how the typing of a text went.
    pub fn injected(&mut self, injection: &Injection, ok: bool)
        ensures
            final(self)@ == after_injection(old(self)@, injection@, ok),
    {
        if ok {
            self.inject_success = count_up(self.inject_success);
            self.last_injected = Some((injection.text.clone(), injection.at_ms));
        }
    }
}

// ---------------------------------------------------------------------------
// What follows a decision
// ---------------------------------------------------------------------------

/// What is typed for a text: the text and a space behind it.
pub fn text_to_type(injection: &Injection) -> (s: String)
    ensures
        s@ == injection@.text.push(' '),
{
    let mut out = chars_of(injection.text.as_str());
    out.push(' ');
    string_of(&out)
}

/// Where a record of the history says its text came from.
pub open spec fn source_name(cloud_opt_in: bool) -> Seq<char> {
    if cloud_opt_in {
        "hybrid"@
    } else {
        "local"@
    }
}

/// The record of a typed text for the history, where the history is kept.
pub fn history_record(injection: &Injection, history_enabled: bool, cloud_opt_in: bool) -> (r: Option<
    HistoryRecordInput,
>)
    ensures
        r is Some <==> history_enabled,
        r matches Some(record) ==> {
            &&& record.text@ == injection@.text
            &&& record.source@ == source_name(cloud_opt_in)
            &&& record.latency_ms == 0
            &&& record.dictionary_applied == injection@.dictionary_applied
            &&& record.snippet_applied == injection@.snippet_applied
        },
{
    if !history_enabled {
        return None;
    }
    Some(
        HistoryRecordInput {
            text: injection.text.clone(),
            source: if cloud_opt_in {
                String::from_str("hybrid")
            } else {
                String::from_str("local")
            },
            latency_ms: 0,
            dictionary_applied: injection.dictionary_applied,
            snippet_applied: injection.snippet_applied,
        },
    )
}

// ---------------------------------------------------------------------------
// Laws
// ---------------------------------------------------------------------------

/// A text that is blanked out is never typed, whatever the host remembers.
pub proof fn lemma_redacted_text_is_never_typed(
    st: DeliveryModel,
    text: Seq<char>,
    dictionary_applied: bool,
    snippet_applied: bool,
    now: u64,
)
    requires
        text.len() > 0,
        redacted_text(text),
    ensures
        decided(st, text, dictionary_applied, snippet_applied, now) == OutcomeModel::Skip(
            Skipped::Redacted,
        ),
{
}

/// A text that was typed is not typed again within the window: after a
/// successful injection the same text, where it is not the placeholder and
/// is decided on no more than 700 ms later, is skipped.
pub proof fn lemma_typed_text_is_not_repeated(
    st: DeliveryModel,
    injection: InjectionModel,
    dictionary_applied: bool,
    snippet_applied: bool,
    now: u64,
)
    requires
        injection.text.len() > 0,
        !same_ignoring_case(injection.text, placeholder_text()),
        is_recent(injection.at_ms, now, DEDUPE_WINDOW_MS),
    ensures
        !(decided(
            after_injection(st, injection, true),
            injection.text,
            dictionary_applied,
            snippet_applied,
            now,
        ) is Inject),
{
}

/// Every decision is counted once: an event with final text raises the
/// count of final texts by one, and a text to be typed raises the count of
/// injections by one; nothing else changes those two.
pub proof fn lemma_decisions_are_counted(st: DeliveryModel, outcome: OutcomeModel)
    ensures
        after_decision(st, outcome).final_segments_seen == if outcome is Nothing {
            st.final_segments_seen
        } else {
            counted_up(st.final_segments_seen)
        },
        after_decision(st, outcome).inject_calls == if outcome is Inject {
            counted_up(st.inject_calls)
        } else {
            st.inject_calls
        },
        after_decision(st, outcome).last_injected == st.last_injected,
        after_decision(st, outcome).last_partial == st.last_partial,
{
}

} // verus!
