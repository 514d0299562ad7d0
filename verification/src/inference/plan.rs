//! The plan of one transcription: which decodes are tried, in which order
//! and with which step budget, and which text is kept.
//!
//! A transcription tries the candidate prefixes in order with a small
//! budget and takes the first text that passes the quality gate. Where that
//! fails, or the text looks cut off, it tries again with the full budget.
//! A final transcription of long enough audio may then be refined, and one
//! that is still empty is handed to the recovery hooks. The caller runs the
//! decodes and the hooks; the plan says what is next and keeps the result.

use vstd::prelude::*;
use crate::inference::decode::{step_budget, StepBudget};
use crate::inference::decode::{fast_decode_steps, max_decode_steps, refine_decode_steps};
use crate::inference::postprocess::{postprocess_transcript_text, postprocessed};
use crate::inference::quality::{
    estimate_segment_confidence, is_low_quality_transcript_text, likely_truncated_transcript,
    low_quality_text, quality_score, segment_confidence, transcript_quality_score, truncated_text,
    AudioSpan, REFINE_SCORE_MARGIN,
};
use crate::ipc::events::{SegmentKind, SegmentModel, TranscriptSegment};
use crate::text::{chars_of, count_words, decimal, push_decimal, string_of, trim, trimmed, words_of};

verus! {

/// Why a decode gave no text.
#[derive(Debug, Clone, Copy, PartialEq, Eq, Structural)]
pub enum EmptyReason {
    DecodeNotAttempted,
    NoTokensBeforeEot,
    DecodedEmptyText,
    LowQualityCandidateFiltered,
    CloudFallbackEmptyAfterPostprocess,
    FallbackEmptyAfterPostprocess,
}

/// What one decode came to.
#[derive(Debug)]
pub struct Candidate {
    /// The tidy text, where the decode gave text that passes the quality gate.
    pub text: Option<String>,
    /// The decode used up its steps without reaching the end of the text.
    pub reached_ceiling_no_eot: bool,
    /// Why there is no text, as far as known.
    pub empty_reason: Option<EmptyReason>,
}

/// The mathematical content of a [`Candidate`].
pub struct CandidateModel {
    pub text: Option<Seq<char>>,
    pub reached_ceiling_no_eot: bool,
    pub empty_reason: Option<EmptyReason>,
}

impl View for Candidate {
    type V = CandidateModel;

    open spec fn view(&self) -> CandidateModel {
        CandidateModel {
            text: match self.text {
                Some(t) => Some(t@),
                None => None,
            },
            reached_ceiling_no_eot: self.reached_ceiling_no_eot,
            empty_reason: self.empty_reason,
        }
    }
}

/// What is made of the text that the tokenizer gave for a decode. `decoded`
/// is absent where the decode produced no text token. Text that is blank,
/// or blank once tidied, is no candidate; in a final transcription neither
/// is text that the quality gate rejects.
pub open spec fn judged(
    decoded: Option<Seq<char>>,
    generated_len: nat,
    ended_with_eot: bool,
    decode_steps: nat,
    partial: bool,
    audio: AudioSpan,
) -> CandidateModel {
    let reached = generated_len >= decode_steps && !ended_with_eot;
    match decoded {
        None => CandidateModel {
            text: None,
            reached_ceiling_no_eot: reached,
            empty_reason: Some(EmptyReason::NoTokensBeforeEot),
        },
        Some(raw) => {
            let text = trimmed(raw);
            let reason = if text.len() == 0 {
                Some(EmptyReason::DecodedEmptyText)
            } else {
                None
            };
            let tidy = postprocessed(text);
            if tidy.len() == 0 {
                CandidateModel { text: None, reached_ceiling_no_eot: reached, empty_reason: reason }
            } else if !partial && low_quality_text(tidy, audio) {
                CandidateModel {
                    text: None,
                    reached_ceiling_no_eot: reached,
                    empty_reason: Some(EmptyReason::LowQualityCandidateFiltered),
                }
            } else {
                CandidateModel {
                    text: Some(tidy),
                    reached_ceiling_no_eot: reached,
                    empty_reason: reason,
                }
            }
        },
    }
}

/// Judges the text that the tokenizer gave for a decode.
pub fn judge_candidate(
    decoded: Option<&str>,
    generated_len: usize,
    ended_with_eot: bool,
    decode_steps: usize,
    partial: bool,
    audio: AudioSpan,
) -> (c: Candidate)
    ensures
        c@ == judged(
            match decoded {
                Some(d) => Some(d@),
                None => None,
            },
            generated_len as nat,
            ended_with_eot,
            decode_steps as nat,
            partial,
            audio,
        ),
        c.text matches Some(t) ==> t@.len() > 0,
{
    let reached = generated_len >= decode_steps && !ended_with_eot;
    match decoded {
        None => Candidate {
            text: None,
            reached_ceiling_no_eot: reached,
            empty_reason: Some(EmptyReason::NoTokensBeforeEot),
        },
        Some(raw) => {
            let text = string_of(&trim(&chars_of(raw)));
            let reason = if text.as_str().unicode_len() == 0 {
                Some(EmptyReason::DecodedEmptyText)
            } else {
                None
            };
            let tidy = postprocess_transcript_text(text.as_str());
            if tidy.as_str().unicode_len() == 0 {
                Candidate { text: None, reached_ceiling_no_eot: reached, empty_reason: reason }
            } else if !partial && is_low_quality_transcript_text(tidy.as_str(), audio) {
                Candidate {
                    text: None,
                    reached_ceiling_no_eot: reached,
                    empty_reason: Some(EmptyReason::LowQualityCandidateFiltered),
                }
            } else {
                Candidate { text: Some(tidy), reached_ceiling_no_eot: reached, empty_reason: reason }
            }
        },
    }
}

/// Where a transcription stands.
#[derive(Debug, Clone, Copy, PartialEq, Eq, Structural)]
pub enum PlanPhase {
    /// Trying the prefixes with the small budget.
    Fast,
    /// Trying the prefixes again with the full budget.
    Retry,
    /// Looking for a better text with the refinement budget.
    Refine,
    /// Waiting for the first recovery hook.
    Recover,
    /// Waiting for the platform's recovery hook.
    PlatformRecover,
    /// Nothing is left to try.
    Done,
}

/// The hooks that recover text where decoding found none.
#[derive(Debug, Clone, Copy, PartialEq, Eq, Structural)]
pub enum RecoveryHook {
    Cloud,
    Platform,
}

/// What the caller is to do next.
#[derive(Debug, Clone, Copy, PartialEq, Eq, Structural)]
pub enum Attempt {
    /// Decode with the candidate prefix of this index and this step budget.
    Decode { prefix: usize, steps: usize },
    /// Ask a recovery hook for text.
    Recover { hook: RecoveryHook },
    /// Take the result.
    Finish,
}

/// The mathematical state of a [`DecodePlan`].
pub struct PlanModel {
    pub partial: bool,
    pub audio: AudioSpan,
    /// The number of candidate prefixes.
    pub prefixes: nat,
    pub refine_enabled: bool,
    pub budget: StepBudget,
    pub phase: PlanPhase,
    /// The index of the prefix to try next.
    pub next_prefix: nat,
    /// The text that stands.
    pub text: Seq<char>,
    /// The text of the fast pass looks cut off at the step limit.
    pub retry_needed: bool,
    /// The score to beat in refinement.
    pub best_score: int,
    /// The words of the text that refinement began with, 1 at least.
    pub best_words: nat,
    pub empty_reason: Option<EmptyReason>,
}

impl PlanModel {
    /// The fast pass left something for the full budget to do.
    pub open spec fn wants_retry(self) -> bool {
        &&& !self.partial
        &&& self.budget.full > self.budget.fast
        &&& (self.text.len() == 0 || self.retry_needed)
        &&& self.prefixes > 0
    }

    /// The text is worth refining: a final one, of five seconds or more, with refinement on.
    pub open spec fn wants_refine(self) -> bool {
        &&& !self.partial
        &&& self.refine_enabled
        &&& self.text.len() > 0
        &&& self.audio.lasts_at_least(5)
        &&& self.prefixes > 0
    }

    /// A final transcription is still empty.
    pub open spec fn wants_recovery(self) -> bool {
        self.text.len() == 0 && !self.partial
    }

    /// The state once refinement is over or was not called for.
    pub open spec fn enter_after_refine(self) -> PlanModel {
        PlanModel {
            phase: if self.wants_recovery() {
                PlanPhase::Recover
            } else {
                PlanPhase::Done
            },
            ..self
        }
    }

    /// The state once the retry is over or was not called for.
    pub open spec fn enter_after_retry(self) -> PlanModel {
        if self.wants_refine() {
            PlanModel {
                phase: PlanPhase::Refine,
                next_prefix: 0,
                best_score: quality_score(self.text, self.audio),
                best_words: if words_of(self.text).len() < 1 {
                    1
                } else {
                    words_of(self.text).len()
                },
                ..self
            }
        } else {
            self.enter_after_refine()
        }
    }

    /// The state once the fast pass is over.
    pub open spec fn enter_after_fast(self) -> PlanModel {
        if self.wants_retry() {
            PlanModel { phase: PlanPhase::Retry, next_prefix: 0, ..self }
        } else {
            self.enter_after_retry()
        }
    }

    /// The state once the current pass is over.
    pub open spec fn leave_pass(self) -> PlanModel {
        match self.phase {
            PlanPhase::Fast => self.enter_after_fast(),
            PlanPhase::Retry => self.enter_after_retry(),
            PlanPhase::Refine => self.enter_after_refine(),
            _ => self,
        }
    }

    /// On to the next prefix, or out of the pass behind the last one.
    pub open spec fn advance(self) -> PlanModel {
        if self.next_prefix + 1 < self.prefixes {
            PlanModel { next_prefix: self.next_prefix + 1, ..self }
        } else {
            self.leave_pass()
        }
    }

    /// Whether refinement takes `t` for the text that stands: `t` passes
    /// the quality gate, is not more than twice as long in words where the audio
    /// lasts eight seconds or less, and beats the score by the margin.
    pub open spec fn refines_with(self, t: Seq<char>) -> bool {
        &&& !low_quality_text(t, self.audio)
        &&& !(self.audio.lasts_at_most(8) && words_of(t).len() > 2 * self.best_words)
        &&& quality_score(t, self.audio) > self.best_score + REFINE_SCORE_MARGIN
    }

    /// What the caller is to do next.
    pub open spec fn next_attempt(self) -> Attempt {
        match self.phase {
            PlanPhase::Fast => Attempt::Decode {
                prefix: self.next_prefix as usize,
                steps: self.budget.fast,
            },
            PlanPhase::Retry => Attempt::Decode {
                prefix: self.next_prefix as usize,
                steps: self.budget.full,
            },
            PlanPhase::Refine => Attempt::Decode {
                prefix: self.next_prefix as usize,
                steps: self.budget.refine,
            },
            PlanPhase::Recover => Attempt::Recover { hook: RecoveryHook::Cloud },
            PlanPhase::PlatformRecover => Attempt::Recover { hook: RecoveryHook::Platform },
            PlanPhase::Done => Attempt::Finish,
        }
    }

    /// The state after the decode that was asked for came to `c`.
    pub open spec fn after_candidate(self, c: CandidateModel) -> PlanModel {
        let noted = PlanModel { empty_reason: c.empty_reason, ..self };
        match self.phase {
            PlanPhase::Fast => match c.text {
                Some(t) => (PlanModel {
                    text: t,
                    retry_needed: !self.partial && c.reached_ceiling_no_eot && truncated_text(
                        t,
                        self.audio,
                    ),
                    ..noted
                }).enter_after_fast(),
                None => noted.advance(),
            },
            PlanPhase::Retry => match c.text {
                Some(t) => (PlanModel { text: t, ..noted }).enter_after_retry(),
                None => noted.advance(),
            },
            PlanPhase::Refine => match c.text {
                Some(t) => if self.refines_with(t) {
                    (PlanModel {
                        text: t,
                        best_score: quality_score(t, self.audio),
                        ..noted
                    }).advance()
                } else {
                    noted.advance()
                },
                None => noted.advance(),
            },
            _ => self,
        }
    }

    /// The state after a recovery hook answered with `recovered`.
    pub open spec fn after_recovery(self, recovered: Option<Seq<char>>) -> PlanModel {
        match self.phase {
            PlanPhase::Recover | PlanPhase::PlatformRecover => {
                let answered = match recovered {
                    Some(raw) => {
                        let tidy = postprocessed(raw);
                        if tidy.len() == 0 {
                            PlanModel {
                                empty_reason: Some(
                                    if self.phase == PlanPhase::Recover {
                                        EmptyReason::CloudFallbackEmptyAfterPostprocess
                                    } else {
                                        EmptyReason::FallbackEmptyAfterPostprocess
                                    },
                                ),
                                ..self
                            }
                        } else {
                            PlanModel { text: tidy, empty_reason: None, ..self }
                        }
                    },
                    None => self,
                };
                PlanModel {
                    phase: if self.phase == PlanPhase::Recover && answered.text.len() == 0 {
                        PlanPhase::PlatformRecover
                    } else {
                        PlanPhase::Done
                    },
                    ..answered
                }
            },
            _ => self,
        }
    }

    /// The segment that the transcription ends with, if it found text: the
    /// text that stands, under the number of the model's utterance, partial
    /// or final as asked, a final one with its confidence.
    pub open spec fn result(self, utterance_count: u64) -> Option<SegmentModel> {
        if self.text.len() == 0 {
            None
        } else {
            Some(
                SegmentModel {
                    id: decimal(utterance_count as nat),
                    text: self.text,
                    kind: if self.partial {
                        SegmentKind::Partial
                    } else {
                        SegmentKind::Final
                    },
                    confidence: segment_confidence(self.text, self.audio, self.partial),
                },
            )
        }
    }
}

/// The state before anything was tried.
pub open spec fn initial_plan(
    partial: bool,
    audio: AudioSpan,
    prefixes: nat,
    refine_enabled: bool,
) -> PlanModel {
    let base = PlanModel {
        partial,
        audio,
        prefixes,
        refine_enabled,
        budget: StepBudget {
            fast: fast_decode_steps(audio, partial) as usize,
            full: max_decode_steps(audio, partial) as usize,
            refine: refine_decode_steps(audio) as usize,
        },
        phase: PlanPhase::Fast,
        next_prefix: 0,
        text: Seq::empty(),
        retry_needed: false,
        best_score: 0,
        best_words: 1,
        empty_reason: Some(EmptyReason::DecodeNotAttempted),
    };
    if prefixes > 0 {
        base
    } else {
        base.enter_after_fast()
    }
}

/// The plan of one transcription.
pub struct DecodePlan {
    partial: bool,
    audio: AudioSpan,
    prefixes: usize,
    refine_enabled: bool,
    budget: StepBudget,
    phase: PlanPhase,
    next_prefix: usize,
    text: String,
    retry_needed: bool,
    best_score: i128,
    best_words: usize,
    empty_reason: Option<EmptyReason>,
}

impl View for DecodePlan {
    type V = PlanModel;

    closed spec fn view(&self) -> PlanModel {
        PlanModel {
            partial: self.partial,
            audio: self.audio,
            prefixes: self.prefixes as nat,
            refine_enabled: self.refine_enabled,
            budget: self.budget,
            phase: self.phase,
            next_prefix: self.next_prefix as nat,
            text: self.text@,
            retry_needed: self.retry_needed,
            best_score: self.best_score as int,
            best_words: self.best_words as nat,
            empty_reason: self.empty_reason,
        }
    }
}

impl DecodePlan {
    /// The plan for audio of the given length with `prefixes` candidate prefixes.
    pub fn new(partial: bool, audio: AudioSpan, prefixes: usize, refine_enabled: bool) -> (plan:
        DecodePlan)
        ensures
            plan@ == initial_plan(partial, audio, prefixes as nat, refine_enabled),
    {
        let mut plan = DecodePlan {
            partial,
            audio,
            prefixes,
            refine_enabled,
            budget: step_budget(audio, partial),
            phase: PlanPhase::Fast,
            next_prefix: 0,
            text: String::new(),
            retry_needed: false,
            best_score: 0,
            best_words: 1,
            empty_reason: Some(EmptyReason::DecodeNotAttempted),
        };
        if prefixes == 0 {
            plan.leave(PlanPhase::Fast);
        }
        plan
    }

    /// What the caller is to do next.
    pub fn next_attempt(&self) -> (a: Attempt)
        ensures
            a == self@.next_attempt(),
    {
        match self.phase {
            PlanPhase::Fast => Attempt::Decode { prefix: self.next_prefix, steps: self.budget.fast },
            PlanPhase::Retry => Attempt::Decode {
                prefix: self.next_prefix,
                steps: self.budget.full,
            },
            PlanPhase::Refine => Attempt::Decode {
                prefix: self.next_prefix,
                steps: self.budget.refine,
            },
            PlanPhase::Recover => Attempt::Recover { hook: RecoveryHook::Cloud },
            PlanPhase::PlatformRecover => Attempt::Recover { hook: RecoveryHook::Platform },
            PlanPhase::Done => Attempt::Finish,
        }
    }

    /// Why there is no text, as far as known.
    pub fn empty_reason(&self) -> (r: Option<EmptyReason>)
        ensures
            r == self@.empty_reason,
    {
        self.empty_reason
    }

    /// Leaves the pass `from` for what comes after it.
    fn leave(&mut self, from: PlanPhase)
        requires
            from == PlanPhase::Fast || from == PlanPhase::Retry || from == PlanPhase::Refine,
        ensures
            final(self)@ == (PlanModel { phase: from, ..old(self)@ }).leave_pass(),
    {
        let text_is_empty = self.text.as_str().unicode_len() == 0;
        let from_fast = match from {
            PlanPhase::Fast => true,
            _ => false,
        };
        let from_refine = match from {
            PlanPhase::Refine => true,
            _ => false,
        };
        if from_fast && !self.partial && self.budget.full > self.budget.fast && (text_is_empty
            || self.retry_needed) && self.prefixes > 0 {
            self.phase = PlanPhase::Retry;
            self.next_prefix = 0;
            return ;
        }
        if !from_refine && !self.partial && self.refine_enabled && !text_is_empty
            && self.audio.at_least_seconds(5) && self.prefixes > 0 {
            self.phase = PlanPhase::Refine;
            self.next_prefix = 0;
            self.best_score = transcript_quality_score(self.text.as_str(), self.audio);
            let words = count_words(&chars_of(self.text.as_str()));
            self.best_words = if words < 1 {
                1
            } else {
                words
            };
            return ;
        }
        self.phase = if text_is_empty && !self.partial {
            PlanPhase::Recover
        } else {
            PlanPhase::Done
        };
    }

    /// On to the next prefix, or out of the pass behind the last one.
    fn step_on(&mut self)
        requires
            old(self).phase == PlanPhase::Fast || old(self).phase == PlanPhase::Retry || old(
                self,
            ).phase == PlanPhase::Refine,
        ensures
            final(self)@ == old(self)@.advance(),
    {
        if self.next_prefix < usize::MAX && self.next_prefix + 1 < self.prefixes {
            self.next_prefix += 1;
        } else {
            let from = self.phase;
            self.leave(from);
        }
    }

    /// Takes what the decode that was asked for came to.
    pub fn record_candidate(&mut self, candidate: Candidate)
        ensures
            final(self)@ == old(self)@.after_candidate(candidate@),
    {
        match self.phase {
            PlanPhase::Fast => {
                self.empty_reason = candidate.empty_reason;
                match candidate.text {
                    Some(t) => {
                        self.retry_needed = !self.partial && candidate.reached_ceiling_no_eot
                            && likely_truncated_transcript(t.as_str(), self.audio);
                        self.text = t;
                        self.leave(PlanPhase::Fast);
                    },
                    None => {
                        self.step_on();
                    },
                }
            },
            PlanPhase::Retry => {
                self.empty_reason = candidate.empty_reason;
                match candidate.text {
                    Some(t) => {
                        self.text = t;
                        self.leave(PlanPhase::Retry);
                    },
                    None => {
                        self.step_on();
                    },
                }
            },
            PlanPhase::Refine => {
                self.empty_reason = candidate.empty_reason;
                match candidate.text {
                    Some(t) => {
                        let words = count_words(&chars_of(t.as_str()));
                        let too_long = self.audio.at_most_seconds(8) && (words as u128) > 2 * (
                        self.best_words as u128);
                        if !is_low_quality_transcript_text(t.as_str(), self.audio) && !too_long {
                            let score = transcript_quality_score(t.as_str(), self.audio);
                            if self.best_score < i128::MAX - REFINE_SCORE_MARGIN && score
                                > self.best_score + REFINE_SCORE_MARGIN {
                                self.best_score = score;
                                self.text = t;
                            }
                        }
                    },
                    None => {},
                }
                self.step_on();
            },
            _ => {},
        }
    }

    /// Takes the answer of the recovery hook that was asked for.
    pub fn record_recovery(&mut self, recovered: Option<&str>)
        ensures
            final(self)@ == old(self)@.after_recovery(
                match recovered {
                    Some(r) => Some(r@),
                    None => None,
                },
            ),
    {
        let from_cloud = match self.phase {
            PlanPhase::Recover => true,
            PlanPhase::PlatformRecover => false,
            _ => {
                return ;
            },
        };
        match recovered {
            Some(raw) => {
                let tidy = postprocess_transcript_text(raw);
                if tidy.as_str().unicode_len() == 0 {
                    self.empty_reason = Some(
                        if from_cloud {
                            EmptyReason::CloudFallbackEmptyAfterPostprocess
                        } else {
                            EmptyReason::FallbackEmptyAfterPostprocess
                        },
                    );
                } else {
                    self.text = tidy;
                    self.empty_reason = None;
                }
            },
            None => {},
        }
        self.phase = if from_cloud && self.text.as_str().unicode_len() == 0 {
            PlanPhase::PlatformRecover
        } else {
            PlanPhase::Done
        };
    }

    /// The segment that the transcription ends with, if it found text.
    /// `utterance_count` is the number that the model gives the utterance.
    pub fn finish(&self, utterance_count: u64) -> (segment: Option<TranscriptSegment>)
        ensures
            match segment {
                Some(s) => Some(s@),
                None => None,
            } == self@.result(utterance_count),
    {
        if self.text.as_str().unicode_len() == 0 {
            return None;
        }
        let mut id: Vec<char> = Vec::new();
        push_decimal(&mut id, utterance_count);
        Some(
            TranscriptSegment {
                id: string_of(&id),
                text: self.text.clone(),
                kind: if self.partial {
                    SegmentKind::Partial
                } else {
                    SegmentKind::Final
                },
                confidence: estimate_segment_confidence(
                    self.text.as_str(),
                    self.audio,
                    self.partial,
                ),
            },
        )
    }
}


// ---------------------------------------------------------------------------
// Laws of the plan
// ---------------------------------------------------------------------------

/// How far a phase is from the end.
pub open spec fn phase_rank(phase: PlanPhase) -> nat {
    match phase {
        PlanPhase::Fast => 5,
        PlanPhase::Retry => 4,
        PlanPhase::Refine => 3,
        PlanPhase::Recover => 2,
        PlanPhase::PlatformRecover => 1,
        PlanPhase::Done => 0,
    }
}

/// The phase asks for a decode.
pub open spec fn is_decoding(phase: PlanPhase) -> bool {
    phase == PlanPhase::Fast || phase == PlanPhase::Retry || phase == PlanPhase::Refine
}

/// While the plan asks for a decode, the prefix that it names exists.
pub open spec fn plan_is_sound(st: PlanModel) -> bool {
    is_decoding(st.phase) ==> st.next_prefix < st.prefixes
}

/// A fresh plan is sound.
pub proof fn lemma_initial_plan_is_sound(
    partial: bool,
    audio: AudioSpan,
    prefixes: nat,
    refine_enabled: bool,
)
    ensures
        plan_is_sound(initial_plan(partial, audio, prefixes, refine_enabled)),
{
}

/// Every answer brings the plan nearer its end: it stays sound and either
/// goes on to a later phase or, within its phase, to a later prefix. So a
/// transcription asks for no more than three decodes for each prefix and
/// two recoveries.
pub proof fn lemma_plan_progresses(st: PlanModel, c: CandidateModel, recovered: Option<Seq<char>>)
    requires
        plan_is_sound(st),
    ensures
        plan_is_sound(st.after_candidate(c)),
        plan_is_sound(st.after_recovery(recovered)),
        is_decoding(st.phase) ==> {
            let next = st.after_candidate(c);
            ||| phase_rank(next.phase) < phase_rank(st.phase)
            ||| (next.phase == st.phase && next.next_prefix == st.next_prefix + 1)
        },
        st.phase == PlanPhase::Recover || st.phase == PlanPhase::PlatformRecover ==> phase_rank(
            st.after_recovery(recovered).phase,
        ) < phase_rank(st.phase),
        st.after_candidate(c).prefixes == st.prefixes,
        st.after_recovery(recovered).prefixes == st.prefixes,
{
}

/// The first text wins. In the fast pass and in the retry the first
/// candidate with text ends the pass, and its text stands.
pub proof fn lemma_first_text_wins(st: PlanModel, c: CandidateModel)
    requires
        st.phase == PlanPhase::Fast || st.phase == PlanPhase::Retry,
        c.text is Some,
    ensures
        st.after_candidate(c).text == c.text->Some_0,
        st.after_candidate(c).phase != st.phase || st.after_candidate(c).next_prefix == 0,
{
}

/// A partial transcription makes one pass: no retry, no refinement, no recovery.
pub proof fn lemma_partial_makes_one_pass(st: PlanModel, c: CandidateModel)
    requires
        st.partial,
        st.phase == PlanPhase::Fast,
    ensures
        st.after_candidate(c).phase == PlanPhase::Fast || st.after_candidate(c).phase
            == PlanPhase::Done,
        st.after_candidate(c).partial,
{
}

/// Refinement never loses the text: what stands after a refinement answer
/// is what stood before or the candidate, and it is not empty.
pub proof fn lemma_refinement_keeps_text(st: PlanModel, c: CandidateModel)
    requires
        st.phase == PlanPhase::Refine,
        st.text.len() > 0,
        c.text matches Some(t) ==> t.len() > 0,
    ensures
        st.after_candidate(c).text == st.text || Some(st.after_candidate(c).text) == c.text,
        st.after_candidate(c).text.len() > 0,
        st.after_candidate(c).phase == PlanPhase::Refine || st.after_candidate(c).phase
            == PlanPhase::Done,
{
}

/// Empty only when every path failed: the result is absent exactly where
/// no text stands, and a partial result carries no confidence.
pub proof fn lemma_result_follows_text(st: PlanModel, utterance_count: u64)
    ensures
        st.result(utterance_count) is None <==> st.text.len() == 0,
        st.result(utterance_count) matches Some(s) ==> {
            &&& s.text == st.text
            &&& (st.partial ==> s.kind == SegmentKind::Partial && s.confidence is None)
            &&& (!st.partial ==> s.kind == SegmentKind::Final)
        },
{
}

} // verus!
