use dictum_core::inference::decode::{
    banned_next_tokens_no_repeat_ngram, has_repeating_tail_pattern, step_budget, text_tokens,
    DecodeRules, DecodeState, StopReason,
};
use dictum_core::inference::plan::{
    judge_candidate, Attempt, Candidate, DecodePlan, EmptyReason, RecoveryHook,
};
use dictum_core::inference::quality::AudioSpan;
use dictum_core::ipc::events::SegmentKind;

fn rules(partial: bool, max_decode_steps: usize) -> DecodeRules {
    DecodeRules {
        eot_id: 100,
        timestamp_begin: Some(1_000),
        begin_suppress: vec![220, 100],
        always_suppress: vec![7],
        no_repeat_ngram_size: 0,
        partial,
        max_decode_steps,
    }
}

fn seconds(n: usize) -> AudioSpan {
    AudioSpan::new(n * 16_000, 16_000)
}

#[test]
fn repeating_tails_are_found() {
    assert!(has_repeating_tail_pattern(&vec![1, 2, 1, 2, 1, 2]));
    assert!(has_repeating_tail_pattern(&vec![5, 5, 5]));
    assert!(has_repeating_tail_pattern(&vec![9, 1, 2, 3, 1, 2, 3, 1, 2, 3]));
    assert!(!has_repeating_tail_pattern(&vec![1, 2, 3]));
    assert!(!has_repeating_tail_pattern(&vec![1, 2, 3, 1, 2, 3, 1, 2, 4]));
    assert!(!has_repeating_tail_pattern(&vec![]));
    assert!(!has_repeating_tail_pattern(&vec![5, 5]));
    let eight: Vec<u32> = (0..8).collect();
    let mut long = vec![77];
    for _ in 0..3 {
        long.extend(eight.iter());
    }
    assert!(has_repeating_tail_pattern(&long));
    let nine: Vec<u32> = (0..9).collect();
    let mut longer = vec![];
    for _ in 0..3 {
        longer.extend(nine.iter());
    }
    assert!(!has_repeating_tail_pattern(&longer));
}

#[test]
fn repeated_ngrams_are_banned() {
    assert_eq!(banned_next_tokens_no_repeat_ngram(&vec![9, 1, 2, 3, 1, 2], 1, 3), vec![3]);
    assert_eq!(banned_next_tokens_no_repeat_ngram(&vec![9, 1, 2, 3, 1, 2], 1, 0), Vec::<u32>::new());
    assert_eq!(banned_next_tokens_no_repeat_ngram(&vec![9, 1, 2, 3, 1, 2], 1, 1), Vec::<u32>::new());
    assert_eq!(banned_next_tokens_no_repeat_ngram(&vec![1, 2], 5, 2), Vec::<u32>::new());
    assert_eq!(banned_next_tokens_no_repeat_ngram(&vec![1], 0, 3), Vec::<u32>::new());
    // After "1" came 2, 3, and 2 again: both are banned, each once.
    assert_eq!(banned_next_tokens_no_repeat_ngram(&vec![1, 2, 1, 3, 1, 2, 1], 0, 2), vec![2, 3]);
}

#[test]
fn step_budgets_follow_the_audio() {
    let b = step_budget(seconds(1), false);
    assert_eq!((b.fast, b.full, b.refine), (24, 24, 72));
    let b = step_budget(seconds(1), true);
    assert_eq!((b.fast, b.full), (10, 10));
    let b = step_budget(seconds(3), false);
    assert_eq!((b.fast, b.full, b.refine), (33, 33, 81));
    let b = step_budget(seconds(10), false);
    assert_eq!((b.fast, b.full, b.refine), (80, 80, 128));
    let b = step_budget(seconds(30), false);
    assert_eq!((b.fast, b.full, b.refine), (160, 216, 224));
    let b = step_budget(AudioSpan::new(4 * 16_000, 16_000), false);
    assert_eq!((b.fast, b.full), (40, 40));
    // Twenty seconds need 148 steps; audio over eight seconds is capped at 160.
    let b = step_budget(seconds(20), false);
    assert_eq!((b.fast, b.full), (148, 148));
    // Long audio at a low rate runs into the ceiling.
    let b = step_budget(AudioSpan::new(usize::MAX, 1), false);
    assert_eq!((b.fast, b.full, b.refine), (160, 224, 224));
    let b = step_budget(AudioSpan::new(0, 0), false);
    assert_eq!((b.fast, b.full, b.refine), (24, 24, 72));
}

#[test]
fn tokens_are_admitted_by_the_rules() {
    let r = rules(false, 50);
    let mut st = DecodeState::new(&vec![1, 2, 3]);
    assert!(!st.is_allowed(&r, 100));
    assert!(!st.is_allowed(&r, 220));
    assert!(!st.is_allowed(&r, 7));
    assert!(!st.is_allowed(&r, 1_000));
    assert!(!st.is_allowed(&r, 1_234));
    assert!(st.is_allowed(&r, 5));
    assert!(st.is_allowed(&r, 999));
    assert_eq!(st.push_token(&r, 5), None);
    // The leading space may come now, the end of the text not yet.
    assert!(st.is_allowed(&r, 220));
    assert!(!st.is_allowed(&r, 100));
    assert_eq!(st.push_token(&r, 6), None);
    assert!(st.is_allowed(&r, 100));
    assert!(!st.is_allowed(&r, 7));
    // A partial decode may end after one step.
    let p = rules(true, 50);
    let mut st = DecodeState::new(&vec![1]);
    assert!(!st.is_allowed(&p, 100));
    st.push_token(&p, 5);
    assert!(st.is_allowed(&p, 100));
}

#[test]
fn tokens_that_fill_the_tail_are_left_out() {
    let r = rules(false, 224);
    let mut st = DecodeState::new(&vec![1]);
    // 14 occurrences of 5 with other tokens between, so that nothing else stops the decode.
    let mut filler = 10_u32;
    for i in 0..14 {
        assert!(st.is_allowed(&r, 5), "occurrence {i}");
        assert_eq!(st.tail_count(5), i);
        assert_eq!(st.push_token(&r, 5), None);
        for _ in 0..3 {
            filler += 1;
            assert_eq!(st.push_token(&r, filler), None);
        }
    }
    assert_eq!(st.tail_count(5), 14);
    assert!(!st.is_allowed(&r, 5));
    // A partial decode does not mind.
    assert!(st.is_allowed(&rules(true, 224), 5));
    // Ten more tokens push occurrences out of the last 64.
    for _ in 0..10 {
        filler += 1;
        assert_eq!(st.push_token(&r, filler), None);
    }
    assert!(st.tail_count(5) < 14);
    assert!(st.is_allowed(&r, 5));
}

#[test]
fn decode_stops_for_each_reason() {
    let r = rules(false, 5);
    let mut st = DecodeState::new(&vec![1, 2, 3]);
    for (i, t) in [10u32, 11, 12, 13].into_iter().enumerate() {
        assert_eq!(st.push_token(&r, t), None);
        assert_eq!(st.step(), i + 1);
    }
    assert_eq!(st.push_token(&r, 14), Some(StopReason::StepLimit));
    assert_eq!(st.generated_len(), 5);
    assert!(!st.ended_with_eot(100));
    // Stopped: nothing more is taken.
    assert_eq!(st.push_token(&r, 15), Some(StopReason::StepLimit));
    assert_eq!(st.tokens(), &vec![1, 2, 3, 10, 11, 12, 13, 14]);
    assert_eq!(st.stopped(), Some(StopReason::StepLimit));

    let mut st = DecodeState::new(&vec![1, 2, 3]);
    assert_eq!(st.push_token(&r, 10), None);
    assert_eq!(st.push_token(&r, 100), Some(StopReason::EndOfText));
    assert!(st.ended_with_eot(100));
    assert_eq!(st.generated_len(), 2);

    let wide = rules(false, 224);
    let mut st = DecodeState::new(&vec![1]);
    for t in [8u32, 9, 8, 9, 8] {
        assert_eq!(st.push_token(&wide, t), None);
    }
    assert_eq!(st.push_token(&wide, 9), Some(StopReason::RepeatingTail));

    let mut st = DecodeState::new(&vec![1]);
    assert_eq!(st.push_token(&wide, 4), None);
    assert_eq!(st.push_token(&wide, 4), None);
    assert_eq!(st.push_token(&wide, 4), Some(StopReason::RepeatingTail));

    // A budget of nothing still allows one step; a huge one is cut to 224.
    let mut st = DecodeState::new(&vec![1]);
    assert_eq!(st.push_token(&rules(false, 0), 4), Some(StopReason::StepLimit));
    let huge = rules(true, usize::MAX);
    let mut st = DecodeState::new(&vec![]);
    let mut stop = None;
    let mut steps = 0;
    while stop.is_none() {
        stop = st.push_token(&huge, 2_000 + steps);
        steps += 1;
    }
    assert_eq!(stop, Some(StopReason::StepLimit));
    assert_eq!(steps, 224);
}

#[test]
fn same_choices_give_the_same_tokens() {
    let r = rules(false, 30);
    let choices = [10u32, 11, 11, 12, 13, 14, 100, 15];
    let mut a = DecodeState::new(&vec![1, 2]);
    let mut b = DecodeState::new(&vec![1, 2]);
    for t in choices {
        assert_eq!(a.push_token(&r, t), b.push_token(&r, t));
        assert_eq!(a.tokens(), b.tokens());
    }
    assert_eq!(a.tokens(), &vec![1, 2, 10, 11, 11, 12, 13, 14, 100]);
}

#[test]
fn text_tokens_end_at_the_end_of_text() {
    assert_eq!(text_tokens(&vec![1, 2, 3, 10, 1_500, 11, 100, 12], 3, 100, Some(1_000)), vec![10, 11]);
    assert_eq!(text_tokens(&vec![1, 2, 3, 10, 1_500, 11, 100, 12], 3, 100, None), vec![10, 1_500, 11]);
    assert_eq!(text_tokens(&vec![1, 2, 3, 100], 3, 100, None), Vec::<u32>::new());
    assert_eq!(text_tokens(&vec![1, 2, 3], 3, 100, None), Vec::<u32>::new());
    assert_eq!(text_tokens(&vec![1, 2, 3], 9, 100, None), Vec::<u32>::new());
    assert_eq!(text_tokens(&vec![4, 5], 0, 100, Some(5)), vec![4]);
}

#[test]
fn candidates_are_judged() {
    let c = judge_candidate(Some("  hello world "), 5, true, 24, false, seconds(2));
    assert_eq!(c.text.as_deref(), Some("Hello world"));
    assert!(!c.reached_ceiling_no_eot);
    assert_eq!(c.empty_reason, None);

    let c = judge_candidate(None, 24, false, 24, false, seconds(2));
    assert_eq!(c.text, None);
    assert!(c.reached_ceiling_no_eot);
    assert_eq!(c.empty_reason, Some(EmptyReason::NoTokensBeforeEot));

    let c = judge_candidate(Some("   "), 3, true, 24, false, seconds(2));
    assert_eq!(c.text, None);
    assert_eq!(c.empty_reason, Some(EmptyReason::DecodedEmptyText));

    let c = judge_candidate(Some("?!"), 3, true, 24, false, seconds(2));
    assert_eq!(c.text, None);
    assert_eq!(c.empty_reason, None);

    let c = judge_candidate(Some("the the the the the the"), 30, true, 24, false, seconds(2));
    assert_eq!(c.text, None);
    assert!(!c.reached_ceiling_no_eot);
    assert_eq!(c.empty_reason, Some(EmptyReason::LowQualityCandidateFiltered));

    let c = judge_candidate(Some("the the the the the the"), 30, false, 24, true, seconds(2));
    assert_eq!(c.text.as_deref(), Some("The the the the the the"));
    assert!(c.reached_ceiling_no_eot);
}

fn text(t: &str) -> Candidate {
    Candidate { text: Some(t.to_string()), reached_ceiling_no_eot: false, empty_reason: None }
}

fn nothing() -> Candidate {
    Candidate { text: None, reached_ceiling_no_eot: false, empty_reason: Some(EmptyReason::NoTokensBeforeEot) }
}

#[test]
fn plan_takes_the_first_text() {
    let mut plan = DecodePlan::new(false, seconds(2), 3, false);
    assert_eq!(plan.empty_reason(), Some(EmptyReason::DecodeNotAttempted));
    assert_eq!(plan.next_attempt(), Attempt::Decode { prefix: 0, steps: 26 });
    plan.record_candidate(nothing());
    assert_eq!(plan.next_attempt(), Attempt::Decode { prefix: 1, steps: 26 });
    plan.record_candidate(text("Hello"));
    assert_eq!(plan.next_attempt(), Attempt::Finish);
    let segment = plan.finish(1).unwrap();
    assert_eq!(segment.id, "1");
    assert_eq!(segment.text, "Hello");
    assert_eq!(segment.kind, SegmentKind::Final);
    assert_eq!(segment.confidence, Some(54));
}

#[test]
fn plan_retries_with_the_full_budget_and_then_recovers() {
    let mut plan = DecodePlan::new(false, seconds(30), 2, false);
    assert_eq!(plan.next_attempt(), Attempt::Decode { prefix: 0, steps: 160 });
    plan.record_candidate(nothing());
    assert_eq!(plan.next_attempt(), Attempt::Decode { prefix: 1, steps: 160 });
    plan.record_candidate(nothing());
    assert_eq!(plan.next_attempt(), Attempt::Decode { prefix: 0, steps: 216 });
    plan.record_candidate(nothing());
    assert_eq!(plan.next_attempt(), Attempt::Decode { prefix: 1, steps: 216 });
    plan.record_candidate(nothing());
    assert_eq!(plan.next_attempt(), Attempt::Recover { hook: RecoveryHook::Cloud });
    plan.record_recovery(None);
    assert_eq!(plan.next_attempt(), Attempt::Recover { hook: RecoveryHook::Platform });
    plan.record_recovery(Some("hello   there"));
    assert_eq!(plan.next_attempt(), Attempt::Finish);
    assert_eq!(plan.empty_reason(), None);
    assert_eq!(plan.finish(9).unwrap().text, "Hello there");
}

#[test]
fn plan_retries_text_that_was_cut_off_at_the_limit() {
    let mut plan = DecodePlan::new(false, seconds(30), 2, false);
    plan.record_candidate(Candidate {
        text: Some("Only a few words".to_string()),
        reached_ceiling_no_eot: true,
        empty_reason: None,
    });
    // Cut off: the full budget gets a try, and its text replaces the first.
    assert_eq!(plan.next_attempt(), Attempt::Decode { prefix: 0, steps: 216 });
    plan.record_candidate(nothing());
    assert_eq!(plan.next_attempt(), Attempt::Decode { prefix: 1, steps: 216 });
    plan.record_candidate(text("Only a few words were said in all this time honestly."));
    assert_eq!(plan.next_attempt(), Attempt::Finish);
    assert_eq!(plan.finish(2).unwrap().text, "Only a few words were said in all this time honestly.");

    // Where the retry finds nothing, the first text stands.
    let mut plan = DecodePlan::new(false, seconds(30), 1, false);
    plan.record_candidate(Candidate {
        text: Some("Only a few words".to_string()),
        reached_ceiling_no_eot: true,
        empty_reason: None,
    });
    plan.record_candidate(nothing());
    assert_eq!(plan.next_attempt(), Attempt::Finish);
    assert_eq!(plan.finish(2).unwrap().text, "Only a few words");
}

#[test]
fn partial_plan_makes_one_pass() {
    let mut plan = DecodePlan::new(true, seconds(30), 2, true);
    assert_eq!(plan.next_attempt(), Attempt::Decode { prefix: 0, steps: 10 });
    plan.record_candidate(nothing());
    assert_eq!(plan.next_attempt(), Attempt::Decode { prefix: 1, steps: 10 });
    plan.record_candidate(nothing());
    assert_eq!(plan.next_attempt(), Attempt::Finish);
    assert!(plan.finish(1).is_none());

    let mut plan = DecodePlan::new(true, seconds(30), 2, true);
    plan.record_candidate(text("So far"));
    assert_eq!(plan.next_attempt(), Attempt::Finish);
    let segment = plan.finish(4).unwrap();
    assert_eq!(segment.kind, SegmentKind::Partial);
    assert_eq!(segment.confidence, None);
    assert_eq!(segment.id, "4");
}

#[test]
fn refinement_keeps_the_better_text() {
    let mut plan = DecodePlan::new(false, seconds(6), 3, true);
    assert_eq!(plan.next_attempt(), Attempt::Decode { prefix: 0, steps: 53 });
    plan.record_candidate(text("Hello world"));
    assert_eq!(plan.next_attempt(), Attempt::Decode { prefix: 0, steps: 101 });
    // Too long for audio of six seconds: more than twice the words.
    plan.record_candidate(text("Hello world this is a much longer and better text"));
    assert_eq!(plan.next_attempt(), Attempt::Decode { prefix: 1, steps: 101 });
    // 1270 against 465: better by more than the margin.
    plan.record_candidate(text("Hello world again."));
    assert_eq!(plan.next_attempt(), Attempt::Decode { prefix: 2, steps: 101 });
    // 1280 against 1270: not better by the margin.
    plan.record_candidate(text("Hello world againn!"));
    assert_eq!(plan.next_attempt(), Attempt::Finish);
    assert_eq!(plan.finish(1).unwrap().text, "Hello world again.");
}

#[test]
fn refinement_is_for_long_audio_only() {
    let mut plan = DecodePlan::new(false, seconds(4), 3, true);
    plan.record_candidate(text("Hello world"));
    assert_eq!(plan.next_attempt(), Attempt::Finish);
}

#[test]
fn plan_without_prefixes_goes_to_recovery() {
    let plan = DecodePlan::new(false, seconds(2), 0, true);
    assert_eq!(plan.next_attempt(), Attempt::Recover { hook: RecoveryHook::Cloud });
    let plan = DecodePlan::new(true, seconds(2), 0, true);
    assert_eq!(plan.next_attempt(), Attempt::Finish);
}

#[test]
fn recovery_that_tidies_to_nothing_is_no_text() {
    let mut plan = DecodePlan::new(false, seconds(2), 1, false);
    plan.record_candidate(nothing());
    plan.record_recovery(Some(" ... "));
    assert_eq!(plan.empty_reason(), Some(EmptyReason::CloudFallbackEmptyAfterPostprocess));
    assert_eq!(plan.next_attempt(), Attempt::Recover { hook: RecoveryHook::Platform });
    plan.record_recovery(Some("??"));
    assert_eq!(plan.empty_reason(), Some(EmptyReason::FallbackEmptyAfterPostprocess));
    assert_eq!(plan.next_attempt(), Attempt::Finish);
    assert!(plan.finish(1).is_none());
}

#[test]
fn step_filter_agrees_with_the_state() {
    let r = rules(false, 224);
    let mut st = DecodeState::new(&vec![1, 2]);
    let mut filler = 300u32;
    for round in 0..20 {
        let filter = st.step_filter(&r);
        for t in [5u32, 7, 100, 220, 999, 1_000, 301, 302] {
            assert_eq!(filter.allows(t), st.is_allowed(&r, t), "round {round} token {t}");
            assert_eq!(filter.tail_count(t), st.tail_count(t));
        }
        st.push_token(&r, 5);
        filler += 1;
        st.push_token(&r, filler);
        filler += 1;
        st.push_token(&r, filler);
    }
    assert!(!st.step_filter(&r).allows(5));
}

#[test]
fn repeated_ngrams_are_refused_in_final_decodes_only() {
    let mut r = rules(false, 224);
    r.no_repeat_ngram_size = 3;
    let mut st = DecodeState::new(&vec![900]);
    for t in [1, 2, 3, 1, 2] {
        assert_eq!(st.push_token(&r, t), None);
    }
    // "1 2 3" was seen: after "1 2" the token 3 would repeat it.
    assert!(!st.is_allowed(&r, 3));
    assert!(st.is_allowed(&r, 4));
    assert!(!st.step_filter(&r).allows(3));
    assert!(st.step_filter(&r).allows(4));
    let mut p = rules(true, 224);
    p.no_repeat_ngram_size = 3;
    assert!(st.is_allowed(&p, 3));
    assert!(st.step_filter(&p).allows(3));
    // The rule is off where the size is under 2.
    assert!(st.is_allowed(&rules(false, 224), 3));
    assert_eq!(dictum_core::inference::decode::NO_REPEAT_NGRAM_SIZE, 0);
}
