use dictum_core::inference::postprocess::{capitalize_sentence_starts, postprocess_transcript_text};
use dictum_core::inference::quality::{
    count_distinct, estimate_segment_confidence, has_digit_hallucination, has_repeating_phrase_words,
    is_degenerate_transcript_text, is_low_quality_transcript_text, is_redacted_asterisk_text,
    likely_truncated_transcript, max_same_word_run, normalize_word_for_repetition,
    transcript_quality_score, words_for_repetition, AudioSpan, SAME_WORD_RUN_LIMIT,
};

fn cs(s: &str) -> Vec<char> {
    s.chars().collect()
}

fn words(s: &str) -> Vec<Vec<char>> {
    s.split_whitespace().map(cs).collect()
}

fn seconds(n: usize) -> AudioSpan {
    AudioSpan::new(n * 16_000, 16_000)
}

#[test]
fn one_word_six_times_is_degenerate() {
    assert!(is_degenerate_transcript_text("the the the the the the"));
    assert!(is_degenerate_transcript_text("No. no, NO! no no... no no no"));
    assert!(!is_degenerate_transcript_text("the the the the the"));
    // Whatever the word is made of.
    assert!(is_degenerate_transcript_text("да да да да да да"));
    assert!(is_degenerate_transcript_text("д д д д д д"));
    assert!(is_degenerate_transcript_text("你好 你好 你好 你好 你好 你好 你好"));
    assert!(is_degenerate_transcript_text("... ... ... ... ... ..."));
    assert!(is_degenerate_transcript_text("well -- -- -- -- -- -- then so it goes on"));
    assert!(!is_degenerate_transcript_text("да да да да да"));
}

#[test]
fn two_word_phrase_three_times_is_degenerate() {
    assert!(is_degenerate_transcript_text("go home go home go home"));
    assert!(is_degenerate_transcript_text("well I think thank you thank you thank you for coming today"));
}

#[test]
fn natural_repetition_passes() {
    assert!(!is_degenerate_transcript_text("we went to the store and we went to the park"));
    assert!(!is_degenerate_transcript_text("I said that that was the plan and that is what we did today"));
    assert!(!is_degenerate_transcript_text(""));
    assert!(!is_degenerate_transcript_text("yes yes yes"));
    // A word three, four or five times in a row is below the mark.
    assert!(!is_degenerate_transcript_text("it was a very very very good day"));
    assert!(!is_degenerate_transcript_text("so very very very very good indeed"));
    assert!(!is_degenerate_transcript_text("it was a very very very very very good day"));
    assert!(!is_degenerate_transcript_text("это было очень очень очень хорошо сегодня"));
    // Six times is not.
    assert!(is_degenerate_transcript_text("it was a very very very very very very good day"));
}

#[test]
fn low_share_of_different_words_is_degenerate() {
    // Twelve words, three different ones, no word six times in a row, no phrase three times.
    let text = "a a b a a c b b a c c a";
    assert_eq!(count_distinct(&words(text)), 3);
    assert!(is_degenerate_transcript_text(text));
    // Twelve words, four different ones: 33 in a hundred.
    assert!(!is_degenerate_transcript_text("a a b a a c b b d c c a"));
}

#[test]
fn word_runs_are_measured() {
    assert_eq!(max_same_word_run(&words("x a a a a y z")), 4);
    assert_eq!(max_same_word_run(&words("a b a b")), 1);
    assert_eq!(max_same_word_run(&words("")), 0);
    assert_eq!(max_same_word_run(&words("a a b b b")), 3);
    assert_eq!(max_same_word_run(&words("a a a a a a b")), 6);
    assert_eq!(SAME_WORD_RUN_LIMIT, 6);
}

#[test]
fn three_word_phrase_three_times_is_found() {
    let w = words("x a b c a b c a b c y");
    assert!(has_repeating_phrase_words(&w, 3, 3));
    assert!(!has_repeating_phrase_words(&w, 2, 3));
    assert!(!has_repeating_phrase_words(&w, 3, 4));
    assert!(!has_repeating_phrase_words(&w, 0, 3));
    assert!(!has_repeating_phrase_words(&w, 3, 1));
    assert!(!has_repeating_phrase_words(&words("a b"), 3, 3));
}

#[test]
fn words_are_reduced_for_comparison() {
    assert_eq!(normalize_word_for_repetition(&cs("Don't!")), cs("don't"));
    assert_eq!(normalize_word_for_repetition(&cs("Ünïcode,")), cs("Ünïcode"));
    assert_eq!(normalize_word_for_repetition(&cs("«Да!»")), cs("Да"));
    assert_eq!(normalize_word_for_repetition(&cs("你好。")), cs("你好"));
    // A word without letters and digits is compared as it stands.
    assert_eq!(normalize_word_for_repetition(&cs("...")), cs("..."));
    assert_eq!(normalize_word_for_repetition(&cs("")), cs(""));
    assert_eq!(
        words_for_repetition(&cs("Hello, -- WORLD!")),
        vec![cs("hello"), cs("--"), cs("world")]
    );
}

#[test]
fn digit_hallucinations_are_found() {
    assert!(has_digit_hallucination("call 11111 now"));
    assert!(has_digit_hallucination("1-1-1-1-1-1"));
    assert!(has_digit_hallucination("x99999"));
    assert!(!has_digit_hallucination("12345"));
    assert!(!has_digit_hallucination("1111"));
    assert!(!has_digit_hallucination("1-1-1-1-1"));
    assert!(!has_digit_hallucination("1 1 1 1 1 1"));
    assert!(!has_digit_hallucination("1-1-1-2-1-1"));
    assert!(!has_digit_hallucination(""));
}

#[test]
fn redacted_text_is_found() {
    assert!(is_redacted_asterisk_text("******"));
    assert!(is_redacted_asterisk_text("*** ***"));
    assert!(is_redacted_asterisk_text("*****a"));
    assert!(!is_redacted_asterisk_text("**** ab"));
    assert!(!is_redacted_asterisk_text("*****"));
    assert!(is_redacted_asterisk_text("********ab"));
    assert!(!is_redacted_asterisk_text("*******abc"));
    assert!(!is_redacted_asterisk_text(""));
}

#[test]
fn audio_spans_compare_exactly() {
    let span = AudioSpan::new(64_000, 16_000);
    assert!(span.at_least_seconds(4));
    assert!(span.at_most_seconds(4));
    assert!(!span.at_least_seconds(5));
    assert!(AudioSpan::new(64_001, 16_000).at_least_seconds(4));
    assert!(!AudioSpan::new(64_001, 16_000).at_most_seconds(4));
    assert!(AudioSpan::new(5, 0).at_least_seconds(5));
    assert!(!AudioSpan::new(5, 0).at_least_seconds(6));
}

#[test]
fn truncation_is_judged_by_words_for_the_length() {
    assert!(likely_truncated_transcript("one two three four five six seven eight", seconds(10)));
    assert!(!likely_truncated_transcript("one two three four five six seven eight nine", seconds(10)));
    assert!(likely_truncated_transcript("one two three four", seconds(6)));
    assert!(!likely_truncated_transcript("one two three four five", seconds(6)));
    assert!(!likely_truncated_transcript("one", seconds(5)));
}

#[test]
fn low_quality_covers_every_reason() {
    assert!(is_low_quality_transcript_text("the the the the the the", seconds(1)));
    assert!(is_low_quality_transcript_text("pin 00000", seconds(1)));
    assert!(is_low_quality_transcript_text("hello", seconds(8)));
    assert!(!is_low_quality_transcript_text("hello", seconds(7)));
    assert!(is_low_quality_transcript_text("hello world", seconds(14)));
    assert!(!is_low_quality_transcript_text("hello world", seconds(13)));
    assert!(!is_low_quality_transcript_text("hello big world", seconds(30)));
}

#[test]
fn score_counts_words_characters_and_penalties() {
    assert_eq!(transcript_quality_score("Hello world.", seconds(2)), 1_430);
    assert_eq!(transcript_quality_score("Hello world", seconds(2)), 1_265);
    assert_eq!(transcript_quality_score("Hello world", seconds(6)), 465);
    assert_eq!(transcript_quality_score("", seconds(2)), 0);
    // Six words, 23 characters, degenerate, and cut off for ten seconds.
    assert_eq!(
        transcript_quality_score("the the the the the the", seconds(10)),
        6 * 550 + 23 * 15 - 800 - 2_200
    );
}

#[test]
fn confidence_is_in_hundredths() {
    assert_eq!(estimate_segment_confidence("hello world", seconds(2), false), Some(56));
    assert_eq!(estimate_segment_confidence("hello world", seconds(10), false), Some(38));
    assert_eq!(estimate_segment_confidence("hello world", seconds(15), false), Some(14));
    assert_eq!(estimate_segment_confidence("hello world", seconds(2), true), None);
    assert_eq!(estimate_segment_confidence("   ", seconds(2), false), None);
    let long = "a b c d e f g h i j k l m n o p q r s t u v w x y z";
    assert_eq!(estimate_segment_confidence(long, seconds(2), false), Some(88));
}

#[test]
fn postprocessing_tidies_text() {
    assert_eq!(postprocess_transcript_text("  hello   world  "), "Hello world");
    assert_eq!(postprocess_transcript_text("hello , world !"), "Hello, world!");
    assert_eq!(postprocess_transcript_text(", and then i said so"), "And then I said so");
    assert_eq!(
        postprocess_transcript_text("one two three four five six seven eight"),
        "One two three four five six seven eight."
    );
    assert_eq!(
        postprocess_transcript_text("one two three four five six seven eight!"),
        "One two three four five six seven eight!"
    );
    assert_eq!(postprocess_transcript_text("one two three four five six seven"), "One two three four five six seven");
    assert_eq!(postprocess_transcript_text("hello. how are you? fine"), "Hello. How are you? Fine");
    assert_eq!(postprocess_transcript_text("   "), "");
    assert_eq!(postprocess_transcript_text(""), "");
    assert_eq!(postprocess_transcript_text("...!?"), "");
    assert_eq!(postprocess_transcript_text("42 is the answer"), "42 Is the answer");
    assert_eq!(postprocess_transcript_text("i think i'm right"), "I think i'm right");
    assert_eq!(postprocess_transcript_text("tab\tand\nnewline"), "Tab and newline");
}

#[test]
fn sentence_starts_are_capitalized() {
    let out: String = capitalize_sentence_starts(&cs("ok. 3 apples! \"yes\"? no")).iter().collect();
    assert_eq!(out, "Ok. 3 Apples! \"Yes\"? No");
    let out: String = capitalize_sentence_starts(&cs("")).iter().collect();
    assert_eq!(out, "");
    let out: String = capitalize_sentence_starts(&cs("ärger. ok")).iter().collect();
    assert_eq!(out, "äRger. Ok");
}

#[test]
fn a_phrase_longer_than_any_text_never_repeats() {
    let w = words("a a a a a a");
    assert!(!has_repeating_phrase_words(&w, usize::MAX, 2));
    assert!(!has_repeating_phrase_words(&w, usize::MAX / 2 + 1, 3));
    assert!(has_repeating_phrase_words(&w, 1, 6));
    assert!(!has_repeating_phrase_words(&w, 1, 7));
}
