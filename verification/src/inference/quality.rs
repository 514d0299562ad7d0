//! The quality gate: telling degenerate decoder output from text.
//!
//! Decoders that lose the thread repeat themselves. The quality gate looks at the
//! words of a transcript, reduced to their letters, digits and apostrophes
//! with the letters `A` to `Z` made small, and rejects text with too few
//! different words, a word said six times in a row, a phrase of two or
//! three words said three times over, and runs of one digit. Natural
//! repetition stays below these marks and passes.

use vstd::prelude::*;
use crate::transform::is_unicode_alphanumeric;
use crate::text::{
    is_word, joined, lemma_words_of_joined, chars_equal, chars_of, count_words, is_ascii_digit,
    is_digit, is_space, is_whitespace, lower_char, split_whitespace, to_ascii_lowercase, views,
    words_of,
};

verus! {

// ---------------------------------------------------------------------------
// Words reduced for comparison
// ---------------------------------------------------------------------------

/// Whether a character counts when words are compared: a letter or a
/// digit of any script, or an apostrophe.
pub open spec fn counts_in_word(c: char) -> bool {
    is_unicode_alphanumeric(c) || c == '\''
}

/// The characters of a word that count, the letters `A` to `Z` made small.
pub open spec fn reduced_word(raw: Seq<char>) -> Seq<char>
    decreases raw.len(),
{
    if raw.len() == 0 {
        Seq::empty()
    } else if counts_in_word(raw.last()) {
        reduced_word(raw.drop_last()).push(lower_char(raw.last()))
    } else {
        reduced_word(raw.drop_last())
    }
}

/// A word as it is compared: its letters, digits and apostrophes, or the
/// word as it stands where it holds none of these. So every word is
/// compared as something, whatever it is made of.
pub open spec fn repetition_key(raw: Seq<char>) -> Seq<char> {
    if reduced_word(raw).len() > 0 {
        reduced_word(raw)
    } else {
        raw
    }
}

/// The words as they are compared, without empty ones.
pub open spec fn repetition_keys(words: Seq<Seq<char>>) -> Seq<Seq<char>>
    decreases words.len(),
{
    if words.len() == 0 {
        Seq::empty()
    } else {
        let key = repetition_key(words.last());
        if key.len() > 0 {
            repetition_keys(words.drop_last()).push(key)
        } else {
            repetition_keys(words.drop_last())
        }
    }
}

/// The words of a text as the quality gate compares them.
pub open spec fn compared_words(text: Seq<char>) -> Seq<Seq<char>> {
    repetition_keys(words_of(text))
}

/// A word as repetitions are compared.
pub fn normalize_word_for_repetition(raw: &Vec<char>) -> (key: Vec<char>)
    ensures
        key@ == repetition_key(raw@),
{
    let mut key: Vec<char> = Vec::new();
    let mut i: usize = 0;
    while i < raw.len()
        invariant
            i <= raw.len(),
            key@ == reduced_word(raw@.take(i as int)),
        decreases raw.len() - i,
    {
        let c = raw[i];
        assert(raw@.take(i + 1).drop_last() =~= raw@.take(i as int));
        if c.is_alphanumeric() || c == '\'' {
            key.push(to_ascii_lowercase(c));
        }
        i += 1;
    }
    assert(raw@.take(raw.len() as int) == raw@);
    if key.len() > 0 {
        key
    } else {
        crate::text::sub_vec(raw, 0, raw.len())
    }
}

/// The compared words of `text`.
pub fn words_for_repetition(text: &Vec<char>) -> (keys: Vec<Vec<char>>)
    ensures
        views(keys@) == compared_words(text@),
{
    let words = split_whitespace(text);
    let mut keys: Vec<Vec<char>> = Vec::new();
    let mut i: usize = 0;
    assert(views(words@).take(0) =~= Seq::<Seq<char>>::empty());
    assert(views(keys@) =~= Seq::<Seq<char>>::empty());
    while i < words.len()
        invariant
            i <= words.len(),
            views(keys@) == repetition_keys(views(words@).take(i as int)),
        decreases words.len() - i,
    {
        let key = normalize_word_for_repetition(&words[i]);
        assert(views(words@).take(i + 1).drop_last() =~= views(words@).take(i as int));
        assert(views(words@).take(i + 1).last() == words@[i as int]@);
        if key.len() > 0 {
            let ghost before = views(keys@);
            let ghost k = key@;
            keys.push(key);
            assert(views(keys@) =~= before.push(k));
        }
        i += 1;
    }
    assert(views(words@).take(words.len() as int) =~= views(words@));
    keys
}

// ---------------------------------------------------------------------------
// Measures of repetition
// ---------------------------------------------------------------------------

/// The number of different words among `words`.
pub open spec fn distinct_count(words: Seq<Seq<char>>) -> nat
    decreases words.len(),
{
    if words.len() == 0 {
        0
    } else if words.drop_last().contains(words.last()) {
        distinct_count(words.drop_last())
    } else {
        distinct_count(words.drop_last()) + 1
    }
}

/// The length of the run of one word that ends `words`.
pub open spec fn trailing_run(words: Seq<Seq<char>>) -> nat
    decreases words.len(),
{
    if words.len() == 0 {
        0
    } else if words.len() >= 2 && words[words.len() - 2] == words.last() {
        trailing_run(words.drop_last()) + 1
    } else {
        1
    }
}

/// The length of the longest run of one word in `words`.
pub open spec fn longest_run(words: Seq<Seq<char>>) -> nat
    decreases words.len(),
{
    if words.len() == 0 {
        0
    } else {
        let before = longest_run(words.drop_last());
        let here = trailing_run(words);
        if here > before {
            here
        } else {
            before
        }
    }
}

/// From `start` on, `span` words repeat with period `phrase_len`: each is
/// the word `phrase_len` places before it.
pub open spec fn periodic_at(words: Seq<Seq<char>>, start: int, phrase_len: int, span: int) -> bool {
    &&& 0 <= start
    &&& start + span <= words.len()
    &&& forall|k: int|
        start + phrase_len <= k < start + span ==> #[trigger] words[k] == words[k - phrase_len]
}

/// Some phrase of `phrase_len` words is said `repeats` times in a row.
pub open spec fn phrase_repeats(words: Seq<Seq<char>>, phrase_len: nat, repeats: nat) -> bool {
    &&& phrase_len > 0
    &&& repeats >= 2
    &&& {
        let span = (phrase_len * repeats) as int;
        exists|start: int| #[trigger] periodic_at(words, start, phrase_len as int, span)
    }
}

/// Whether `w` is among `words[..upto]`.
fn seen_before(words: &Vec<Vec<char>>, upto: usize, w: &Vec<char>) -> (b: bool)
    requires
        upto <= words.len(),
    ensures
        b == views(words@).take(upto as int).contains(w@),
{
    let ghost prefix = views(words@).take(upto as int);
    let mut j: usize = 0;
    while j < upto
        invariant
            j <= upto <= words.len(),
            prefix == views(words@).take(upto as int),
            forall|k: int| 0 <= k < j ==> prefix[k] != w@,
        decreases upto - j,
    {
        if chars_equal(&words[j], w) {
            assert(prefix[j as int] == w@);
            return true;
        }
        j += 1;
    }
    false
}

/// The number of different words among `words`.
pub fn count_distinct(words: &Vec<Vec<char>>) -> (n: usize)
    ensures
        n == distinct_count(views(words@)),
{
    let mut n: usize = 0;
    let mut i: usize = 0;
    assert(views(words@).take(0) =~= Seq::<Seq<char>>::empty());
    while i < words.len()
        invariant
            i <= words.len(),
            n <= i,
            n == distinct_count(views(words@).take(i as int)),
        decreases words.len() - i,
    {
        assert(views(words@).take(i + 1).drop_last() =~= views(words@).take(i as int));
        assert(views(words@).take(i + 1).last() == words@[i as int]@);
        if !seen_before(words, i, &words[i]) {
            n += 1;
        }
        i += 1;
    }
    assert(views(words@).take(words.len() as int) =~= views(words@));
    n
}

/// The length of the longest run of one word.
pub fn max_same_word_run(words: &Vec<Vec<char>>) -> (n: usize)
    ensures
        n == longest_run(views(words@)),
{
    if words.len() == 0 {
        return 0;
    }
    let mut max_run: usize = 1;
    let mut run: usize = 1;
    let mut i: usize = 1;
    assert(views(words@).take(1).drop_last() =~= Seq::<Seq<char>>::empty());
    assert(longest_run(views(words@).take(1).drop_last()) == 0);
    assert(trailing_run(views(words@).take(1)) == 1);
    assert(longest_run(views(words@).take(1)) == 1);
    while i < words.len()
        invariant
            1 <= i <= words.len(),
            run <= i,
            max_run <= i,
            run == trailing_run(views(words@).take(i as int)),
            max_run == longest_run(views(words@).take(i as int)),
        decreases words.len() - i,
    {
        let ghost next = views(words@).take(i + 1);
        assert(next.drop_last() =~= views(words@).take(i as int));
        assert(next.last() == words@[i as int]@);
        assert(next[next.len() - 2] == words@[i - 1]@);
        if chars_equal(&words[i], &words[i - 1]) {
            run += 1;
            if run > max_run {
                max_run = run;
            }
        } else {
            run = 1;
        }
        i += 1;
    }
    assert(views(words@).take(words.len() as int) =~= views(words@));
    max_run
}

/// Whether `span` words from `start` on repeat with period `phrase_len`.
fn is_periodic_at(words: &Vec<Vec<char>>, start: usize, phrase_len: usize, span: usize) -> (b:
    bool)
    requires
        phrase_len > 0,
        start + span <= words.len(),
    ensures
        b == periodic_at(views(words@), start as int, phrase_len as int, span as int),
{
    if span <= phrase_len {
        return true;
    }
    let mut k: usize = start + phrase_len;
    while k < start + span
        invariant
            phrase_len > 0,
            start + phrase_len <= k <= start + span <= words.len(),
            forall|j: int|
                start + phrase_len <= j < k ==> #[trigger] views(words@)[j] == views(
                    words@,
                )[j - phrase_len],
        decreases start + span - k,
    {
        if !chars_equal(&words[k], &words[k - phrase_len]) {
            assert(views(words@)[k as int] != views(words@)[k - phrase_len]);
            return false;
        }
        k += 1;
    }
    true
}

/// Whether some phrase of `phrase_len` words is said `repeats` times in a row.
pub fn has_repeating_phrase_words(words: &Vec<Vec<char>>, phrase_len: usize, repeats: usize) -> (b:
    bool)
    ensures
        b == phrase_repeats(views(words@), phrase_len as nat, repeats as nat),
{
    if phrase_len == 0 || repeats < 2 {
        return false;
    }
    let span: usize = match phrase_len.checked_mul(repeats) {
        Some(n) => n,
        None => {
            // More words than any vector holds.
            return false;
        },
    };
    assert(span as int == ((phrase_len as nat) * (repeats as nat)) as int);
    if words.len() < span {
        return false;
    }
    let last: usize = words.len() - span;
    let mut start: usize = 0;
    while start < last
        invariant
            phrase_len > 0,
            repeats >= 2,
            span as int == ((phrase_len as nat) * (repeats as nat)) as int,
            start <= last,
            last + span == words.len(),
            forall|s: int|
                0 <= s < start ==> !periodic_at(
                    views(words@),
                    s,
                    phrase_len as int,
                    span as int,
                ),
        decreases last - start,
    {
        if is_periodic_at(words, start, phrase_len, span) {
            assert(periodic_at(views(words@), start as int, phrase_len as int, span as int));
            return true;
        }
        start += 1;
    }
    let found = is_periodic_at(words, last, phrase_len, span);
    assert(forall|s: int|
        s > last ==> !periodic_at(views(words@), s, phrase_len as int, span as int));
    found
}

// ---------------------------------------------------------------------------
// Degenerate text
// ---------------------------------------------------------------------------

/// How often one word in a row makes a text degenerate.
pub const SAME_WORD_RUN_LIMIT: usize = 6;

/// The verdict of the quality gate on the words of a text: degenerate
/// where there are at least six words and either no more than two
/// different ones, or, from twelve words on, no more than 30 different ones
/// in a hundred, or one word six times in a row, or a phrase of two or of
/// three words three times in a row. A word said fewer than six times in a
/// row does not by itself make a text degenerate.
pub open spec fn degenerate_words(words: Seq<Seq<char>>) -> bool {
    &&& words.len() >= 6
    &&& {
        ||| distinct_count(words) <= 2
        ||| (words.len() >= 12 && distinct_count(words) * 100 / words.len() <= 30)
        ||| longest_run(words) >= SAME_WORD_RUN_LIMIT
        ||| phrase_repeats(words, 2, 3)
        ||| phrase_repeats(words, 3, 3)
    }
}

/// Whether the text is degenerate.
pub open spec fn degenerate_text(text: Seq<char>) -> bool {
    degenerate_words(compared_words(text))
}

/// The verdict of the quality gate on compared words.
pub fn is_degenerate_words(words: &Vec<Vec<char>>) -> (b: bool)
    ensures
        b == degenerate_words(views(words@)),
{
    if words.len() < 6 {
        return false;
    }
    let unique = count_distinct(words);
    if unique <= 2 {
        return true;
    }
    if words.len() >= 12 {
        let share: u128 = (unique as u128) * 100 / (words.len() as u128);
        if share <= 30 {
            return true;
        }
    }
    if max_same_word_run(words) >= SAME_WORD_RUN_LIMIT {
        return true;
    }
    has_repeating_phrase_words(words, 2, 3) || has_repeating_phrase_words(words, 3, 3)
}

/// Whether decoder output is dominated by repetition.
pub fn is_degenerate_transcript_text(text: &str) -> (b: bool)
    ensures
        b == degenerate_text(text@),
{
    let chars = chars_of(text);
    let words = words_for_repetition(&chars);
    is_degenerate_words(&words)
}


// ---------------------------------------------------------------------------
// Runs of one digit
// ---------------------------------------------------------------------------

/// One digit stands `n` times in a row from index `i` on.
pub open spec fn digit_run_at(s: Seq<char>, i: int, n: int) -> bool {
    &&& 0 <= i
    &&& i + n <= s.len()
    &&& n > 0
    &&& is_digit(s[i])
    &&& forall|k: int| i <= k < i + n ==> #[trigger] s[k] == s[i]
}

/// The digits of a word, in order.
pub open spec fn digits_of(w: Seq<char>) -> Seq<char>
    decreases w.len(),
{
    if w.len() == 0 {
        Seq::empty()
    } else if is_digit(w.last()) {
        digits_of(w.drop_last()).push(w.last())
    } else {
        digits_of(w.drop_last())
    }
}

/// The word holds six digits or more, and they are all the same digit.
pub open spec fn one_digit_over(w: Seq<char>) -> bool {
    let d = digits_of(w);
    d.len() >= 6 && forall|k: int| 0 <= k < d.len() ==> #[trigger] d[k] == d[0]
}

/// The text shows the decoder stuck on a digit: the same digit five times
/// in a row, or a word whose six or more digits are all the same.
pub open spec fn digit_hallucination(text: Seq<char>) -> bool {
    ||| exists|i: int| #[trigger] digit_run_at(text, i, 5)
    ||| exists|i: int|
        0 <= i < words_of(text).len() && one_digit_over(#[trigger] words_of(text)[i])
}

fn is_digit_run_at(s: &Vec<char>, i: usize, n: usize) -> (b: bool)
    requires
        n > 0,
        i + n <= s.len(),
    ensures
        b == digit_run_at(s@, i as int, n as int),
{
    if !is_ascii_digit(s[i]) {
        return false;
    }
    let mut k: usize = i;
    while k < i + n
        invariant
            i <= k <= i + n <= s.len(),
            forall|j: int| i <= j < k ==> #[trigger] s@[j] == s@[i as int],
        decreases i + n - k,
    {
        if s[k] != s[i] {
            return false;
        }
        k += 1;
    }
    true
}

fn has_digit_run(s: &Vec<char>, n: usize) -> (b: bool)
    requires
        n > 0,
    ensures
        b == exists|i: int| #[trigger] digit_run_at(s@, i, n as int),
{
    if s.len() < n {
        return false;
    }
    let last: usize = s.len() - n;
    let mut i: usize = 0;
    while i < last
        invariant
            n > 0,
            i <= last,
            last + n == s.len(),
            forall|j: int| 0 <= j < i ==> !digit_run_at(s@, j, n as int),
        decreases last - i,
    {
        if is_digit_run_at(s, i, n) {
            return true;
        }
        i += 1;
    }
    is_digit_run_at(s, last, n)
}

fn is_one_digit_over(w: &Vec<char>) -> (b: bool)
    ensures
        b == one_digit_over(w@),
{
    let mut digits: Vec<char> = Vec::new();
    let mut i: usize = 0;
    while i < w.len()
        invariant
            i <= w.len(),
            digits@ == digits_of(w@.take(i as int)),
        decreases w.len() - i,
    {
        assert(w@.take(i + 1).drop_last() =~= w@.take(i as int));
        if is_ascii_digit(w[i]) {
            digits.push(w[i]);
        }
        i += 1;
    }
    assert(w@.take(w.len() as int) == w@);
    if digits.len() < 6 {
        return false;
    }
    let mut k: usize = 1;
    while k < digits.len()
        invariant
            1 <= k <= digits.len(),
            digits.len() >= 6,
            digits@ == digits_of(w@),
            forall|j: int| 0 <= j < k ==> #[trigger] digits@[j] == digits@[0],
        decreases digits.len() - k,
    {
        if digits[k] != digits[0] {
            return false;
        }
        k += 1;
    }
    true
}

/// Whether the text shows the decoder stuck on a digit.
pub fn has_digit_hallucination(text: &str) -> (b: bool)
    ensures
        b == digit_hallucination(text@),
{
    let chars = chars_of(text);
    if has_digit_run(&chars, 5) {
        return true;
    }
    let words = split_whitespace(&chars);
    let mut i: usize = 0;
    while i < words.len()
        invariant
            i <= words.len(),
            chars@ == text@,
            !(exists|i: int| #[trigger] digit_run_at(chars@, i, 5)),
            views(words@) == words_of(chars@),
            forall|j: int| 0 <= j < i ==> !one_digit_over(#[trigger] words_of(chars@)[j]),
        decreases words.len() - i,
    {
        assert(views(words@)[i as int] == words@[i as int]@);
        if is_one_digit_over(&words[i]) {
            return true;
        }
        i += 1;
    }
    false
}

// ---------------------------------------------------------------------------
// Redacted text
// ---------------------------------------------------------------------------

/// The number of characters of `s` that are not white space.
pub open spec fn solid_count(s: Seq<char>) -> nat
    decreases s.len(),
{
    if s.len() == 0 {
        0
    } else if is_space(s.last()) {
        solid_count(s.drop_last())
    } else {
        solid_count(s.drop_last()) + 1
    }
}

/// The number of asterisks in `s`.
pub open spec fn star_count(s: Seq<char>) -> nat
    decreases s.len(),
{
    if s.len() == 0 {
        0
    } else if s.last() == '*' {
        star_count(s.drop_last()) + 1
    } else {
        star_count(s.drop_last())
    }
}

/// The text is redacted: of its six or more characters that are not white
/// space, at least 80 in a hundred are asterisks.
pub open spec fn redacted_text(s: Seq<char>) -> bool {
    solid_count(s) >= 6 && star_count(s) * 100 / solid_count(s) >= 80
}

/// Whether a recogniser blanked the text out with asterisks.
pub fn is_redacted_asterisk_text(text: &str) -> (b: bool)
    ensures
        b == redacted_text(text@),
{
    let chars = chars_of(text);
    let mut total: usize = 0;
    let mut stars: usize = 0;
    let mut i: usize = 0;
    while i < chars.len()
        invariant
            i <= chars.len(),
            total <= i,
            stars <= i,
            total == solid_count(chars@.take(i as int)),
            stars == star_count(chars@.take(i as int)),
        decreases chars.len() - i,
    {
        assert(chars@.take(i + 1).drop_last() =~= chars@.take(i as int));
        let c = chars[i];
        if !is_whitespace(c) {
            total += 1;
        }
        if c == '*' {
            stars += 1;
        }
        i += 1;
    }
    assert(chars@.take(chars.len() as int) == chars@);
    if total < 6 {
        return false;
    }
    let share: u128 = (stars as u128) * 100 / (total as u128);
    share >= 80
}

// ---------------------------------------------------------------------------
// Text against the length of the audio
// ---------------------------------------------------------------------------

/// A length of audio: a number of samples at a sample rate. A rate of 0
/// counts as 1.
#[derive(Debug, Clone, Copy, PartialEq, Eq, Structural)]
pub struct AudioSpan {
    pub samples: usize,
    pub sample_rate: u32,
}

impl AudioSpan {
    /// The rate that the span is measured by.
    pub open spec fn rate(self) -> int {
        if self.sample_rate == 0 {
            1
        } else {
            self.sample_rate as int
        }
    }

    /// The audio lasts `seconds` seconds or longer.
    pub open spec fn lasts_at_least(self, seconds: int) -> bool {
        self.samples >= seconds * self.rate()
    }

    /// The audio lasts `seconds` seconds or less.
    pub open spec fn lasts_at_most(self, seconds: int) -> bool {
        self.samples <= seconds * self.rate()
    }

    /// Audio of so many samples at the given rate.
    pub fn new(samples: usize, sample_rate: u32) -> (span: AudioSpan)
        ensures
            span.samples == samples,
            span.sample_rate == sample_rate,
    {
        AudioSpan { samples, sample_rate }
    }

    fn threshold(&self, seconds: u32) -> (t: u128)
        ensures
            t == seconds * self.rate(),
    {
        let rate: u128 = if self.sample_rate == 0 {
            1
        } else {
            self.sample_rate as u128
        };
        assert(seconds * rate <= 0xffff_ffff * 0xffff_ffff) by (nonlinear_arith)
            requires
                seconds <= 0xffff_ffff,
                rate <= 0xffff_ffff,
        ;
        (seconds as u128) * rate
    }

    /// Whether the audio lasts `seconds` seconds or longer.
    pub fn at_least_seconds(&self, seconds: u32) -> (b: bool)
        ensures
            b == self.lasts_at_least(seconds as int),
    {
        (self.samples as u128) >= self.threshold(seconds)
    }

    /// Whether the audio lasts `seconds` seconds or less.
    pub fn at_most_seconds(&self, seconds: u32) -> (b: bool)
        ensures
            b == self.lasts_at_most(seconds as int),
    {
        (self.samples as u128) <= self.threshold(seconds)
    }
}

/// Few words for the length of the audio: the decoder probably stopped
/// early. Eight words or fewer for ten seconds or more, or four or fewer
/// for six seconds or more.
pub open spec fn truncated_text(text: Seq<char>, audio: AudioSpan) -> bool {
    let words = words_of(text).len();
    (audio.lasts_at_least(10) && words <= 8) || (audio.lasts_at_least(6) && words <= 4)
}

/// The verdict of the quality gate: the text is degenerate, or shows a digit
/// hallucination, or is a word for eight seconds or more, or two words for
/// fourteen seconds or more.
pub open spec fn low_quality_text(text: Seq<char>, audio: AudioSpan) -> bool {
    let words = words_of(text).len();
    ||| degenerate_text(text)
    ||| digit_hallucination(text)
    ||| (audio.lasts_at_least(8) && words <= 1)
    ||| (audio.lasts_at_least(14) && words <= 2)
}

/// Whether the decoder probably stopped before the end of the audio.
pub fn likely_truncated_transcript(text: &str, audio: AudioSpan) -> (b: bool)
    ensures
        b == truncated_text(text@, audio),
{
    let chars = chars_of(text);
    let words = count_words(&chars);
    (audio.at_least_seconds(10) && words <= 8) || (audio.at_least_seconds(6) && words <= 4)
}

/// Whether the quality gate rejects the text as a transcript of `audio`.
pub fn is_low_quality_transcript_text(text: &str, audio: AudioSpan) -> (b: bool)
    ensures
        b == low_quality_text(text@, audio),
{
    if is_degenerate_transcript_text(text) {
        return true;
    }
    if has_digit_hallucination(text) {
        return true;
    }
    let chars = chars_of(text);
    let words = count_words(&chars);
    (audio.at_least_seconds(8) && words <= 1) || (audio.at_least_seconds(14) && words <= 2)
}

// ---------------------------------------------------------------------------
// Scores
// ---------------------------------------------------------------------------

/// Whether the text ends a sentence: its last character is `.`, `!` or `?`.
pub open spec fn ends_sentence(text: Seq<char>) -> bool {
    text.len() > 0 && (text.last() == '.' || text.last() == '!' || text.last() == '?')
}

/// The score by which candidates are compared, in thousandths: 550 a
/// word, 15 a character and 150 for a closed sentence, less 800 for a text
/// that looks cut off and 2200 for a degenerate one.
pub open spec fn quality_score(text: Seq<char>, audio: AudioSpan) -> int {
    words_of(text).len() * 550 + text.len() * 15 + (if ends_sentence(text) {
        150int
    } else {
        0
    }) - (if truncated_text(text, audio) {
        800int
    } else {
        0
    }) - (if degenerate_text(text) {
        2200int
    } else {
        0
    })
}

/// The least margin, in thousandths, by which a refined candidate must beat the best so far.
pub const REFINE_SCORE_MARGIN: i128 = 700;

/// The score of a candidate text, in thousandths.
pub fn transcript_quality_score(text: &str, audio: AudioSpan) -> (score: i128)
    ensures
        score == quality_score(text@, audio),
{
    let chars = chars_of(text);
    let words: i128 = count_words(&chars) as i128;
    let n: i128 = chars.len() as i128;
    proof {
        crate::text::lemma_words_are_solid(chars@);
    }
    let punctuation_bonus: i128 = if chars.len() > 0 && (chars[chars.len() - 1] == '.'
        || chars[chars.len() - 1] == '!' || chars[chars.len() - 1] == '?') {
        150
    } else {
        0
    };
    let truncation_penalty: i128 = if likely_truncated_transcript(text, audio) {
        800
    } else {
        0
    };
    let repetition_penalty: i128 = if is_degenerate_transcript_text(text) {
        2200
    } else {
        0
    };
    words * 550 + n * 15 + punctuation_bonus - truncation_penalty - repetition_penalty
}

/// The confidence of a final segment, in hundredths: 52, and 2 for each of
/// the first 18 words, less 18 for a text that looks cut off and 24 for one
/// that the quality gate rejects; never under 5 nor over 98. A partial
/// segment and a blank text have none.
pub open spec fn segment_confidence(text: Seq<char>, audio: AudioSpan, partial: bool) -> Option<u8> {
    if partial || crate::text::trimmed(text).len() == 0 {
        None
    } else {
        let words = words_of(text).len();
        let counted = if words < 18 {
            words as int
        } else {
            18
        };
        let raw = 52 + counted * 2 - (if truncated_text(text, audio) {
            18int
        } else {
            0
        }) - (if low_quality_text(text, audio) {
            24int
        } else {
            0
        });
        Some(
            if raw < 5 {
                5u8
            } else if raw > 98 {
                98u8
            } else {
                raw as u8
            },
        )
    }
}

/// The confidence of a segment, in hundredths.
pub fn estimate_segment_confidence(text: &str, audio: AudioSpan, partial: bool) -> (c: Option<u8>)
    ensures
        c == segment_confidence(text@, audio, partial),
        c matches Some(v) ==> 5 <= v <= 98,
        partial ==> c is None,
{
    if partial {
        return None;
    }
    let chars = chars_of(text);
    let trimmed = crate::text::trim(&chars);
    if trimmed.len() == 0 {
        return None;
    }
    let words = count_words(&chars);
    let counted: u8 = if words < 18 {
        words as u8
    } else {
        18
    };
    let mut confidence: u8 = 52 + counted * 2;
    if likely_truncated_transcript(text, audio) {
        confidence -= 18;
    }
    if is_low_quality_transcript_text(text, audio) {
        confidence -= 24;
    }
    if confidence < 5 {
        Some(5)
    } else if confidence > 98 {
        Some(98)
    } else {
        Some(confidence)
    }
}

// ---------------------------------------------------------------------------
// Laws of the quality gate
// ---------------------------------------------------------------------------

/// One word said `n` times.
pub open spec fn said_over(word: Seq<char>, n: nat) -> Seq<Seq<char>> {
    Seq::new(n, |i: int| word)
}

/// One word, six times or more, is degenerate.
pub proof fn lemma_one_word_repeated_is_degenerate(word: Seq<char>, n: nat)
    requires
        n >= 6,
    ensures
        degenerate_words(said_over(word, n)),
        longest_run(said_over(word, n)) == n,
{
    lemma_run_of_one_word(word, n);
}

/// One word said `n` times is one run of `n`.
proof fn lemma_run_of_one_word(word: Seq<char>, n: nat)
    ensures
        trailing_run(said_over(word, n)) == n,
        longest_run(said_over(word, n)) == n,
    decreases n,
{
    if n > 0 {
        assert(said_over(word, n).drop_last() =~= said_over(word, (n - 1) as nat));
        lemma_run_of_one_word(word, (n - 1) as nat);
    }
}

/// A phrase of two words said three times in a row, anywhere, is degenerate.
pub proof fn lemma_phrase_said_three_times_is_degenerate(
    words: Seq<Seq<char>>,
    start: int,
    first: Seq<char>,
    second: Seq<char>,
)
    requires
        0 <= start,
        start + 6 <= words.len(),
        words.subrange(start, start + 6) == seq![first, second, first, second, first, second],
    ensures
        degenerate_words(words),
{
    let phrase = seq![first, second, first, second, first, second];
    assert forall|k: int| start + 2 <= k < start + 6 implies #[trigger] words[k] == words[k
        - 2] by {
        assert(words[k] == words.subrange(start, start + 6)[k - start]);
        assert(words[k - 2] == words.subrange(start, start + 6)[k - 2 - start]);
    }
    assert(periodic_at(words, start, 2, 6));
    assert(periodic_at(words, start, 2nat as int, (2nat * 3nat) as int));
    assert(phrase_repeats(words, 2, 3));
}

/// Every word is compared as something.
pub proof fn lemma_every_word_is_compared(word: Seq<char>)
    requires
        word.len() > 0,
    ensures
        repetition_key(word).len() > 0,
{
}

/// The compared words of one word said over.
proof fn lemma_keys_of_said_over(word: Seq<char>, n: nat)
    requires
        word.len() > 0,
    ensures
        repetition_keys(said_over(word, n)) == said_over(repetition_key(word), n),
    decreases n,
{
    if n > 0 {
        assert(said_over(word, n).drop_last() =~= said_over(word, (n - 1) as nat));
        lemma_keys_of_said_over(word, (n - 1) as nat);
        assert(said_over(repetition_key(word), (n - 1) as nat).push(repetition_key(word))
            =~= said_over(repetition_key(word), n));
    } else {
        assert(repetition_keys(said_over(word, n)) =~= said_over(repetition_key(word), n));
    }
}

/// A text that is one word, said six times or more with single spaces
/// between, is degenerate, whatever the word is made of.
pub proof fn lemma_repeated_word_text_is_degenerate(word: Seq<char>, n: nat)
    requires
        n >= 6,
        is_word(word),
    ensures
        degenerate_text(joined(said_over(word, n))),
{
    lemma_words_of_joined(said_over(word, n));
    lemma_keys_of_said_over(word, n);
    lemma_one_word_repeated_is_degenerate(repetition_key(word), n);
}

/// A text that is a phrase of two words said three times, with single
/// spaces between, is degenerate, whatever the words are made of.
pub proof fn lemma_repeated_phrase_text_is_degenerate(first: Seq<char>, second: Seq<char>)
    requires
        is_word(first),
        is_word(second),
    ensures
        degenerate_text(joined(seq![first, second, first, second, first, second])),
{
    let words = seq![first, second, first, second, first, second];
    lemma_words_of_joined(words);
    let a = repetition_key(first);
    let b = repetition_key(second);
    reveal_with_fuel(repetition_keys, 8);
    assert(words.drop_last() =~= seq![first, second, first, second, first]);
    assert(words.drop_last().drop_last() =~= seq![first, second, first, second]);
    assert(words.drop_last().drop_last().drop_last() =~= seq![first, second, first]);
    assert(words.drop_last().drop_last().drop_last().drop_last() =~= seq![first, second]);
    assert(words.drop_last().drop_last().drop_last().drop_last().drop_last() =~= seq![first]);
    assert(seq![first].drop_last() =~= Seq::<Seq<char>>::empty());
    assert(repetition_keys(words) =~= seq![a, b, a, b, a, b]);
    assert(repetition_keys(words).subrange(0, 6) =~= seq![a, b, a, b, a, b]);
    lemma_phrase_said_three_times_is_degenerate(repetition_keys(words), 0, a, b);
}

/// Repetition below the marks passes: a text with more than two
/// different words, with more than 30 different ones in a hundred from
/// twelve words on, is degenerate only through a word said six times in a
/// row or a phrase of two or three words said three times in a row. A word
/// said up to five times in a row does not make it so.
pub proof fn lemma_short_runs_pass(words: Seq<Seq<char>>)
    requires
        distinct_count(words) > 2,
        words.len() < 12 || distinct_count(words) * 100 / words.len() > 30,
        longest_run(words) < 6,
        !phrase_repeats(words, 2, 3),
        !phrase_repeats(words, 3, 3),
    ensures
        !degenerate_words(words),
{
}

} // verus!
