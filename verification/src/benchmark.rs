//! Measuring the engine on recorded speech: how a fixture is classed and
//! how a transcript is held against the text that was expected.

use vstd::prelude::*;
use vstd::string::*;
use crate::text::{
    chars_equal, chars_of, contains, eq_ignore_ascii_case, has_infix, is_ascii_alnum,
    is_ascii_alphanumeric, lower, lower_char, lowered, same_ignoring_case, split_whitespace,
    to_ascii_lowercase, trim, trimmed, views, words_of,
};

verus! {

/// The class of a fixture by its path, in small letters: the first of the
/// words `quiet`, `whisper`, `noisy` or `noise`, and `long` that the path
/// holds tells the class.
pub open spec fn category_of(path: Seq<char>) -> Seq<char> {
    let p = lowered(path);
    if has_infix(p, "quiet"@) {
        "quiet_speech"@
    } else if has_infix(p, "whisper"@) {
        "whisper_speech"@
    } else if has_infix(p, "noisy"@) || has_infix(p, "noise"@) {
        "noisy_room"@
    } else if has_infix(p, "long"@) {
        "long_form"@
    } else {
        "other"@
    }
}

/// The class of a fixture by its path.
pub fn category_for(path: &str) -> (category: String)
    ensures
        category@ == category_of(path@),
{
    let p = lower(&chars_of(path));
    if contains(&p, &chars_of("quiet")) {
        String::from_str("quiet_speech")
    } else if contains(&p, &chars_of("whisper")) {
        String::from_str("whisper_speech")
    } else if contains(&p, &chars_of("noisy")) || contains(&p, &chars_of("noise")) {
        String::from_str("noisy_room")
    } else if contains(&p, &chars_of("long")) {
        String::from_str("long_form")
    } else {
        String::from_str("other")
    }
}

/// The places, among the first `n`, at which two word lists have the same word.
pub open spec fn matches_within(a: Seq<Seq<char>>, b: Seq<Seq<char>>, n: int) -> nat
    decreases n,
{
    if n <= 0 {
        0
    } else {
        matches_within(a, b, n - 1) + if a[n - 1] == b[n - 1] {
            1nat
        } else {
            0nat
        }
    }
}

/// A word as transcripts are held against each other: its letters `A` to
/// `Z` and `a` to `z`, digits and apostrophes, the letters small.
pub open spec fn plain_word(raw: Seq<char>) -> Seq<char>
    decreases raw.len(),
{
    if raw.len() == 0 {
        Seq::empty()
    } else if is_ascii_alnum(raw.last()) || raw.last() == '\'' {
        plain_word(raw.drop_last()).push(lower_char(raw.last()))
    } else {
        plain_word(raw.drop_last())
    }
}

/// The words as they are held against each other, without those that reduce to nothing.
pub open spec fn plain_words(words: Seq<Seq<char>>) -> Seq<Seq<char>>
    decreases words.len(),
{
    if words.len() == 0 {
        Seq::empty()
    } else {
        let key = plain_word(words.last());
        if key.len() > 0 {
            plain_words(words.drop_last()).push(key)
        } else {
            plain_words(words.drop_last())
        }
    }
}

/// The words of a text as transcripts are held against each other.
pub open spec fn compared_words(text: Seq<char>) -> Seq<Seq<char>> {
    plain_words(words_of(text))
}

fn plain_word_of(raw: &Vec<char>) -> (key: Vec<char>)
    ensures
        key@ == plain_word(raw@),
{
    let mut key: Vec<char> = Vec::new();
    let mut i: usize = 0;
    while i < raw.len()
        invariant
            i <= raw.len(),
            key@ == plain_word(raw@.take(i as int)),
        decreases raw.len() - i,
    {
        let c = raw[i];
        assert(raw@.take(i + 1).drop_last() =~= raw@.take(i as int));
        if is_ascii_alphanumeric(c) || c == '\'' {
            key.push(to_ascii_lowercase(c));
        }
        i += 1;
    }
    assert(raw@.take(raw.len() as int) == raw@);
    key
}

/// The words of a text as transcripts are held against each other.
pub fn words_for_comparison(text: &Vec<char>) -> (keys: Vec<Vec<char>>)
    ensures
        views(keys@) == compared_words(text@),
{
    let words = split_whitespace(text);
    let mut keys: Vec<Vec<char>> = Vec::new();
    let mut i: usize = 0;
    assert(views(words@).take(0) =~= Seq::<Seq<char>>::empty());
    assert(views(keys@) =~= Seq::<Seq<char>>::empty());
    while i < words.len()
        invariant
            i <= words.len(),
            views(keys@) == plain_words(views(words@).take(i as int)),
        decreases words.len() - i,
    {
        let key = plain_word_of(&words[i]);
        assert(views(words@).take(i + 1).drop_last() =~= views(words@).take(i as int));
        assert(views(words@).take(i + 1).last() == words@[i as int]@);
        if key.len() > 0 {
            let ghost before = views(keys@);
            let ghost k = key@;
            keys.push(key);
            assert(views(keys@) =~= before.push(k));
        }
        i += 1;
    }
    assert(views(words@).take(words.len() as int) =~= views(words@));
    keys
}

/// How a transcript overlaps with the text that was expected: the number
/// of places at which both have the same word, and the length of the
/// longer of the two in words. Where either has no word, nothing can be said.
pub open spec fn overlap_of(expected: Seq<char>, actual: Seq<char>) -> Option<(nat, nat)> {
    let r = compared_words(expected);
    let h = compared_words(actual);
    if r.len() == 0 || h.len() == 0 {
        None
    } else {
        Some(
            (
                matches_within(
                    r,
                    h,
                    if r.len() < h.len() {
                        r.len() as int
                    } else {
                        h.len() as int
                    },
                ),
                if r.len() < h.len() {
                    h.len()
                } else {
                    r.len()
                },
            ),
        )
    }
}

/// The overlap of a transcript with the expected text: matching places
/// and the length of the longer text, in words.
pub fn overlap_counts(expected: &str, actual: &str) -> (r: Option<(usize, usize)>)
    ensures
        match r {
            Some((matched, span)) => Some((matched as nat, span as nat)),
            None => None,
        } == overlap_of(expected@, actual@),
        r matches Some((matched, span)) ==> matched <= span && span > 0,
{
    let ref_words = words_for_comparison(&chars_of(expected));
    let hyp_words = words_for_comparison(&chars_of(actual));
    if ref_words.len() == 0 || hyp_words.len() == 0 {
        return None;
    }
    let span = if ref_words.len() < hyp_words.len() {
        hyp_words.len()
    } else {
        ref_words.len()
    };
    let shorter = if ref_words.len() < hyp_words.len() {
        ref_words.len()
    } else {
        hyp_words.len()
    };
    let mut matched: usize = 0;
    let mut i: usize = 0;
    while i < shorter
        invariant
            i <= shorter,
            shorter <= ref_words.len(),
            shorter <= hyp_words.len(),
            matched <= i,
            matched == matches_within(views(ref_words@), views(hyp_words@), i as int),
        decreases shorter - i,
    {
        assert(views(ref_words@)[i as int] == ref_words@[i as int]@);
        assert(views(hyp_words@)[i as int] == hyp_words@[i as int]@);
        if chars_equal(&ref_words[i], &hyp_words[i]) {
            matched += 1;
        }
        i += 1;
    }
    Some((matched, span))
}

/// Whether a text is the placeholder that stands for speech without a transcript.
pub open spec fn is_placeholder(text: Seq<char>) -> bool {
    same_ignoring_case(trimmed(text), "[speech captured]"@)
}

/// Whether a text is the placeholder.
pub fn is_placeholder_text(text: &str) -> (b: bool)
    ensures
        b == is_placeholder(text@),
{
    eq_ignore_ascii_case(&trim(&chars_of(text)), &chars_of("[speech captured]"))
}

/// The number of benchmark iterations: what was asked for, between 1 and 10.
pub fn clamp_iterations(asked: usize) -> (n: usize)
    ensures
        1 <= n <= 10,
        1 <= asked <= 10 ==> n == asked,
        asked < 1 ==> n == 1,
        asked > 10 ==> n == 10,
{
    if asked < 1 {
        1
    } else if asked > 10 {
        10
    } else {
        asked
    }
}

} // verus!
