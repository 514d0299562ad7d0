//! Tidying decoder output into readable text.

use vstd::prelude::*;
use crate::inference::quality::ends_sentence;
use crate::text::{
    chars_of, is_ascii_alphabetic, is_ascii_letter, is_space, is_whitespace, join_with_space,
    joined, skip_spaces, split_whitespace, string_of, sub_vec, to_ascii_uppercase, trim,
    trim_start, trimmed, trimmed_start, upper_char, views, words_of,
};

verus! {

/// Punctuation that closes up to the word before it.
pub open spec fn is_punctuation(c: char) -> bool {
    c == '.' || c == ',' || c == '!' || c == '?' || c == ';' || c == ':'
}

/// Punctuation that ends a sentence.
pub open spec fn is_sentence_end(c: char) -> bool {
    c == '.' || c == '!' || c == '?'
}

fn punctuation(c: char) -> (b: bool)
    ensures
        b == is_punctuation(c),
{
    c == '.' || c == ',' || c == '!' || c == '?' || c == ';' || c == ':'
}

fn sentence_end(c: char) -> (b: bool)
    ensures
        b == is_sentence_end(c),
{
    c == '.' || c == '!' || c == '?'
}

/// White space squeezed and closed up: each stretch of white space becomes
/// one space, and a space before punctuation goes.
pub open spec fn compacted(s: Seq<char>) -> Seq<char>
    decreases s.len(),
{
    if s.len() == 0 {
        Seq::empty()
    } else {
        let before = compacted(s.drop_last());
        let c = s.last();
        if is_space(c) {
            if s.len() >= 2 && is_space(s[s.len() - 2]) {
                before
            } else {
                before.push(' ')
            }
        } else if is_punctuation(c) && before.len() > 0 && before.last() == ' ' {
            before.drop_last().push(c)
        } else {
            before.push(c)
        }
    }
}

/// The first index at or after `i` whose character is not punctuation.
pub open spec fn skip_punctuation(s: Seq<char>, i: int) -> int
    decreases s.len() - i,
{
    if 0 <= i < s.len() && is_punctuation(s[i]) {
        skip_punctuation(s, i + 1)
    } else {
        i
    }
}

/// `s` without the punctuation that it begins with.
pub open spec fn without_leading_punctuation(s: Seq<char>) -> Seq<char> {
    s.subrange(skip_punctuation(s, 0), s.len() as int)
}

/// The words with a lone small `i` made the pronoun `I`.
pub open spec fn pronoun_fixed(words: Seq<Seq<char>>) -> Seq<Seq<char>> {
    Seq::new(
        words.len(),
        |k: int|
            if words[k] == seq!['i'] {
                seq!['I']
            } else {
                words[k]
            },
    )
}

/// Whether a letter that follows `s` begins a sentence: no letter stands
/// between it and the start of the text or the last `.`, `!` or `?`.
pub open spec fn begins_sentence_after(s: Seq<char>) -> bool
    decreases s.len(),
{
    if s.len() == 0 {
        true
    } else if is_sentence_end(s.last()) {
        true
    } else if is_ascii_letter(s.last()) {
        false
    } else {
        begins_sentence_after(s.drop_last())
    }
}

/// `s` with the first letter of each sentence made a capital.
pub open spec fn capitalized(s: Seq<char>) -> Seq<char>
    decreases s.len(),
{
    if s.len() == 0 {
        Seq::empty()
    } else {
        let c = s.last();
        capitalized(s.drop_last()).push(
            if begins_sentence_after(s.drop_last()) && is_ascii_letter(c) {
                upper_char(c)
            } else {
                c
            },
        )
    }
}

/// `s` with a full stop added where it has eight words or more and does not
/// end a sentence.
pub open spec fn closed_sentence(s: Seq<char>) -> Seq<char> {
    if !ends_sentence(s) && words_of(s).len() >= 8 {
        s.push('.')
    } else {
        s
    }
}

/// The tidy form of decoder output: white space squeezed and trimmed,
/// spaces before punctuation and punctuation at the start removed, the
/// pronoun `I` and the first letter of each sentence made capitals, and a
/// full stop at the end of a long phrase that lacks one. Blank text gives
/// empty text.
pub open spec fn postprocessed(text: Seq<char>) -> Seq<char> {
    let t = trimmed(text);
    if t.len() == 0 {
        Seq::empty()
    } else {
        let squeezed = trimmed(compacted(t));
        let started = trimmed_start(without_leading_punctuation(squeezed));
        let worded = joined(pronoun_fixed(words_of(started)));
        closed_sentence(capitalized(worded))
    }
}

fn compact(v: &Vec<char>) -> (r: Vec<char>)
    ensures
        r@ == compacted(v@),
{
    let mut out: Vec<char> = Vec::new();
    let mut prev_was_space = false;
    let mut i: usize = 0;
    while i < v.len()
        invariant
            i <= v.len(),
            prev_was_space == (i > 0 && is_space(v@[i - 1])),
            out@ == compacted(v@.take(i as int)),
        decreases v.len() - i,
    {
        let c = v[i];
        let ghost next = v@.take(i + 1);
        assert(next.drop_last() =~= v@.take(i as int));
        assert(next.last() == c);
        if i > 0 {
            assert(next[next.len() - 2] == v@[i - 1]);
        }
        if is_whitespace(c) {
            if !prev_was_space {
                out.push(' ');
            }
            prev_was_space = true;
        } else {
            if punctuation(c) && out.len() > 0 && out[out.len() - 1] == ' ' {
                out.pop();
            }
            out.push(c);
            prev_was_space = false;
        }
        i += 1;
    }
    assert(v@.take(v.len() as int) == v@);
    out
}

fn strip_leading_punctuation(v: &Vec<char>) -> (r: Vec<char>)
    ensures
        r@ == without_leading_punctuation(v@),
{
    let mut i: usize = 0;
    while i < v.len() && punctuation(v[i])
        invariant
            i <= v.len(),
            skip_punctuation(v@, 0) == skip_punctuation(v@, i as int),
        decreases v.len() - i,
    {
        i += 1;
    }
    sub_vec(v, i, v.len())
}

fn fix_pronoun(words: Vec<Vec<char>>) -> (r: Vec<Vec<char>>)
    ensures
        views(r@) == pronoun_fixed(views(words@)),
{
    let mut out: Vec<Vec<char>> = Vec::new();
    let mut k: usize = 0;
    while k < words.len()
        invariant
            k <= words.len(),
            out@.len() == k,
            forall|j: int| 0 <= j < k ==> (#[trigger] out@[j])@ == pronoun_fixed(views(words@))[j],
        decreases words.len() - k,
    {
        let w = &words[k];
        let mut fixed: Vec<char> = Vec::new();
        if w.len() == 1 && w[0] == 'i' {
            fixed.push('I');
            assert(w@ =~= seq!['i']);
            assert(fixed@ =~= seq!['I']);
        } else {
            fixed = sub_vec(w, 0, w.len());
            assert(fixed@ =~= w@);
            assert(w@ != seq!['i']) by {
                if w@ == seq!['i'] {
                    assert(seq!['i'].len() == 1);
                    assert(seq!['i'][0] == 'i');
                }
            }
        }
        assert(views(words@)[k as int] == w@);
        out.push(fixed);
        k += 1;
    }
    assert(views(out@) =~= pronoun_fixed(views(words@)));
    out
}

/// The first letter of each sentence made a capital.
pub fn capitalize_sentence_starts(text: &Vec<char>) -> (r: Vec<char>)
    ensures
        r@ == capitalized(text@),
{
    let mut out: Vec<char> = Vec::new();
    let mut cap_next = true;
    let mut i: usize = 0;
    while i < text.len()
        invariant
            i <= text.len(),
            cap_next == begins_sentence_after(text@.take(i as int)),
            out@ == capitalized(text@.take(i as int)),
        decreases text.len() - i,
    {
        let c = text[i];
        let ghost next = text@.take(i + 1);
        assert(next.drop_last() =~= text@.take(i as int));
        assert(next.last() == c);
        if cap_next && is_ascii_alphabetic(c) {
            out.push(to_ascii_uppercase(c));
            cap_next = false;
        } else {
            out.push(c);
            if is_ascii_alphabetic(c) {
                cap_next = false;
            }
        }
        if sentence_end(c) {
            cap_next = true;
        }
        i += 1;
    }
    assert(text@.take(text.len() as int) == text@);
    out
}

/// The tidy form of decoder output. What comes out is tidy: tidying it
/// again changes nothing.
pub fn postprocess_transcript_text(text: &str) -> (out: String)
    ensures
        out@ == postprocessed(text@),
        is_tidy(out@),
        postprocessed(out@) == out@,
{
    proof {
        lemma_postprocessed_is_tidy(text@);
        lemma_postprocessing_twice_changes_nothing(text@);
    }
    let chars = chars_of(text);
    let t = trim(&chars);
    if t.len() == 0 {
        return String::new();
    }
    let squeezed = trim(&compact(&t));
    let started = trim_start(&strip_leading_punctuation(&squeezed));
    let words = fix_pronoun(split_whitespace(&started));
    let worded = join_with_space(&words);
    let mut out = capitalize_sentence_starts(&worded);
    let has_terminal_punct = out.len() > 0 && sentence_end(out[out.len() - 1]);
    let word_count = split_whitespace(&out).len();
    if !has_terminal_punct && word_count >= 8 {
        out.push('.');
    }
    string_of(&out)
}

// ---------------------------------------------------------------------------
// Laws of tidying
// ---------------------------------------------------------------------------

/// The shape of tidy text: its only white space is the space, and a
/// space is followed by a character that is neither white space nor punctuation.
pub open spec fn is_closed_up(s: Seq<char>) -> bool {
    &&& forall|k: int| 0 <= k < s.len() && is_space(#[trigger] s[k]) ==> s[k] == ' '
    &&& forall|k: int|
        0 < k < s.len() && s[k - 1] == ' ' ==> !is_space(#[trigger] s[k]) && !is_punctuation(s[k])
}

/// Text that begins with neither white space nor punctuation and does
/// not end in white space; empty text counts.
pub open spec fn is_bare(s: Seq<char>) -> bool {
    s.len() > 0 ==> !is_space(s[0]) && !is_punctuation(s[0]) && !is_space(s.last())
}

/// Squeezing gives text of the tidy shape, and ends in a space exactly
/// where the text ended in white space.
pub proof fn lemma_compacted_is_closed_up(s: Seq<char>)
    ensures
        is_closed_up(compacted(s)),
        s.len() > 0 && is_space(s.last()) ==> compacted(s).len() > 0 && compacted(s).last() == ' ',
        s.len() > 0 && !is_space(s.last()) ==> compacted(s).len() > 0 && compacted(s).last()
            == s.last(),
    decreases s.len(),
{
    if s.len() > 0 {
        let init = s.drop_last();
        lemma_compacted_is_closed_up(init);
        let before = compacted(init);
        let c = s.last();
        let out = compacted(s);
        if s.len() >= 2 {
            assert(init.last() == s[s.len() - 2]);
        }
        if is_space(c) {
            if s.len() >= 2 && is_space(s[s.len() - 2]) {
            } else {
                assert(out == before.push(' '));
                assert forall|k: int| 0 < k < out.len() && out[k - 1] == ' ' implies !is_space(
                    #[trigger] out[k],
                ) && !is_punctuation(out[k]) by {
                    if k < before.len() {
                        assert(out[k] == before[k]);
                        assert(out[k - 1] == before[k - 1]);
                    } else {
                        assert(out[k - 1] == before.last());
                    }
                }
                assert forall|k: int| 0 <= k < out.len() && is_space(#[trigger] out[k]) implies out[k]
                    == ' ' by {
                    if k < before.len() {
                        assert(out[k] == before[k]);
                    }
                }
            }
        } else if is_punctuation(c) && before.len() > 0 && before.last() == ' ' {
            let cut = before.drop_last();
            assert(out == cut.push(c));
            assert forall|k: int| 0 < k < out.len() && out[k - 1] == ' ' implies !is_space(
                #[trigger] out[k],
            ) && !is_punctuation(out[k]) by {
                if k < cut.len() {
                    assert(out[k] == before[k]);
                    assert(out[k - 1] == before[k - 1]);
                } else {
                    // The space before the last one would have a space behind it.
                    assert(out[k - 1] == before[k - 1]);
                    assert(before[k] == ' ');
                }
            }
            assert forall|k: int| 0 <= k < out.len() && is_space(#[trigger] out[k]) implies out[k]
                == ' ' by {
                if k < cut.len() {
                    assert(out[k] == before[k]);
                }
            }
        } else {
            assert(out == before.push(c));
            assert forall|k: int| 0 < k < out.len() && out[k - 1] == ' ' implies !is_space(
                #[trigger] out[k],
            ) && !is_punctuation(out[k]) by {
                if k < before.len() {
                    assert(out[k] == before[k]);
                    assert(out[k - 1] == before[k - 1]);
                } else {
                    assert(out[k - 1] == before.last());
                }
            }
            assert forall|k: int| 0 <= k < out.len() && is_space(#[trigger] out[k]) implies out[k]
                == ' ' by {
                if k < before.len() {
                    assert(out[k] == before[k]);
                }
            }
        }
    }
}

/// A part of text of the tidy shape has that shape.
pub proof fn lemma_part_is_closed_up(s: Seq<char>, from: int, to: int)
    requires
        is_closed_up(s),
        0 <= from <= to <= s.len(),
    ensures
        is_closed_up(s.subrange(from, to)),
{
    let part = s.subrange(from, to);
    assert forall|k: int| 0 <= k < part.len() && is_space(#[trigger] part[k]) implies part[k]
        == ' ' by {
        assert(part[k] == s[from + k]);
    }
    assert forall|k: int| 0 < k < part.len() && part[k - 1] == ' ' implies !is_space(
        #[trigger] part[k],
    ) && !is_punctuation(part[k]) by {
        assert(part[k] == s[from + k]);
        assert(part[k - 1] == s[from + k - 1]);
    }
}

/// Squeezing leaves text of the tidy shape as it is.
pub proof fn lemma_closed_up_stays(s: Seq<char>)
    requires
        is_closed_up(s),
    ensures
        compacted(s) == s,
    decreases s.len(),
{
    if s.len() > 0 {
        let init = s.drop_last();
        lemma_part_is_closed_up(s, 0, s.len() - 1);
        assert(init =~= s.subrange(0, s.len() - 1));
        lemma_closed_up_stays(init);
        let c = s.last();
        if s.len() >= 2 {
            assert(init.last() == s[s.len() - 2]);
            assert(is_space(s[s.len() - 2]) ==> s[s.len() - 2] == ' ');
        }
        assert(compacted(s) =~= s);
    }
}

/// The words of tidy text, joined again, are the text.
pub proof fn lemma_joined_words_are_the_text(s: Seq<char>)
    requires
        is_closed_up(s),
        s.len() > 0 ==> !is_space(s[0]) && !is_space(s.last()),
    ensures
        joined(words_of(s)) == s,
    decreases s.len(),
{
    if s.len() > 0 {
        let init = s.drop_last();
        let c = s.last();
        lemma_part_is_closed_up(s, 0, s.len() - 1);
        assert(init =~= s.subrange(0, s.len() - 1));
        if init.len() == 0 {
            assert(words_of(init) =~= Seq::<Seq<char>>::empty());
            assert(words_of(s) =~= seq![seq![c]]);
            assert(joined(words_of(s)) =~= s);
        } else if !is_space(init.last()) {
            assert(init.last() == s[s.len() - 2]);
            assert(init[0] == s[0]);
            lemma_joined_words_are_the_text(init);
            crate::text::lemma_words_are_solid(init);
            let before = words_of(init);
            let w = words_of(s);
            assert(w == before.drop_last().push(before.last().push(c)));
            if before.len() == 1 {
                assert(joined(before) == before[0]);
                assert(w =~= seq![before[0].push(c)]);
                assert(joined(w) =~= s);
            } else {
                assert(w.drop_last() =~= before.drop_last());
                assert(joined(w) == joined(before.drop_last()) + seq![' '] + before.last().push(c));
                assert(joined(before) == joined(before.drop_last()) + seq![' '] + before.last());
                assert(joined(w) =~= joined(before).push(c));
                assert(joined(w) =~= s);
            }
        } else {
            // A space stands before the last character, and a word before the space.
            assert(init.last() == s[s.len() - 2]);
            assert(init.last() == ' ');
            let head = init.drop_last();
            assert(head =~= s.subrange(0, s.len() - 2));
            lemma_part_is_closed_up(s, 0, s.len() - 2);
            assert(head.len() > 0) by {
                if head.len() == 0 {
                    assert(init[0] == s[0]);
                }
            }
            assert(head[0] == s[0]);
            assert(head.last() == s[s.len() - 3]);
            assert(!is_space(head.last())) by {
                if is_space(s[s.len() - 3]) {
                    assert(s[s.len() - 3] == ' ');
                    assert(!is_space(s[s.len() - 2]));
                }
            }
            lemma_joined_words_are_the_text(head);
            crate::text::lemma_words_are_solid(head);
            assert(init.drop_last() =~= head);
            assert(words_of(init) == words_of(head));
            let before = words_of(head);
            let w = words_of(s);
            assert(s.len() >= 2 && is_space(s[s.len() - 2]));
            assert(w == before.push(seq![c]));
            assert(w.drop_last() =~= before);
            assert(joined(w) == joined(before) + seq![' '] + seq![c]);
            assert(joined(w) =~= s);
        }
    } else {
        assert(words_of(s) =~= Seq::<Seq<char>>::empty());
    }
}

/// `y` is `x` with some of its letters `a` to `z` made capitals.
pub open spec fn is_raised(x: Seq<char>, y: Seq<char>) -> bool {
    &&& y.len() == x.len()
    &&& forall|k: int|
        0 <= k < x.len() ==> #[trigger] y[k] == x[k] || (is_ascii_letter(x[k]) && y[k] == upper_char(
            x[k],
        ))
}

/// Capitals change neither the shape of a text nor how it begins and ends.
pub proof fn lemma_raised_keeps_shape(x: Seq<char>, y: Seq<char>)
    requires
        is_raised(x, y),
    ensures
        is_closed_up(x) ==> is_closed_up(y),
        is_bare(x) ==> is_bare(y),
        forall|k: int| 0 <= k < x.len() ==> is_space(#[trigger] y[k]) == is_space(x[k]),
        forall|k: int| 0 <= k < x.len() ==> is_ascii_letter(#[trigger] y[k]) == is_ascii_letter(x[k]),
        forall|k: int|
            0 <= k < x.len() ==> is_sentence_end(#[trigger] y[k]) == is_sentence_end(x[k]),
{
    assert forall|k: int| 0 <= k < x.len() implies is_space(#[trigger] y[k]) == is_space(x[k])
        && is_ascii_letter(y[k]) == is_ascii_letter(x[k]) && is_sentence_end(y[k])
        == is_sentence_end(x[k]) && is_punctuation(y[k]) == is_punctuation(x[k]) && (is_space(
        x[k],
    ) ==> y[k] == x[k]) by {
        assert(y[k] == x[k] || (is_ascii_letter(x[k]) && y[k] == upper_char(x[k])));
    }
    if is_closed_up(x) {
        assert forall|k: int| 0 < k < y.len() && y[k - 1] == ' ' implies !is_space(#[trigger] y[k])
            && !is_punctuation(y[k]) by {
            assert(is_space(y[k - 1]));
            assert(is_space(x[k - 1]));
            assert(x[k - 1] == ' ');
            assert(!is_space(x[k]) && !is_punctuation(x[k]));
            assert(is_space(y[k]) == is_space(x[k]) && is_punctuation(y[k]) == is_punctuation(
                x[k],
            ));
        }
        assert forall|k: int| 0 <= k < y.len() && is_space(#[trigger] y[k]) implies y[k]
            == ' ' by {
            assert(is_space(x[k]));
        }
    }
    if is_bare(x) && x.len() > 0 {
        assert(is_space(y[0]) == is_space(x[0]) && is_punctuation(y[0]) == is_punctuation(x[0]));
        assert(is_space(y[y.len() - 1]) == is_space(x[x.len() - 1]));
    }
}

/// Capitals change the words of a text only in their letters.
pub proof fn lemma_raised_words(x: Seq<char>, y: Seq<char>)
    requires
        is_raised(x, y),
    ensures
        words_of(y).len() == words_of(x).len(),
        forall|i: int|
            0 <= i < words_of(x).len() ==> is_raised(#[trigger] words_of(x)[i], words_of(y)[i]),
    decreases x.len(),
{
    if x.len() > 0 {
        let xi = x.drop_last();
        let yi = y.drop_last();
        assert forall|k: int| 0 <= k < xi.len() implies #[trigger] yi[k] == xi[k] || (
        is_ascii_letter(xi[k]) && yi[k] == upper_char(xi[k])) by {
            assert(y[k] == x[k] || (is_ascii_letter(x[k]) && y[k] == upper_char(x[k])));
        }
        lemma_raised_words(xi, yi);
        lemma_raised_keeps_shape(x, y);
        crate::text::lemma_words_are_solid(xi);
        crate::text::lemma_words_are_solid(yi);
        let bx = words_of(xi);
        let by = words_of(yi);
        let c = x.last();
        let d = y.last();
        assert(d == c || (is_ascii_letter(c) && d == upper_char(c)));
        assert(is_space(d) == is_space(c));
        if is_space(c) {
        } else if x.len() >= 2 && !is_space(x[x.len() - 2]) {
            assert(is_space(y[y.len() - 2]) == is_space(x[x.len() - 2]));
            assert(xi.last() == x[x.len() - 2]);
            let wx = words_of(x);
            let wy = words_of(y);
            assert(wx == bx.drop_last().push(bx.last().push(c)));
            assert(wy == by.drop_last().push(by.last().push(d)));
            assert forall|i: int| 0 <= i < wx.len() implies is_raised(#[trigger] wx[i], wy[i]) by {
                if i < wx.len() - 1 {
                    assert(wx[i] == bx[i] && wy[i] == by[i]);
                } else {
                    assert(is_raised(bx[i], by[i]));
                    let a = bx[i];
                    let b = by[i];
                    assert forall|k: int| 0 <= k < a.push(c).len() implies #[trigger] b.push(d)[k]
                        == a.push(c)[k] || (is_ascii_letter(a.push(c)[k]) && b.push(d)[k]
                        == upper_char(a.push(c)[k])) by {
                        if k < a.len() {
                            assert(b[k] == a[k] || (is_ascii_letter(a[k]) && b[k] == upper_char(a[k])));
                        }
                    }
                }
            }
        } else {
            if x.len() >= 2 {
                assert(is_space(y[y.len() - 2]) == is_space(x[x.len() - 2]));
            }
            let wx = words_of(x);
            let wy = words_of(y);
            assert(wx == bx.push(seq![c]));
            assert(wy == by.push(seq![d]));
            assert forall|i: int| 0 <= i < wx.len() implies is_raised(#[trigger] wx[i], wy[i]) by {
                if i < bx.len() {
                    assert(wx[i] == bx[i] && wy[i] == by[i]);
                } else {
                    assert(wx[i] =~= seq![c] && wy[i] =~= seq![d]);
                }
            }
        }
    } else {
        assert(y =~= x);
    }
}

/// Making the first letters of sentences capitals makes some letters capitals.
pub proof fn lemma_capitalized_is_raised(x: Seq<char>)
    ensures
        is_raised(x, capitalized(x)),
    decreases x.len(),
{
    if x.len() > 0 {
        let init = x.drop_last();
        lemma_capitalized_is_raised(init);
        let y = capitalized(x);
        let yi = capitalized(init);
        assert forall|k: int| 0 <= k < x.len() implies #[trigger] y[k] == x[k] || (is_ascii_letter(
            x[k],
        ) && y[k] == upper_char(x[k])) by {
            if k < init.len() {
                assert(y[k] == yi[k]);
                assert(yi[k] == init[k] || (is_ascii_letter(init[k]) && yi[k] == upper_char(
                    init[k],
                )));
            }
        }
    }
}

/// Capitals do not change where sentences begin.
pub proof fn lemma_raised_begins_alike(x: Seq<char>, y: Seq<char>)
    requires
        is_raised(x, y),
    ensures
        begins_sentence_after(y) == begins_sentence_after(x),
    decreases x.len(),
{
    if x.len() > 0 {
        lemma_raised_keeps_shape(x, y);
        let xi = x.drop_last();
        let yi = y.drop_last();
        assert forall|k: int| 0 <= k < xi.len() implies #[trigger] yi[k] == xi[k] || (
        is_ascii_letter(xi[k]) && yi[k] == upper_char(xi[k])) by {
            assert(y[k] == x[k] || (is_ascii_letter(x[k]) && y[k] == upper_char(x[k])));
        }
        lemma_raised_begins_alike(xi, yi);
        assert(is_sentence_end(y[y.len() - 1]) == is_sentence_end(x[x.len() - 1]));
        assert(is_ascii_letter(y[y.len() - 1]) == is_ascii_letter(x[x.len() - 1]));
    }
}

/// Making the first letters of sentences capitals a second time changes nothing.
pub proof fn lemma_capitalized_twice(x: Seq<char>)
    ensures
        capitalized(capitalized(x)) == capitalized(x),
    decreases x.len(),
{
    if x.len() > 0 {
        let init = x.drop_last();
        lemma_capitalized_twice(init);
        lemma_capitalized_is_raised(init);
        lemma_raised_begins_alike(init, capitalized(init));
        let y = capitalized(x);
        assert(y.drop_last() =~= capitalized(init));
        assert(capitalized(y) =~= y);
    }
}

/// The pronoun made a capital makes some letters capitals.
pub proof fn lemma_pronouns_are_raised(ws: Seq<Seq<char>>)
    ensures
        is_raised(joined(ws), joined(pronoun_fixed(ws))),
    decreases ws.len(),
{
    let fixed = pronoun_fixed(ws);
    if ws.len() == 0 {
        assert(joined(fixed) =~= joined(ws));
    } else {
        let w = ws.last();
        let f = fixed.last();
        assert(is_raised(w, f)) by {
            if w == seq!['i'] {
                assert(f == seq!['I']);
                assert(is_ascii_letter('i') && upper_char('i') == 'I');
            }
        }
        if ws.len() == 1 {
            assert(joined(ws) == w);
            assert(joined(fixed) == f);
        } else {
            let init = ws.drop_last();
            lemma_pronouns_are_raised(init);
            assert(fixed.drop_last() =~= pronoun_fixed(init));
            let a = joined(init);
            let b = joined(pronoun_fixed(init));
            let x = joined(ws);
            let y = joined(fixed);
            assert(x == a + seq![' '] + w);
            assert(y == b + seq![' '] + f);
            assert forall|k: int| 0 <= k < x.len() implies #[trigger] y[k] == x[k] || (
            is_ascii_letter(x[k]) && y[k] == upper_char(x[k])) by {
                if k < a.len() {
                    assert(x[k] == a[k] && y[k] == b[k]);
                    assert(b[k] == a[k] || (is_ascii_letter(a[k]) && b[k] == upper_char(a[k])));
                } else if k == a.len() {
                } else {
                    let j = k - a.len() - 1;
                    assert(x[k] == w[j] && y[k] == f[j]);
                    assert(f[j] == w[j] || (is_ascii_letter(w[j]) && f[j] == upper_char(w[j])));
                }
            }
        }
    }
}

/// Skipping punctuation stays within the text and stops before what is none.
pub proof fn lemma_skip_punctuation_bounds(s: Seq<char>, i: int)
    requires
        0 <= i <= s.len(),
    ensures
        i <= skip_punctuation(s, i) <= s.len(),
        skip_punctuation(s, i) < s.len() ==> !is_punctuation(s[skip_punctuation(s, i)]),
    decreases s.len() - i,
{
    if i < s.len() && is_punctuation(s[i]) {
        lemma_skip_punctuation_bounds(s, i + 1);
    }
}

/// Tidy text: of the tidy shape, bare, without a lone small `i`, with the
/// first letters of its sentences capitals, and closed where it is long.
pub open spec fn is_tidy(r: Seq<char>) -> bool {
    &&& is_closed_up(r)
    &&& is_bare(r)
    &&& forall|i: int| 0 <= i < words_of(r).len() ==> #[trigger] words_of(r)[i] != seq!['i']
    &&& capitalized(r) == r
    &&& closed_sentence(r) == r
}

/// Tidying leaves tidy text as it is.
pub proof fn lemma_tidy_text_stays(r: Seq<char>)
    requires
        is_tidy(r),
    ensures
        postprocessed(r) == r,
{
    crate::text::lemma_trimmed_is_bare(r);
    if r.len() == 0 {
        assert(trimmed(r).len() == 0);
        assert(postprocessed(r) =~= r);
    } else {
        let t = trimmed(r);
        assert(skip_spaces(r, 0) == 0) by {
            if skip_spaces(r, 0) > 0 {
                assert(is_space(r[0]));
            }
        }
        assert(t.len() == r.len()) by {
            if t.len() < r.len() {
                assert(is_space(r[r.len() - 1]));
            }
        }
        assert(t =~= r);
        lemma_closed_up_stays(r);
        assert(trimmed(compacted(t)) == r);
        assert(skip_punctuation(r, 0) == 0);
        assert(without_leading_punctuation(r) =~= r);
        assert(trimmed_start(r) =~= r);
        assert(pronoun_fixed(words_of(r)) =~= words_of(r));
        lemma_joined_words_are_the_text(r);
    }
}

/// What stands before the words are taken is of the tidy shape and bare.
proof fn lemma_started_is_bare(text: Seq<char>)
    ensures
        ({
            let squeezed = trimmed(compacted(trimmed(text)));
            let started = trimmed_start(without_leading_punctuation(squeezed));
            is_closed_up(started) && is_bare(started)
        }),
{
    let t = trimmed(text);
    let c = compacted(t);
    lemma_compacted_is_closed_up(t);
    crate::text::lemma_trimmed_is_bare(c);
    let squeezed = trimmed(c);
    let a = skip_spaces(c, 0);
    lemma_part_is_closed_up(c, a, a + squeezed.len());
    lemma_skip_punctuation_bounds(squeezed, 0);
    let p = skip_punctuation(squeezed, 0);
    let rest = without_leading_punctuation(squeezed);
    lemma_part_is_closed_up(squeezed, p, squeezed.len() as int);
    crate::text::lemma_skip_spaces_bounds(rest, 0);
    let q = skip_spaces(rest, 0);
    let started = trimmed_start(rest);
    lemma_part_is_closed_up(rest, q, rest.len() as int);
    if started.len() > 0 {
        assert(started[0] == rest[q]);
        assert(!is_space(started[0]));
        if q == 0 {
            assert(rest[0] == squeezed[p]);
        } else {
            assert(is_space(rest[q - 1]));
            assert(rest[q - 1] == ' ');
        }
        assert(!is_punctuation(started[0]));
        assert(started.last() == rest[rest.len() - 1]);
        assert(rest[rest.len() - 1] == squeezed[squeezed.len() - 1]);
        assert(!is_space(squeezed.last()));
    }
}

/// Tidying gives tidy text.
pub proof fn lemma_postprocessed_is_tidy(text: Seq<char>)
    ensures
        is_tidy(postprocessed(text)),
{
    let t = trimmed(text);
    let r = postprocessed(text);
    if t.len() == 0 {
        assert(r =~= Seq::<char>::empty());
        assert(words_of(r) =~= Seq::<Seq<char>>::empty());
        assert(capitalized(r) =~= r);
    } else {
        let squeezed = trimmed(compacted(t));
        let started = trimmed_start(without_leading_punctuation(squeezed));
        lemma_started_is_bare(text);
        let ws = words_of(started);
        let fixed = pronoun_fixed(ws);
        let worded = joined(fixed);
        let caps = capitalized(worded);
        assert(r == closed_sentence(caps));

        // The shape.
        lemma_joined_words_are_the_text(started);
        lemma_pronouns_are_raised(ws);
        lemma_raised_keeps_shape(started, worded);
        lemma_capitalized_is_raised(worded);
        lemma_raised_keeps_shape(worded, caps);

        // The words.
        crate::text::lemma_words_are_solid(started);
        assert forall|i: int| 0 <= i < fixed.len() implies crate::text::is_word(
            #[trigger] fixed[i],
        ) by {
            assert(crate::text::is_word(ws[i]));
            if ws[i] == seq!['i'] {
                assert(fixed[i] == seq!['I']);
                assert(!is_space('I'));
            }
        }
        crate::text::lemma_words_of_joined(fixed);
        lemma_raised_words(worded, caps);
        let cw = words_of(caps);
        assert forall|i: int| 0 <= i < cw.len() implies #[trigger] cw[i] != seq!['i'] by {
            if cw[i] == seq!['i'] {
                assert(is_raised(words_of(worded)[i], words_of(caps)[i]));
                let f = fixed[i];
                assert(f.len() == 1);
                assert(cw[i][0] == 'i');
                assert(cw[i][0] == f[0] || (is_ascii_letter(f[0]) && cw[i][0] == upper_char(f[0])));
                assert(f[0] == 'i');
                assert(f =~= seq!['i']);
                assert(ws[i] != seq!['i'] || fixed[i] == seq!['I']);
            }
        }
        lemma_capitalized_twice(worded);
        crate::text::lemma_words_are_solid(caps);
        if !ends_sentence(caps) && words_of(caps).len() >= 8 {
            assert(r == caps.push('.'));
            assert(caps.len() >= 8);
            assert(r.drop_last() =~= caps);
            assert(r.len() >= 2 && !is_space(r[r.len() - 2])) by {
                assert(r[r.len() - 2] == caps.last());
            }
            assert(!is_space('.'));
            let rw = words_of(r);
            assert(rw == cw.drop_last().push(cw.last().push('.')));
            assert forall|i: int| 0 <= i < rw.len() implies #[trigger] rw[i] != seq!['i'] by {
                if i < rw.len() - 1 {
                    assert(rw[i] == cw[i]);
                } else {
                    assert(rw[i].len() >= 2);
                }
            }
            assert(is_closed_up(r)) by {
                assert forall|k: int| 0 < k < r.len() && r[k - 1] == ' ' implies !is_space(
                    #[trigger] r[k],
                ) && !is_punctuation(r[k]) by {
                    if k < caps.len() {
                        assert(r[k] == caps[k] && r[k - 1] == caps[k - 1]);
                    } else {
                        assert(r[k - 1] == caps.last());
                    }
                }
                assert forall|k: int| 0 <= k < r.len() && is_space(#[trigger] r[k]) implies r[k]
                    == ' ' by {
                    if k < caps.len() {
                        assert(r[k] == caps[k]);
                    }
                }
            }
            assert(is_bare(r)) by {
                assert(r[0] == caps[0]);
            }
            assert(!is_ascii_letter('.'));
            assert(capitalized(r) =~= capitalized(caps).push('.'));
            assert(ends_sentence(r));
        } else {
            assert(r == caps);
        }
    }
}

/// Tidying twice is tidying once.
pub proof fn lemma_postprocessing_twice_changes_nothing(text: Seq<char>)
    ensures
        postprocessed(postprocessed(text)) == postprocessed(text),
{
    lemma_postprocessed_is_tidy(text);
    lemma_tidy_text_stays(postprocessed(text));
}

} // verus!
