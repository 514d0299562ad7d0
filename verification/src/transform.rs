//! Text as the host hands it on: the user's dictionary, snippets and
//! learned corrections applied to a transcript.

use vstd::prelude::*;
use crate::settings::LearnedCorrection;
use crate::text::{
    chars_equal, chars_of, equals_str, lower, lowered, push_chars, string_of, sub_vec, trim,
    trim_end, trimmed, trimmed_end, upper, upper_char, uppered, to_ascii_uppercase,
};

verus! {

/// Whether a character is alphabetic or numeric as Unicode has it.
pub uninterp spec fn is_unicode_alphanumeric(c: char) -> bool;

/// Whether a character is an uppercase letter as Unicode has it.
pub uninterp spec fn is_unicode_uppercase(c: char) -> bool;

/// `char::is_alphanumeric` of the standard library: true for the
/// characters that Unicode classes as alphabetic or numeric. The contract
/// names the class and says no more of it.
pub assume_specification[ char::is_alphanumeric ](c: char) -> (b: bool)
    ensures
        b == is_unicode_alphanumeric(c),
;

/// `char::is_uppercase` of the standard library: true for the characters
/// that Unicode classes as uppercase. The contract names the class and
/// says no more of it.
pub assume_specification[ char::is_uppercase ](c: char) -> (b: bool)
    ensures
        b == is_unicode_uppercase(c),
;

/// What a transcript became.
#[derive(Debug, Clone)]
pub struct TransformResult {
    pub text: String,
    pub dictionary_applied: bool,
    pub snippet_applied: bool,
}

/// A term of the user's dictionary with the forms that stand for it.
#[derive(Debug, Clone)]
pub struct DictionaryEntry {
    pub id: String,
    pub term: String,
    pub aliases: Vec<String>,
    pub language: Option<String>,
    pub enabled: bool,
    pub created_at: String,
    pub updated_at: String,
}

/// A snippet: a trigger and the text that it expands to.
#[derive(Debug, Clone)]
pub struct SnippetEntry {
    pub id: String,
    pub trigger: String,
    pub expansion: String,
    /// `slash` or `phrase`.
    pub mode: String,
    pub enabled: bool,
    pub created_at: String,
    pub updated_at: String,
}

// ---------------------------------------------------------------------------
// Replacing words
// ---------------------------------------------------------------------------

/// Whether a character belongs to a word.
pub open spec fn is_word_character(c: char) -> bool {
    is_unicode_alphanumeric(c) || c == '_' || c == '\''
}

/// Every character of `s` is an uppercase letter.
pub open spec fn all_uppercase(s: Seq<char>) -> bool {
    forall|i: int| 0 <= i < s.len() ==> is_unicode_uppercase(#[trigger] s[i])
}

/// The replacement in the case of what it replaces: in capitals for a
/// source in capitals, with a capital first for a source that begins with
/// one, as it is otherwise.
pub open spec fn in_case_of(source: Seq<char>, replacement: Seq<char>) -> Seq<char> {
    if all_uppercase(source) {
        uppered(replacement)
    } else if is_unicode_uppercase(source[0]) && replacement.len() > 0 {
        seq![upper_char(replacement[0])] + replacement.subrange(1, replacement.len() as int)
    } else {
        replacement
    }
}

/// The needle stands at index `i` of the text as a word of its own: up
/// to the case of letters, and with no word character before or behind it.
pub open spec fn word_at(text: Seq<char>, needle: Seq<char>, i: int) -> bool {
    &&& 0 <= i
    &&& i + needle.len() <= text.len()
    &&& lowered(text.subrange(i, i + needle.len())) == lowered(needle)
    &&& (i == 0 || !is_word_character(text[i - 1]))
    &&& (i + needle.len() >= text.len() || !is_word_character(text[i + needle.len()]))
}

/// The text from index `i` on with the needle replaced wherever it stands
/// as a word of its own, read from the left; where `keep_case` holds, each
/// replacement takes the case of what it replaces.
pub open spec fn replaced_from(
    text: Seq<char>,
    needle: Seq<char>,
    replacement: Seq<char>,
    keep_case: bool,
    i: int,
) -> Seq<char>
    decreases text.len() - i,
{
    if i < 0 || i >= text.len() || needle.len() == 0 {
        Seq::empty()
    } else if word_at(text, needle, i) {
        (if keep_case {
            in_case_of(text.subrange(i, i + needle.len()), replacement)
        } else {
            replacement
        }) + replaced_from(text, needle, replacement, keep_case, i + needle.len())
    } else {
        seq![text[i]] + replaced_from(text, needle, replacement, keep_case, i + 1)
    }
}

/// The text with the needle replaced wherever it stands as a word of its
/// own. An empty needle replaces nothing.
pub open spec fn with_word_replaced(
    text: Seq<char>,
    needle: Seq<char>,
    replacement: Seq<char>,
    keep_case: bool,
) -> Seq<char> {
    if needle.len() == 0 {
        text
    } else {
        replaced_from(text, needle, replacement, keep_case, 0)
    }
}

/// Whether a character belongs to a word.
pub fn is_word_char(c: char) -> (b: bool)
    ensures
        b == is_word_character(c),
{
    c.is_alphanumeric() || c == '_' || c == '\''
}

fn is_all_uppercase(s: &Vec<char>) -> (b: bool)
    ensures
        b == all_uppercase(s@),
{
    let mut i: usize = 0;
    while i < s.len()
        invariant
            i <= s.len(),
            forall|j: int| 0 <= j < i ==> is_unicode_uppercase(#[trigger] s@[j]),
        decreases s.len() - i,
    {
        if !s[i].is_uppercase() {
            return false;
        }
        i += 1;
    }
    true
}

/// The replacement in the case of what it replaces.
pub fn match_case(source: &Vec<char>, replacement: &Vec<char>) -> (out: Vec<char>)
    ensures
        out@ == in_case_of(source@, replacement@),
{
    if is_all_uppercase(source) {
        upper(replacement)
    } else if source[0].is_uppercase() && replacement.len() > 0 {
        let mut out: Vec<char> = Vec::new();
        out.push(to_ascii_uppercase(replacement[0]));
        push_chars(&mut out, &sub_vec(replacement, 1, replacement.len()));
        out
    } else {
        sub_vec(replacement, 0, replacement.len())
    }
}

fn is_word_at(text: &Vec<char>, needle_lower: &Vec<char>, i: usize) -> (b: bool)
    requires
        i < text.len(),
    ensures
        forall|needle: Seq<char>|
            lowered(needle) == needle_lower@ ==> b == #[trigger] word_at(text@, needle, i as int),
{
    let n = needle_lower.len();
    proof {
        assert forall|needle: Seq<char>| lowered(needle) == needle_lower@ implies needle.len()
            == n by {
            assert(lowered(needle).len() == needle.len());
        }
    }
    if n > text.len() - i {
        return false;
    }
    let here = lower(&sub_vec(text, i, i + n));
    if !chars_equal(&here, needle_lower) {
        return false;
    }
    let start_ok = i == 0 || !is_word_char(text[i - 1]);
    let end_ok = i + n >= text.len() || !is_word_char(text[i + n]);
    start_ok && end_ok
}

fn replace_word(text: &Vec<char>, needle: &Vec<char>, replacement: &Vec<char>, keep_case: bool) -> (out:
    Vec<char>)
    ensures
        out@ == with_word_replaced(text@, needle@, replacement@, keep_case),
{
    if needle.len() == 0 {
        return sub_vec(text, 0, text.len());
    }
    let needle_lower = lower(needle);
    let n = needle.len();
    let mut out: Vec<char> = Vec::new();
    let mut i: usize = 0;
    while i < text.len()
        invariant
            i <= text.len(),
            n == needle@.len(),
            n > 0,
            needle_lower@ == lowered(needle@),
            out@ + replaced_from(text@, needle@, replacement@, keep_case, i as int) == replaced_from(
                text@,
                needle@,
                replacement@,
                keep_case,
                0,
            ),
        decreases text.len() - i,
    {
        let ghost rest = replaced_from(text@, needle@, replacement@, keep_case, i as int);
        let ghost before = out@;
        if is_word_at(text, &needle_lower, i) {
            assert(word_at(text@, needle@, i as int));
            let source = sub_vec(text, i, i + n);
            if keep_case {
                let cased = match_case(&source, replacement);
                push_chars(&mut out, &cased);
            } else {
                push_chars(&mut out, replacement);
            }
            i += n;
            assert(out@ + replaced_from(text@, needle@, replacement@, keep_case, i as int)
                =~= before + rest);
        } else {
            assert(!word_at(text@, needle@, i as int));
            out.push(text[i]);
            i += 1;
            assert(out@ + replaced_from(text@, needle@, replacement@, keep_case, i as int)
                =~= before + rest);
        }
    }
    assert(out@ =~= out@ + replaced_from(text@, needle@, replacement@, keep_case, i as int));
    out
}

/// Replaces the needle wherever it stands as a word of its own; each
/// replacement takes the case of what it replaces.
pub fn replace_word_case_aware(text: &str, needle: &str, replacement: &str) -> (out: String)
    ensures
        out@ == with_word_replaced(text@, needle@, replacement@, true),
{
    string_of(&replace_word(&chars_of(text), &chars_of(needle), &chars_of(replacement), true))
}

/// Replaces the needle wherever it stands as a word of its own.
pub fn replace_word_case_insensitive(text: &str, needle: &str, replacement: &str) -> (out: String)
    ensures
        out@ == with_word_replaced(text@, needle@, replacement@, false),
{
    string_of(&replace_word(&chars_of(text), &chars_of(needle), &chars_of(replacement), false))
}

/// The trigger as it is typed: with a slash before it.
pub open spec fn slash_trigger(trigger: Seq<char>) -> Seq<char> {
    if trigger.len() > 0 && trigger[0] == '/' {
        trigger
    } else {
        seq!['/'] + trigger
    }
}

fn with_slash(trigger: &Vec<char>) -> (r: Vec<char>)
    ensures
        r@ == slash_trigger(trigger@),
{
    let mut r: Vec<char> = Vec::new();
    if !(trigger.len() > 0 && trigger[0] == '/') {
        r.push('/');
    }
    push_chars(&mut r, trigger);
    assert(r@ =~= slash_trigger(trigger@));
    r
}

/// Replaces the trigger, typed with a slash, by the expansion.
pub fn replace_slash_trigger(text: &str, trigger: &str, replacement: &str) -> (out: String)
    ensures
        out@ == with_word_replaced(text@, slash_trigger(trigger@), replacement@, false),
{
    string_of(
        &replace_word(
            &chars_of(text),
            &with_slash(&chars_of(trigger)),
            &chars_of(replacement),
            false,
        ),
    )
}

/// The text without the full stop that ends it, and without the white
/// space around that; a text that ends otherwise stays as it is.
pub open spec fn without_terminal_period(text: Seq<char>) -> Seq<char> {
    let t = trimmed_end(text);
    if t.len() > 0 && t.last() == '.' {
        trimmed_end(t.drop_last())
    } else {
        text
    }
}

fn strip_period(text: &Vec<char>) -> (out: Vec<char>)
    ensures
        out@ == without_terminal_period(text@),
{
    let t = trim_end(text);
    if t.len() > 0 && t[t.len() - 1] == '.' {
        let cut = sub_vec(&t, 0, t.len() - 1);
        assert(cut@ =~= t@.drop_last());
        trim_end(&cut)
    } else {
        sub_vec(text, 0, text.len())
    }
}

/// Removes the full stop at the end of the text.
pub fn strip_terminal_period(text: &str) -> (out: String)
    ensures
        out@ == without_terminal_period(text@),
{
    string_of(&strip_period(&chars_of(text)))
}

// ---------------------------------------------------------------------------
// Dictionary, snippets and corrections
// ---------------------------------------------------------------------------

/// A text and whether anything was replaced in it.
pub struct Rewritten {
    pub text: Seq<char>,
    pub applied: bool,
}

/// One replacement: where it changes the text, the text is the new one
/// and something was applied.
pub open spec fn rewritten_by(
    state: Rewritten,
    needle: Seq<char>,
    replacement: Seq<char>,
    keep_case: bool,
) -> Rewritten {
    let replaced = with_word_replaced(state.text, needle, replacement, keep_case);
    if replaced != state.text {
        Rewritten { text: replaced, applied: true }
    } else {
        state
    }
}

/// A form that stands for a term: replaced, trimmed, by the term; a blank form replaces nothing.
pub open spec fn after_alias(state: Rewritten, alias: Seq<char>, canonical: Seq<char>) -> Rewritten {
    if trimmed(alias).len() == 0 {
        state
    } else {
        rewritten_by(state, trimmed(alias), canonical, true)
    }
}

/// The forms of an entry, one after the other.
pub open spec fn after_aliases(state: Rewritten, aliases: Seq<String>, canonical: Seq<char>) -> Rewritten
    decreases aliases.len(),
{
    if aliases.len() == 0 {
        state
    } else {
        after_alias(after_aliases(state, aliases.drop_last(), canonical), aliases.last()@, canonical)
    }
}

/// An entry of the dictionary: each of its forms, and then the term
/// itself, is replaced by the term. An entry that is off or blank does nothing.
pub open spec fn after_entry(state: Rewritten, entry: DictionaryEntry) -> Rewritten {
    let canonical = trimmed(entry.term@);
    if !entry.enabled || canonical.len() == 0 {
        state
    } else {
        after_alias(after_aliases(state, entry.aliases@, canonical), entry.term@, canonical)
    }
}

/// The entries of the dictionary, one after the other.
pub open spec fn after_dictionary(state: Rewritten, entries: Seq<DictionaryEntry>) -> Rewritten
    decreases entries.len(),
{
    if entries.len() == 0 {
        state
    } else {
        after_entry(after_dictionary(state, entries.drop_last()), entries.last())
    }
}

/// A snippet: its trigger, as a phrase or typed with a slash, is replaced
/// by its expansion. A snippet that is off or lacks a side does nothing.
pub open spec fn after_snippet(state: Rewritten, snippet: SnippetEntry) -> Rewritten {
    let trigger = trimmed(snippet.trigger@);
    let expansion = trimmed(snippet.expansion@);
    if !snippet.enabled || trigger.len() == 0 || expansion.len() == 0 {
        state
    } else if snippet.mode@ == "phrase"@ {
        rewritten_by(state, trigger, expansion, false)
    } else {
        rewritten_by(state, slash_trigger(trigger), expansion, false)
    }
}

/// The snippets, one after the other.
pub open spec fn after_snippets(state: Rewritten, snippets: Seq<SnippetEntry>) -> Rewritten
    decreases snippets.len(),
{
    if snippets.len() == 0 {
        state
    } else {
        after_snippet(after_snippets(state, snippets.drop_last()), snippets.last())
    }
}

/// What a transcript becomes: trimmed; then the dictionary; then the
/// snippets; and without its last full stop where a snippet was applied.
pub open spec fn transformed(
    text: Seq<char>,
    dictionary: Seq<DictionaryEntry>,
    snippets: Seq<SnippetEntry>,
) -> (Seq<char>, bool, bool) {
    let start = trimmed(text);
    if start.len() == 0 {
        (start, false, false)
    } else {
        let d = after_dictionary(Rewritten { text: start, applied: false }, dictionary);
        let s = after_snippets(Rewritten { text: d.text, applied: false }, snippets);
        (
            if s.applied {
                without_terminal_period(s.text)
            } else {
                s.text
            },
            d.applied,
            s.applied,
        )
    }
}

/// The working text of a rewrite.
struct Draft {
    text: Vec<char>,
    applied: bool,
}

impl Draft {
    spec fn state(self) -> Rewritten {
        Rewritten { text: self.text@, applied: self.applied }
    }

    fn rewrite(&mut self, needle: &Vec<char>, replacement: &Vec<char>, keep_case: bool)
        ensures
            final(self).state() == rewritten_by(
                old(self).state(),
                needle@,
                replacement@,
                keep_case,
            ),
    {
        let replaced = replace_word(&self.text, needle, replacement, keep_case);
        if !chars_equal(&replaced, &self.text) {
            self.text = replaced;
            self.applied = true;
        }
    }

    fn alias(&mut self, alias: &str, canonical: &Vec<char>)
        ensures
            final(self).state() == after_alias(old(self).state(), alias@, canonical@),
    {
        let a = trim(&chars_of(alias));
        if a.len() > 0 {
            self.rewrite(&a, canonical, true);
        }
    }
}

/// Applies the dictionary and the snippets to a transcript.
pub fn apply_transform(
    text: &str,
    dictionary: &Vec<DictionaryEntry>,
    snippets: &Vec<SnippetEntry>,
) -> (r: TransformResult)
    ensures
        (r.text@, r.dictionary_applied, r.snippet_applied) == transformed(
            text@,
            dictionary@,
            snippets@,
        ),
{
    let start = trim(&chars_of(text));
    if start.len() == 0 {
        return TransformResult {
            text: string_of(&start),
            dictionary_applied: false,
            snippet_applied: false,
        };
    }
    let ghost first = Rewritten { text: start@, applied: false };
    let mut draft = Draft { text: start, applied: false };
    let mut i: usize = 0;
    assert(dictionary@.take(0) =~= Seq::<DictionaryEntry>::empty());
    while i < dictionary.len()
        invariant
            i <= dictionary.len(),
            draft.state() == after_dictionary(first, dictionary@.take(i as int)),
        decreases dictionary.len() - i,
    {
        let entry = &dictionary[i];
        assert(dictionary@.take(i + 1).drop_last() =~= dictionary@.take(i as int));
        let canonical = trim(&chars_of(entry.term.as_str()));
        if entry.enabled && canonical.len() > 0 {
            let ghost at_entry = draft.state();
            let mut k: usize = 0;
            assert(entry.aliases@.take(0) =~= Seq::<String>::empty());
            while k < entry.aliases.len()
                invariant
                    k <= entry.aliases.len(),
                    draft.state() == after_aliases(
                        at_entry,
                        entry.aliases@.take(k as int),
                        canonical@,
                    ),
                decreases entry.aliases.len() - k,
            {
                assert(entry.aliases@.take(k + 1).drop_last() =~= entry.aliases@.take(k as int));
                draft.alias(entry.aliases[k].as_str(), &canonical);
                k += 1;
            }
            assert(entry.aliases@.take(entry.aliases.len() as int) =~= entry.aliases@);
            draft.alias(entry.term.as_str(), &canonical);
        }
        i += 1;
    }
    assert(dictionary@.take(dictionary.len() as int) =~= dictionary@);
    let dictionary_applied = draft.applied;

    draft.applied = false;
    let ghost second = draft.state();
    let mut j: usize = 0;
    assert(snippets@.take(0) =~= Seq::<SnippetEntry>::empty());
    while j < snippets.len()
        invariant
            j <= snippets.len(),
            draft.state() == after_snippets(second, snippets@.take(j as int)),
        decreases snippets.len() - j,
    {
        let snippet = &snippets[j];
        assert(snippets@.take(j + 1).drop_last() =~= snippets@.take(j as int));
        let trigger = trim(&chars_of(snippet.trigger.as_str()));
        let expansion = trim(&chars_of(snippet.expansion.as_str()));
        if snippet.enabled && trigger.len() > 0 && expansion.len() > 0 {
            if equals_str(&chars_of(snippet.mode.as_str()), "phrase") {
                draft.rewrite(&trigger, &expansion, false);
            } else {
                draft.rewrite(&with_slash(&trigger), &expansion, false);
            }
        }
        j += 1;
    }
    assert(snippets@.take(snippets.len() as int) =~= snippets@);
    let snippet_applied = draft.applied;
    let out = if snippet_applied {
        strip_period(&draft.text)
    } else {
        draft.text
    };
    TransformResult { text: string_of(&out), dictionary_applied, snippet_applied }
}

/// A learned correction: what was heard is replaced by what was meant,
/// both trimmed. A correction that lacks a side does nothing.
pub open spec fn after_correction(state: Rewritten, heard: Seq<char>, corrected: Seq<char>) -> Rewritten {
    if trimmed(heard).len() == 0 || trimmed(corrected).len() == 0 {
        state
    } else {
        rewritten_by(state, trimmed(heard), trimmed(corrected), true)
    }
}

/// The corrections, one after the other.
pub open spec fn after_corrections(state: Rewritten, corrections: Seq<LearnedCorrection>) -> Rewritten
    decreases corrections.len(),
{
    if corrections.len() == 0 {
        state
    } else {
        after_correction(
            after_corrections(state, corrections.drop_last()),
            corrections.last().heard@,
            corrections.last().corrected@,
        )
    }
}

/// Applies the learned corrections to a transcript: the text, trimmed and
/// corrected, and whether any correction changed it.
pub fn apply_learned_corrections(text: &str, corrections: &Vec<LearnedCorrection>) -> (r: (
    String,
    bool,
))
    ensures
        (Rewritten { text: r.0@, applied: r.1 }) == after_corrections(
            (Rewritten { text: trimmed(text@), applied: false }),
            corrections@,
        ),
{
    let start = trim(&chars_of(text));
    let ghost first = Rewritten { text: start@, applied: false };
    let mut draft = Draft { text: start, applied: false };
    let mut i: usize = 0;
    assert(corrections@.take(0) =~= Seq::<LearnedCorrection>::empty());
    while i < corrections.len()
        invariant
            i <= corrections.len(),
            draft.state() == after_corrections(first, corrections@.take(i as int)),
        decreases corrections.len() - i,
    {
        assert(corrections@.take(i + 1).drop_last() =~= corrections@.take(i as int));
        let heard = trim(&chars_of(corrections[i].heard.as_str()));
        let corrected = trim(&chars_of(corrections[i].corrected.as_str()));
        if heard.len() > 0 && corrected.len() > 0 {
            draft.rewrite(&heard, &corrected, true);
        }
        i += 1;
    }
    assert(corrections@.take(corrections.len() as int) =~= corrections@);
    (string_of(&draft.text), draft.applied)
}

/// Whether a transcript repeats the last one: the same text, no later
/// than `window_ms` after it. Times are in milliseconds.
pub open spec fn repeats_last(
    last: Option<(Seq<char>, u64)>,
    text: Seq<char>,
    now_ms: u64,
    window_ms: u64,
) -> bool {
    match last {
        Some((prev, at)) => prev == text && (now_ms <= at || now_ms - at <= window_ms),
        None => false,
    }
}

/// Whether a transcript repeats the last one.
pub fn is_duplicate_transcript(last: Option<(&str, u64)>, text: &str, now_ms: u64, window_ms: u64) -> (b:
    bool)
    ensures
        b == repeats_last(
            match last {
                Some((prev, at)) => Some((prev@, at)),
                None => None,
            },
            text@,
            now_ms,
            window_ms,
        ),
{
    match last {
        Some((prev, at)) => crate::text::str_eq(prev, text) && (now_ms <= at || now_ms - at
            <= window_ms),
        None => false,
    }
}

} // verus!
