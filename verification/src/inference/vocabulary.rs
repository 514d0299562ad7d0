//! The tokenizer's vocabulary: special tokens, prompt prefixes and phrase bias.

use vstd::prelude::*;
use tokenizers::Tokenizer;
use crate::inference::decode::{contains_token, TokenId, EOT};
use crate::text::{
    split_chars, split_fields, views, equals_str, chars_of, lower, lowered, push_chars,
    string_of, trim, trimmed, upper, uppered,
};

verus! {

/// The tokenizer, from the `tokenizers` crate. Nothing of its inside is seen here.
#[verifier::external_type_specification]
#[verifier::external_body]
pub struct ExTokenizer(tokenizers::Tokenizer);

/// The ids that a tokenizer has for its tokens: those of its added tokens
/// and, for every other token, those of its model's vocabulary.
pub uninterp spec fn vocabulary(tokenizer: Tokenizer) -> Map<Seq<char>, TokenId>;

/// The id that the tokenizer has for `token`, if it has one.
pub open spec fn id_of(tokenizer: Tokenizer, token: Seq<char>) -> Option<TokenId> {
    if vocabulary(tokenizer).dom().contains(token) {
        Some(vocabulary(tokenizer)[token])
    } else {
        None
    }
}

/// `Tokenizer::token_to_id` looks `token` up among the added tokens and,
/// where it is none of them, in the model's vocabulary; the contract says
/// that the answer is the entry of `vocabulary` for `token`.
#[verifier::external_body]
fn token_to_id(tokenizer: &Tokenizer, token: &str) -> (id: Option<TokenId>)
    ensures
        id == (if vocabulary(*tokenizer).dom().contains(token@) {
            Some(vocabulary(*tokenizer)[token@])
        } else {
            None
        }),
{
    tokenizer.token_to_id(token)
}

/// The text that a tokenizer makes of a sequence of ids when it leaves
/// special tokens out, or the message of its refusal.
pub uninterp spec fn decoded(tokenizer: Tokenizer, ids: Seq<TokenId>) -> Result<
    Seq<char>,
    Seq<char>,
>;

/// `Tokenizer::decode` with special tokens skipped, its error as text. The
/// contract names what comes back and says nothing of what it holds.
#[verifier::external_body]
fn decode_ids(tokenizer: &Tokenizer, ids: &Vec<TokenId>) -> (text: Result<String, String>)
    ensures
        match text {
            Ok(t) => Ok::<Seq<char>, Seq<char>>(t@),
            Err(e) => Err(e@),
        } == decoded(*tokenizer, ids@),
{
    tokenizer.decode(ids.as_slice(), true).map_err(|e| e.to_string())
}

/// The start-of-transcript token where the vocabulary names none.
pub const SOT_FALLBACK: TokenId = 50258;

/// The English token where the vocabulary names none.
pub const ENGLISH_FALLBACK: TokenId = 50259;

/// The transcribe token where the vocabulary names none.
pub const TRANSCRIBE_FALLBACK: TokenId = 50359;

/// The no-timestamps token where the vocabulary names none.
pub const NOTIMESTAMPS_FALLBACK: TokenId = 50363;

/// The token that stands for a leading space, which may not come first.
pub const LEADING_SPACE: TokenId = 220;

/// The language that the operator expects.
#[derive(Debug, Clone, Copy, PartialEq, Eq, Structural)]
pub enum DecodeLanguageHint {
    Auto,
    English,
    Mandarin,
    Russian,
}

/// The language hint that a setting stands for: its trimmed text in small
/// letters names English, Mandarin or Russian; anything else is no hint.
pub open spec fn language_hint_of(raw: Seq<char>) -> DecodeLanguageHint {
    let key = lowered(trimmed(raw));
    if key == "en"@ || key == "eng"@ || key == "english"@ {
        DecodeLanguageHint::English
    } else if key == "zh"@ || key == "zh-cn"@ || key == "zh-hans"@ || key == "mandarin"@ || key
        == "chinese"@ {
        DecodeLanguageHint::Mandarin
    } else if key == "ru"@ || key == "rus"@ || key == "russian"@ {
        DecodeLanguageHint::Russian
    } else {
        DecodeLanguageHint::Auto
    }
}

/// The language hint that a setting stands for.
pub fn parse_language_hint(raw: &str) -> (hint: DecodeLanguageHint)
    ensures
        hint == language_hint_of(raw@),
{
    let key = lower(&trim(&chars_of(raw)));
    if equals_str(&key, "en") || equals_str(&key, "eng") || equals_str(&key, "english") {
        DecodeLanguageHint::English
    } else if equals_str(&key, "zh") || equals_str(&key, "zh-cn") || equals_str(&key, "zh-hans") || equals_str(
        &key,
        "mandarin",
    ) || equals_str(&key, "chinese") {
        DecodeLanguageHint::Mandarin
    } else if equals_str(&key, "ru") || equals_str(&key, "rus") || equals_str(&key, "russian") {
        DecodeLanguageHint::Russian
    } else {
        DecodeLanguageHint::Auto
    }
}

/// The special tokens of a vocabulary.
#[derive(Debug, Clone, Copy, PartialEq, Eq, Structural)]
pub struct SpecialTokens {
    pub sot: TokenId,
    pub en: TokenId,
    pub transcribe: TokenId,
    pub notimestamps: TokenId,
    pub zh: Option<TokenId>,
    pub ru: Option<TokenId>,
    pub eot: TokenId,
    pub timestamp_begin: Option<TokenId>,
    pub translate: Option<TokenId>,
    pub nospeech: Option<TokenId>,
    /// The start-of-transcript, transcribe and no-timestamps tokens as the vocabulary has them.
    pub named_sot: Option<TokenId>,
    pub named_transcribe: Option<TokenId>,
    pub named_notimestamps: Option<TokenId>,
}

/// `id`, or `fallback` where there is none.
pub open spec fn or_fallback(id: Option<TokenId>, fallback: TokenId) -> TokenId {
    match id {
        Some(t) => t,
        None => fallback,
    }
}

/// The special tokens as the tokenizer has them, a fixed id standing in
/// for each that a decode cannot do without.
pub open spec fn special_tokens_of(tokenizer: Tokenizer) -> SpecialTokens {
    SpecialTokens {
        sot: or_fallback(id_of(tokenizer, "<|startoftranscript|>"@), SOT_FALLBACK),
        en: or_fallback(id_of(tokenizer, "<|en|>"@), ENGLISH_FALLBACK),
        transcribe: or_fallback(id_of(tokenizer, "<|transcribe|>"@), TRANSCRIBE_FALLBACK),
        notimestamps: or_fallback(id_of(tokenizer, "<|notimestamps|>"@), NOTIMESTAMPS_FALLBACK),
        zh: id_of(tokenizer, "<|zh|>"@),
        ru: id_of(tokenizer, "<|ru|>"@),
        eot: or_fallback(id_of(tokenizer, "<|endoftext|>"@), EOT),
        timestamp_begin: id_of(tokenizer, "<|0.00|>"@),
        translate: id_of(tokenizer, "<|translate|>"@),
        nospeech: id_of(tokenizer, "<|nospeech|>"@),
        named_sot: id_of(tokenizer, "<|startoftranscript|>"@),
        named_transcribe: id_of(tokenizer, "<|transcribe|>"@),
        named_notimestamps: id_of(tokenizer, "<|notimestamps|>"@),
    }
}

fn id_or(id: Option<TokenId>, fallback: TokenId) -> (t: TokenId)
    ensures
        t == or_fallback(id, fallback),
{
    match id {
        Some(t) => t,
        None => fallback,
    }
}

/// Looks the special tokens up.
pub fn special_tokens(tokenizer: &Tokenizer) -> (s: SpecialTokens)
    ensures
        s == special_tokens_of(*tokenizer),
{
    let named_sot = token_to_id(tokenizer, "<|startoftranscript|>");
    let named_transcribe = token_to_id(tokenizer, "<|transcribe|>");
    let named_notimestamps = token_to_id(tokenizer, "<|notimestamps|>");
    SpecialTokens {
        sot: id_or(named_sot, SOT_FALLBACK),
        en: id_or(token_to_id(tokenizer, "<|en|>"), ENGLISH_FALLBACK),
        transcribe: id_or(named_transcribe, TRANSCRIBE_FALLBACK),
        notimestamps: id_or(named_notimestamps, NOTIMESTAMPS_FALLBACK),
        zh: token_to_id(tokenizer, "<|zh|>"),
        ru: token_to_id(tokenizer, "<|ru|>"),
        eot: id_or(token_to_id(tokenizer, "<|endoftext|>"), EOT),
        timestamp_begin: token_to_id(tokenizer, "<|0.00|>"),
        translate: token_to_id(tokenizer, "<|translate|>"),
        nospeech: token_to_id(tokenizer, "<|nospeech|>"),
        named_sot,
        named_transcribe,
        named_notimestamps,
    }
}

// ---------------------------------------------------------------------------
// Suppressed tokens
// ---------------------------------------------------------------------------

/// Whether `t` is one of the control tokens that a decode never chooses:
/// start-of-transcript, translate, transcribe, no-timestamps and no-speech,
/// as far as the vocabulary has them.
pub open spec fn is_always_suppressed(s: SpecialTokens, t: TokenId) -> bool {
    ||| s.named_sot == Some(t)
    ||| s.translate == Some(t)
    ||| s.named_transcribe == Some(t)
    ||| s.named_notimestamps == Some(t)
    ||| s.nospeech == Some(t)
}

fn push_if_new(list: &mut Vec<TokenId>, id: Option<TokenId>)
    requires
        old(list)@.no_duplicates(),
    ensures
        final(list)@.no_duplicates(),
        forall|t: TokenId| final(list)@.contains(t) <==> (old(list)@.contains(t) || id == Some(t)),
{
    let ghost before = list@;
    match id {
        Some(t) => {
            if !contains_token(list, t) {
                list.push(t);
                assert forall|u: TokenId| list@.contains(u) <==> (before.contains(u) || u
                    == t) by {
                    if before.contains(u) {
                        let k = choose|k: int| 0 <= k < before.len() && before[k] == u;
                        assert(list@[k] == u);
                    }
                    if u == t {
                        assert(list@[before.len() as int] == u);
                    }
                }
            }
        },
        None => {},
    }
}

/// The tokens that a decode never chooses, each once.
pub fn always_suppress_tokens(s: &SpecialTokens) -> (list: Vec<TokenId>)
    ensures
        list@.no_duplicates(),
        forall|t: TokenId| list@.contains(t) <==> is_always_suppressed(*s, t),
{
    let mut list: Vec<TokenId> = Vec::new();
    push_if_new(&mut list, s.named_sot);
    push_if_new(&mut list, s.translate);
    push_if_new(&mut list, s.named_transcribe);
    push_if_new(&mut list, s.named_notimestamps);
    push_if_new(&mut list, s.nospeech);
    list
}

/// The tokens that a decode does not begin with: the leading space and the
/// end-of-text token, each once.
pub fn begin_suppress_tokens(s: &SpecialTokens) -> (list: Vec<TokenId>)
    ensures
        list@.no_duplicates(),
        forall|t: TokenId| list@.contains(t) <==> (t == LEADING_SPACE || t == s.eot),
{
    let mut list: Vec<TokenId> = Vec::new();
    push_if_new(&mut list, Some(LEADING_SPACE));
    push_if_new(&mut list, Some(s.eot));
    list
}

// ---------------------------------------------------------------------------
// Prompt prefixes
// ---------------------------------------------------------------------------

/// `list` with `p` at the end, unless it holds `p` already.
pub open spec fn with_new(list: Seq<Seq<TokenId>>, p: Seq<TokenId>) -> Seq<Seq<TokenId>> {
    if list.contains(p) {
        list
    } else {
        list.push(p)
    }
}

/// `proposals` in order, each prefix once.
pub open spec fn each_once(proposals: Seq<Seq<TokenId>>) -> Seq<Seq<TokenId>>
    decreases proposals.len(),
{
    if proposals.len() == 0 {
        Seq::empty()
    } else {
        with_new(each_once(proposals.drop_last()), proposals.last())
    }
}

/// The prefixes for a language token: with and without the no-timestamps token.
pub open spec fn language_pair(s: SpecialTokens, language: TokenId) -> Seq<Seq<TokenId>> {
    seq![seq![s.sot, language, s.transcribe, s.notimestamps], seq![s.sot, language, s.transcribe]]
}

/// The prefixes that the hint puts first.
pub open spec fn hinted_prefixes(s: SpecialTokens, hint: DecodeLanguageHint) -> Seq<Seq<TokenId>> {
    match hint {
        DecodeLanguageHint::English => language_pair(s, s.en),
        DecodeLanguageHint::Mandarin => match s.zh {
            Some(zh) => language_pair(s, zh),
            None => Seq::empty(),
        },
        DecodeLanguageHint::Russian => match s.ru {
            Some(ru) => language_pair(s, ru),
            None => Seq::empty(),
        },
        DecodeLanguageHint::Auto => Seq::empty(),
    }
}

/// The prefixes that are tried whatever the hint: language detection
/// first, then Mandarin and Russian where the vocabulary has them, English last.
pub open spec fn common_prefixes(s: SpecialTokens) -> Seq<Seq<TokenId>> {
    seq![seq![s.sot, s.transcribe, s.notimestamps], seq![s.sot, s.transcribe]] + (match s.zh {
        Some(zh) => seq![seq![s.sot, zh, s.transcribe, s.notimestamps]],
        None => Seq::empty(),
    }) + (match s.ru {
        Some(ru) => seq![seq![s.sot, ru, s.transcribe, s.notimestamps]],
        None => Seq::empty(),
    }) + language_pair(s, s.en)
}

/// The candidate prompt prefixes in the order in which they are tried: the
/// hinted language first, then language detection, then the other
/// languages, English last; no prefix twice.
pub open spec fn prefix_candidates(s: SpecialTokens, hint: DecodeLanguageHint) -> Seq<
    Seq<TokenId>,
> {
    each_once(hinted_prefixes(s, hint) + common_prefixes(s))
}

/// The contents of a vector of prefixes.
pub open spec fn prefix_views(list: Seq<Vec<TokenId>>) -> Seq<Seq<TokenId>> {
    Seq::new(list.len(), |i: int| list[i]@)
}

fn same_tokens(a: &Vec<TokenId>, b: &Vec<TokenId>) -> (r: bool)
    ensures
        r == (a@ == b@),
{
    if a.len() != b.len() {
        return false;
    }
    let mut i: usize = 0;
    while i < a.len()
        invariant
            i <= a.len(),
            a.len() == b.len(),
            forall|j: int| 0 <= j < i ==> a@[j] == b@[j],
        decreases a.len() - i,
    {
        if a[i] != b[i] {
            return false;
        }
        i += 1;
    }
    assert(a@ =~= b@);
    true
}

fn push_prefix(out: &mut Vec<Vec<TokenId>>, prefix: Vec<TokenId>)
    ensures
        prefix_views(final(out)@) == with_new(prefix_views(old(out)@), prefix@),
{
    let ghost before = prefix_views(out@);
    let mut i: usize = 0;
    while i < out.len()
        invariant
            i <= out.len(),
            out@ == old(out)@,
            before == prefix_views(out@),
            forall|j: int| 0 <= j < i ==> before[j] != prefix@,
        decreases out.len() - i,
    {
        if same_tokens(&out[i], &prefix) {
            assert(before[i as int] == prefix@);
            assert(prefix_views(out@) =~= before);
            return ;
        }
        i += 1;
    }
    out.push(prefix);
    assert(prefix_views(out@) =~= before.push(prefix@));
}

fn four(a: TokenId, b: TokenId, c: TokenId, d: TokenId) -> (v: Vec<TokenId>)
    ensures
        v@ == seq![a, b, c, d],
{
    let mut v: Vec<TokenId> = Vec::new();
    v.push(a);
    v.push(b);
    v.push(c);
    v.push(d);
    assert(v@ =~= seq![a, b, c, d]);
    v
}

fn three(a: TokenId, b: TokenId, c: TokenId) -> (v: Vec<TokenId>)
    ensures
        v@ == seq![a, b, c],
{
    let mut v: Vec<TokenId> = Vec::new();
    v.push(a);
    v.push(b);
    v.push(c);
    assert(v@ =~= seq![a, b, c]);
    v
}

fn two(a: TokenId, b: TokenId) -> (v: Vec<TokenId>)
    ensures
        v@ == seq![a, b],
{
    let mut v: Vec<TokenId> = Vec::new();
    v.push(a);
    v.push(b);
    assert(v@ =~= seq![a, b]);
    v
}

/// `each_once` taken one proposal further.
proof fn lemma_each_once_push(proposals: Seq<Seq<TokenId>>, p: Seq<TokenId>)
    ensures
        each_once(proposals.push(p)) == with_new(each_once(proposals), p),
{
    assert(proposals.push(p).drop_last() =~= proposals);
}

/// The candidate prompt prefixes for a hint, in the order in which they are tried.
pub fn decode_prefix_candidates_from(s: &SpecialTokens, hint: DecodeLanguageHint) -> (out: Vec<
    Vec<TokenId>,
>)
    ensures
        prefix_views(out@) == prefix_candidates(*s, hint),
        out@.len() >= 2,
{
    let mut out: Vec<Vec<TokenId>> = Vec::new();
    let ghost mut proposed: Seq<Seq<TokenId>> = Seq::empty();
    assert(prefix_views(out@) =~= each_once(proposed));
    let language: Option<TokenId> = match hint {
        DecodeLanguageHint::English => Some(s.en),
        DecodeLanguageHint::Mandarin => s.zh,
        DecodeLanguageHint::Russian => s.ru,
        DecodeLanguageHint::Auto => None,
    };
    match language {
        Some(l) => {
            push_prefix(&mut out, four(s.sot, l, s.transcribe, s.notimestamps));
            proof {
                lemma_each_once_push(proposed, seq![s.sot, l, s.transcribe, s.notimestamps]);
                proposed = proposed.push(seq![s.sot, l, s.transcribe, s.notimestamps]);
            }
            push_prefix(&mut out, three(s.sot, l, s.transcribe));
            proof {
                lemma_each_once_push(proposed, seq![s.sot, l, s.transcribe]);
                proposed = proposed.push(seq![s.sot, l, s.transcribe]);
            }
            assert(proposed =~= hinted_prefixes(*s, hint));
        },
        None => {
            assert(proposed =~= hinted_prefixes(*s, hint));
        },
    }
    let ghost hinted = proposed;
    push_prefix(&mut out, three(s.sot, s.transcribe, s.notimestamps));
    proof {
        lemma_each_once_push(proposed, seq![s.sot, s.transcribe, s.notimestamps]);
        proposed = proposed.push(seq![s.sot, s.transcribe, s.notimestamps]);
    }
    push_prefix(&mut out, two(s.sot, s.transcribe));
    proof {
        lemma_each_once_push(proposed, seq![s.sot, s.transcribe]);
        proposed = proposed.push(seq![s.sot, s.transcribe]);
    }
    match s.zh {
        Some(zh) => {
            push_prefix(&mut out, four(s.sot, zh, s.transcribe, s.notimestamps));
            proof {
                lemma_each_once_push(proposed, seq![s.sot, zh, s.transcribe, s.notimestamps]);
                proposed = proposed.push(seq![s.sot, zh, s.transcribe, s.notimestamps]);
            }
        },
        None => {},
    }
    match s.ru {
        Some(ru) => {
            push_prefix(&mut out, four(s.sot, ru, s.transcribe, s.notimestamps));
            proof {
                lemma_each_once_push(proposed, seq![s.sot, ru, s.transcribe, s.notimestamps]);
                proposed = proposed.push(seq![s.sot, ru, s.transcribe, s.notimestamps]);
            }
        },
        None => {},
    }
    push_prefix(&mut out, four(s.sot, s.en, s.transcribe, s.notimestamps));
    proof {
        lemma_each_once_push(proposed, seq![s.sot, s.en, s.transcribe, s.notimestamps]);
        proposed = proposed.push(seq![s.sot, s.en, s.transcribe, s.notimestamps]);
    }
    push_prefix(&mut out, three(s.sot, s.en, s.transcribe));
    proof {
        lemma_each_once_push(proposed, seq![s.sot, s.en, s.transcribe]);
        proposed = proposed.push(seq![s.sot, s.en, s.transcribe]);
    }
    assert(proposed =~= hinted + common_prefixes(*s));
    proof {
        lemma_two_lengths_stay(*s, hint);
    }
    out
}

/// The candidates hold a prefix of two tokens and one of three or four, so
/// there are two at least.
proof fn lemma_two_lengths_stay(s: SpecialTokens, hint: DecodeLanguageHint)
    ensures
        prefix_candidates(s, hint).len() >= 2,
{
    let all = hinted_prefixes(s, hint) + common_prefixes(s);
    let short = seq![s.sot, s.transcribe];
    let long = seq![s.sot, s.en, s.transcribe, s.notimestamps];
    assert(short.len() == 2);
    assert(long.len() == 4);
    assert(common_prefixes(s).contains(short)) by {
        assert(common_prefixes(s)[1] == short);
    }
    assert(common_prefixes(s).contains(long)) by {
        assert(common_prefixes(s)[common_prefixes(s).len() - 2] == long);
    }
    assert(all.contains(short)) by {
        let k = choose|k: int| 0 <= k < common_prefixes(s).len() && common_prefixes(s)[k] == short;
        assert(all[hinted_prefixes(s, hint).len() + k] == short);
    }
    assert(all.contains(long)) by {
        let k = choose|k: int| 0 <= k < common_prefixes(s).len() && common_prefixes(s)[k] == long;
        assert(all[hinted_prefixes(s, hint).len() + k] == long);
    }
    lemma_each_once_keeps(all, short);
    lemma_each_once_keeps(all, long);
    let once = each_once(all);
    let i = choose|i: int| 0 <= i < once.len() && once[i] == short;
    let j = choose|j: int| 0 <= j < once.len() && once[j] == long;
    assert(i != j);
}

/// What is proposed is among the candidates.
proof fn lemma_each_once_keeps(proposals: Seq<Seq<TokenId>>, p: Seq<TokenId>)
    requires
        proposals.contains(p),
    ensures
        each_once(proposals).contains(p),
    decreases proposals.len(),
{
    let init = proposals.drop_last();
    let before = each_once(init);
    if proposals.last() == p {
        if !before.contains(p) {
            assert(before.push(p)[before.len() as int] == p);
        }
    } else {
        let k = choose|k: int| 0 <= k < proposals.len() && proposals[k] == p;
        assert(init[k] == p);
        lemma_each_once_keeps(init, p);
        let m = choose|m: int| 0 <= m < before.len() && before[m] == p;
        if !before.contains(proposals.last()) {
            assert(before.push(proposals.last())[m] == p);
        }
    }
}

/// The candidate prompt prefixes of a tokenizer for a hint.
pub fn decode_prefix_candidates(tokenizer: &Tokenizer, hint: DecodeLanguageHint) -> (out: Vec<
    Vec<TokenId>,
>)
    ensures
        prefix_views(out@) == prefix_candidates(special_tokens_of(*tokenizer), hint),
        out@.len() >= 2,
{
    let s = special_tokens(tokenizer);
    decode_prefix_candidates_from(&s, hint)
}

// ---------------------------------------------------------------------------
// Phrase bias
// ---------------------------------------------------------------------------

/// The fields as terms: trimmed, in small letters, without the blank ones.
pub open spec fn terms_among(fields: Seq<Seq<char>>) -> Seq<Seq<char>>
    decreases fields.len(),
{
    if fields.len() == 0 {
        Seq::empty()
    } else {
        let t = lowered(trimmed(fields.last()));
        if t.len() > 0 {
            terms_among(fields.drop_last()).push(t)
        } else {
            terms_among(fields.drop_last())
        }
    }
}

/// The phrase bias terms that a setting lists, with commas and line
/// breaks between its entries.
pub open spec fn bias_terms_in(raw: Seq<char>) -> Seq<Seq<char>> {
    terms_among(split_fields(raw, seq![',', '\n']))
}

/// The phrase bias terms that a setting lists.
pub fn parse_phrase_bias_terms(raw: &str) -> (terms: Vec<String>)
    ensures
        term_views(terms@) == bias_terms_in(raw@),
{
    let mut seps: Vec<char> = Vec::new();
    seps.push(',');
    seps.push('\n');
    assert(seps@ =~= seq![',', '\n']);
    let fields = split_chars(&chars_of(raw), &seps);
    let mut terms: Vec<String> = Vec::new();
    let mut i: usize = 0;
    assert(views(fields@).take(0) =~= Seq::<Seq<char>>::empty());
    assert(term_views(terms@) =~= Seq::<Seq<char>>::empty());
    while i < fields.len()
        invariant
            i <= fields.len(),
            term_views(terms@) == terms_among(views(fields@).take(i as int)),
        decreases fields.len() - i,
    {
        let ghost next = views(fields@).take(i + 1);
        assert(next.drop_last() =~= views(fields@).take(i as int));
        assert(next.last() == fields@[i as int]@);
        let t = lower(&trim(&fields[i]));
        if t.len() > 0 {
            let ghost old_terms = term_views(terms@);
            terms.push(string_of(&t));
            assert(term_views(terms@) =~= old_terms.push(t@));
        }
        i += 1;
    }
    assert(views(fields@).take(fields.len() as int) =~= views(fields@));
    terms
}

/// The forms in which a bias term is looked up: as it is, behind a space,
/// and both in capitals.
pub open spec fn bias_form(term: Seq<char>, form: int) -> Seq<char> {
    if form == 0 {
        term
    } else if form == 1 {
        seq![' '] + term
    } else if form == 2 {
        uppered(term)
    } else {
        seq![' '] + uppered(term)
    }
}

/// Whether `t` is the token of one of the forms of one of the terms.
pub open spec fn is_biased(tokenizer: Tokenizer, terms: Seq<Seq<char>>, t: TokenId) -> bool {
    exists|i: int, form: int|
        0 <= i < terms.len() && 0 <= form < 4 && #[trigger] id_of(
            tokenizer,
            bias_form(terms[i], form),
        ) == Some(t)
}

/// The texts of a vector of strings.
pub open spec fn term_views(terms: Seq<String>) -> Seq<Seq<char>> {
    Seq::new(terms.len(), |i: int| terms[i]@)
}

fn bias_form_of(term: &Vec<char>, form: usize) -> (r: String)
    requires
        form < 4,
    ensures
        r@ == bias_form(term@, form as int),
{
    let mut out: Vec<char> = Vec::new();
    if form == 1 || form == 3 {
        out.push(' ');
    }
    if form >= 2 {
        let u = upper(term);
        push_chars(&mut out, &u);
    } else {
        push_chars(&mut out, term);
    }
    assert(out@ =~= bias_form(term@, form as int));
    string_of(&out)
}

/// The tokens that the phrase bias favours, each once.
pub fn phrase_bias_token_ids(tokenizer: &Tokenizer, terms: &Vec<String>) -> (ids: Vec<TokenId>)
    ensures
        ids@.no_duplicates(),
        forall|t: TokenId| ids@.contains(t) <==> is_biased(*tokenizer, term_views(terms@), t),
{
    let mut ids: Vec<TokenId> = Vec::new();
    let mut i: usize = 0;
    while i < terms.len()
        invariant
            i <= terms.len(),
            ids@.no_duplicates(),
            forall|t: TokenId|
                ids@.contains(t) <==> exists|k: int, form: int|
                    0 <= k < i && 0 <= form < 4 && #[trigger] id_of(
                        *tokenizer,
                        bias_form(term_views(terms@)[k], form),
                    ) == Some(t),
        decreases terms.len() - i,
    {
        let term = chars_of(terms[i].as_str());
        assert(term_views(terms@)[i as int] == term@);
        let mut form: usize = 0;
        while form < 4
            invariant
                form <= 4,
                i < terms.len(),
                term@ == term_views(terms@)[i as int],
                ids@.no_duplicates(),
                forall|t: TokenId|
                    ids@.contains(t) <==> exists|k: int, f: int|
                        0 <= k <= i && 0 <= f < 4 && (k < i || f < form) && #[trigger] id_of(
                            *tokenizer,
                            bias_form(term_views(terms@)[k], f),
                        ) == Some(t),
            decreases 4 - form,
        {
            let text = bias_form_of(&term, form);
            let id = token_to_id(tokenizer, text.as_str());
            let ghost before = ids@;
            push_if_new(&mut ids, id);
            assert forall|t: TokenId|
                ids@.contains(t) <==> exists|k: int, f: int|
                    0 <= k <= i && 0 <= f < 4 && (k < i || f < form + 1) && #[trigger] id_of(
                        *tokenizer,
                        bias_form(term_views(terms@)[k], f),
                    ) == Some(t) by {
                if before.contains(t) {
                    let (k, f) = choose|k: int, f: int|
                        0 <= k <= i && 0 <= f < 4 && (k < i || f < form) && #[trigger] id_of(
                            *tokenizer,
                            bias_form(term_views(terms@)[k], f),
                        ) == Some(t);
                    assert(0 <= k <= i && 0 <= f < 4 && (k < i || f < form + 1) && id_of(
                        *tokenizer,
                        bias_form(term_views(terms@)[k], f),
                    ) == Some(t));
                }
                if id == Some(t) {
                    assert(id_of(
                        *tokenizer,
                        bias_form(term_views(terms@)[i as int], form as int),
                    ) == Some(t));
                }
                if exists|k: int, f: int|
                    0 <= k <= i && 0 <= f < 4 && (k < i || f < form + 1) && #[trigger] id_of(
                        *tokenizer,
                        bias_form(term_views(terms@)[k], f),
                    ) == Some(t) {
                    let (k, f) = choose|k: int, f: int|
                        0 <= k <= i && 0 <= f < 4 && (k < i || f < form + 1) && #[trigger] id_of(
                            *tokenizer,
                            bias_form(term_views(terms@)[k], f),
                        ) == Some(t);
                    if k < i || f < form {
                        assert(before.contains(t));
                    } else {
                        assert(id == Some(t));
                    }
                }
            }
            form += 1;
        }
        i += 1;
    }
    ids
}

/// The text of the tokens: none where there are no tokens, else what the
/// tokenizer makes of them.
pub open spec fn text_of_tokens(tokenizer: Tokenizer, tokens: Seq<TokenId>) -> Result<
    Option<Seq<char>>,
    Seq<char>,
> {
    if tokens.len() == 0 {
        Ok(None)
    } else {
        match decoded(tokenizer, tokens) {
            Ok(text) => Ok(Some(text)),
            Err(e) => Err(e),
        }
    }
}

/// The text of the tokens, as the tokenizer gives it with special tokens
/// left out; absent where no token stands for text.
pub fn decode_text(tokenizer: &Tokenizer, text_tokens: &Vec<TokenId>) -> (r: Result<
    Option<String>,
    String,
>)
    ensures
        match r {
            Ok(Some(t)) => Ok::<Option<Seq<char>>, Seq<char>>(Some(t@)),
            Ok(None) => Ok(None),
            Err(e) => Err(e@),
        } == text_of_tokens(*tokenizer, text_tokens@),
{
    if text_tokens.len() == 0 {
        return Ok(None);
    }
    match decode_ids(tokenizer, text_tokens) {
        Ok(text) => Ok(Some(text)),
        Err(e) => Err(e),
    }
}

} // verus!
