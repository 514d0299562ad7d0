//! Greedy decoding: what is decided around each run of the decoder network.
//!
//! The caller runs the network and picks the best-scoring token among those
//! that [`DecodeState::is_allowed`] admits, with the scores adjusted by the
//! counts of [`DecodeState::tail_counts`] and by the phrase bias. The state
//! keeps the token sequence and says when decoding stops.

use vstd::prelude::*;
use crate::buffering::tail_of;
use crate::inference::quality::AudioSpan;

verus! {

/// A token of the model's vocabulary.
pub type TokenId = u32;

/// The end-of-text token where the vocabulary names none.
pub const EOT: TokenId = 50257;

/// The most steps of any decode.
pub const MAX_TOKENS: usize = 224;

/// The most steps of a partial decode.
pub const PARTIAL_MAX_TOKENS: usize = 10;

/// The least step budget of a final decode.
pub const MIN_FINAL_TOKENS: usize = 24;

/// Immediate repeats of one token at which decoding stops.
pub const REPEAT_TOKEN_BREAK_THRESHOLD: usize = 14;

/// How far back repeated tokens are counted.
pub const MAX_TOKEN_TAIL_HISTORY: usize = 64;

/// Occurrences in the tail from which a token is no longer admitted.
pub const MAX_TAIL_TOKEN_OCCURRENCES: usize = 14;

/// The score taken off a token for each of its occurrences in the tail, in hundredths.
pub const TOKEN_REPEAT_PENALTY_HUNDREDTHS: u32 = 14;

/// The score added to a token of the phrase bias, in hundredths.
pub const PHRASE_BIAS_BOOST_HUNDREDTHS: u32 = 45;

/// The longest phrase whose repetition at the tail stops decoding.
pub const MAX_TAIL_PATTERN: usize = 8;

/// The size of the n-grams that a final decode may not repeat; 0 switches the rule off.
pub const NO_REPEAT_NGRAM_SIZE: usize = 0;

// ---------------------------------------------------------------------------
// Repetition at the tail
// ---------------------------------------------------------------------------

/// The last `3 * n` tokens are one phrase of `n` tokens three times over.
pub open spec fn tail_repeats(generated: Seq<TokenId>, n: int) -> bool {
    &&& n >= 1
    &&& generated.len() >= 3 * n
    &&& forall|k: int|
        generated.len() - 2 * n <= k < generated.len() ==> #[trigger] generated[k] == generated[k
            - n]
}

/// The tokens end in a phrase of one to eight tokens said three times over.
pub open spec fn repeating_tail(generated: Seq<TokenId>) -> bool {
    exists|n: int| 1 <= n <= MAX_TAIL_PATTERN && #[trigger] tail_repeats(generated, n)
}

fn tail_repeats_with(generated: &Vec<TokenId>, n: usize) -> (b: bool)
    requires
        1 <= n <= MAX_TAIL_PATTERN,
    ensures
        b == tail_repeats(generated@, n as int),
{
    let len = generated.len();
    if len / 3 < n {
        return false;
    }
    let mut k: usize = len - 2 * n;
    while k < len
        invariant
            1 <= n <= MAX_TAIL_PATTERN,
            len == generated.len(),
            len >= 3 * n,
            len - 2 * n <= k <= len,
            forall|j: int| len - 2 * n <= j < k ==> #[trigger] generated@[j] == generated@[j - n],
        decreases len - k,
    {
        if generated[k] != generated[k - n] {
            return false;
        }
        k += 1;
    }
    true
}

/// Whether the tokens end in a short phrase said three times over.
pub fn has_repeating_tail_pattern(generated: &Vec<TokenId>) -> (b: bool)
    ensures
        b == repeating_tail(generated@),
{
    let mut n: usize = 1;
    while n <= MAX_TAIL_PATTERN
        invariant
            1 <= n <= MAX_TAIL_PATTERN + 1,
            forall|m: int| 1 <= m < n ==> !tail_repeats(generated@, m),
        decreases MAX_TAIL_PATTERN + 1 - n,
    {
        if tail_repeats_with(generated, n) {
            return true;
        }
        n += 1;
    }
    false
}

// ---------------------------------------------------------------------------
// N-grams that may not repeat
// ---------------------------------------------------------------------------

/// The n-gram at `i` begins like the end of `generated` and goes on with `t`.
pub open spec fn repeats_context_at(generated: Seq<TokenId>, n: int, i: int, t: TokenId) -> bool {
    &&& 0 <= i
    &&& i + n <= generated.len()
    &&& generated.subrange(i, i + n - 1) == generated.subrange(
        generated.len() - (n - 1),
        generated.len() as int,
    )
    &&& generated[i + n - 1] == t
}

/// `t` would complete an n-gram that the generated tokens hold already.
pub open spec fn completes_seen_ngram(generated: Seq<TokenId>, n: int, t: TokenId) -> bool {
    n >= 2 && generated.len() + 1 >= n && exists|i: int| #[trigger] repeats_context_at(
        generated,
        n,
        i,
        t,
    )
}

/// What was generated behind a prefix of `prefix_len` tokens.
pub open spec fn generated_part(tokens: Seq<TokenId>, prefix_len: int) -> Seq<TokenId> {
    if 0 <= prefix_len <= tokens.len() {
        tokens.subrange(prefix_len, tokens.len() as int)
    } else {
        Seq::empty()
    }
}

fn context_matches_at(generated: &Vec<TokenId>, n: usize, i: usize) -> (b: bool)
    requires
        n >= 2,
        i + n <= generated.len(),
    ensures
        b == (generated@.subrange(i as int, i + n - 1) == generated@.subrange(
            generated.len() - (n - 1),
            generated.len() as int,
        )),
{
    let base: usize = generated.len() - (n - 1);
    let mut k: usize = 0;
    while k < n - 1
        invariant
            n >= 2,
            i + n <= generated.len(),
            base == generated.len() - (n - 1),
            k <= n - 1,
            forall|j: int|
                0 <= j < k ==> #[trigger] generated@.subrange(i as int, i + n - 1)[j]
                    == generated@.subrange(base as int, generated.len() as int)[j],
        decreases n - 1 - k,
    {
        if generated[i + k] != generated[base + k] {
            assert(generated@.subrange(i as int, i + n - 1)[k as int] != generated@.subrange(
                base as int,
                generated.len() as int,
            )[k as int]);
            return false;
        }
        k += 1;
    }
    assert(generated@.subrange(i as int, i + n - 1) =~= generated@.subrange(
        base as int,
        generated.len() as int,
    ));
    true
}

/// The tokens that would repeat an n-gram of what was generated, each once.
pub fn banned_next_tokens_no_repeat_ngram(
    tokens: &Vec<TokenId>,
    prefix_len: usize,
    ngram_size: usize,
) -> (banned: Vec<TokenId>)
    ensures
        banned@.no_duplicates(),
        forall|t: TokenId|
            banned@.contains(t) <==> completes_seen_ngram(
                generated_part(tokens@, prefix_len as int),
                ngram_size as int,
                t,
            ),
{
    let mut banned: Vec<TokenId> = Vec::new();
    if ngram_size < 2 || prefix_len > tokens.len() {
        return banned;
    }
    let mut generated: Vec<TokenId> = Vec::new();
    let mut c: usize = prefix_len;
    while c < tokens.len()
        invariant
            prefix_len <= c <= tokens.len(),
            generated@ == tokens@.subrange(prefix_len as int, c as int),
        decreases tokens.len() - c,
    {
        generated.push(tokens[c]);
        c += 1;
    }
    assert(generated@ == generated_part(tokens@, prefix_len as int));
    if generated.len() < ngram_size {
        // With one token less than an n-gram there is no n-gram to repeat.
        assert forall|t: TokenId|
            !completes_seen_ngram(generated@, ngram_size as int, t) by {
            assert forall|i: int| !repeats_context_at(generated@, ngram_size as int, i, t) by {}
        }
        return banned;
    }
    let count: usize = generated.len() - ngram_size + 1;
    let mut i: usize = 0;
    while i < count
        invariant
            ngram_size >= 2,
            count + ngram_size == generated.len() + 1,
            i <= count,
            banned@.no_duplicates(),
            forall|t: TokenId|
                banned@.contains(t) <==> exists|j: int|
                    0 <= j < i && #[trigger] repeats_context_at(
                        generated@,
                        ngram_size as int,
                        j,
                        t,
                    ),
        decreases count - i,
    {
        let ghost before = banned@;
        let matches = context_matches_at(&generated, ngram_size, i);
        let next = generated[i + ngram_size - 1];
        if matches && !contains_token(&banned, next) {
            banned.push(next);
            assert forall|t: TokenId| banned@.contains(t) <==> (before.contains(t) || t
                == next) by {
                if before.contains(t) {
                    let k = choose|k: int| 0 <= k < before.len() && before[k] == t;
                    assert(banned@[k] == t);
                }
                if t == next {
                    assert(banned@[before.len() as int] == t);
                }
            }
        }
        assert forall|t: TokenId|
            banned@.contains(t) <==> exists|j: int|
                0 <= j < i + 1 && #[trigger] repeats_context_at(
                    generated@,
                    ngram_size as int,
                    j,
                    t,
                ) by {
            if banned@.contains(t) {
                if before.contains(t) {
                    let j = choose|j: int|
                        0 <= j < i && #[trigger] repeats_context_at(
                            generated@,
                            ngram_size as int,
                            j,
                            t,
                        );
                    assert(0 <= j < i + 1 && repeats_context_at(
                        generated@,
                        ngram_size as int,
                        j,
                        t,
                    ));
                } else {
                    assert(t == next && matches);
                    assert(repeats_context_at(generated@, ngram_size as int, i as int, t));
                }
            }
            if exists|j: int|
                0 <= j < i + 1 && #[trigger] repeats_context_at(
                    generated@,
                    ngram_size as int,
                    j,
                    t,
                ) {
                let j = choose|j: int|
                    0 <= j < i + 1 && #[trigger] repeats_context_at(
                        generated@,
                        ngram_size as int,
                        j,
                        t,
                    );
                if j < i {
                    assert(before.contains(t));
                } else {
                    assert(j == i);
                    assert(matches && t == next);
                }
            }
        }
        i += 1;
    }
    assert forall|t: TokenId|
        banned@.contains(t) <==> completes_seen_ngram(generated@, ngram_size as int, t) by {
        if completes_seen_ngram(generated@, ngram_size as int, t) {
            let j = choose|j: int| #[trigger]
                repeats_context_at(generated@, ngram_size as int, j, t);
            assert(0 <= j < count);
        }
    }
    banned
}

/// Whether `t` is among `list`.
pub fn contains_token(list: &Vec<TokenId>, t: TokenId) -> (b: bool)
    ensures
        b == list@.contains(t),
{
    let mut i: usize = 0;
    while i < list.len()
        invariant
            i <= list.len(),
            forall|j: int| 0 <= j < i ==> list@[j] != t,
        decreases list.len() - i,
    {
        if list[i] == t {
            return true;
        }
        i += 1;
    }
    false
}


// ---------------------------------------------------------------------------
// Step budgets
// ---------------------------------------------------------------------------

/// `x` kept between `low` and `high`.
pub open spec fn clamped(x: int, low: int, high: int) -> int {
    if x < low {
        low
    } else if x > high {
        high
    } else {
        x
    }
}

/// The tokens that the audio is expected to need: 6.8 a second, rounded up,
/// and 12 on top.
pub open spec fn estimated_tokens(audio: AudioSpan) -> int {
    (audio.samples * 68 + audio.rate() * 10 - 1) / (audio.rate() * 10) + 12
}

/// The step budget of a final decode: the estimate, between 24 and 224.
pub open spec fn adaptive_final_steps(audio: AudioSpan) -> int {
    clamped(estimated_tokens(audio), MIN_FINAL_TOKENS as int, MAX_TOKENS as int)
}

/// The full step budget: that of a final decode, and no more than 10 for a partial one.
pub open spec fn max_decode_steps(audio: AudioSpan, partial: bool) -> int {
    if partial && adaptive_final_steps(audio) > PARTIAL_MAX_TOKENS {
        PARTIAL_MAX_TOKENS as int
    } else {
        adaptive_final_steps(audio)
    }
}

/// The cap of the first, fast pass over a final decode, by the length of the audio.
pub open spec fn short_cap(audio: AudioSpan) -> int {
    if audio.lasts_at_most(4) {
        96
    } else if audio.lasts_at_most(8) {
        128
    } else {
        160
    }
}

/// The step budget of the first, fast pass.
pub open spec fn fast_decode_steps(audio: AudioSpan, partial: bool) -> int {
    if partial {
        max_decode_steps(audio, partial)
    } else {
        clamped(max_decode_steps(audio, partial), MIN_FINAL_TOKENS as int, short_cap(audio))
    }
}

/// The step budget of a refinement pass: 48 more than the full budget, within the limits.
pub open spec fn refine_decode_steps(audio: AudioSpan) -> int {
    clamped(max_decode_steps(audio, false) + 48, MIN_FINAL_TOKENS as int, MAX_TOKENS as int)
}

/// The step budgets of one transcription.
#[derive(Debug, Clone, Copy, PartialEq, Eq, Structural)]
pub struct StepBudget {
    pub fast: usize,
    pub full: usize,
    pub refine: usize,
}

/// The step budgets for `audio`.
pub fn step_budget(audio: AudioSpan, partial: bool) -> (b: StepBudget)
    ensures
        b.fast == fast_decode_steps(audio, partial),
        b.full == max_decode_steps(audio, partial),
        b.refine == refine_decode_steps(audio),
        1 <= b.fast <= b.full <= MAX_TOKENS,
        b.full <= b.refine <= MAX_TOKENS,
{
    let rate: u128 = if audio.sample_rate == 0 {
        1
    } else {
        audio.sample_rate as u128
    };
    let samples: u128 = audio.samples as u128;
    let estimated: u128 = (samples * 68 + rate * 10 - 1) / (rate * 10) + 12;
    let adaptive: usize = if estimated < 24 {
        24
    } else if estimated > 224 {
        224
    } else {
        estimated as usize
    };
    let full: usize = if partial && adaptive > PARTIAL_MAX_TOKENS {
        PARTIAL_MAX_TOKENS
    } else {
        adaptive
    };
    let cap: usize = if audio.at_most_seconds(4) {
        96
    } else if audio.at_most_seconds(8) {
        128
    } else {
        160
    };
    let fast: usize = if partial {
        full
    } else if full < 24 {
        24
    } else if full > cap {
        cap
    } else {
        full
    };
    let wide: usize = adaptive + 48;
    let refine: usize = if wide > 224 {
        224
    } else {
        wide
    };
    StepBudget { fast, full, refine }
}

// ---------------------------------------------------------------------------
// The state of one decode
// ---------------------------------------------------------------------------

/// Why a decode stopped.
#[derive(Debug, Clone, Copy, PartialEq, Eq, Structural)]
pub enum StopReason {
    /// The end-of-text token came.
    EndOfText,
    /// One token came too often in a row.
    RepeatedToken,
    /// The tokens end in a phrase said three times over.
    RepeatingTail,
    /// The step budget is used up.
    StepLimit,
}

/// What steers one decode.
#[derive(Debug)]
pub struct DecodeRules {
    /// The end-of-text token.
    pub eot_id: TokenId,
    /// The first of the timestamp tokens, which are never chosen.
    pub timestamp_begin: Option<TokenId>,
    /// Tokens that may not come first.
    pub begin_suppress: Vec<TokenId>,
    /// Tokens that may never come.
    pub always_suppress: Vec<TokenId>,
    /// Size of the n-grams that may not repeat; under 2, any may.
    pub no_repeat_ngram_size: usize,
    /// Whether this is a partial (streaming) decode.
    pub partial: bool,
    /// The step budget that was asked for.
    pub max_decode_steps: usize,
}

impl DecodeRules {
    /// The steps that the decode may take: the budget, between 1 and 224.
    pub open spec fn step_limit(self) -> int {
        clamped(self.max_decode_steps as int, 1, MAX_TOKENS as int)
    }

    /// The steps before which the end-of-text token is not admitted.
    pub open spec fn min_steps_before_eot(self) -> int {
        if self.partial {
            1
        } else {
            2
        }
    }

    /// Whether `t` is a timestamp token.
    pub open spec fn is_timestamp(self, t: TokenId) -> bool {
        match self.timestamp_begin {
            Some(tb) => t >= tb,
            None => false,
        }
    }
}

/// How often `t` occurs in `s`.
pub open spec fn occurrences(s: Seq<TokenId>, t: TokenId) -> nat
    decreases s.len(),
{
    if s.len() == 0 {
        0
    } else if s.last() == t {
        occurrences(s.drop_last(), t) + 1
    } else {
        occurrences(s.drop_last(), t)
    }
}

/// The mathematical state of a decode.
pub struct DecodeModel {
    /// The prefix and, behind it, what was generated.
    pub tokens: Seq<TokenId>,
    pub prefix_len: nat,
    /// The steps taken.
    pub step: nat,
    /// How often the last token repeated the one before it, in a row.
    pub repeated: nat,
    pub stopped: Option<StopReason>,
}

impl DecodeModel {
    /// What was generated so far.
    pub open spec fn generated(self) -> Seq<TokenId> {
        generated_part(self.tokens, self.prefix_len as int)
    }

    /// How often `t` occurs among the last 64 generated tokens.
    pub open spec fn tail_count(self, t: TokenId) -> nat {
        occurrences(tail_of(self.generated(), MAX_TOKEN_TAIL_HISTORY as nat), t)
    }

    /// Whether `t` may be chosen at this step. A token is left out where it
    /// is a timestamp, is suppressed for good or, at the first step, for the
    /// beginning, ends the text too early, or, in a final decode, would
    /// repeat an n-gram or has come 14 times in the tail and is not the
    /// end-of-text token.
    pub open spec fn admits(self, rules: DecodeRules, t: TokenId) -> bool {
        &&& !rules.is_timestamp(t)
        &&& !(self.step == 0 && rules.begin_suppress@.contains(t))
        &&& !rules.always_suppress@.contains(t)
        &&& !(t == rules.eot_id && self.step < rules.min_steps_before_eot())
        &&& !(!rules.partial && completes_seen_ngram(
            self.generated(),
            rules.no_repeat_ngram_size as int,
            t,
        ))
        &&& !(!rules.partial && self.tail_count(t) >= MAX_TAIL_TOKEN_OCCURRENCES && t
            != rules.eot_id)
    }

    /// The state after `next` was chosen.
    pub open spec fn after_push(self, rules: DecodeRules, next: TokenId) -> DecodeModel {
        if self.stopped is Some {
            self
        } else {
            let tokens = self.tokens.push(next);
            let repeated: nat = if self.tokens.len() > 0 && self.tokens.last() == next {
                self.repeated + 1
            } else {
                0
            };
            let step = self.step + 1;
            let stopped = if next == rules.eot_id {
                Some(StopReason::EndOfText)
            } else if repeated >= REPEAT_TOKEN_BREAK_THRESHOLD {
                Some(StopReason::RepeatedToken)
            } else if repeating_tail(generated_part(tokens, self.prefix_len as int)) {
                Some(StopReason::RepeatingTail)
            } else if step >= rules.step_limit() {
                Some(StopReason::StepLimit)
            } else {
                None
            };
            DecodeModel { tokens, prefix_len: self.prefix_len, step, repeated, stopped }
        }
    }
}

/// The state of one greedy decode.
pub struct DecodeState {
    tokens: Vec<TokenId>,
    prefix_len: usize,
    step: usize,
    repeated_token_count: usize,
    stopped: Option<StopReason>,
}

impl View for DecodeState {
    type V = DecodeModel;

    closed spec fn view(&self) -> DecodeModel {
        DecodeModel {
            tokens: self.tokens@,
            prefix_len: self.prefix_len as nat,
            step: self.step as nat,
            repeated: self.repeated_token_count as nat,
            stopped: self.stopped,
        }
    }
}

/// The copy of `s[from..]`.
fn tokens_from(s: &Vec<TokenId>, from: usize) -> (r: Vec<TokenId>)
    ensures
        r@ == generated_part(s@, from as int),
{
    let mut r: Vec<TokenId> = Vec::new();
    if from > s.len() {
        return r;
    }
    let mut i: usize = from;
    while i < s.len()
        invariant
            from <= i <= s.len(),
            r@ == s@.subrange(from as int, i as int),
        decreases s.len() - i,
    {
        r.push(s[i]);
        i += 1;
    }
    r
}

/// How often `t` occurs in `s[from..]`.
fn count_from(s: &Vec<TokenId>, from: usize, t: TokenId) -> (n: usize)
    requires
        from <= s.len(),
    ensures
        n == occurrences(s@.subrange(from as int, s.len() as int), t),
{
    let mut n: usize = 0;
    let mut i: usize = from;
    assert(s@.subrange(from as int, from as int) =~= Seq::<TokenId>::empty());
    while i < s.len()
        invariant
            from <= i <= s.len(),
            n <= i - from,
            n == occurrences(s@.subrange(from as int, i as int), t),
        decreases s.len() - i,
    {
        assert(s@.subrange(from as int, i + 1).drop_last() =~= s@.subrange(
            from as int,
            i as int,
        ));
        if s[i] == t {
            n += 1;
        }
        i += 1;
    }
    n
}

impl DecodeState {
    #[verifier::type_invariant]
    closed spec fn within_limits(self) -> bool {
        &&& self.repeated_token_count <= self.step
        &&& self.step <= MAX_TOKENS
        &&& self.stopped is None ==> self.step < MAX_TOKENS
    }

    /// The state before the first step: the tokens are the prefix. A budget
    /// of no steps cannot be: the decode takes one step at least.
    pub fn new(prefix: &Vec<TokenId>) -> (st: DecodeState)
        ensures
            st@ == (DecodeModel {
                tokens: prefix@,
                prefix_len: prefix@.len(),
                step: 0,
                repeated: 0,
                stopped: None,
            }),
    {
        let tokens = tokens_from(prefix, 0);
        assert(tokens@ =~= prefix@);
        DecodeState {
            tokens,
            prefix_len: prefix.len(),
            step: 0,
            repeated_token_count: 0,
            stopped: None,
        }
    }

    /// The prefix and what was generated.
    pub fn tokens(&self) -> (t: &Vec<TokenId>)
        ensures
            t@ == self@.tokens,
    {
        &self.tokens
    }

    /// The steps taken.
    pub fn step(&self) -> (n: usize)
        ensures
            n == self@.step,
    {
        self.step
    }

    /// Why the decode stopped, once it has.
    pub fn stopped(&self) -> (r: Option<StopReason>)
        ensures
            r == self@.stopped,
    {
        self.stopped
    }

    /// The number of generated tokens.
    pub fn generated_len(&self) -> (n: usize)
        ensures
            n == self@.generated().len(),
    {
        if self.prefix_len <= self.tokens.len() {
            self.tokens.len() - self.prefix_len
        } else {
            0
        }
    }

    /// Whether the last token is the end-of-text token.
    pub fn ended_with_eot(&self, eot_id: TokenId) -> (b: bool)
        ensures
            b == (self@.tokens.len() > 0 && self@.tokens.last() == eot_id),
    {
        self.tokens.len() > 0 && self.tokens[self.tokens.len() - 1] == eot_id
    }

    /// How often `t` occurs among the last 64 generated tokens.
    pub fn tail_count(&self, t: TokenId) -> (n: usize)
        ensures
            n == self@.tail_count(t),
            n <= MAX_TOKEN_TAIL_HISTORY,
    {
        let generated = tokens_from(&self.tokens, self.prefix_len);
        let from: usize = if generated.len() > MAX_TOKEN_TAIL_HISTORY {
            generated.len() - MAX_TOKEN_TAIL_HISTORY
        } else {
            0
        };
        assert(generated@.subrange(from as int, generated.len() as int) =~= tail_of(
            generated@,
            MAX_TOKEN_TAIL_HISTORY as nat,
        ));
        let n = count_from(&generated, from, t);
        proof {
            lemma_occurrences_bounded(generated@.subrange(from as int, generated.len() as int), t);
        }
        n
    }

    /// Whether `t` may be chosen at this step.
    pub fn is_allowed(&self, rules: &DecodeRules, t: TokenId) -> (b: bool)
        ensures
            b == self@.admits(*rules, t),
    {
        let is_timestamp = match rules.timestamp_begin {
            Some(tb) => t >= tb,
            None => false,
        };
        if is_timestamp {
            return false;
        }
        if self.step == 0 && contains_token(&rules.begin_suppress, t) {
            return false;
        }
        if contains_token(&rules.always_suppress, t) {
            return false;
        }
        let min_steps: usize = if rules.partial {
            1
        } else {
            2
        };
        if t == rules.eot_id && self.step < min_steps {
            return false;
        }
        if !rules.partial {
            let banned = banned_next_tokens_no_repeat_ngram(
                &self.tokens,
                self.prefix_len,
                rules.no_repeat_ngram_size,
            );
            if contains_token(&banned, t) {
                return false;
            }
        }
        if !rules.partial && t != rules.eot_id && self.tail_count(t)
            >= MAX_TAIL_TOKEN_OCCURRENCES {
            return false;
        }
        true
    }

    /// Takes the token that was chosen and says whether the decode stops.
    /// Once stopped, the state takes no more tokens.
    pub fn push_token(&mut self, rules: &DecodeRules, next: TokenId) -> (stop: Option<StopReason>)
        ensures
            final(self)@ == old(self)@.after_push(*rules, next),
            stop == final(self)@.stopped,
    {
        proof {
            use_type_invariant(&*self);
        }
        if self.stopped.is_some() {
            return self.stopped;
        }
        let repeats = self.tokens.len() > 0 && self.tokens[self.tokens.len() - 1] == next;
        let mut tokens: Vec<TokenId> = Vec::new();
        core::mem::swap(&mut self.tokens, &mut tokens);
        tokens.push(next);
        let repeated: usize = if repeats {
            self.repeated_token_count + 1
        } else {
            0
        };
        let step: usize = self.step + 1;
        let limit: usize = if rules.max_decode_steps < 1 {
            1
        } else if rules.max_decode_steps > MAX_TOKENS {
            MAX_TOKENS
        } else {
            rules.max_decode_steps
        };
        let generated = tokens_from(&tokens, self.prefix_len);
        let stopped = if next == rules.eot_id {
            Some(StopReason::EndOfText)
        } else if repeated >= REPEAT_TOKEN_BREAK_THRESHOLD {
            Some(StopReason::RepeatedToken)
        } else if has_repeating_tail_pattern(&generated) {
            Some(StopReason::RepeatingTail)
        } else if step >= limit {
            Some(StopReason::StepLimit)
        } else {
            None
        };
        *self = DecodeState {
            tokens,
            prefix_len: self.prefix_len,
            step,
            repeated_token_count: repeated,
            stopped,
        };
        stopped
    }
}

/// What is admitted at one step, prepared once so that every token of the
/// vocabulary can be asked about cheaply.
pub struct StepFilter {
    step: usize,
    eot_id: TokenId,
    timestamp_begin: Option<TokenId>,
    partial: bool,
    begin_suppress: Vec<TokenId>,
    always_suppress: Vec<TokenId>,
    banned: Vec<TokenId>,
    tail: Vec<TokenId>,
    state: Ghost<DecodeModel>,
    rules: Ghost<DecodeRules>,
}

impl StepFilter {
    /// The state that the filter was made for.
    pub closed spec fn of_state(self) -> DecodeModel {
        self.state@
    }

    /// The rules that the filter was made for.
    pub closed spec fn of_rules(self) -> DecodeRules {
        self.rules@
    }

    #[verifier::type_invariant]
    closed spec fn agrees(self) -> bool {
        &&& self.step == self.state@.step
        &&& self.eot_id == self.rules@.eot_id
        &&& self.timestamp_begin == self.rules@.timestamp_begin
        &&& self.partial == self.rules@.partial
        &&& self.begin_suppress@ == self.rules@.begin_suppress@
        &&& self.always_suppress@ == self.rules@.always_suppress@
        &&& forall|t: TokenId|
            self.banned@.contains(t) <==> completes_seen_ngram(
                self.state@.generated(),
                self.rules@.no_repeat_ngram_size as int,
                t,
            )
        &&& self.tail@ == tail_of(self.state@.generated(), MAX_TOKEN_TAIL_HISTORY as nat)
    }

    /// How often `t` occurs among the last 64 generated tokens.
    pub fn tail_count(&self, t: TokenId) -> (n: usize)
        ensures
            n == self.of_state().tail_count(t),
            n <= MAX_TOKEN_TAIL_HISTORY,
    {
        proof {
            use_type_invariant(self);
            lemma_occurrences_bounded(self.tail@, t);
        }
        assert(self.tail@.subrange(0, self.tail@.len() as int) == self.tail@);
        count_from(&self.tail, 0, t)
    }

    /// Whether `t` may be chosen at this step.
    pub fn allows(&self, t: TokenId) -> (b: bool)
        ensures
            b == self.of_state().admits(self.of_rules(), t),
    {
        proof {
            use_type_invariant(self);
        }
        let is_timestamp = match self.timestamp_begin {
            Some(tb) => t >= tb,
            None => false,
        };
        if is_timestamp {
            return false;
        }
        if self.step == 0 && contains_token(&self.begin_suppress, t) {
            return false;
        }
        if contains_token(&self.always_suppress, t) {
            return false;
        }
        let min_steps: usize = if self.partial {
            1
        } else {
            2
        };
        if t == self.eot_id && self.step < min_steps {
            return false;
        }
        if !self.partial && contains_token(&self.banned, t) {
            return false;
        }
        if !self.partial && t != self.eot_id && self.tail_count(t) >= MAX_TAIL_TOKEN_OCCURRENCES {
            return false;
        }
        true
    }
}

impl DecodeState {
    /// The filter for the step that comes next.
    pub fn step_filter(&self, rules: &DecodeRules) -> (f: StepFilter)
        ensures
            f.of_state() == self@,
            f.of_rules() == *rules,
    {
        let generated = tokens_from(&self.tokens, self.prefix_len);
        let from: usize = if generated.len() > MAX_TOKEN_TAIL_HISTORY {
            generated.len() - MAX_TOKEN_TAIL_HISTORY
        } else {
            0
        };
        let mut tail: Vec<TokenId> = Vec::new();
        let mut i: usize = from;
        while i < generated.len()
            invariant
                from <= i <= generated.len(),
                tail@ == generated@.subrange(from as int, i as int),
            decreases generated.len() - i,
        {
            tail.push(generated[i]);
            i += 1;
        }
        assert(tail@ =~= tail_of(generated@, MAX_TOKEN_TAIL_HISTORY as nat));
        let begin_suppress = tokens_from(&rules.begin_suppress, 0);
        let always_suppress = tokens_from(&rules.always_suppress, 0);
        assert(begin_suppress@ =~= rules.begin_suppress@);
        assert(always_suppress@ =~= rules.always_suppress@);
        StepFilter {
            step: self.step,
            eot_id: rules.eot_id,
            timestamp_begin: rules.timestamp_begin,
            partial: rules.partial,
            begin_suppress,
            always_suppress,
            banned: banned_next_tokens_no_repeat_ngram(
                &self.tokens,
                self.prefix_len,
                rules.no_repeat_ngram_size,
            ),
            tail,
            state: Ghost(self@),
            rules: Ghost(*rules),
        }
    }
}

/// A token occurs no more often than there are tokens.
pub proof fn lemma_occurrences_bounded(s: Seq<TokenId>, t: TokenId)
    ensures
        occurrences(s, t) <= s.len(),
    decreases s.len(),
{
    if s.len() > 0 {
        lemma_occurrences_bounded(s.drop_last(), t);
    }
}

/// Determinism. What a decode comes to is a function of the tokens it is
/// fed: the same prefix and the same choices give the same state, step for
/// step. `decoded_after` is that state.
pub open spec fn decoded_after(rules: DecodeRules, prefix: Seq<TokenId>, choices: Seq<TokenId>) -> DecodeModel
    decreases choices.len(),
{
    if choices.len() == 0 {
        DecodeModel { tokens: prefix, prefix_len: prefix.len(), step: 0, repeated: 0, stopped: None }
    } else {
        decoded_after(rules, prefix, choices.drop_last()).after_push(rules, choices.last())
    }
}

/// A decode never takes more steps than its budget allows, and once it has
/// stopped further tokens change nothing.
pub proof fn lemma_decode_stays_in_budget(
    rules: DecodeRules,
    prefix: Seq<TokenId>,
    choices: Seq<TokenId>,
)
    ensures
        decoded_after(rules, prefix, choices).step <= rules.step_limit(),
        decoded_after(rules, prefix, choices).step <= choices.len(),
        decoded_after(rules, prefix, choices).repeated <= decoded_after(rules, prefix, choices).step,
        decoded_after(rules, prefix, choices).stopped is None ==> decoded_after(rules, prefix, choices).step
            < rules.step_limit(),
        decoded_after(rules, prefix, choices).tokens.len() == prefix.len() + decoded_after(
            rules,
            prefix,
            choices,
        ).step,
    decreases choices.len(),
{
    if choices.len() > 0 {
        lemma_decode_stays_in_budget(rules, prefix, choices.drop_last());
    }
}

/// The end-of-text token stops a decode that is under way.
pub proof fn lemma_end_of_text_stops(st: DecodeModel, rules: DecodeRules)
    requires
        st.stopped is None,
    ensures
        st.after_push(rules, rules.eot_id).stopped == Some(StopReason::EndOfText),
{
}

/// The choice of index `k` was admitted by the state that the choices
/// before it had led to, or the decode had stopped by then and took no more.
pub open spec fn choice_is_admitted(
    rules: DecodeRules,
    prefix: Seq<TokenId>,
    choices: Seq<TokenId>,
    k: int,
) -> bool {
    let before = decoded_after(rules, prefix, choices.take(k));
    before.stopped is Some || before.admits(rules, choices[k])
}

/// Every choice was admitted by the state before it.
pub open spec fn choices_admitted(rules: DecodeRules, prefix: Seq<TokenId>, choices: Seq<TokenId>) -> bool {
    forall|k: int| 0 <= k < choices.len() ==> #[trigger] choice_is_admitted(rules, prefix, choices, k)
}

/// What the selection of tokens guarantees of what was generated: no
/// timestamp token and no token that is suppressed for good is in it; it
/// does not begin with a token that is suppressed for the beginning; and
/// the end-of-text token stands in it only as the last token, not before
/// the least number of steps, and ends the decode.
pub open spec fn selection_holds(rules: DecodeRules, st: DecodeModel) -> bool {
    let g = st.generated();
    &&& g.len() == st.step
    &&& forall|i: int|
        0 <= i < g.len() ==> !rules.is_timestamp(#[trigger] g[i]) && !rules.always_suppress@.contains(
            g[i],
        )
    &&& (g.len() > 0 ==> !rules.begin_suppress@.contains(g[0]))
    &&& forall|i: int|
        0 <= i < g.len() && #[trigger] g[i] == rules.eot_id ==> i == g.len() - 1 && i
            >= rules.min_steps_before_eot() && st.stopped == Some(StopReason::EndOfText)
}

/// The selection law over a whole decode. Where every token that is fed
/// was admitted by the state before it, what was generated holds none of
/// the tokens that the selection leaves out, and the end-of-text token comes
/// only last and not too early.
pub proof fn lemma_selection_holds_over_a_decode(
    rules: DecodeRules,
    prefix: Seq<TokenId>,
    choices: Seq<TokenId>,
)
    requires
        choices_admitted(rules, prefix, choices),
    ensures
        selection_holds(rules, decoded_after(rules, prefix, choices)),
        decoded_after(rules, prefix, choices).prefix_len == prefix.len(),
        decoded_after(rules, prefix, choices).tokens.len() == prefix.len() + decoded_after(
            rules,
            prefix,
            choices,
        ).step,
    decreases choices.len(),
{
    let st = decoded_after(rules, prefix, choices);
    if choices.len() == 0 {
        assert(st.generated() =~= Seq::<TokenId>::empty());
    } else {
        let fewer = choices.drop_last();
        let before = decoded_after(rules, prefix, fewer);
        assert forall|k: int| 0 <= k < fewer.len() implies #[trigger] choice_is_admitted(
            rules,
            prefix,
            fewer,
            k,
        ) by {
            assert(choice_is_admitted(rules, prefix, choices, k));
            assert(fewer.take(k) =~= choices.take(k));
        }
        lemma_selection_holds_over_a_decode(rules, prefix, fewer);
        if before.stopped is None {
            let next = choices.last();
            assert(choice_is_admitted(rules, prefix, choices, choices.len() - 1));
            assert(choices.take(choices.len() - 1) =~= fewer);
            assert(before.admits(rules, next));
            let g0 = before.generated();
            let g = st.generated();
            assert(g =~= g0.push(next));
            assert forall|i: int| 0 <= i < g.len() && #[trigger] g[i] == rules.eot_id implies i
                == g.len() - 1 && i >= rules.min_steps_before_eot() && st.stopped == Some(
                StopReason::EndOfText,
            ) by {
                if i < g0.len() {
                    assert(g0[i] == rules.eot_id);
                }
            }
            assert forall|i: int| 0 <= i < g.len() implies !rules.is_timestamp(#[trigger] g[i])
                && !rules.always_suppress@.contains(g[i]) by {
                if i < g0.len() {
                    assert(g[i] == g0[i]);
                }
            }
            if g0.len() > 0 {
                assert(g[0] == g0[0]);
            }
        }
    }
}

// ---------------------------------------------------------------------------
// From tokens to text
// ---------------------------------------------------------------------------

/// The index of the first `eot` at or after `i`, or the length of `s`.
pub open spec fn first_eot(s: Seq<TokenId>, eot: TokenId, i: int) -> int
    decreases s.len() - i,
{
    if 0 <= i < s.len() && s[i] != eot {
        first_eot(s, eot, i + 1)
    } else {
        i
    }
}

/// The tokens of `s` that are no timestamps.
pub open spec fn without_timestamps(s: Seq<TokenId>, timestamp_begin: Option<TokenId>) -> Seq<
    TokenId,
>
    decreases s.len(),
{
    if s.len() == 0 {
        Seq::empty()
    } else {
        let kept = match timestamp_begin {
            Some(tb) => s.last() < tb,
            None => true,
        };
        if kept {
            without_timestamps(s.drop_last(), timestamp_begin).push(s.last())
        } else {
            without_timestamps(s.drop_last(), timestamp_begin)
        }
    }
}

/// The tokens that stand for text: what was generated before the first
/// end-of-text token, without timestamps.
pub open spec fn text_tokens_of(
    tokens: Seq<TokenId>,
    prefix_len: int,
    eot: TokenId,
    timestamp_begin: Option<TokenId>,
) -> Seq<TokenId> {
    let generated = generated_part(tokens, prefix_len);
    without_timestamps(generated.take(first_eot(generated, eot, 0)), timestamp_begin)
}

/// The tokens that stand for text.
pub fn text_tokens(
    tokens: &Vec<TokenId>,
    prefix_len: usize,
    eot: TokenId,
    timestamp_begin: Option<TokenId>,
) -> (r: Vec<TokenId>)
    ensures
        r@ == text_tokens_of(tokens@, prefix_len as int, eot, timestamp_begin),
{
    let generated = tokens_from(tokens, prefix_len);
    let mut r: Vec<TokenId> = Vec::new();
    let mut i: usize = 0;
    assert(generated@.take(0) =~= Seq::<TokenId>::empty());
    while i < generated.len() && generated[i] != eot
        invariant
            i <= generated.len(),
            first_eot(generated@, eot, 0) == first_eot(generated@, eot, i as int),
            r@ == without_timestamps(generated@.take(i as int), timestamp_begin),
        decreases generated.len() - i,
    {
        assert(generated@.take(i + 1).drop_last() =~= generated@.take(i as int));
        let t = generated[i];
        let kept = match timestamp_begin {
            Some(tb) => t < tb,
            None => true,
        };
        if kept {
            r.push(t);
        }
        i += 1;
    }
    r
}

} // verus!
