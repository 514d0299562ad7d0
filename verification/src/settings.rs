//! Settings of the host as the engine reads them: names brought to their
//! canonical form, lists cleaned.

use vstd::prelude::*;
use vstd::string::*;
use crate::storage::PrivacySettings;
use crate::text::is_space;
use crate::text::{
    chars_of, decimal, eq_ignore_ascii_case, equals_str, lower, lowered, opt_text, push_decimal,
    push_str, same_ignoring_case, str_eq, string_of, trim, trimmed,
};

verus! {

/// The canonical name of a model profile: the trimmed name in small
/// letters, with the known short and long forms brought to one form each.
pub open spec fn model_profile_of(raw: Seq<char>) -> Seq<char> {
    let p = lowered(trimmed(raw));
    if p == ""@ {
        "distil-large-v3"@
    } else if p == "turbo"@ || p == "whisper-large-v3-turbo"@ {
        "large-v3-turbo"@
    } else if p == "large"@ || p == "whisper-large-v3"@ {
        "large-v3"@
    } else if p == "distil"@ || p == "distil-whisper-large-v3"@ {
        "distil-large-v3"@
    } else if p == "medium-en"@ {
        "medium.en"@
    } else if p == "small-en"@ {
        "small.en"@
    } else if p == "base-en"@ {
        "base.en"@
    } else if p == "tiny-en"@ {
        "tiny.en"@
    } else {
        p
    }
}

/// One of the names that the known short and long forms are brought to.
pub open spec fn is_known_model_profile(name: Seq<char>) -> bool {
    ||| name == "distil-large-v3"@
    ||| name == "large-v3-turbo"@
    ||| name == "large-v3"@
    ||| name == "medium.en"@
    ||| name == "small.en"@
    ||| name == "base.en"@
    ||| name == "tiny.en"@
}

/// A known name is its own canonical name.
proof fn lemma_known_model_profile_stays(name: Seq<char>)
    requires
        is_known_model_profile(name),
    ensures
        model_profile_of(name) == name,
{
    reveal_strlit("");
    reveal_strlit("turbo");
    reveal_strlit("whisper-large-v3-turbo");
    reveal_strlit("large");
    reveal_strlit("whisper-large-v3");
    reveal_strlit("distil");
    reveal_strlit("distil-whisper-large-v3");
    reveal_strlit("medium-en");
    reveal_strlit("small-en");
    reveal_strlit("base-en");
    reveal_strlit("tiny-en");
    reveal_strlit("distil-large-v3");
    reveal_strlit("large-v3-turbo");
    reveal_strlit("large-v3");
    reveal_strlit("medium.en");
    reveal_strlit("small.en");
    reveal_strlit("base.en");
    reveal_strlit("tiny.en");
    // A known name holds no capital and no white space at its ends.
    assert(name.len() > 0);
    assert(!is_space(name[0]) && !is_space(name[name.len() - 1]));
    crate::text::lemma_bare_text_is_trimmed(name);
    assert(lowered(name) =~= name) by {
        assert forall|i: int| 0 <= i < name.len() implies crate::text::lower_char(
            #[trigger] name[i],
        ) == name[i] by {}
    }
    assert("large-v3"@[0] != "small-en"@[0]);
    assert("medium.en"@[6] != "medium-en"@[6]);
    assert("small.en"@[5] != "small-en"@[5]);
    assert("base.en"@[4] != "base-en"@[4]);
    assert("base.en"@[0] != "tiny-en"@[0]);
    assert("tiny.en"@[4] != "tiny-en"@[4]);
    assert("tiny.en"@[0] != "base-en"@[0]);
}

/// A canonical name is its own canonical name: bringing a model profile
/// to its canonical form a second time changes nothing.
pub proof fn lemma_model_profile_is_canonical(raw: Seq<char>)
    ensures
        model_profile_of(model_profile_of(raw)) == model_profile_of(raw),
{
    let m = model_profile_of(raw);
    if is_known_model_profile(m) {
        lemma_known_model_profile_stays(m);
    } else {
        crate::text::lemma_lowered_trimmed_stays(raw);
    }
}

/// The canonical name of a model profile. What comes out is canonical:
/// bringing it to its canonical form again changes nothing.
pub fn normalize_model_profile(raw: &str) -> (out: String)
    ensures
        out@ == model_profile_of(raw@),
        model_profile_of(out@) == out@,
{
    proof {
        lemma_model_profile_is_canonical(raw@);
    }
    let p = lower(&trim(&chars_of(raw)));
    if equals_str(&p, "") {
        String::from_str("distil-large-v3")
    } else if equals_str(&p, "turbo") || equals_str(&p, "whisper-large-v3-turbo") {
        String::from_str("large-v3-turbo")
    } else if equals_str(&p, "large") || equals_str(&p, "whisper-large-v3") {
        String::from_str("large-v3")
    } else if equals_str(&p, "distil") || equals_str(&p, "distil-whisper-large-v3") {
        String::from_str("distil-large-v3")
    } else if equals_str(&p, "medium-en") {
        String::from_str("medium.en")
    } else if equals_str(&p, "small-en") {
        String::from_str("small.en")
    } else if equals_str(&p, "base-en") {
        String::from_str("base.en")
    } else if equals_str(&p, "tiny-en") {
        String::from_str("tiny.en")
    } else {
        string_of(&p)
    }
}

/// The canonical name of a performance profile; a name that is none
/// stands for the balanced English profile.
pub open spec fn performance_profile_of(raw: Seq<char>) -> Seq<char> {
    let p = lowered(trimmed(raw));
    if p == "whisper"@ || p == "whisper_balanced_english"@ || p == "whisper_english"@ {
        "whisper_balanced_english"@
    } else if p == "stability"@ || p == "long_form"@ || p == "stability_long_form"@ {
        "stability_long_form"@
    } else if p == "balanced"@ || p == "balanced_general"@ {
        "balanced_general"@
    } else if p == "latency"@ || p == "short_utterance"@ || p == "latency_short_utterance"@ {
        "latency_short_utterance"@
    } else {
        "whisper_balanced_english"@
    }
}

/// The canonical name of a performance profile.
pub fn normalize_performance_profile(raw: &str) -> (out: String)
    ensures
        out@ == performance_profile_of(raw@),
{
    let p = lower(&trim(&chars_of(raw)));
    if equals_str(&p, "whisper") || equals_str(&p, "whisper_balanced_english") || equals_str(
        &p,
        "whisper_english",
    ) {
        String::from_str("whisper_balanced_english")
    } else if equals_str(&p, "stability") || equals_str(&p, "long_form") || equals_str(
        &p,
        "stability_long_form",
    ) {
        String::from_str("stability_long_form")
    } else if equals_str(&p, "balanced") || equals_str(&p, "balanced_general") {
        String::from_str("balanced_general")
    } else if equals_str(&p, "latency") || equals_str(&p, "short_utterance") || equals_str(
        &p,
        "latency_short_utterance",
    ) {
        String::from_str("latency_short_utterance")
    } else {
        String::from_str("whisper_balanced_english")
    }
}

/// The shortcut as it is registered: trimmed, or the default where it is blank.
pub open spec fn toggle_shortcut_of(raw: Seq<char>) -> Seq<char> {
    if trimmed(raw).len() == 0 {
        "Ctrl+Shift+Space"@
    } else {
        trimmed(raw)
    }
}

/// The shortcut as it is registered.
pub fn normalize_toggle_shortcut(raw: &str) -> (out: String)
    ensures
        out@ == toggle_shortcut_of(raw@),
{
    let t = trim(&chars_of(raw));
    if t.len() == 0 {
        String::from_str("Ctrl+Shift+Space")
    } else {
        string_of(&t)
    }
}

/// The canonical name of where the networks run: `cpu`, `directml` or `auto`.
pub open spec fn ort_ep_of(raw: Seq<char>) -> Seq<char> {
    let p = lowered(trimmed(raw));
    if p == "cpu"@ {
        "cpu"@
    } else if p == "dml"@ || p == "directml"@ {
        "directml"@
    } else {
        "auto"@
    }
}

/// The canonical name of where the networks run.
pub fn normalize_ort_ep(raw: &str) -> (out: String)
    ensures
        out@ == ort_ep_of(raw@),
{
    let p = lower(&trim(&chars_of(raw)));
    if equals_str(&p, "cpu") {
        String::from_str("cpu")
    } else if equals_str(&p, "dml") || equals_str(&p, "directml") {
        String::from_str("directml")
    } else {
        String::from_str("auto")
    }
}

/// The canonical name of a language hint: `english`, `mandarin`, `russian` or `auto`.
pub open spec fn language_hint_name_of(raw: Seq<char>) -> Seq<char> {
    let p = lowered(trimmed(raw));
    if p == "en"@ || p == "eng"@ || p == "english"@ {
        "english"@
    } else if p == "zh"@ || p == "zh-cn"@ || p == "zh-hans"@ || p == "mandarin"@ || p
        == "chinese"@ {
        "mandarin"@
    } else if p == "ru"@ || p == "rus"@ || p == "russian"@ {
        "russian"@
    } else {
        "auto"@
    }
}

/// The canonical name of a language hint.
pub fn normalize_language_hint(raw: &str) -> (out: String)
    ensures
        out@ == language_hint_name_of(raw@),
{
    let p = lower(&trim(&chars_of(raw)));
    if equals_str(&p, "en") || equals_str(&p, "eng") || equals_str(&p, "english") {
        String::from_str("english")
    } else if equals_str(&p, "zh") || equals_str(&p, "zh-cn") || equals_str(&p, "zh-hans")
        || equals_str(&p, "mandarin") || equals_str(&p, "chinese") {
        String::from_str("mandarin")
    } else if equals_str(&p, "ru") || equals_str(&p, "rus") || equals_str(&p, "russian") {
        String::from_str("russian")
    } else {
        String::from_str("auto")
    }
}

/// The canonical name of a cloud mode: `cloud_preferred`, `hybrid` or `local_only`.
pub open spec fn cloud_mode_of(raw: Seq<char>) -> Seq<char> {
    let p = lowered(trimmed(raw));
    if p == "cloud"@ || p == "prefer_cloud"@ || p == "cloud_preferred"@ {
        "cloud_preferred"@
    } else if p == "hybrid"@ || p == "fallback"@ || p == "cloud_fallback"@ {
        "hybrid"@
    } else {
        "local_only"@
    }
}

/// The canonical name of a cloud mode.
pub fn normalize_cloud_mode(raw: &str) -> (out: String)
    ensures
        out@ == cloud_mode_of(raw@),
{
    let p = lower(&trim(&chars_of(raw)));
    if equals_str(&p, "cloud") || equals_str(&p, "prefer_cloud") || equals_str(
        &p,
        "cloud_preferred",
    ) {
        String::from_str("cloud_preferred")
    } else if equals_str(&p, "hybrid") || equals_str(&p, "fallback") || equals_str(
        &p,
        "cloud_fallback",
    ) {
        String::from_str("hybrid")
    } else {
        String::from_str("local_only")
    }
}

// ---------------------------------------------------------------------------
// Phrase bias terms
// ---------------------------------------------------------------------------

/// The most phrase bias terms that are kept.
pub const MAX_PHRASE_BIAS_TERMS: usize = 64;

/// The texts of a vector of strings.
pub open spec fn term_texts(terms: Seq<String>) -> Seq<Seq<char>> {
    Seq::new(terms.len(), |i: int| terms[i]@)
}

/// One of `list` is `t` up to the case of letters.
pub open spec fn has_like(list: Seq<Seq<char>>, t: Seq<char>) -> bool {
    exists|k: int| 0 <= k < list.len() && same_ignoring_case(#[trigger] list[k], t)
}

/// The phrase bias terms as they are kept: trimmed, without blank ones,
/// each once up to case, the first 64.
pub open spec fn phrase_bias_terms_of(raw: Seq<Seq<char>>) -> Seq<Seq<char>>
    decreases raw.len(),
{
    if raw.len() == 0 {
        Seq::empty()
    } else {
        let kept = phrase_bias_terms_of(raw.drop_last());
        let t = trimmed(raw.last());
        if kept.len() >= MAX_PHRASE_BIAS_TERMS || t.len() == 0 || has_like(kept, t) {
            kept
        } else {
            kept.push(t)
        }
    }
}

fn holds_like(list: &Vec<String>, t: &Vec<char>) -> (b: bool)
    ensures
        b == has_like(term_texts(list@), t@),
{
    let mut k: usize = 0;
    while k < list.len()
        invariant
            k <= list.len(),
            forall|j: int| 0 <= j < k ==> !same_ignoring_case(#[trigger] term_texts(list@)[j], t@),
        decreases list.len() - k,
    {
        let here = chars_of(list[k].as_str());
        assert(term_texts(list@)[k as int] == here@);
        if eq_ignore_ascii_case(&here, t) {
            return true;
        }
        k += 1;
    }
    false
}

/// The phrase bias terms as they are kept.
pub fn normalize_phrase_bias_terms(raw: &Vec<String>) -> (out: Vec<String>)
    ensures
        term_texts(out@) == phrase_bias_terms_of(term_texts(raw@)),
        out@.len() <= MAX_PHRASE_BIAS_TERMS,
{
    let mut out: Vec<String> = Vec::new();
    let mut i: usize = 0;
    assert(term_texts(raw@).take(0) =~= Seq::<Seq<char>>::empty());
    assert(term_texts(out@) =~= Seq::<Seq<char>>::empty());
    while i < raw.len()
        invariant
            i <= raw.len(),
            out@.len() <= MAX_PHRASE_BIAS_TERMS,
            term_texts(out@) == phrase_bias_terms_of(term_texts(raw@).take(i as int)),
        decreases raw.len() - i,
    {
        let ghost next = term_texts(raw@).take(i + 1);
        assert(next.drop_last() =~= term_texts(raw@).take(i as int));
        assert(next.last() == raw@[i as int]@);
        let t = trim(&chars_of(raw[i].as_str()));
        if out.len() < MAX_PHRASE_BIAS_TERMS && t.len() > 0 && !holds_like(&out, &t) {
            let ghost before = term_texts(out@);
            out.push(string_of(&t));
            assert(term_texts(out@) =~= before.push(t@));
        }
        i += 1;
    }
    assert(term_texts(raw@).take(raw.len() as int) =~= term_texts(raw@));
    out
}

// ---------------------------------------------------------------------------
// Learned corrections
// ---------------------------------------------------------------------------

/// The most learned corrections that are kept.
pub const MAX_LEARNED_CORRECTIONS: usize = 256;

/// The most hits that a correction counts.
pub const MAX_CORRECTION_HITS: usize = 1_000_000;

/// A correction learned from the user: what was heard and what was meant.
#[derive(Debug, Clone)]
pub struct LearnedCorrection {
    pub heard: String,
    pub corrected: String,
    pub hits: usize,
}

/// The mathematical content of a [`LearnedCorrection`].
pub struct CorrectionModel {
    pub heard: Seq<char>,
    pub corrected: Seq<char>,
    pub hits: usize,
}

impl View for LearnedCorrection {
    type V = CorrectionModel;

    open spec fn view(&self) -> CorrectionModel {
        CorrectionModel { heard: self.heard@, corrected: self.corrected@, hits: self.hits }
    }
}

/// The contents of a vector of corrections.
pub open spec fn correction_models(list: Seq<LearnedCorrection>) -> Seq<CorrectionModel> {
    Seq::new(list.len(), |i: int| list[i]@)
}

/// One of `list` says the same as `c` up to the case of letters.
pub open spec fn has_same_correction(list: Seq<CorrectionModel>, c: CorrectionModel) -> bool {
    exists|k: int|
        0 <= k < list.len() && same_ignoring_case((#[trigger] list[k]).heard, c.heard)
            && same_ignoring_case(list[k].corrected, c.corrected)
}

/// A correction as it is kept: what was heard trimmed and in small
/// letters, what was meant trimmed, the hits between 1 and a million.
pub open spec fn cleaned_correction(c: CorrectionModel) -> CorrectionModel {
    CorrectionModel {
        heard: lowered(trimmed(c.heard)),
        corrected: trimmed(c.corrected),
        hits: if c.hits < 1 {
            1
        } else if c.hits > MAX_CORRECTION_HITS {
            MAX_CORRECTION_HITS
        } else {
            c.hits
        },
    }
}

/// The corrections as they are kept: cleaned, without those that lack a
/// side, each once up to case, the first 256.
pub open spec fn learned_corrections_of(raw: Seq<CorrectionModel>) -> Seq<CorrectionModel>
    decreases raw.len(),
{
    if raw.len() == 0 {
        Seq::empty()
    } else {
        let kept = learned_corrections_of(raw.drop_last());
        let c = cleaned_correction(raw.last());
        if kept.len() >= MAX_LEARNED_CORRECTIONS || c.heard.len() == 0 || c.corrected.len() == 0
            || has_same_correction(kept, c) {
            kept
        } else {
            kept.push(c)
        }
    }
}

fn holds_same_correction(list: &Vec<LearnedCorrection>, heard: &Vec<char>, corrected: &Vec<char>) -> (b:
    bool)
    ensures
        b == exists|k: int|
            0 <= k < list@.len() && same_ignoring_case(
                (#[trigger] correction_models(list@)[k]).heard,
                heard@,
            ) && same_ignoring_case(correction_models(list@)[k].corrected, corrected@),
{
    let mut k: usize = 0;
    while k < list.len()
        invariant
            k <= list.len(),
            forall|j: int|
                0 <= j < k ==> !(same_ignoring_case(
                    (#[trigger] correction_models(list@)[j]).heard,
                    heard@,
                ) && same_ignoring_case(correction_models(list@)[j].corrected, corrected@)),
        decreases list.len() - k,
    {
        assert(correction_models(list@)[k as int] == list@[k as int]@);
        let h = chars_of(list[k].heard.as_str());
        let c = chars_of(list[k].corrected.as_str());
        if eq_ignore_ascii_case(&h, heard) && eq_ignore_ascii_case(&c, corrected) {
            return true;
        }
        k += 1;
    }
    false
}

/// The corrections as they are kept.
pub fn normalize_learned_corrections(raw: &Vec<LearnedCorrection>) -> (out: Vec<LearnedCorrection>)
    ensures
        correction_models(out@) == learned_corrections_of(correction_models(raw@)),
        out@.len() <= MAX_LEARNED_CORRECTIONS,
{
    let mut out: Vec<LearnedCorrection> = Vec::new();
    let mut i: usize = 0;
    assert(correction_models(raw@).take(0) =~= Seq::<CorrectionModel>::empty());
    assert(correction_models(out@) =~= Seq::<CorrectionModel>::empty());
    while i < raw.len()
        invariant
            i <= raw.len(),
            out@.len() <= MAX_LEARNED_CORRECTIONS,
            correction_models(out@) == learned_corrections_of(
                correction_models(raw@).take(i as int),
            ),
        decreases raw.len() - i,
    {
        let ghost next = correction_models(raw@).take(i + 1);
        assert(next.drop_last() =~= correction_models(raw@).take(i as int));
        assert(next.last() == raw@[i as int]@);
        let heard = lower(&trim(&chars_of(raw[i].heard.as_str())));
        let corrected = trim(&chars_of(raw[i].corrected.as_str()));
        let hits: usize = if raw[i].hits < 1 {
            1
        } else if raw[i].hits > MAX_CORRECTION_HITS {
            MAX_CORRECTION_HITS
        } else {
            raw[i].hits
        };
        let ghost c = cleaned_correction(raw@[i as int]@);
        assert(c.heard == heard@ && c.corrected == corrected@ && c.hits == hits);
        if out.len() < MAX_LEARNED_CORRECTIONS && heard.len() > 0 && corrected.len() > 0
            && !holds_same_correction(&out, &heard, &corrected) {
            let ghost before = correction_models(out@);
            out.push(
                LearnedCorrection { heard: string_of(&heard), corrected: string_of(&corrected), hits },
            );
            assert(correction_models(out@) =~= before.push(c));
        }
        i += 1;
    }
    assert(correction_models(raw@).take(raw.len() as int) =~= correction_models(raw@));
    out
}

// ---------------------------------------------------------------------------
// The settings as a whole
// ---------------------------------------------------------------------------

/// The most threads within one operator that a setting may ask for.
pub const MAX_INTRA_THREADS: usize = 32;

/// The most operators side by side that a setting may ask for.
pub const MAX_INTER_THREADS: usize = 8;

/// The longest that the history is kept, in days.
pub const MAX_RETENTION_DAYS: usize = 3650;

/// The settings of the host that are names, counts and switches.
#[derive(Debug, Clone)]
pub struct HostSettings {
    pub preferred_input_device: Option<String>,
    pub model_profile: String,
    pub performance_profile: String,
    pub toggle_shortcut: String,
    pub ort_ep: String,
    /// Threads within one operator; 0 leaves the choice to the engine.
    pub ort_intra_threads: usize,
    /// Operators side by side; 0 leaves the choice to the engine.
    pub ort_inter_threads: usize,
    pub ort_parallel: bool,
    pub language_hint: String,
    pub post_utterance_refine: bool,
    pub phrase_bias_terms: Vec<String>,
    pub openai_api_key: Option<String>,
    pub cloud_mode: String,
    pub cloud_opt_in: bool,
    pub reliability_mode: bool,
    pub onboarding_completed: bool,
    pub history_enabled: bool,
    pub retention_days: usize,
    pub learned_corrections: Vec<LearnedCorrection>,
}

impl Default for HostSettings {
    /// The settings of a fresh installation.
    fn default() -> (s: HostSettings)
        ensures
            s.preferred_input_device is None,
            s.model_profile@ == "distil-large-v3"@,
            s.performance_profile@ == "whisper_balanced_english"@,
            s.toggle_shortcut@ == "Ctrl+Shift+Space"@,
            s.ort_ep@ == "auto"@,
            s.ort_intra_threads == 0,
            s.ort_inter_threads == 0,
            s.ort_parallel,
            s.language_hint@ == "english"@,
            !s.post_utterance_refine,
            s.phrase_bias_terms@.len() == 0,
            s.openai_api_key is None,
            s.cloud_mode@ == "local_only"@,
            !s.cloud_opt_in,
            s.reliability_mode,
            !s.onboarding_completed,
            s.history_enabled,
            s.retention_days == 90,
            s.learned_corrections@.len() == 0,
    {
        HostSettings {
            preferred_input_device: None,
            model_profile: String::from_str("distil-large-v3"),
            performance_profile: String::from_str("whisper_balanced_english"),
            toggle_shortcut: String::from_str("Ctrl+Shift+Space"),
            ort_ep: String::from_str("auto"),
            ort_intra_threads: 0,
            ort_inter_threads: 0,
            ort_parallel: true,
            language_hint: String::from_str("english"),
            post_utterance_refine: false,
            phrase_bias_terms: Vec::new(),
            openai_api_key: None,
            cloud_mode: String::from_str("local_only"),
            cloud_opt_in: false,
            reliability_mode: true,
            onboarding_completed: false,
            history_enabled: true,
            retention_days: 90,
            learned_corrections: Vec::new(),
        }
    }
}

/// A text that may be absent, trimmed; a blank text is absent.
pub open spec fn trimmed_or_none(value: Option<Seq<char>>) -> Option<Seq<char>> {
    match value {
        Some(v) => if trimmed(v).len() > 0 {
            Some(trimmed(v))
        } else {
            None
        },
        None => None,
    }
}

/// A text that may be absent, trimmed.
pub fn trim_or_none(value: &Option<String>) -> (r: Option<String>)
    ensures
        opt_text(r) == trimmed_or_none(opt_text(*value)),
{
    match value {
        Some(v) => {
            let t = trim(&chars_of(v.as_str()));
            if t.len() > 0 {
                Some(string_of(&t))
            } else {
                None
            }
        },
        None => None,
    }
}

/// The cloud mode that a stored mode and a stored consent come to. A
/// blank mode, and the local mode beside a consent, follow the consent:
/// `hybrid` with it, `local_only` without. Any other mode is brought to
/// its canonical name.
pub open spec fn settled_cloud_mode(cloud_mode: Seq<char>, cloud_opt_in: bool) -> Seq<char> {
    let t = trimmed(cloud_mode);
    if t.len() == 0 || (cloud_opt_in && same_ignoring_case(t, "local_only"@)) {
        if cloud_opt_in {
            "hybrid"@
        } else {
            "local_only"@
        }
    } else {
        cloud_mode_of(cloud_mode)
    }
}

/// The cloud mode that a stored mode and a stored consent come to.
pub fn settle_cloud_mode(cloud_mode: &str, cloud_opt_in: bool) -> (out: String)
    ensures
        out@ == settled_cloud_mode(cloud_mode@, cloud_opt_in),
{
    let t = trim(&chars_of(cloud_mode));
    if t.len() == 0 || (cloud_opt_in && eq_ignore_ascii_case(&t, &chars_of("local_only"))) {
        if cloud_opt_in {
            String::from_str("hybrid")
        } else {
            String::from_str("local_only")
        }
    } else {
        normalize_cloud_mode(cloud_mode)
    }
}

/// The cloud mode after the user gave or withdrew consent: without
/// consent `local_only`; with it the preferred cloud stays, and any other
/// mode becomes `hybrid`.
pub open spec fn cloud_mode_with_consent(cloud_mode: Seq<char>, opt_in: bool) -> Seq<char> {
    if !opt_in {
        "local_only"@
    } else if cloud_mode == "cloud_preferred"@ {
        "cloud_preferred"@
    } else {
        "hybrid"@
    }
}

/// The cloud mode after the user gave or withdrew consent.
pub fn cloud_mode_for_consent(cloud_mode: &str, opt_in: bool) -> (out: String)
    ensures
        out@ == cloud_mode_with_consent(cloud_mode@, opt_in),
{
    if !opt_in {
        String::from_str("local_only")
    } else if str_eq(cloud_mode, "cloud_preferred") {
        String::from_str("cloud_preferred")
    } else {
        String::from_str("hybrid")
    }
}

/// The language hint that the settings come to: English under the
/// balanced English profile, else the canonical name of the stored hint.
pub open spec fn settled_language_hint(performance_profile: Seq<char>, language_hint: Seq<char>) -> Seq<
    char,
> {
    if performance_profile_of(performance_profile) == "whisper_balanced_english"@ {
        "english"@
    } else {
        language_hint_name_of(language_hint)
    }
}

/// `n`, or `most` where `n` is more.
pub open spec fn at_most(n: usize, most: usize) -> usize {
    if n > most {
        most
    } else {
        n
    }
}

/// The days that the history is kept: between 1 and 3650.
pub open spec fn retention_days_of(days: usize) -> usize {
    if days < 1 {
        1
    } else {
        at_most(days, MAX_RETENTION_DAYS)
    }
}

impl HostSettings {
    /// Brings every setting to its canonical form: names to the known
    /// names, counts into their ranges, lists cleaned, blank texts absent.
    /// The consent to the cloud follows the mode that the settings come to.
    pub fn normalize(&mut self)
        ensures
            opt_text(final(self).preferred_input_device) == trimmed_or_none(
                opt_text(old(self).preferred_input_device),
            ),
            final(self).model_profile@ == model_profile_of(old(self).model_profile@),
            final(self).performance_profile@ == performance_profile_of(
                old(self).performance_profile@,
            ),
            final(self).toggle_shortcut@ == toggle_shortcut_of(old(self).toggle_shortcut@),
            final(self).ort_ep@ == ort_ep_of(old(self).ort_ep@),
            final(self).ort_intra_threads == at_most(old(self).ort_intra_threads, MAX_INTRA_THREADS),
            final(self).ort_inter_threads == at_most(old(self).ort_inter_threads, MAX_INTER_THREADS),
            final(self).ort_parallel == old(self).ort_parallel,
            final(self).language_hint@ == settled_language_hint(
                old(self).performance_profile@,
                old(self).language_hint@,
            ),
            final(self).post_utterance_refine == old(self).post_utterance_refine,
            term_texts(final(self).phrase_bias_terms@) == phrase_bias_terms_of(
                term_texts(old(self).phrase_bias_terms@),
            ),
            opt_text(final(self).openai_api_key) == trimmed_or_none(
                opt_text(old(self).openai_api_key),
            ),
            final(self).cloud_mode@ == settled_cloud_mode(
                old(self).cloud_mode@,
                old(self).cloud_opt_in,
            ),
            final(self).cloud_opt_in == (final(self).cloud_mode@ != "local_only"@),
            final(self).reliability_mode == old(self).reliability_mode,
            final(self).onboarding_completed == old(self).onboarding_completed,
            final(self).history_enabled == old(self).history_enabled,
            final(self).retention_days == retention_days_of(old(self).retention_days),
            correction_models(final(self).learned_corrections@) == learned_corrections_of(
                correction_models(old(self).learned_corrections@),
            ),
    {
        let model_profile = normalize_model_profile(self.model_profile.as_str());
        let performance_profile = normalize_performance_profile(self.performance_profile.as_str());
        let toggle_shortcut = normalize_toggle_shortcut(self.toggle_shortcut.as_str());
        let ort_ep = normalize_ort_ep(self.ort_ep.as_str());
        let language_hint = if str_eq(performance_profile.as_str(), "whisper_balanced_english") {
            String::from_str("english")
        } else {
            normalize_language_hint(self.language_hint.as_str())
        };
        let phrase_bias_terms = normalize_phrase_bias_terms(&self.phrase_bias_terms);
        let openai_api_key = trim_or_none(&self.openai_api_key);
        let cloud_mode = settle_cloud_mode(self.cloud_mode.as_str(), self.cloud_opt_in);
        let cloud_opt_in = !str_eq(cloud_mode.as_str(), "local_only");
        let learned_corrections = normalize_learned_corrections(&self.learned_corrections);
        let preferred_input_device = trim_or_none(&self.preferred_input_device);
        let retention_days: usize = if self.retention_days < 1 {
            1
        } else if self.retention_days > MAX_RETENTION_DAYS {
            MAX_RETENTION_DAYS
        } else {
            self.retention_days
        };
        self.model_profile = model_profile;
        self.performance_profile = performance_profile;
        self.toggle_shortcut = toggle_shortcut;
        self.ort_ep = ort_ep;
        if self.ort_intra_threads > MAX_INTRA_THREADS {
            self.ort_intra_threads = MAX_INTRA_THREADS;
        }
        if self.ort_inter_threads > MAX_INTER_THREADS {
            self.ort_inter_threads = MAX_INTER_THREADS;
        }
        self.language_hint = language_hint;
        self.phrase_bias_terms = phrase_bias_terms;
        self.openai_api_key = openai_api_key;
        self.cloud_mode = cloud_mode;
        self.cloud_opt_in = cloud_opt_in;
        self.retention_days = retention_days;
        self.learned_corrections = learned_corrections;
        self.preferred_input_device = preferred_input_device;
    }
}

// ---------------------------------------------------------------------------
// The settings handed to the engine
// ---------------------------------------------------------------------------

/// A variable of the environment and the value that it is to have.
#[derive(Debug, Clone)]
pub struct EnvSetting {
    pub key: String,
    pub value: String,
}

/// The names and values of a list of variables.
pub open spec fn env_texts(list: Seq<EnvSetting>) -> Seq<(Seq<char>, Seq<char>)> {
    Seq::new(list.len(), |i: int| (list[i].key@, list[i].value@))
}

/// How a switch is written: `1` for on, `0` for off.
pub open spec fn flag_text(on: bool) -> Seq<char> {
    if on {
        "1"@
    } else {
        "0"@
    }
}

/// The texts one to a line: a line feed between each two.
pub open spec fn lines_joined(lines: Seq<Seq<char>>) -> Seq<char>
    decreases lines.len(),
{
    if lines.len() == 0 {
        Seq::empty()
    } else if lines.len() == 1 {
        lines[0]
    } else {
        lines_joined(lines.drop_last()) + seq!['\n'] + lines.last()
    }
}

/// The variable with its value where it is given, nothing where it is not.
pub open spec fn given(present: bool, key: Seq<char>, value: Seq<char>) -> Seq<
    (Seq<char>, Seq<char>),
> {
    if present {
        seq![(key, value)]
    } else {
        Seq::empty()
    }
}

/// The variables through which the settings reach the engine, in the
/// order in which they are set. A thread count of 0 and an absent key set
/// no variable.
pub open spec fn runtime_env_of(s: HostSettings) -> Seq<(Seq<char>, Seq<char>)> {
    given(true, "DICTUM_MODEL_PROFILE"@, s.model_profile@) + given(
        true,
        "DICTUM_ORT_EP"@,
        s.ort_ep@,
    ) + given(
        s.ort_intra_threads > 0,
        "DICTUM_ORT_INTRA_THREADS"@,
        decimal(s.ort_intra_threads as nat),
    ) + given(
        s.ort_inter_threads > 0,
        "DICTUM_ORT_INTER_THREADS"@,
        decimal(s.ort_inter_threads as nat),
    ) + given(true, "DICTUM_ORT_PARALLEL"@, flag_text(s.ort_parallel)) + given(
        true,
        "DICTUM_PERFORMANCE_PROFILE"@,
        s.performance_profile@,
    ) + given(true, "DICTUM_LANGUAGE_HINT"@, s.language_hint@) + given(
        true,
        "DICTUM_CLOUD_FALLBACK"@,
        flag_text(s.cloud_mode@ != "local_only"@),
    ) + given(true, "DICTUM_CLOUD_MODE"@, s.cloud_mode@) + given(
        s.openai_api_key is Some,
        "DICTUM_OPENAI_API_KEY"@,
        s.openai_api_key->Some_0@,
    ) + given(
        true,
        "DICTUM_POST_UTTERANCE_REFINEMENT"@,
        flag_text(s.post_utterance_refine),
    ) + given(
        true,
        "DICTUM_PHRASE_BIAS_TERMS"@,
        lines_joined(term_texts(s.phrase_bias_terms@)),
    ) + given(true, "DICTUM_RELIABILITY_MODE"@, flag_text(s.reliability_mode))
}

pub(crate) fn flag(on: bool) -> (s: String)
    ensures
        s@ == flag_text(on),
{
    if on {
        String::from_str("1")
    } else {
        String::from_str("0")
    }
}

pub(crate) fn count_text(n: usize) -> (s: String)
    ensures
        s@ == decimal(n as nat),
{
    let mut out: Vec<char> = Vec::new();
    push_decimal(&mut out, n as u64);
    string_of(&out)
}

fn join_lines(lines: &Vec<String>) -> (s: String)
    ensures
        s@ == lines_joined(term_texts(lines@)),
{
    let mut out: Vec<char> = Vec::new();
    let mut i: usize = 0;
    assert(term_texts(lines@).take(0) =~= Seq::<Seq<char>>::empty());
    while i < lines.len()
        invariant
            i <= lines.len(),
            out@ == lines_joined(term_texts(lines@).take(i as int)),
        decreases lines.len() - i,
    {
        let ghost next = term_texts(lines@).take(i + 1);
        assert(next.drop_last() =~= term_texts(lines@).take(i as int));
        assert(next.last() == lines@[i as int]@);
        if i > 0 {
            out.push('\n');
        }
        push_str(&mut out, lines[i].as_str());
        assert(out@ =~= lines_joined(next));
        i += 1;
    }
    assert(term_texts(lines@).take(lines.len() as int) =~= term_texts(lines@));
    string_of(&out)
}

pub(crate) fn put(list: &mut Vec<EnvSetting>, present: bool, key: &str, value: String)
    ensures
        env_texts(final(list)@) == env_texts(old(list)@) + given(present, key@, value@),
{
    if present {
        list.push(EnvSetting { key: String::from_str(key), value });
    }
    assert(env_texts(list@) =~= env_texts(old(list)@) + given(present, key@, value@));
}

fn text_or_empty(value: &Option<String>) -> (s: String)
    ensures
        s@ == match value {
            Some(v) => v@,
            None => Seq::<char>::empty(),
        },
{
    match value {
        Some(v) => string_of(&chars_of(v.as_str())),
        None => String::new(),
    }
}

impl HostSettings {
    /// The variables through which the settings reach the engine.
    pub fn runtime_env(&self) -> (list: Vec<EnvSetting>)
        ensures
            env_texts(list@) == runtime_env_of(*self),
    {
        let mut list: Vec<EnvSetting> = Vec::new();
        assert(env_texts(list@) =~= Seq::<(Seq<char>, Seq<char>)>::empty());
        put(&mut list, true, "DICTUM_MODEL_PROFILE", string_of(&chars_of(self.model_profile.as_str())));
        put(&mut list, true, "DICTUM_ORT_EP", string_of(&chars_of(self.ort_ep.as_str())));
        put(
            &mut list,
            self.ort_intra_threads > 0,
            "DICTUM_ORT_INTRA_THREADS",
            count_text(self.ort_intra_threads),
        );
        put(
            &mut list,
            self.ort_inter_threads > 0,
            "DICTUM_ORT_INTER_THREADS",
            count_text(self.ort_inter_threads),
        );
        put(&mut list, true, "DICTUM_ORT_PARALLEL", flag(self.ort_parallel));
        put(
            &mut list,
            true,
            "DICTUM_PERFORMANCE_PROFILE",
            string_of(&chars_of(self.performance_profile.as_str())),
        );
        put(&mut list, true, "DICTUM_LANGUAGE_HINT", string_of(&chars_of(self.language_hint.as_str())));
        put(
            &mut list,
            true,
            "DICTUM_CLOUD_FALLBACK",
            flag(!str_eq(self.cloud_mode.as_str(), "local_only")),
        );
        put(&mut list, true, "DICTUM_CLOUD_MODE", string_of(&chars_of(self.cloud_mode.as_str())));
        put(
            &mut list,
            self.openai_api_key.is_some(),
            "DICTUM_OPENAI_API_KEY",
            text_or_empty(&self.openai_api_key),
        );
        put(&mut list, true, "DICTUM_POST_UTTERANCE_REFINEMENT", flag(self.post_utterance_refine));
        put(&mut list, true, "DICTUM_PHRASE_BIAS_TERMS", join_lines(&self.phrase_bias_terms));
        put(&mut list, true, "DICTUM_RELIABILITY_MODE", flag(self.reliability_mode));
        list
    }
}

/// The variable where it is taken away, nothing where it is not.
pub open spec fn cleared_if(absent: bool, key: Seq<char>) -> Seq<Seq<char>> {
    if absent {
        seq![key]
    } else {
        Seq::empty()
    }
}

/// The variables that settings which were just changed take away again:
/// those of a thread count of 0 and of an absent key.
pub open spec fn cleared_env_of(s: HostSettings) -> Seq<Seq<char>> {
    cleared_if(s.ort_intra_threads == 0, "DICTUM_ORT_INTRA_THREADS"@) + cleared_if(
        s.ort_inter_threads == 0,
        "DICTUM_ORT_INTER_THREADS"@,
    ) + cleared_if(s.openai_api_key is None, "DICTUM_OPENAI_API_KEY"@)
}

fn clear(list: &mut Vec<String>, absent: bool, key: &str)
    ensures
        term_texts(final(list)@) == term_texts(old(list)@) + cleared_if(absent, key@),
{
    if absent {
        list.push(String::from_str(key));
    }
    assert(term_texts(list@) =~= term_texts(old(list)@) + cleared_if(absent, key@));
}

// ---------------------------------------------------------------------------
// Changes to the settings
// ---------------------------------------------------------------------------

/// What the user changes of the settings; what is absent stays as it is.
#[derive(Debug, Clone)]
pub struct SettingsUpdate {
    pub model_profile: Option<String>,
    pub performance_profile: Option<String>,
    pub toggle_shortcut: Option<String>,
    pub ort_ep: Option<String>,
    pub ort_intra_threads: Option<usize>,
    pub ort_inter_threads: Option<usize>,
    pub ort_parallel: Option<bool>,
    pub language_hint: Option<String>,
    pub post_utterance_refine: Option<bool>,
    pub phrase_bias_terms: Option<Vec<String>>,
    pub openai_api_key: Option<String>,
    pub cloud_mode: Option<String>,
    pub cloud_opt_in: Option<bool>,
    pub reliability_mode: Option<bool>,
    pub onboarding_completed: Option<bool>,
    pub history_enabled: Option<bool>,
    pub retention_days: Option<usize>,
}

/// A switch after a change.
pub open spec fn switched(now: bool, change: Option<bool>) -> bool {
    match change {
        Some(v) => v,
        None => now,
    }
}

/// A count after a change, which may not pass `most`.
pub open spec fn counted(now: usize, change: Option<usize>, most: usize) -> usize {
    match change {
        Some(v) => at_most(v, most),
        None => now,
    }
}

/// The cloud mode after a change of the mode and of the consent: the
/// new mode by its canonical name, and then what the consent makes of it.
pub open spec fn cloud_mode_changed(
    now: Seq<char>,
    mode: Option<Seq<char>>,
    consent: Option<bool>,
) -> Seq<char> {
    let named = match mode {
        Some(m) => cloud_mode_of(m),
        None => now,
    };
    match consent {
        Some(v) => cloud_mode_with_consent(named, v),
        None => named,
    }
}

fn changed_model_profile(now: &String, change: &Option<String>) -> (r: String)
    ensures
        r@ == match change {
            Some(v) => model_profile_of(v@),
            None => now@,
        },
{
    match change {
        Some(v) => normalize_model_profile(v.as_str()),
        None => now.clone(),
    }
}

fn changed_performance_profile(now: &String, change: &Option<String>) -> (r: String)
    ensures
        r@ == match change {
            Some(v) => performance_profile_of(v@),
            None => now@,
        },
{
    match change {
        Some(v) => normalize_performance_profile(v.as_str()),
        None => now.clone(),
    }
}

fn changed_toggle_shortcut(now: &String, change: &Option<String>) -> (r: String)
    ensures
        r@ == match change {
            Some(v) => toggle_shortcut_of(v@),
            None => now@,
        },
{
    match change {
        Some(v) => normalize_toggle_shortcut(v.as_str()),
        None => now.clone(),
    }
}

fn changed_ort_ep(now: &String, change: &Option<String>) -> (r: String)
    ensures
        r@ == match change {
            Some(v) => ort_ep_of(v@),
            None => now@,
        },
{
    match change {
        Some(v) => normalize_ort_ep(v.as_str()),
        None => now.clone(),
    }
}

fn changed_language_hint(now: &String, change: &Option<String>) -> (r: String)
    ensures
        r@ == match change {
            Some(v) => language_hint_name_of(v@),
            None => now@,
        },
{
    match change {
        Some(v) => normalize_language_hint(v.as_str()),
        None => now.clone(),
    }
}

fn changed_cloud_mode(now: &String, mode: &Option<String>, consent: Option<bool>) -> (r: String)
    ensures
        r@ == cloud_mode_changed(now@, opt_text(*mode), consent),
{
    let named = match mode {
        Some(m) => normalize_cloud_mode(m.as_str()),
        None => now.clone(),
    };
    match consent {
        Some(v) => cloud_mode_for_consent(named.as_str(), v),
        None => named,
    }
}

fn changed_switch(now: bool, change: Option<bool>) -> (r: bool)
    ensures
        r == switched(now, change),
{
    match change {
        Some(v) => v,
        None => now,
    }
}

fn changed_count(now: usize, change: Option<usize>, most: usize) -> (r: usize)
    ensures
        r == counted(now, change, most),
{
    match change {
        Some(v) => if v > most {
            most
        } else {
            v
        },
        None => now,
    }
}

fn changed_retention_days(now: usize, change: Option<usize>) -> (r: usize)
    ensures
        r == match change {
            Some(v) => retention_days_of(v),
            None => now,
        },
{
    match change {
        Some(v) => if v < 1 {
            1
        } else if v > MAX_RETENTION_DAYS {
            MAX_RETENTION_DAYS
        } else {
            v
        },
        None => now,
    }
}

impl HostSettings {
    /// The variables that settings which were just changed take away again.
    pub fn cleared_env(&self) -> (list: Vec<String>)
        ensures
            term_texts(list@) == cleared_env_of(*self),
    {
        let mut list: Vec<String> = Vec::new();
        assert(term_texts(list@) =~= Seq::<Seq<char>>::empty());
        clear(&mut list, self.ort_intra_threads == 0, "DICTUM_ORT_INTRA_THREADS");
        clear(&mut list, self.ort_inter_threads == 0, "DICTUM_ORT_INTER_THREADS");
        clear(&mut list, self.openai_api_key.is_none(), "DICTUM_OPENAI_API_KEY");
        list
    }

    /// Takes a change in. Names are brought to their canonical form and
    /// counts into their ranges as they come; the settings as a whole are
    /// brought into form by [`HostSettings::normalize`], which follows.
    pub fn apply_update(&mut self, update: SettingsUpdate)
        ensures
            final(self).preferred_input_device == old(self).preferred_input_device,
            final(self).model_profile@ == match update.model_profile {
                Some(v) => model_profile_of(v@),
                None => old(self).model_profile@,
            },
            final(self).performance_profile@ == match update.performance_profile {
                Some(v) => performance_profile_of(v@),
                None => old(self).performance_profile@,
            },
            final(self).toggle_shortcut@ == match update.toggle_shortcut {
                Some(v) => toggle_shortcut_of(v@),
                None => old(self).toggle_shortcut@,
            },
            final(self).ort_ep@ == match update.ort_ep {
                Some(v) => ort_ep_of(v@),
                None => old(self).ort_ep@,
            },
            final(self).ort_intra_threads == counted(
                old(self).ort_intra_threads,
                update.ort_intra_threads,
                MAX_INTRA_THREADS,
            ),
            final(self).ort_inter_threads == counted(
                old(self).ort_inter_threads,
                update.ort_inter_threads,
                MAX_INTER_THREADS,
            ),
            final(self).ort_parallel == switched(old(self).ort_parallel, update.ort_parallel),
            final(self).language_hint@ == match update.language_hint {
                Some(v) => language_hint_name_of(v@),
                None => old(self).language_hint@,
            },
            final(self).post_utterance_refine == switched(
                old(self).post_utterance_refine,
                update.post_utterance_refine,
            ),
            final(self).phrase_bias_terms == match update.phrase_bias_terms {
                Some(v) => v,
                None => old(self).phrase_bias_terms,
            },
            final(self).openai_api_key == match update.openai_api_key {
                Some(v) => Some(v),
                None => old(self).openai_api_key,
            },
            final(self).cloud_mode@ == cloud_mode_changed(
                old(self).cloud_mode@,
                opt_text(update.cloud_mode),
                update.cloud_opt_in,
            ),
            final(self).cloud_opt_in == switched(old(self).cloud_opt_in, update.cloud_opt_in),
            final(self).reliability_mode == switched(
                old(self).reliability_mode,
                update.reliability_mode,
            ),
            final(self).onboarding_completed == switched(
                old(self).onboarding_completed,
                update.onboarding_completed,
            ),
            final(self).history_enabled == switched(
                old(self).history_enabled,
                update.history_enabled,
            ),
            final(self).retention_days == match update.retention_days {
                Some(v) => retention_days_of(v),
                None => old(self).retention_days,
            },
            final(self).learned_corrections == old(self).learned_corrections,
    {
        let SettingsUpdate {
            model_profile,
            performance_profile,
            toggle_shortcut,
            ort_ep,
            ort_intra_threads,
            ort_inter_threads,
            ort_parallel,
            language_hint,
            post_utterance_refine,
            phrase_bias_terms,
            openai_api_key,
            cloud_mode,
            cloud_opt_in,
            reliability_mode,
            onboarding_completed,
            history_enabled,
            retention_days,
        } = update;
        self.model_profile = changed_model_profile(&self.model_profile, &model_profile);
        self.performance_profile = changed_performance_profile(
            &self.performance_profile,
            &performance_profile,
        );
        self.toggle_shortcut = changed_toggle_shortcut(&self.toggle_shortcut, &toggle_shortcut);
        self.ort_ep = changed_ort_ep(&self.ort_ep, &ort_ep);
        self.ort_intra_threads = changed_count(
            self.ort_intra_threads,
            ort_intra_threads,
            MAX_INTRA_THREADS,
        );
        self.ort_inter_threads = changed_count(
            self.ort_inter_threads,
            ort_inter_threads,
            MAX_INTER_THREADS,
        );
        self.ort_parallel = changed_switch(self.ort_parallel, ort_parallel);
        self.language_hint = changed_language_hint(&self.language_hint, &language_hint);
        self.post_utterance_refine = changed_switch(self.post_utterance_refine, post_utterance_refine);
        match phrase_bias_terms {
            Some(v) => {
                self.phrase_bias_terms = v;
            },
            None => {},
        }
        match openai_api_key {
            Some(v) => {
                self.openai_api_key = Some(v);
            },
            None => {},
        }
        self.cloud_mode = changed_cloud_mode(&self.cloud_mode, &cloud_mode, cloud_opt_in);
        self.cloud_opt_in = changed_switch(self.cloud_opt_in, cloud_opt_in);
        self.reliability_mode = changed_switch(self.reliability_mode, reliability_mode);
        self.onboarding_completed = changed_switch(self.onboarding_completed, onboarding_completed);
        self.history_enabled = changed_switch(self.history_enabled, history_enabled);
        self.retention_days = changed_retention_days(self.retention_days, retention_days);
    }

    /// The settings that concern the user's privacy.
    pub fn privacy(&self) -> (p: PrivacySettings)
        ensures
            p.history_enabled == self.history_enabled,
            p.retention_days == self.retention_days,
            p.cloud_opt_in == self.cloud_opt_in,
    {
        PrivacySettings {
            history_enabled: self.history_enabled,
            retention_days: self.retention_days,
            cloud_opt_in: self.cloud_opt_in,
        }
    }

    /// Whether a key for the cloud service is set.
    pub fn has_openai_api_key(&self) -> (b: bool)
        ensures
            b == self.openai_api_key is Some,
    {
        self.openai_api_key.is_some()
    }

    /// The number of learned corrections.
    pub fn correction_count(&self) -> (n: usize)
        ensures
            n == self.learned_corrections@.len(),
    {
        self.learned_corrections.len()
    }
}

/// A change of the settings that concern the user's privacy, as a change of the settings.
pub fn privacy_update(history_enabled: Option<bool>, retention_days: Option<usize>, cloud_opt_in: Option<
    bool,
>) -> (u: SettingsUpdate)
    ensures
        u.history_enabled == history_enabled,
        u.retention_days == retention_days,
        u.cloud_opt_in == cloud_opt_in,
        u.model_profile is None,
        u.performance_profile is None,
        u.toggle_shortcut is None,
        u.ort_ep is None,
        u.ort_intra_threads is None,
        u.ort_inter_threads is None,
        u.ort_parallel is None,
        u.language_hint is None,
        u.post_utterance_refine is None,
        u.phrase_bias_terms is None,
        u.openai_api_key is None,
        u.cloud_mode is None,
        u.reliability_mode is None,
        u.onboarding_completed is None,
{
    SettingsUpdate {
        model_profile: None,
        performance_profile: None,
        toggle_shortcut: None,
        ort_ep: None,
        ort_intra_threads: None,
        ort_inter_threads: None,
        ort_parallel: None,
        language_hint: None,
        post_utterance_refine: None,
        phrase_bias_terms: None,
        openai_api_key: None,
        cloud_mode: None,
        cloud_opt_in,
        reliability_mode: None,
        onboarding_completed: None,
        history_enabled,
        retention_days,
    }
}

/// What the shortcut of the host is to be after a change of the
/// settings: nothing where it stays the same; else the old one is
/// given up and the new one is taken.
pub open spec fn shortcut_change(previous: Seq<char>, now: Seq<char>) -> Option<(Seq<char>, Seq<char>)> {
    if previous == now {
        None
    } else {
        Some((previous, now))
    }
}

/// What the shortcut of the host is to be after a change of the settings.
pub fn shortcut_to_register(previous: &str, now: &str) -> (r: Option<(String, String)>)
    ensures
        match r {
            Some((old_one, new_one)) => Some((old_one@, new_one@)),
            None => None,
        } == shortcut_change(previous@, now@),
{
    if str_eq(previous, now) {
        None
    } else {
        Some((string_of(&chars_of(previous)), string_of(&chars_of(now))))
    }
}

} // verus!
