//! Input devices: telling microphones from loopback devices, and choosing one.

use vstd::prelude::*;
use crate::text::{
    chars_equal, chars_of, contains, has_infix, lower, lowered, opt_str_text, str_eq, trim,
    trimmed,
    views,
};

verus! {

/// Metadata about an audio input device.
#[derive(Debug, Clone)]
pub struct DeviceInfo {
    /// Human-readable device name reported by the system.
    pub name: String,
    /// Whether this is the system default input device.
    pub is_default: bool,
    /// Whether the device looks like one that captures the system's output.
    pub is_loopback_like: bool,
    /// Whether this is the device recommended for speech.
    pub is_recommended: bool,
}

/// Parts of names that give a loopback device away.
pub open spec fn loopback_keywords() -> Seq<Seq<char>> {
    seq![
        "stereo mix"@,
        "wave out"@,
        "what u hear"@,
        "what you hear"@,
        "loopback"@,
        "virtual output"@,
        "monitor of"@,
        "mixage stereo"@,
        "mezcla estereo"@,
        "mix stereo"@,
        "speakers ("@,
        "headphones ("@,
    ]
}

/// Parts of names that speak for a microphone.
pub open spec fn microphone_keywords() -> Seq<Seq<char>> {
    seq![
        "microphone"@,
        "mic"@,
        "array"@,
        "headset"@,
        "headphone mic"@,
        "input"@,
        "line in"@,
        "usb"@,
        "webcam"@,
        "yeti"@,
        "podcast"@,
    ]
}

/// A name as it is compared: trimmed, in small letters.
pub open spec fn normalized_name(name: Seq<char>) -> Seq<char> {
    lowered(trimmed(name))
}

/// One of `keys` occurs in `s`.
pub open spec fn has_any(s: Seq<char>, keys: Seq<Seq<char>>) -> bool {
    exists|k: int| 0 <= k < keys.len() && has_infix(s, #[trigger] keys[k])
}

/// The name looks like that of a device that captures the system's output.
pub open spec fn loopback_like(name: Seq<char>) -> bool {
    has_any(normalized_name(name), loopback_keywords())
}

/// How well a name suits a microphone for speech: 8 for a device that does
/// not look like loopback and -16 for one that does, 6 more for a name that
/// speaks for a microphone, 1 more for one that says `default`.
pub open spec fn microphone_score(name: Seq<char>) -> int {
    let n = normalized_name(name);
    (if has_any(n, loopback_keywords()) {
        -16int
    } else {
        8int
    }) + (if has_any(n, microphone_keywords()) {
        6int
    } else {
        0int
    }) + (if has_infix(n, "default"@) {
        1int
    } else {
        0int
    })
}

fn loopback_keyword_list() -> (keys: Vec<Vec<char>>)
    ensures
        views(keys@) == loopback_keywords(),
{
    let mut keys: Vec<Vec<char>> = Vec::new();
    keys.push(chars_of("stereo mix"));
    keys.push(chars_of("wave out"));
    keys.push(chars_of("what u hear"));
    keys.push(chars_of("what you hear"));
    keys.push(chars_of("loopback"));
    keys.push(chars_of("virtual output"));
    keys.push(chars_of("monitor of"));
    keys.push(chars_of("mixage stereo"));
    keys.push(chars_of("mezcla estereo"));
    keys.push(chars_of("mix stereo"));
    keys.push(chars_of("speakers ("));
    keys.push(chars_of("headphones ("));
    assert(views(keys@) =~= loopback_keywords());
    keys
}

fn microphone_keyword_list() -> (keys: Vec<Vec<char>>)
    ensures
        views(keys@) == microphone_keywords(),
{
    let mut keys: Vec<Vec<char>> = Vec::new();
    keys.push(chars_of("microphone"));
    keys.push(chars_of("mic"));
    keys.push(chars_of("array"));
    keys.push(chars_of("headset"));
    keys.push(chars_of("headphone mic"));
    keys.push(chars_of("input"));
    keys.push(chars_of("line in"));
    keys.push(chars_of("usb"));
    keys.push(chars_of("webcam"));
    keys.push(chars_of("yeti"));
    keys.push(chars_of("podcast"));
    assert(views(keys@) =~= microphone_keywords());
    keys
}

fn contains_any(s: &Vec<char>, keys: &Vec<Vec<char>>) -> (b: bool)
    ensures
        b == has_any(s@, views(keys@)),
{
    let mut k: usize = 0;
    while k < keys.len()
        invariant
            k <= keys.len(),
            forall|j: int| 0 <= j < k ==> !has_infix(s@, #[trigger] views(keys@)[j]),
        decreases keys.len() - k,
    {
        assert(views(keys@)[k as int] == keys@[k as int]@);
        if contains(s, &keys[k]) {
            return true;
        }
        k += 1;
    }
    false
}

/// Whether the name looks like that of a loopback device.
pub fn is_loopback_like_name(name: &str) -> (b: bool)
    ensures
        b == loopback_like(name@),
{
    let n = lower(&trim(&chars_of(name)));
    contains_any(&n, &loopback_keyword_list())
}

/// Scores a device name for speech; higher is better.
pub fn mic_preference_score(name: &str) -> (score: i32)
    ensures
        score == microphone_score(name@),
        -16 <= score <= 15,
{
    let n = lower(&trim(&chars_of(name)));
    let mut score: i32 = 0;
    if !contains_any(&n, &loopback_keyword_list()) {
        score += 8;
    } else {
        score -= 16;
    }
    if contains_any(&n, &microphone_keyword_list()) {
        score += 6;
    }
    if contains(&n, &chars_of("default")) {
        score += 1;
    }
    score
}

// ---------------------------------------------------------------------------
// Choosing the device to open
// ---------------------------------------------------------------------------

/// The texts of a vector of names.
pub open spec fn names_of(names: Seq<String>) -> Seq<Seq<char>> {
    Seq::new(names.len(), |i: int| names[i]@)
}

/// The index of the first name at or after `from` that is `wanted`, or the
/// number of names.
pub open spec fn position_of(names: Seq<Seq<char>>, wanted: Seq<char>, from: int) -> int
    decreases names.len() - from,
{
    if 0 <= from < names.len() && names[from] != wanted {
        position_of(names, wanted, from + 1)
    } else {
        from
    }
}

/// The index of the device of the given name, if there is one.
pub open spec fn index_of_name(names: Seq<Seq<char>>, wanted: Option<Seq<char>>) -> Option<int> {
    match wanted {
        Some(w) => if position_of(names, w, 0) < names.len() {
            Some(position_of(names, w, 0))
        } else {
            None
        },
        None => None,
    }
}

/// `i` is the best microphone: it does not look like loopback, no such
/// device scores higher, and none behind it scores as high.
pub open spec fn is_best_microphone(names: Seq<Seq<char>>, i: int) -> bool {
    &&& 0 <= i < names.len()
    &&& !loopback_like(names[i])
    &&& forall|j: int|
        0 <= j < names.len() && !loopback_like(#[trigger] names[j]) ==> microphone_score(names[j])
            <= microphone_score(names[i])
    &&& forall|j: int|
        i < j < names.len() && !loopback_like(#[trigger] names[j]) ==> microphone_score(names[j])
            < microphone_score(names[i])
}

/// There is a device that does not look like loopback.
pub open spec fn has_microphone(names: Seq<Seq<char>>) -> bool {
    exists|j: int| 0 <= j < names.len() && !loopback_like(#[trigger] names[j])
}

/// How the device was chosen.
#[derive(Debug, Clone, Copy, PartialEq, Eq, Structural)]
pub enum ChoiceReason {
    /// The device that was asked for.
    Preferred,
    /// The system's default.
    Default,
    /// The best microphone, in place of the loopback device that was asked for.
    InsteadOfPreferred,
    /// The best microphone, in place of the system's default, a loopback device.
    InsteadOfDefault,
    /// The best microphone: nothing was asked for or found, and there is no default.
    BestMicrophone,
    /// The first device: there is no default and nothing that looks like a microphone.
    FirstAvailable,
}

/// The device to open.
#[derive(Debug, Clone, Copy, PartialEq, Eq, Structural)]
pub struct DeviceChoice {
    pub index: usize,
    pub reason: ChoiceReason,
}

/// Whether `choice` is the device to open. The device that was asked for
/// comes first, then the system's default, then the best microphone, then
/// the first device; but a device that looks like loopback gives way to the
/// best microphone where there is one.
pub open spec fn is_device_choice(
    names: Seq<Seq<char>>,
    preferred: Option<Seq<char>>,
    default_name: Option<Seq<char>>,
    choice: DeviceChoice,
) -> bool {
    let asked = match index_of_name(names, preferred) {
        Some(p) => Some(p),
        None => index_of_name(names, default_name),
    };
    let from_preferred = index_of_name(names, preferred) is Some;
    &&& 0 <= choice.index < names.len()
    &&& match asked {
        Some(a) => if loopback_like(names[a]) && has_microphone(names) {
            &&& is_best_microphone(names, choice.index as int)
            &&& choice.reason == if from_preferred {
                ChoiceReason::InsteadOfPreferred
            } else {
                ChoiceReason::InsteadOfDefault
            }
        } else {
            &&& choice.index == a
            &&& choice.reason == if from_preferred {
                ChoiceReason::Preferred
            } else {
                ChoiceReason::Default
            }
        },
        None => if has_microphone(names) {
            is_best_microphone(names, choice.index as int) && choice.reason
                == ChoiceReason::BestMicrophone
        } else {
            choice.index == 0 && choice.reason == ChoiceReason::FirstAvailable
        },
    }
}

fn find_name(names: &Vec<String>, wanted: Option<&str>) -> (r: Option<usize>)
    ensures
        match r {
            Some(i) => Some(i as int),
            None => None,
        } == index_of_name(
            names_of(names@),
            match wanted {
                Some(w) => Some(w@),
                None => None,
            },
        ),
{
    match wanted {
        None => None,
        Some(w) => {
            let target = chars_of(w);
            let mut i: usize = 0;
            while i < names.len()
                invariant
                    i <= names.len(),
                    wanted == Some(w),
                    target@ == w@,
                    position_of(names_of(names@), w@, 0) == position_of(
                        names_of(names@),
                        w@,
                        i as int,
                    ),
                decreases names.len() - i,
            {
                let here = chars_of(names[i].as_str());
                assert(names_of(names@)[i as int] == here@);
                if chars_equal(&here, &target) {
                    return Some(i);
                }
                i += 1;
            }
            None
        },
    }
}

/// The best microphone among the devices, if any does not look like loopback.
pub fn best_microphone(names: &Vec<String>) -> (r: Option<usize>)
    ensures
        r is Some <==> has_microphone(names_of(names@)),
        r matches Some(i) ==> is_best_microphone(names_of(names@), i as int),
{
    let mut best: Option<usize> = None;
    let mut best_score: i32 = 0;
    let mut i: usize = 0;
    while i < names.len()
        invariant
            i <= names.len(),
            best is None ==> forall|j: int|
                0 <= j < i ==> loopback_like(#[trigger] names_of(names@)[j]),
            best matches Some(b) ==> {
                &&& b < i
                &&& !loopback_like(names_of(names@)[b as int])
                &&& best_score == microphone_score(names_of(names@)[b as int])
                &&& forall|j: int|
                    0 <= j < i && !loopback_like(#[trigger] names_of(names@)[j])
                        ==> microphone_score(names_of(names@)[j]) <= best_score
                &&& forall|j: int|
                    b < j < i && !loopback_like(#[trigger] names_of(names@)[j])
                        ==> microphone_score(names_of(names@)[j]) < best_score
            },
        decreases names.len() - i,
    {
        assert(names_of(names@)[i as int] == names@[i as int]@);
        let name = names[i].as_str();
        if !is_loopback_like_name(name) {
            let score = mic_preference_score(name);
            let better = match best {
                Some(_) => score >= best_score,
                None => true,
            };
            if better {
                best = Some(i);
                best_score = score;
            }
        }
        i += 1;
    }
    best
}

/// Chooses the device to open among the devices of the given names, or
/// none where there is no device.
pub fn select_input_device(
    names: &Vec<String>,
    preferred: Option<&str>,
    default_name: Option<&str>,
) -> (r: Option<DeviceChoice>)
    ensures
        r is Some <==> names@.len() > 0,
        r matches Some(choice) ==> is_device_choice(
            names_of(names@),
            match preferred {
                Some(p) => Some(p@),
                None => None,
            },
            match default_name {
                Some(d) => Some(d@),
                None => None,
            },
            choice,
        ),
{
    if names.len() == 0 {
        return None;
    }
    let microphone = best_microphone(names);
    let preferred_idx = find_name(names, preferred);
    let (asked, from_preferred) = match preferred_idx {
        Some(p) => (Some(p), true),
        None => (find_name(names, default_name), false),
    };
    match asked {
        Some(a) => {
            assert(names_of(names@)[a as int] == names@[a as int]@);
            if is_loopback_like_name(names[a].as_str()) {
                match microphone {
                    Some(m) => {
                        return Some(
                            DeviceChoice {
                                index: m,
                                reason: if from_preferred {
                                    ChoiceReason::InsteadOfPreferred
                                } else {
                                    ChoiceReason::InsteadOfDefault
                                },
                            },
                        );
                    },
                    None => {},
                }
            }
            Some(
                DeviceChoice {
                    index: a,
                    reason: if from_preferred {
                        ChoiceReason::Preferred
                    } else {
                        ChoiceReason::Default
                    },
                },
            )
        },
        None => match microphone {
            Some(m) => Some(DeviceChoice { index: m, reason: ChoiceReason::BestMicrophone }),
            None => Some(DeviceChoice { index: 0, reason: ChoiceReason::FirstAvailable }),
        },
    }
}

/// A loopback device is opened only where nothing looks like a microphone.
pub proof fn lemma_loopback_only_without_microphone(
    names: Seq<Seq<char>>,
    preferred: Option<Seq<char>>,
    default_name: Option<Seq<char>>,
    choice: DeviceChoice,
)
    requires
        is_device_choice(names, preferred, default_name, choice),
        has_microphone(names),
    ensures
        !loopback_like(names[choice.index as int]),
{
}

// ---------------------------------------------------------------------------
// Listing devices for the host
// ---------------------------------------------------------------------------

/// The mathematical content of a [`DeviceInfo`].
pub struct DeviceModel {
    pub name: Seq<char>,
    pub is_default: bool,
    pub is_loopback_like: bool,
    pub is_recommended: bool,
}

impl View for DeviceInfo {
    type V = DeviceModel;

    open spec fn view(&self) -> DeviceModel {
        DeviceModel {
            name: self.name@,
            is_default: self.is_default,
            is_loopback_like: self.is_loopback_like,
            is_recommended: self.is_recommended,
        }
    }
}

/// The contents of a vector of devices.
pub open spec fn device_models(list: Seq<DeviceInfo>) -> Seq<DeviceModel> {
    Seq::new(list.len(), |i: int| list[i]@)
}

/// The score by which the recommended device is chosen: the microphone
/// score, and 2 more for the system's default.
pub open spec fn recommendation_score(name: Seq<char>, default_name: Option<Seq<char>>) -> int {
    microphone_score(name) + if default_name == Some(name) {
        2int
    } else {
        0int
    }
}

/// `r` is the recommended device: none scores higher, and none behind it scores as high.
pub open spec fn is_recommended_index(
    names: Seq<Seq<char>>,
    default_name: Option<Seq<char>>,
    r: int,
) -> bool {
    &&& 0 <= r < names.len()
    &&& forall|j: int|
        0 <= j < names.len() ==> recommendation_score(#[trigger] names[j], default_name)
            <= recommendation_score(names[r], default_name)
    &&& forall|j: int|
        r < j < names.len() ==> recommendation_score(#[trigger] names[j], default_name)
            < recommendation_score(names[r], default_name)
}

/// The device of index `i` as it is listed, where `r` is the recommended one.
pub open spec fn listed_device(
    names: Seq<Seq<char>>,
    default_name: Option<Seq<char>>,
    r: int,
    i: int,
) -> DeviceModel {
    DeviceModel {
        name: names[i],
        is_default: default_name == Some(names[i]),
        is_loopback_like: loopback_like(names[i]),
        is_recommended: i == r,
    }
}

/// `a` comes before `b` in the order of characters: at the first place
/// where they differ `a` has the smaller character, or `a` ends there.
pub open spec fn text_before(a: Seq<char>, b: Seq<char>) -> bool
    decreases a.len(),
{
    if b.len() == 0 {
        false
    } else if a.len() == 0 {
        true
    } else if a[0] != b[0] {
        a[0] < b[0]
    } else {
        text_before(a.drop_first(), b.drop_first())
    }
}

/// The order of characters carries over: what comes before a text that
/// comes before another comes before that one.
pub proof fn lemma_text_order_carries_over(a: Seq<char>, b: Seq<char>, c: Seq<char>)
    requires
        text_before(a, b),
        text_before(b, c),
    ensures
        text_before(a, c),
    decreases a.len(),
{
    if a.len() > 0 && a[0] == b[0] && b[0] == c[0] {
        lemma_text_order_carries_over(a.drop_first(), b.drop_first(), c.drop_first());
    }
}

/// Of two different texts one comes before the other, and never both.
pub proof fn lemma_text_order_is_total(a: Seq<char>, b: Seq<char>)
    ensures
        a != b ==> (text_before(a, b) || text_before(b, a)),
        !(text_before(a, b) && text_before(b, a)),
        !text_before(a, a),
    decreases a.len(),
{
    if a.len() > 0 && b.len() > 0 && a[0] == b[0] {
        lemma_text_order_is_total(a.drop_first(), b.drop_first());
        if a.drop_first() == b.drop_first() {
            assert(a =~= seq![a[0]] + a.drop_first());
            assert(b =~= seq![b[0]] + b.drop_first());
        }
    } else if a.len() == 0 && b.len() == 0 {
        assert(a =~= b);
    }
    if a.len() > 0 {
        lemma_text_order_is_total(a.drop_first(), a.drop_first());
    }
}

/// `a` is listed before `b` by what they are: the recommended device
/// first, then microphones before loopback devices, then the default
/// before others, then by name in small letters.
pub open spec fn listed_before(a: DeviceModel, b: DeviceModel) -> bool {
    if a.is_recommended != b.is_recommended {
        a.is_recommended
    } else if a.is_loopback_like != b.is_loopback_like {
        !a.is_loopback_like
    } else if a.is_default != b.is_default {
        a.is_default
    } else {
        text_before(lowered(a.name), lowered(b.name))
    }
}

/// The device of index `i` comes before that of index `j` in the list:
/// by what they are or, where that does not tell, by their indices.
pub open spec fn precedes(devices: Seq<DeviceModel>, i: int, j: int) -> bool {
    listed_before(devices[i], devices[j]) || (!listed_before(devices[j], devices[i]) && i < j)
}

/// `order` lists each index under `n` once.
pub open spec fn is_permutation(order: Seq<int>, n: int) -> bool {
    &&& order.len() == n
    &&& order.no_duplicates()
    &&& forall|k: int| 0 <= k < order.len() ==> 0 <= #[trigger] order[k] < n
}

/// The devices as they are listed, in the order of their indices.
pub open spec fn listed_devices(
    names: Seq<Seq<char>>,
    default_name: Option<Seq<char>>,
    r: int,
) -> Seq<DeviceModel> {
    Seq::new(names.len(), |i: int| listed_device(names, default_name, r, i))
}

/// `out` is the list of the devices in the order `order`, with `r` the
/// recommended one: every device once, as it is listed, each before its
/// successor.
pub open spec fn is_ranking(
    names: Seq<Seq<char>>,
    default_name: Option<Seq<char>>,
    out: Seq<DeviceModel>,
    order: Seq<int>,
    r: int,
) -> bool {
    &&& is_recommended_index(names, default_name, r)
    &&& is_permutation(order, names.len() as int)
    &&& out.len() == names.len()
    &&& forall|k: int|
        0 <= k < out.len() ==> #[trigger] out[k] == listed_device(names, default_name, r, order[k])
    &&& forall|k: int|
        0 <= k < order.len() - 1 ==> precedes(
            listed_devices(names, default_name, r),
            #[trigger] order[k],
            order[k + 1],
        )
}

/// The order of the list carries over: what comes before a device that
/// comes before another comes before that one.
pub proof fn lemma_precedence_carries_over(devices: Seq<DeviceModel>, i: int, j: int, k: int)
    requires
        precedes(devices, i, j),
        precedes(devices, j, k),
    ensures
        precedes(devices, i, k),
{
    let (a, b, c) = (lowered(devices[i].name), lowered(devices[j].name), lowered(devices[k].name));
    lemma_text_order_is_total(a, b);
    lemma_text_order_is_total(b, c);
    lemma_text_order_is_total(a, c);
    if text_before(a, b) && text_before(b, c) {
        lemma_text_order_carries_over(a, b, c);
    }
    if text_before(c, b) && text_before(b, a) {
        lemma_text_order_carries_over(c, b, a);
    }
}

/// A ranking is in order throughout: every device comes before every
/// device that follows it, not only before its successor.
pub proof fn lemma_ranking_is_in_order(
    names: Seq<Seq<char>>,
    default_name: Option<Seq<char>>,
    out: Seq<DeviceModel>,
    order: Seq<int>,
    r: int,
    a: int,
    b: int,
)
    requires
        is_ranking(names, default_name, out, order, r),
        0 <= a < b < order.len(),
    ensures
        precedes(listed_devices(names, default_name, r), order[a], order[b]),
    decreases b - a,
{
    let devices = listed_devices(names, default_name, r);
    if a + 1 < b {
        lemma_ranking_is_in_order(names, default_name, out, order, r, a, b - 1);
        assert(precedes(devices, order[b - 1], order[b]));
        lemma_precedence_carries_over(devices, order[a], order[b - 1], order[b]);
    } else {
        assert(precedes(devices, order[a], order[a + 1]));
    }
}

/// The indices as integers.
pub open spec fn as_ints(order: Seq<usize>) -> Seq<int> {
    Seq::new(order.len(), |i: int| order[i] as int)
}

/// Whether `a` comes before `b` in the order of characters.
pub fn text_is_before(a: &Vec<char>, b: &Vec<char>) -> (r: bool)
    ensures
        r == text_before(a@, b@),
{
    let mut i: usize = 0;
    assert(a@.skip(0) == a@);
    assert(b@.skip(0) == b@);
    while i < a.len() && i < b.len()
        invariant
            i <= a.len(),
            i <= b.len(),
            text_before(a@, b@) == text_before(a@.skip(i as int), b@.skip(i as int)),
        decreases a.len() - i,
    {
        let ghost ra = a@.skip(i as int);
        let ghost rb = b@.skip(i as int);
        assert(ra[0] == a@[i as int]);
        assert(rb[0] == b@[i as int]);
        assert(ra.drop_first() =~= a@.skip(i + 1));
        assert(rb.drop_first() =~= b@.skip(i + 1));
        if a[i] != b[i] {
            return a[i] < b[i];
        }
        i += 1;
    }
    i < b.len()
}

fn is_listed_before(a: &DeviceInfo, a_key: &Vec<char>, b: &DeviceInfo, b_key: &Vec<char>) -> (r:
    bool)
    requires
        a_key@ == lowered(a.name@),
        b_key@ == lowered(b.name@),
    ensures
        r == listed_before(a@, b@),
{
    if a.is_recommended != b.is_recommended {
        a.is_recommended
    } else if a.is_loopback_like != b.is_loopback_like {
        !a.is_loopback_like
    } else if a.is_default != b.is_default {
        a.is_default
    } else {
        text_is_before(a_key, b_key)
    }
}

fn is_named(name: &str, wanted: Option<&str>) -> (b: bool)
    ensures
        b == (match wanted {
            Some(w) => Some(w@),
            None => None,
        } == Some(name@)),
{
    match wanted {
        Some(w) => str_eq(w, name),
        None => false,
    }
}

/// The index of the recommended device.
fn recommended_device(names: &Vec<String>, default_name: Option<&str>) -> (r: usize)
    requires
        names@.len() > 0,
    ensures
        is_recommended_index(
            names_of(names@),
            match default_name {
                Some(d) => Some(d@),
                None => None,
            },
            r as int,
        ),
{
    let ghost default_text: Option<Seq<char>> = match default_name {
        Some(d) => Some(d@),
        None => None,
    };
    let mut best: usize = 0;
    let mut best_score: i32 = 0;
    let mut i: usize = 0;
    while i < names.len()
        invariant
            i <= names.len(),
            names@.len() > 0,
            default_text == match default_name {
                Some(d) => Some(d@),
                None => None,
            },
            i > 0 ==> best < i && best_score == recommendation_score(
                names_of(names@)[best as int],
                default_text,
            ),
            forall|j: int|
                0 <= j < i ==> recommendation_score(#[trigger] names_of(names@)[j], default_text)
                    <= best_score,
            forall|j: int|
                best < j < i ==> recommendation_score(#[trigger] names_of(names@)[j], default_text)
                    < best_score,
        decreases names.len() - i,
    {
        assert(names_of(names@)[i as int] == names@[i as int]@);
        let name = names[i].as_str();
        let score: i32 = mic_preference_score(name) + if is_named(name, default_name) {
            2
        } else {
            0
        };
        if i == 0 || score >= best_score {
            best = i;
            best_score = score;
        }
        i += 1;
    }
    best
}

/// The devices of the given names as the host lists them: each with what
/// it looks like, the best one recommended, and in the order in which they
/// are offered.
pub fn rank_input_devices(names: &Vec<String>, default_name: Option<&str>) -> (out: Vec<DeviceInfo>)
    ensures
        out@.len() == names@.len(),
        names@.len() > 0 ==> exists|order: Seq<int>, r: int| #[trigger]
            is_ranking(
                names_of(names@),
                opt_str_text(default_name),
                device_models(out@),
                order,
                r,
            ),
{
    let mut out: Vec<DeviceInfo> = Vec::new();
    if names.len() == 0 {
        return out;
    }
    let ghost default_text: Option<Seq<char>> = match default_name {
        Some(d) => Some(d@),
        None => None,
    };
    let ghost all = names_of(names@);
    let r = recommended_device(names, default_name);
    let ghost devices = listed_devices(all, default_text, r as int);

    // The devices with what they look like, and their names in small letters.
    let mut infos: Vec<DeviceInfo> = Vec::new();
    let mut keys: Vec<Vec<char>> = Vec::new();
    let mut i: usize = 0;
    while i < names.len()
        invariant
            i <= names.len(),
            all == names_of(names@),
            default_text == match default_name {
                Some(d) => Some(d@),
                None => None,
            },
            devices == listed_devices(all, default_text, r as int),
            infos@.len() == i,
            keys@.len() == i,
            forall|j: int| 0 <= j < i ==> (#[trigger] infos@[j])@ == devices[j],
            forall|j: int| 0 <= j < i ==> (#[trigger] keys@[j])@ == lowered(devices[j].name),
        decreases names.len() - i,
    {
        assert(all[i as int] == names@[i as int]@);
        let name = names[i].as_str();
        let info = DeviceInfo {
            name: names[i].clone(),
            is_default: is_named(name, default_name),
            is_loopback_like: is_loopback_like_name(name),
            is_recommended: i == r,
        };
        assert(info@ == devices[i as int]);
        infos.push(info);
        keys.push(lower(&chars_of(name)));
        i += 1;
    }

    // The order: each device goes in before the first that it is listed before.
    let mut order: Vec<usize> = Vec::new();
    let mut k: usize = 0;
    while k < names.len()
        invariant
            k <= names.len(),
            infos@.len() == names.len(),
            keys@.len() == names.len(),
            devices.len() == names.len(),
            forall|j: int| 0 <= j < infos@.len() ==> (#[trigger] infos@[j])@ == devices[j],
            forall|j: int| 0 <= j < keys@.len() ==> (#[trigger] keys@[j])@ == lowered(devices[j].name),
            order@.len() == k,
            order@.no_duplicates(),
            forall|j: int| 0 <= j < order@.len() ==> #[trigger] order@[j] < k,
            forall|j: int|
                0 <= j < order@.len() - 1 ==> precedes(
                    devices,
                    #[trigger] order@[j] as int,
                    order@[j + 1] as int,
                ),
        decreases names.len() - k,
    {
        let mut p: usize = 0;
        while p < order.len() && !is_listed_before(&infos[k], &keys[k], &infos[order[p]], &keys[order[p]])
            invariant
                p <= order@.len(),
                k < names.len(),
                infos@.len() == names.len(),
                keys@.len() == names.len(),
                devices.len() == names.len(),
                forall|j: int| 0 <= j < infos@.len() ==> (#[trigger] infos@[j])@ == devices[j],
                forall|j: int|
                    0 <= j < keys@.len() ==> (#[trigger] keys@[j])@ == lowered(devices[j].name),
                forall|j: int| 0 <= j < order@.len() ==> #[trigger] order@[j] < k,
                forall|j: int|
                    0 <= j < p ==> !listed_before(devices[k as int], devices[#[trigger] order@[j] as int]),
            decreases order@.len() - p,
        {
            p += 1;
        }
        let ghost before = order@;
        order.insert(p, k);
        assert(order@ == before.insert(p as int, k));
        assert forall|j: int| 0 <= j < order@.len() implies #[trigger] order@[j] < k + 1 by {
            if j < p {
                assert(order@[j] == before[j]);
            } else if j > p {
                assert(order@[j] == before[j - 1]);
            }
        }
        assert(order@.no_duplicates()) by {
            assert forall|a: int, b: int|
                0 <= a < order@.len() && 0 <= b < order@.len() && a != b implies order@[a]
                != order@[b] by {
                let x = if a < p {
                    a
                } else {
                    a - 1
                };
                let y = if b < p {
                    b
                } else {
                    b - 1
                };
                if a != p && b != p {
                    assert(order@[a] == before[x]);
                    assert(order@[b] == before[y]);
                } else if a == p {
                    assert(order@[b] == before[y]);
                } else {
                    assert(order@[a] == before[x]);
                }
            }
        }
        assert forall|j: int| 0 <= j < order@.len() - 1 implies precedes(
            devices,
            #[trigger] order@[j] as int,
            order@[j + 1] as int,
        ) by {
            if j + 1 < p {
                assert(order@[j] == before[j] && order@[j + 1] == before[j + 1]);
            } else if j + 1 == p {
                assert(order@[j] == before[j]);
                assert(order@[j + 1] == k);
            } else if j == p {
                assert(order@[j] == k);
                assert(order@[j + 1] == before[j]);
            } else {
                assert(order@[j] == before[j - 1] && order@[j + 1] == before[j]);
            }
        }
        k += 1;
    }

    // The list.
    let mut m: usize = 0;
    while m < order.len()
        invariant
            m <= order@.len(),
            order@.len() == names.len(),
            infos@.len() == names.len(),
            devices.len() == names.len(),
            forall|j: int| 0 <= j < infos@.len() ==> (#[trigger] infos@[j])@ == devices[j],
            forall|j: int| 0 <= j < order@.len() ==> #[trigger] order@[j] < names.len(),
            out@.len() == m,
            forall|j: int| 0 <= j < m ==> (#[trigger] out@[j])@ == devices[order@[j] as int],
        decreases order@.len() - m,
    {
        let info = &infos[order[m]];
        out.push(
            DeviceInfo {
                name: info.name.clone(),
                is_default: info.is_default,
                is_loopback_like: info.is_loopback_like,
                is_recommended: info.is_recommended,
            },
        );
        m += 1;
    }
    proof {
        let ints = as_ints(order@);
        assert(is_permutation(ints, all.len() as int));
        assert forall|j: int| 0 <= j < device_models(out@).len() implies #[trigger] device_models(
            out@,
        )[j] == listed_device(all, default_text, r as int, ints[j]) by {
            assert(device_models(out@)[j] == out@[j]@);
            assert(ints[j] == order@[j]);
        }
        assert forall|j: int| 0 <= j < ints.len() - 1 implies precedes(
            listed_devices(all, default_text, r as int),
            #[trigger] ints[j],
            ints[j + 1],
        ) by {
            assert(ints[j] == order@[j] && ints[j + 1] == order@[j + 1]);
        }
        assert(is_ranking(all, default_text, device_models(out@), ints, r as int));
    }
    out
}

/// Frames in a buffer of interleaved samples of `channels` channels.
pub open spec fn frame_count(samples: nat, channels: nat) -> nat {
    if channels == 0 {
        0
    } else {
        samples / channels
    }
}

/// The number of whole frames in a capture buffer.
pub fn frames_in(samples: usize, channels: u16) -> (n: usize)
    ensures
        n == frame_count(samples as nat, channels as nat),
{
    if channels == 0 {
        0
    } else {
        samples / (channels as usize)
    }
}

} // verus!
