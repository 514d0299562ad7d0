//! Corrections that the user teaches: how a new pair enters the list, how
//! pairs leave it, and how the list is kept in order.
//!
//! The list is ordered by use: the pair that was taught most often comes
//! first; among pairs taught equally often the order of what was heard
//! decides, and among equal ones the order in which they stood before.

use vstd::prelude::*;
use vstd::string::*;
use crate::audio::device::{
    as_ints, is_permutation, lemma_text_order_carries_over, lemma_text_order_is_total, text_before,
    text_is_before,
};
use crate::settings::{
    correction_models, learned_corrections_of, normalize_learned_corrections, CorrectionModel,
    LearnedCorrection,
};
use crate::text::{
    chars_of, eq_ignore_ascii_case, lower, lowered, opt_str_text, same_ignoring_case, string_of,
    trim, trimmed,
};

verus! {

/// Why a correction is refused.
#[derive(Debug, Clone, Copy, PartialEq, Eq, Structural)]
pub enum CorrectionError {
    /// What was heard or what was meant is blank.
    BothRequired,
    /// What was heard is blank.
    HeardRequired,
}

impl CorrectionError {
    /// The message for the user.
    pub fn message(&self) -> (s: String)
        ensures
            s@ == match self {
                CorrectionError::BothRequired => "Both 'heard' and 'corrected' are required."@,
                CorrectionError::HeardRequired => "'heard' is required."@,
            },
    {
        match self {
            CorrectionError::BothRequired => String::from_str(
                "Both 'heard' and 'corrected' are required.",
            ),
            CorrectionError::HeardRequired => String::from_str("'heard' is required."),
        }
    }
}

// ---------------------------------------------------------------------------
// The order of the list
// ---------------------------------------------------------------------------

/// `a` is listed before `b` by what they are: the one that was taught
/// more often, and of two taught equally often the one whose heard text
/// comes first in the order of characters.
pub open spec fn taught_before(a: CorrectionModel, b: CorrectionModel) -> bool {
    a.hits > b.hits || (a.hits == b.hits && text_before(a.heard, b.heard))
}

/// The pair of index `i` comes before that of index `j` in the list: by
/// what they are or, where that does not tell, by their indices.
pub open spec fn stands_before(list: Seq<CorrectionModel>, i: int, j: int) -> bool {
    taught_before(list[i], list[j]) || (!taught_before(list[j], list[i]) && i < j)
}

/// `out` is `list` in the order `order`: every pair once, each before its successor.
pub open spec fn is_listing(list: Seq<CorrectionModel>, out: Seq<CorrectionModel>, order: Seq<int>) -> bool {
    &&& is_permutation(order, list.len() as int)
    &&& out.len() == list.len()
    &&& forall|k: int| 0 <= k < out.len() ==> #[trigger] out[k] == list[order[k]]
    &&& forall|k: int|
        0 <= k < order.len() - 1 ==> stands_before(list, #[trigger] order[k], order[k + 1])
}

fn is_taught_before(a: &LearnedCorrection, b: &LearnedCorrection) -> (r: bool)
    ensures
        r == taught_before(a@, b@),
{
    if a.hits != b.hits {
        a.hits > b.hits
    } else {
        text_is_before(&chars_of(a.heard.as_str()), &chars_of(b.heard.as_str()))
    }
}

fn copy_of(c: &LearnedCorrection) -> (r: LearnedCorrection)
    ensures
        r@ == c@,
{
    LearnedCorrection { heard: c.heard.clone(), corrected: c.corrected.clone(), hits: c.hits }
}

/// The list in order: most taught first.
pub fn sort_corrections(list: &Vec<LearnedCorrection>) -> (out: Vec<LearnedCorrection>)
    ensures
        exists|order: Seq<int>| #[trigger]
            is_listing(correction_models(list@), correction_models(out@), order),
{
    let ghost all = correction_models(list@);
    // The order: each pair goes in before the first that it is listed before.
    let mut order: Vec<usize> = Vec::new();
    let mut k: usize = 0;
    while k < list.len()
        invariant
            k <= list.len(),
            all == correction_models(list@),
            order@.len() == k,
            order@.no_duplicates(),
            forall|j: int| 0 <= j < order@.len() ==> #[trigger] order@[j] < k,
            forall|j: int|
                0 <= j < order@.len() - 1 ==> stands_before(
                    all,
                    #[trigger] order@[j] as int,
                    order@[j + 1] as int,
                ),
        decreases list.len() - k,
    {
        let mut p: usize = 0;
        while p < order.len() && !is_taught_before(&list[k], &list[order[p]])
            invariant
                p <= order@.len(),
                k < list.len(),
                all == correction_models(list@),
                forall|j: int| 0 <= j < order@.len() ==> #[trigger] order@[j] < k,
                forall|j: int|
                    0 <= j < p ==> !taught_before(all[k as int], all[#[trigger] order@[j] as int]),
            decreases order@.len() - p,
        {
            assert(all[k as int] == list@[k as int]@);
            assert(all[order@[p as int] as int] == list@[order@[p as int] as int]@);
            p += 1;
        }
        proof {
            if p < order@.len() {
                assert(all[k as int] == list@[k as int]@);
                assert(all[order@[p as int] as int] == list@[order@[p as int] as int]@);
            }
        }
        let ghost before = order@;
        order.insert(p, k);
        assert(order@ == before.insert(p as int, k));
        assert forall|j: int| 0 <= j < order@.len() implies #[trigger] order@[j] < k + 1 by {
            if j < p {
                assert(order@[j] == before[j]);
            } else if j > p {
                assert(order@[j] == before[j - 1]);
            }
        }
        assert(order@.no_duplicates()) by {
            assert forall|a: int, b: int|
                0 <= a < order@.len() && 0 <= b < order@.len() && a != b implies order@[a]
                != order@[b] by {
                let x = if a < p {
                    a
                } else {
                    a - 1
                };
                let y = if b < p {
                    b
                } else {
                    b - 1
                };
                if a != p && b != p {
                    assert(order@[a] == before[x]);
                    assert(order@[b] == before[y]);
                } else if a == p {
                    assert(order@[b] == before[y]);
                } else {
                    assert(order@[a] == before[x]);
                }
            }
        }
        assert forall|j: int| 0 <= j < order@.len() - 1 implies stands_before(
            all,
            #[trigger] order@[j] as int,
            order@[j + 1] as int,
        ) by {
            if j + 1 < p {
                assert(order@[j] == before[j] && order@[j + 1] == before[j + 1]);
            } else if j + 1 == p {
                assert(order@[j] == before[j]);
                assert(order@[j + 1] == k);
            } else if j == p {
                assert(order@[j] == k);
                assert(order@[j + 1] == before[j]);
            } else {
                assert(order@[j] == before[j - 1] && order@[j + 1] == before[j]);
            }
        }
        k += 1;
    }

    // The list.
    let mut out: Vec<LearnedCorrection> = Vec::new();
    let mut m: usize = 0;
    while m < order.len()
        invariant
            m <= order@.len(),
            order@.len() == list.len(),
            all == correction_models(list@),
            forall|j: int| 0 <= j < order@.len() ==> #[trigger] order@[j] < list.len(),
            out@.len() == m,
            forall|j: int| 0 <= j < m ==> (#[trigger] out@[j])@ == all[order@[j] as int],
        decreases order@.len() - m,
    {
        assert(all[order@[m as int] as int] == list@[order@[m as int] as int]@);
        out.push(copy_of(&list[order[m]]));
        m += 1;
    }
    proof {
        let ints = as_ints(order@);
        assert(is_permutation(ints, all.len() as int));
        assert forall|j: int| 0 <= j < correction_models(out@).len() implies #[trigger] correction_models(
            out@,
        )[j] == all[ints[j]] by {
            assert(correction_models(out@)[j] == out@[j]@);
            assert(ints[j] == order@[j]);
        }
        assert forall|j: int| 0 <= j < ints.len() - 1 implies stands_before(
            all,
            #[trigger] ints[j],
            ints[j + 1],
        ) by {
            assert(ints[j] == order@[j] && ints[j + 1] == order@[j + 1]);
        }
        assert(is_listing(all, correction_models(out@), ints));
    }
    out
}

/// The order of the list carries over: what stands before a pair that
/// stands before another stands before that one.
pub proof fn lemma_order_carries_over(list: Seq<CorrectionModel>, i: int, j: int, k: int)
    requires
        stands_before(list, i, j),
        stands_before(list, j, k),
    ensures
        stands_before(list, i, k),
{
    let (a, b, c) = (list[i], list[j], list[k]);
    lemma_text_order_is_total(a.heard, b.heard);
    lemma_text_order_is_total(b.heard, c.heard);
    lemma_text_order_is_total(a.heard, c.heard);
    if text_before(a.heard, b.heard) && text_before(b.heard, c.heard) {
        lemma_text_order_carries_over(a.heard, b.heard, c.heard);
    }
    if text_before(c.heard, b.heard) && text_before(b.heard, a.heard) {
        lemma_text_order_carries_over(c.heard, b.heard, a.heard);
    }
}

/// A listing is in order throughout: every pair stands before every
/// pair that follows it, not only before its successor. So the order of the
/// list is settled by the pairs and the places that they had.
pub proof fn lemma_listing_is_in_order(
    list: Seq<CorrectionModel>,
    out: Seq<CorrectionModel>,
    order: Seq<int>,
    a: int,
    b: int,
)
    requires
        is_listing(list, out, order),
        0 <= a < b < order.len(),
    ensures
        stands_before(list, order[a], order[b]),
    decreases b - a,
{
    if a + 1 < b {
        lemma_listing_is_in_order(list, out, order, a, b - 1);
        assert(stands_before(list, order[b - 1], order[b]));
        lemma_order_carries_over(list, order[a], order[b - 1], order[b]);
    } else {
        assert(stands_before(list, order[a], order[a + 1]));
    }
}

// ---------------------------------------------------------------------------
// Teaching
// ---------------------------------------------------------------------------

/// The index of the first pair whose heard text is `heard` up to case, or
/// the length of the list where there is none.
pub open spec fn first_heard(list: Seq<CorrectionModel>, heard: Seq<char>) -> int
    decreases list.len(),
{
    if list.len() == 0 {
        0
    } else if same_ignoring_case(list[0].heard, heard) {
        0
    } else {
        1 + first_heard(list.drop_first(), heard)
    }
}

/// The hits after one more, which stop at the largest number.
pub open spec fn one_more_hit(hits: usize) -> usize {
    if hits == usize::MAX {
        hits
    } else {
        (hits + 1) as usize
    }
}

/// The list after a pair was taught, before it is put in order: the
/// first pair with that heard text gets the new meaning and one more hit;
/// where there is none, the pair is added with one hit.
pub open spec fn with_taught(list: Seq<CorrectionModel>, heard: Seq<char>, corrected: Seq<char>) -> Seq<
    CorrectionModel,
> {
    let i = first_heard(list, heard);
    if i < list.len() {
        list.update(
            i,
            CorrectionModel { heard: list[i].heard, corrected, hits: one_more_hit(list[i].hits) },
        )
    } else {
        list.push(CorrectionModel { heard, corrected, hits: 1 })
    }
}

proof fn lemma_first_heard(list: Seq<CorrectionModel>, heard: Seq<char>)
    ensures
        0 <= first_heard(list, heard) <= list.len(),
        first_heard(list, heard) < list.len() ==> same_ignoring_case(
            list[first_heard(list, heard)].heard,
            heard,
        ),
        forall|j: int|
            0 <= j < first_heard(list, heard) ==> !same_ignoring_case((#[trigger] list[j]).heard, heard),
    decreases list.len(),
{
    if list.len() > 0 && !same_ignoring_case(list[0].heard, heard) {
        let rest = list.drop_first();
        lemma_first_heard(rest, heard);
        assert forall|j: int| 0 <= j < first_heard(list, heard) implies !same_ignoring_case(
            (#[trigger] list[j]).heard,
            heard,
        ) by {
            if j > 0 {
                assert(list[j] == rest[j - 1]);
            }
        }
        if first_heard(list, heard) < list.len() {
            assert(list[first_heard(list, heard)] == rest[first_heard(rest, heard)]);
        }
    }
}

/// `i` is the first index of a pair with the heard text `heard`, or the
/// length of the list, and so it is `first_heard`.
proof fn lemma_first_heard_is(list: Seq<CorrectionModel>, heard: Seq<char>, i: int)
    requires
        0 <= i <= list.len(),
        i < list.len() ==> same_ignoring_case(list[i].heard, heard),
        forall|j: int| 0 <= j < i ==> !same_ignoring_case((#[trigger] list[j]).heard, heard),
    ensures
        first_heard(list, heard) == i,
{
    lemma_first_heard(list, heard);
    let f = first_heard(list, heard);
    if f < i {
        assert(!same_ignoring_case(list[f].heard, heard));
    } else if i < f {
        assert(!same_ignoring_case(list[i].heard, heard));
    }
}

/// What was heard as it is kept: trimmed, in small letters.
pub open spec fn heard_key(heard: Seq<char>) -> Seq<char> {
    lowered(trimmed(heard))
}

/// Teaches a pair: what was heard and what was meant. The list comes
/// back with the pair in it, in order and cleaned as the settings keep it.
/// A pair that lacks a side is refused.
pub fn learn_correction(list: &Vec<LearnedCorrection>, heard: &str, corrected: &str) -> (r: Result<
    Vec<LearnedCorrection>,
    CorrectionError,
>)
    ensures
        r is Err <==> (heard_key(heard@).len() == 0 || trimmed(corrected@).len() == 0),
        r matches Err(e) ==> e == CorrectionError::BothRequired,
        r matches Ok(out) ==> exists|sorted: Seq<CorrectionModel>, order: Seq<int>|
            #![trigger is_listing(
                with_taught(correction_models(list@), heard_key(heard@), trimmed(corrected@)),
                sorted,
                order,
            )]
            is_listing(
                with_taught(correction_models(list@), heard_key(heard@), trimmed(corrected@)),
                sorted,
                order,
            ) && correction_models(out@) == learned_corrections_of(sorted),
{
    let h = lower(&trim(&chars_of(heard)));
    let c = trim(&chars_of(corrected));
    if h.len() == 0 || c.len() == 0 {
        return Err(CorrectionError::BothRequired);
    }
    let ghost all = correction_models(list@);
    let mut updated: Vec<LearnedCorrection> = Vec::new();
    let mut found = false;
    let mut i: usize = 0;
    let ghost mut at: int = 0;
    while i < list.len()
        invariant
            i <= list.len(),
            all == correction_models(list@),
            updated@.len() == i,
            !found ==> forall|j: int|
                0 <= j < i ==> !same_ignoring_case((#[trigger] all[j]).heard, h@),
            !found ==> forall|j: int| 0 <= j < i ==> (#[trigger] updated@[j])@ == all[j],
            found ==> {
                &&& 0 <= at < i
                &&& same_ignoring_case(all[at].heard, h@)
                &&& forall|j: int| 0 <= j < at ==> !same_ignoring_case((#[trigger] all[j]).heard, h@)
                &&& forall|j: int|
                    0 <= j < i ==> (#[trigger] updated@[j])@ == if j == at {
                        CorrectionModel {
                            heard: all[at].heard,
                            corrected: c@,
                            hits: one_more_hit(all[at].hits),
                        }
                    } else {
                        all[j]
                    }
            },
        decreases list.len() - i,
    {
        assert(all[i as int] == list@[i as int]@);
        let here = &list[i];
        if !found && eq_ignore_ascii_case(&chars_of(here.heard.as_str()), &h) {
            found = true;
            proof {
                at = i as int;
            }
            updated.push(
                LearnedCorrection {
                    heard: here.heard.clone(),
                    corrected: string_of(&c),
                    hits: if here.hits == usize::MAX {
                        here.hits
                    } else {
                        here.hits + 1
                    },
                },
            );
        } else {
            updated.push(copy_of(here));
        }
        i += 1;
    }
    if !found {
        updated.push(LearnedCorrection { heard: string_of(&h), corrected: string_of(&c), hits: 1 });
    }
    proof {
        let want = with_taught(all, h@, c@);
        if found {
            lemma_first_heard_is(all, h@, at);
        } else {
            lemma_first_heard_is(all, h@, all.len() as int);
        }
        assert(correction_models(updated@) =~= want);
    }
    let sorted = sort_corrections(&updated);
    let out = normalize_learned_corrections(&sorted);
    proof {
        let order = choose|order: Seq<int>| #[trigger]
            is_listing(correction_models(updated@), correction_models(sorted@), order);
        assert(is_listing(
            with_taught(correction_models(list@), heard_key(heard@), trimmed(corrected@)),
            correction_models(sorted@),
            order,
        ));
    }
    Ok(out)
}

// ---------------------------------------------------------------------------
// Forgetting
// ---------------------------------------------------------------------------

/// The meaning that a removal is narrowed to: trimmed, in small letters;
/// a blank one narrows nothing.
pub open spec fn narrowed_to(corrected: Option<Seq<char>>) -> Option<Seq<char>> {
    match corrected {
        Some(c) => if lowered(trimmed(c)).len() > 0 {
            Some(lowered(trimmed(c)))
        } else {
            None
        },
        None => None,
    }
}

/// Whether a pair is removed: its heard text is `heard` up to case and,
/// where the removal is narrowed to a meaning, its meaning is that one up to case.
pub open spec fn is_forgotten(c: CorrectionModel, heard: Seq<char>, corrected: Option<Seq<char>>) -> bool {
    same_ignoring_case(c.heard, heard) && match corrected {
        Some(meaning) => same_ignoring_case(c.corrected, meaning),
        None => true,
    }
}

/// The pairs that are not removed, in their order.
pub open spec fn without_forgotten(
    list: Seq<CorrectionModel>,
    heard: Seq<char>,
    corrected: Option<Seq<char>>,
) -> Seq<CorrectionModel>
    decreases list.len(),
{
    if list.len() == 0 {
        Seq::empty()
    } else {
        let kept = without_forgotten(list.drop_last(), heard, corrected);
        if is_forgotten(list.last(), heard, corrected) {
            kept
        } else {
            kept.push(list.last())
        }
    }
}

/// Removes the pairs with the heard text `heard`: all of them, or those
/// with the given meaning. The list comes back cleaned as the settings
/// keep it. A blank heard text is refused.
pub fn delete_learned_correction(
    list: &Vec<LearnedCorrection>,
    heard: &str,
    corrected: Option<&str>,
) -> (r: Result<Vec<LearnedCorrection>, CorrectionError>)
    ensures
        r is Err <==> heard_key(heard@).len() == 0,
        r matches Err(e) ==> e == CorrectionError::HeardRequired,
        r matches Ok(out) ==> correction_models(out@) == learned_corrections_of(
            without_forgotten(
                correction_models(list@),
                heard_key(heard@),
                narrowed_to(opt_str_text(corrected)),
            ),
        ),
{
    let h = lower(&trim(&chars_of(heard)));
    if h.len() == 0 {
        return Err(CorrectionError::HeardRequired);
    }
    let meaning: Option<Vec<char>> = match corrected {
        Some(c) => {
            let m = lower(&trim(&chars_of(c)));
            if m.len() > 0 {
                Some(m)
            } else {
                None
            }
        },
        None => None,
    };
    let ghost all = correction_models(list@);
    let ghost narrowed = narrowed_to(opt_str_text(corrected));
    let mut kept: Vec<LearnedCorrection> = Vec::new();
    let mut i: usize = 0;
    assert(all.take(0) =~= Seq::<CorrectionModel>::empty());
    assert(correction_models(kept@) =~= Seq::<CorrectionModel>::empty());
    while i < list.len()
        invariant
            i <= list.len(),
            all == correction_models(list@),
            narrowed == match meaning {
                Some(m) => Some(m@),
                None => None,
            },
            correction_models(kept@) == without_forgotten(all.take(i as int), h@, narrowed),
        decreases list.len() - i,
    {
        let ghost next = all.take(i + 1);
        assert(next.drop_last() =~= all.take(i as int));
        assert(next.last() == list@[i as int]@);
        let here = &list[i];
        let forgotten = eq_ignore_ascii_case(&chars_of(here.heard.as_str()), &h) && match &meaning {
            Some(m) => eq_ignore_ascii_case(&chars_of(here.corrected.as_str()), m),
            None => true,
        };
        if !forgotten {
            let ghost before = correction_models(kept@);
            kept.push(copy_of(here));
            assert(correction_models(kept@) =~= before.push(here@));
        }
        i += 1;
    }
    assert(all.take(list.len() as int) =~= all);
    Ok(normalize_learned_corrections(&kept))
}

} // verus!
