//! Key/value cache reuse: which decoder outputs feed which inputs of the
//! next step, and when the cached decoder can run.

use vstd::prelude::*;
use crate::text::{chars_equal, chars_of, has_prefix, push_chars, starts_with, string_of, sub_vec};

verus! {

/// The input that a decoder output feeds at the next step: `present.X` and
/// `present_key_values.X` feed `past_key_values.X`, and an output that is
/// named like a past input feeds the input of its name. Other outputs feed none.
pub open spec fn past_input_of(output_name: Seq<char>) -> Option<Seq<char>> {
    if has_prefix(output_name, "present."@) {
        Some("past_key_values."@ + output_name.subrange("present."@.len() as int, output_name.len() as int))
    } else if has_prefix(output_name, "present_key_values."@) {
        Some(
            "past_key_values."@ + output_name.subrange(
                "present_key_values."@.len() as int,
                output_name.len() as int,
            ),
        )
    } else if has_prefix(output_name, "past_key_values."@) {
        Some(output_name)
    } else {
        None
    }
}

/// The name of the input that a decoder output feeds at the next step.
pub fn present_to_past_input_name(output_name: &str) -> (r: Option<String>)
    ensures
        match r {
            Some(s) => Some(s@),
            None => None,
        } == past_input_of(output_name@),
{
    let name = chars_of(output_name);
    let present = chars_of("present.");
    let present_kv = chars_of("present_key_values.");
    let past = chars_of("past_key_values.");
    if starts_with(&name, &present) {
        let mut out: Vec<char> = Vec::new();
        push_chars(&mut out, &past);
        push_chars(&mut out, &sub_vec(&name, present.len(), name.len()));
        return Some(string_of(&out));
    }
    if starts_with(&name, &present_kv) {
        let mut out: Vec<char> = Vec::new();
        push_chars(&mut out, &past);
        push_chars(&mut out, &sub_vec(&name, present_kv.len(), name.len()));
        return Some(string_of(&out));
    }
    if starts_with(&name, &past) {
        return Some(string_of(&name));
    }
    None
}

/// The texts of a vector of strings.
pub open spec fn name_views(names: Seq<String>) -> Seq<Seq<char>> {
    Seq::new(names.len(), |i: int| names[i]@)
}

/// The names among `names` that begin with `past_key_values.`, in order.
pub open spec fn past_inputs_among(names: Seq<Seq<char>>) -> Seq<Seq<char>>
    decreases names.len(),
{
    if names.len() == 0 {
        Seq::empty()
    } else if has_prefix(names.last(), "past_key_values."@) {
        past_inputs_among(names.drop_last()).push(names.last())
    } else {
        past_inputs_among(names.drop_last())
    }
}

/// The inputs of the cached decoder that take cached state.
pub fn decoder_with_past_input_names(input_names: &Vec<String>) -> (r: Vec<String>)
    ensures
        name_views(r@) == past_inputs_among(name_views(input_names@)),
{
    let past = chars_of("past_key_values.");
    let mut r: Vec<String> = Vec::new();
    let mut i: usize = 0;
    assert(name_views(input_names@).take(0) =~= Seq::<Seq<char>>::empty());
    assert(name_views(r@) =~= Seq::<Seq<char>>::empty());
    while i < input_names.len()
        invariant
            i <= input_names.len(),
            past@ == "past_key_values."@,
            name_views(r@) == past_inputs_among(name_views(input_names@).take(i as int)),
        decreases input_names.len() - i,
    {
        let ghost next = name_views(input_names@).take(i + 1);
        assert(next.drop_last() =~= name_views(input_names@).take(i as int));
        assert(next.last() == input_names@[i as int]@);
        let name = chars_of(input_names[i].as_str());
        if starts_with(&name, &past) {
            let ghost before = name_views(r@);
            r.push(input_names[i].clone());
            assert(name_views(r@) =~= before.push(input_names@[i as int]@));
        }
        i += 1;
    }
    assert(name_views(input_names@).take(input_names.len() as int) =~= name_views(input_names@));
    r
}

/// Whether `name` is among `names`.
pub fn has_name(names: &Vec<String>, name: &str) -> (b: bool)
    ensures
        b == name_views(names@).contains(name@),
{
    let wanted = chars_of(name);
    let mut i: usize = 0;
    while i < names.len()
        invariant
            i <= names.len(),
            wanted@ == name@,
            forall|j: int| 0 <= j < i ==> name_views(names@)[j] != name@,
        decreases names.len() - i,
    {
        let here = chars_of(names[i].as_str());
        if chars_equal(&here, &wanted) {
            assert(name_views(names@)[i as int] == name@);
            return true;
        }
        i += 1;
    }
    false
}

/// The cached decoder can run: a step was taken, it has cache inputs, and
/// there is cached state for each of them.
pub open spec fn cache_is_ready(step: nat, required: Seq<Seq<char>>, cached: Seq<Seq<char>>) -> bool {
    &&& step > 0
    &&& required.len() > 0
    &&& forall|i: int| 0 <= i < required.len() ==> cached.contains(#[trigger] required[i])
}

/// Whether this step can run on the cached decoder.
pub fn can_use_cache(step: usize, required: &Vec<String>, cached: &Vec<String>) -> (b: bool)
    ensures
        b == cache_is_ready(step as nat, name_views(required@), name_views(cached@)),
{
    if step == 0 || required.len() == 0 {
        return false;
    }
    let mut i: usize = 0;
    while i < required.len()
        invariant
            i <= required.len(),
            forall|j: int|
                0 <= j < i ==> name_views(cached@).contains(#[trigger] name_views(required@)[j]),
        decreases required.len() - i,
    {
        assert(name_views(required@)[i as int] == required@[i as int]@);
        if !has_name(cached, required[i].as_str()) {
            return false;
        }
        i += 1;
    }
    true
}

/// A decoder output that is kept as cached state, and the input that it feeds.
#[derive(Debug)]
pub struct CacheMove {
    /// The index of the output among the decoder's outputs.
    pub output: usize,
    /// The name of the input of the cached decoder.
    pub input: String,
}

/// Whether the output of this index is kept: it feeds an input that the
/// cached decoder has.
pub open spec fn is_kept(outputs: Seq<Seq<char>>, required: Seq<Seq<char>>, i: int) -> bool {
    &&& 0 <= i < outputs.len()
    &&& past_input_of(outputs[i]) matches Some(input) && required.contains(input)
}

/// The outputs of a decoder run that are kept as cached state, in order,
/// each with the input that it feeds.
pub fn collect_present_key_values(output_names: &Vec<String>, required: &Vec<String>) -> (moves:
    Vec<CacheMove>)
    ensures
        forall|m: int|
            0 <= m < moves@.len() ==> is_kept(
                name_views(output_names@),
                name_views(required@),
                (#[trigger] moves@[m]).output as int,
            ) && Some(moves@[m].input@) == past_input_of(
                name_views(output_names@)[moves@[m].output as int],
            ),
        forall|i: int|
            is_kept(name_views(output_names@), name_views(required@), i) ==> exists|m: int|
                0 <= m < moves@.len() && (#[trigger] moves@[m]).output == i,
        forall|a: int, b: int|
            0 <= a < b < moves@.len() ==> (#[trigger] moves@[a]).output < (#[trigger] moves@[b]).output,
{
    let mut moves: Vec<CacheMove> = Vec::new();
    let mut i: usize = 0;
    while i < output_names.len()
        invariant
            i <= output_names.len(),
            forall|m: int|
                0 <= m < moves@.len() ==> (#[trigger] moves@[m]).output < i && is_kept(
                    name_views(output_names@),
                    name_views(required@),
                    moves@[m].output as int,
                ) && Some(moves@[m].input@) == past_input_of(
                    name_views(output_names@)[moves@[m].output as int],
                ),
            forall|k: int|
                0 <= k < i && is_kept(name_views(output_names@), name_views(required@), k)
                    ==> exists|m: int| 0 <= m < moves@.len() && (#[trigger] moves@[m]).output == k,
            forall|a: int, b: int|
                0 <= a < b < moves@.len() ==> (#[trigger] moves@[a]).output < (
                #[trigger] moves@[b]).output,
        decreases output_names.len() - i,
    {
        assert(name_views(output_names@)[i as int] == output_names@[i as int]@);
        let ghost before = moves@;
        match present_to_past_input_name(output_names[i].as_str()) {
            Some(input) => {
                if has_name(required, input.as_str()) {
                    moves.push(CacheMove { output: i, input });
                    assert(forall|m: int| 0 <= m < before.len() ==> moves@[m] == before[m]);
                    assert(moves@[before.len() as int].output == i);
                }
            },
            None => {},
        }
        assert forall|k: int|
            0 <= k < i + 1 && is_kept(
                name_views(output_names@),
                name_views(required@),
                k,
            ) implies exists|m: int| 0 <= m < moves@.len() && (#[trigger] moves@[m]).output == k by {
            if k < i {
                let m = choose|m: int| 0 <= m < before.len() && (#[trigger] before[m]).output == k;
                assert(moves@[m].output == k);
            } else {
                assert(moves@[before.len() as int].output == k);
            }
        }
        i += 1;
    }
    moves
}

} // verus!
