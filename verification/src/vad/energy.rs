//! Energy detector: level threshold plus hangover.
//!
//! The caller measures the level of a chunk and says whether it reaches the
//! threshold; the detector owns the hangover, the grace period that keeps
//! reporting speech for a few chunks after the level has dropped.

use vstd::prelude::*;
use crate::vad::VadDecision;

verus! {

/// The energy detector's hangover state.
#[derive(Debug, Clone, Copy)]
pub struct EnergyVad {
    /// How many below-threshold chunks in a row still count as speech.
    hangover_frames: u32,
    /// The chunks of hangover that are left.
    hangover_counter: u32,
}

/// What [`EnergyVad::classify`] decides for a chunk, given the hangover that is left.
pub open spec fn energy_decision(counter: u32, above_threshold: bool) -> VadDecision {
    if above_threshold || counter > 0 {
        VadDecision::Speech
    } else {
        VadDecision::Silence
    }
}

/// The hangover that is left after a chunk.
pub open spec fn energy_counter_after(frames: u32, counter: u32, above_threshold: bool) -> u32 {
    if above_threshold {
        frames
    } else if counter > 0 {
        (counter - 1) as u32
    } else {
        0
    }
}

/// The hangover left after `n` below-threshold chunks in a row.
pub open spec fn counter_after_quiet(counter: u32, n: nat) -> u32 {
    if n >= counter {
        0
    } else {
        (counter - n) as u32
    }
}

impl EnergyVad {
    /// How many below-threshold chunks in a row still count as speech.
    pub closed spec fn hangover_frames(self) -> u32 {
        self.hangover_frames
    }

    /// The chunks of hangover that are left.
    pub closed spec fn hangover_counter(self) -> u32 {
        self.hangover_counter
    }

    /// A detector with no hangover in progress.
    pub fn new(hangover_frames: u32) -> (vad: EnergyVad)
        ensures
            vad.hangover_frames() == hangover_frames,
            vad.hangover_counter() == 0,
    {
        EnergyVad { hangover_frames, hangover_counter: 0 }
    }

    /// Classifies one chunk. `above_threshold` says whether the chunk's level
    /// is at or above the threshold.
    pub fn classify(&mut self, above_threshold: bool) -> (decision: VadDecision)
        ensures
            decision == energy_decision(old(self).hangover_counter(), above_threshold),
            above_threshold ==> decision == VadDecision::Speech,
            final(self).hangover_frames() == old(self).hangover_frames(),
            final(self).hangover_counter() == energy_counter_after(
                old(self).hangover_frames(),
                old(self).hangover_counter(),
                above_threshold,
            ),
    {
        if above_threshold {
            self.hangover_counter = self.hangover_frames;
            VadDecision::Speech
        } else if self.hangover_counter > 0 {
            self.hangover_counter -= 1;
            VadDecision::Speech
        } else {
            VadDecision::Silence
        }
    }

    /// Ends any hangover at once.
    pub fn reset(&mut self)
        ensures
            final(self).hangover_frames() == old(self).hangover_frames(),
            final(self).hangover_counter() == 0,
            energy_decision(final(self).hangover_counter(), false) == VadDecision::Silence,
    {
        self.hangover_counter = 0;
    }
}

/// The hangover that is left after the chunks `inputs`, each given by
/// whether its level reaches the threshold.
pub open spec fn counter_after_inputs(frames: u32, counter: u32, inputs: Seq<bool>) -> u32
    decreases inputs.len(),
{
    if inputs.len() == 0 {
        counter
    } else {
        energy_counter_after(
            frames,
            counter_after_inputs(frames, counter, inputs.drop_last()),
            inputs.last(),
        )
    }
}

/// `n` chunks below the threshold.
pub open spec fn quiet(n: nat) -> Seq<bool> {
    Seq::new(n, |i: int| false)
}

/// `n` below-threshold chunks use up `n` chunks of hangover.
pub proof fn lemma_quiet_run(frames: u32, counter: u32, n: nat)
    ensures
        counter_after_inputs(frames, counter, quiet(n)) == counter_after_quiet(counter, n),
    decreases n,
{
    if n > 0 {
        assert(quiet(n).drop_last() =~= quiet((n - 1) as nat));
        lemma_quiet_run(frames, counter, (n - 1) as nat);
    }
}

/// Hangover law. A chunk at or above the threshold is speech whatever the
/// state. After it, the detector reports speech for exactly
/// `hangover_frames` further below-threshold chunks and silence from then
/// on: the `i`-th such chunk (counting from 0) is speech if and only if
/// `i < hangover_frames`.
pub proof fn lemma_hangover_extends_exactly(frames: u32, counter_before: u32, i: nat)
    ensures
        energy_decision(counter_before, true) == VadDecision::Speech,
        energy_decision(
            counter_after_inputs(frames, counter_before, seq![true] + quiet(i)),
            false,
        ) == if i < frames {
            VadDecision::Speech
        } else {
            VadDecision::Silence
        },
    decreases i,
{
    let inputs = seq![true] + quiet(i);
    if i == 0 {
        assert(inputs.drop_last() =~= Seq::<bool>::empty());
        assert(counter_after_inputs(frames, counter_before, inputs.drop_last()) == counter_before);
    } else {
        assert(inputs.drop_last() =~= seq![true] + quiet((i - 1) as nat));
        assert(inputs.last() == false);
        lemma_hangover_extends_exactly(frames, counter_before, (i - 1) as nat);
        lemma_counter_after_loud_then_quiet(frames, counter_before, (i - 1) as nat);
        lemma_counter_after_loud_then_quiet(frames, counter_before, i);
    }
}

/// After a chunk at or above the threshold and `n` chunks below it, the
/// hangover left is `hangover_frames - n`, or nothing.
pub proof fn lemma_counter_after_loud_then_quiet(frames: u32, counter_before: u32, n: nat)
    ensures
        counter_after_inputs(frames, counter_before, seq![true] + quiet(n)) == counter_after_quiet(
            frames,
            n,
        ),
    decreases n,
{
    let inputs = seq![true] + quiet(n);
    if n == 0 {
        assert(inputs.drop_last() =~= Seq::<bool>::empty());
        assert(counter_after_inputs(frames, counter_before, inputs.drop_last()) == counter_before);
    } else {
        assert(inputs.drop_last() =~= seq![true] + quiet((n - 1) as nat));
        assert(inputs.last() == false);
        lemma_counter_after_loud_then_quiet(frames, counter_before, (n - 1) as nat);
    }
}

impl Default for EnergyVad {
    /// Eight chunks of hangover.
    fn default() -> (vad: EnergyVad)
        ensures
            vad.hangover_frames() == 8,
            vad.hangover_counter() == 0,
    {
        EnergyVad::new(8)
    }
}

} // verus!
