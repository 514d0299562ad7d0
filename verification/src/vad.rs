//! Voice activity detection.

use vstd::prelude::*;

pub mod energy;
pub mod silero;

verus! {

/// Whether a given audio frame contains speech or silence.
#[derive(Debug, Clone, Copy, PartialEq, Eq, Structural)]
pub enum VadDecision {
    /// The frame contains speech (or falls in the hangover after speech).
    Speech,
    /// The frame is silent.
    Silence,
}

impl VadDecision {
    /// True exactly for `Speech`.
    pub fn is_speech(self) -> (r: bool)
        ensures
            r == (self == VadDecision::Speech),
    {
        match self {
            VadDecision::Speech => true,
            VadDecision::Silence => false,
        }
    }
}

} // verus!
