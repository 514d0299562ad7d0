//! Typed audio chunk passed between the stages of the pipeline.

use vstd::prelude::*;

verus! {

/// A contiguous block of mono samples at a known sample rate.
#[derive(Debug, Clone)]
pub struct AudioChunk<S> {
    /// Mono samples.
    pub samples: Vec<S>,
    /// Sample rate in Hz (for example 16000, 44100, 48000).
    pub sample_rate: u32,
}

impl<S> AudioChunk<S> {
    /// A chunk of the given samples at the given rate.
    pub fn new(samples: Vec<S>, sample_rate: u32) -> (chunk: Self)
        ensures
            chunk.samples == samples,
            chunk.sample_rate == sample_rate,
    {
        AudioChunk { samples, sample_rate }
    }

    /// The whole milliseconds of audio in this chunk.
    pub open spec fn millis(self) -> int
        recommends
            self.sample_rate > 0,
    {
        (self.samples@.len() as int) * 1000 / (self.sample_rate as int)
    }

    /// The duration of this chunk in whole milliseconds, rounded down;
    /// `None` where the sample rate is 0 or the count does not fit.
    pub fn duration_millis(&self) -> (d: Option<u64>)
        ensures
            self.sample_rate == 0 ==> d is None,
            self.sample_rate > 0 && self.millis() <= u64::MAX ==> d == Some(self.millis() as u64),
            self.sample_rate > 0 && self.millis() > u64::MAX ==> d is None,
    {
        if self.sample_rate == 0 {
            return None;
        }
        let n: u128 = self.samples.len() as u128;
        let ms: u128 = n * 1000 / (self.sample_rate as u128);
        if ms > u64::MAX as u128 {
            None
        } else {
            Some(ms as u64)
        }
    }

    /// Returns true if the chunk contains no samples.
    pub fn is_empty(&self) -> (b: bool)
        ensures
            b == (self.samples@.len() == 0),
    {
        self.samples.len() == 0
    }
}

} // verus!
