//! A stand-in model that answers without inference, for exercising the
//! pipeline end to end.

use vstd::prelude::*;
use vstd::string::*;
use crate::buffering::chunk::AudioChunk;
use crate::error::DictumError;
use crate::ipc::events::{segment_models, SegmentKind, SegmentModel, TranscriptSegment};
use crate::text::{decimal, push_decimal, push_str, string_of};

verus! {

/// Samples under which the stub hears nothing.
pub const STUB_MIN_SAMPLES: usize = 160;

/// Echo-style stub model.
#[derive(Debug)]
pub struct StubModel {
    utterance_count: u32,
}

/// The number after `n`, beginning again behind the largest.
pub open spec fn next_count(n: u32) -> u32 {
    if n == u32::MAX {
        0
    } else {
        (n + 1) as u32
    }
}

/// The id of the stub's `n`-th answer.
pub open spec fn stub_id(n: u32) -> Seq<char> {
    "stub-"@ + decimal(n as nat)
}

/// The text of a final answer of the stub.
pub open spec fn stub_text(samples: nat, sample_rate: u32) -> Seq<char> {
    "[stub: "@ + decimal(samples) + " samples @ "@ + decimal(sample_rate as nat) + " Hz]"@
}

/// What the stub answers for a chunk of `samples` samples as its answer
/// number `count`: nothing for a chunk under 160 samples; else one segment,
/// an ellipsis as partial or the size of the chunk as final.
pub open spec fn stub_answer(count: u32, samples: nat, sample_rate: u32, partial: bool) -> Seq<
    SegmentModel,
> {
    if samples < STUB_MIN_SAMPLES {
        Seq::empty()
    } else if partial {
        seq![
            SegmentModel {
                id: stub_id(count),
                text: "\u{2026}"@,
                kind: SegmentKind::Partial,
                confidence: None,
            },
        ]
    } else {
        seq![
            SegmentModel {
                id: stub_id(count),
                text: stub_text(samples, sample_rate),
                kind: SegmentKind::Final,
                confidence: Some(100u8),
            },
        ]
    }
}

impl StubModel {
    /// The answers given so far.
    pub closed spec fn count(self) -> u32 {
        self.utterance_count
    }

    /// A stub that has answered nothing yet.
    pub fn new() -> (m: StubModel)
        ensures
            m.count() == 0,
    {
        StubModel { utterance_count: 0 }
    }

    /// Nothing to load.
    pub fn warm_up(&mut self) -> (r: Result<(), DictumError>)
        ensures
            r is Ok,
            final(self).count() == old(self).count(),
    {
        Ok(())
    }

    /// Answers for `chunk` without looking at its samples.
    pub fn transcribe<S>(&mut self, chunk: &AudioChunk<S>, partial: bool) -> (r: Result<
        Vec<TranscriptSegment>,
        DictumError,
    >)
        ensures
            r matches Ok(segments) && segment_models(segments@) == stub_answer(
                final(self).count(),
                chunk.samples@.len(),
                chunk.sample_rate,
                partial,
            ),
            final(self).count() == if chunk.samples@.len() < STUB_MIN_SAMPLES {
                old(self).count()
            } else {
                next_count(old(self).count())
            },
    {
        let mut segments: Vec<TranscriptSegment> = Vec::new();
        if chunk.samples.len() < STUB_MIN_SAMPLES {
            assert(segment_models(segments@) =~= Seq::<SegmentModel>::empty());
            return Ok(segments);
        }
        self.utterance_count = if self.utterance_count == u32::MAX {
            0
        } else {
            self.utterance_count + 1
        };
        let mut id: Vec<char> = Vec::new();
        push_str(&mut id, "stub-");
        push_decimal(&mut id, self.utterance_count as u64);
        let segment = if partial {
            TranscriptSegment {
                id: string_of(&id),
                text: String::from_str("\u{2026}"),
                kind: SegmentKind::Partial,
                confidence: None,
            }
        } else {
            let mut text: Vec<char> = Vec::new();
            push_str(&mut text, "[stub: ");
            push_decimal(&mut text, chunk.samples.len() as u64);
            push_str(&mut text, " samples @ ");
            push_decimal(&mut text, chunk.sample_rate as u64);
            push_str(&mut text, " Hz]");
            TranscriptSegment {
                id: string_of(&id),
                text: string_of(&text),
                kind: SegmentKind::Final,
                confidence: Some(100),
            }
        };
        segments.push(segment);
        assert(segment_models(segments@) =~= stub_answer(
            self.utterance_count,
            chunk.samples@.len(),
            chunk.sample_rate,
            partial,
        ));
        Ok(segments)
    }

    /// The stub keeps no decoder state.
    pub fn reset(&mut self)
        ensures
            final(self).count() == old(self).count(),
    {
    }
}

impl Default for StubModel {
    fn default() -> (m: StubModel)
        ensures
            m.count() == 0,
    {
        StubModel::new()
    }
}

} // verus!
