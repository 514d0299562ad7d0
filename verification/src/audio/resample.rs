//! Buffering for sample-rate conversion.
//!
//! The resampling algorithm works on blocks of a fixed size. The converter
//! collects what arrives until a block is full, hands out every full block
//! and keeps the rest for the next call. Where the capture rate is the
//! target rate it hands its input through untouched.

use vstd::prelude::*;
use vstd::string::*;
use crate::buffering::{copy_vec, extend_from};
use crate::error::DictumError;

verus! {

/// The full blocks of `chunk_size` samples at the front of `s`, in order.
pub open spec fn blocks_of<S>(s: Seq<S>, chunk_size: nat) -> Seq<Seq<S>>
    decreases s.len(),
{
    if chunk_size == 0 || s.len() < chunk_size {
        Seq::empty()
    } else {
        seq![s.take(chunk_size as int)] + blocks_of(s.skip(chunk_size as int), chunk_size)
    }
}

/// What is left of `s` behind its full blocks.
pub open spec fn rest_of<S>(s: Seq<S>, chunk_size: nat) -> Seq<S>
    decreases s.len(),
{
    if chunk_size == 0 || s.len() < chunk_size {
        s
    } else {
        rest_of(s.skip(chunk_size as int), chunk_size)
    }
}

/// The blocks one after the other.
pub open spec fn flattened<S>(blocks: Seq<Seq<S>>) -> Seq<S>
    decreases blocks.len(),
{
    if blocks.len() == 0 {
        Seq::empty()
    } else {
        blocks[0] + flattened(blocks.drop_first())
    }
}

/// The contents of a vector of blocks.
pub open spec fn block_views<S>(blocks: Seq<Vec<S>>) -> Seq<Seq<S>> {
    Seq::new(blocks.len(), |i: int| blocks[i]@)
}

/// Cuts `input` into its full blocks of `chunk` samples and the rest.
pub fn split_blocks<S: Copy>(input: Vec<S>, chunk: usize) -> (out: (Vec<Vec<S>>, Vec<S>))
    requires
        chunk > 0,
    ensures
        block_views(out.0@) == blocks_of(input@, chunk as nat),
        out.1@ == rest_of(input@, chunk as nat),
        out.1@.len() < chunk,
{
    let mut input = input;
    let ghost all = input@;
    let mut blocks: Vec<Vec<S>> = Vec::new();
    let mut pos: usize = 0;
    assert(all.skip(0) == all);
    assert(block_views(blocks@) + blocks_of(all.skip(0), chunk as nat) == blocks_of(
        all,
        chunk as nat,
    ));
    while input.len() - pos >= chunk
        invariant
            chunk > 0,
            input@ == all,
            pos <= all.len(),
            block_views(blocks@) + blocks_of(all.skip(pos as int), chunk as nat) == blocks_of(
                all,
                chunk as nat,
            ),
            rest_of(all.skip(pos as int), chunk as nat) == rest_of(all, chunk as nat),
        decreases all.len() - pos,
    {
        let mut block: Vec<S> = Vec::new();
        let mut k: usize = 0;
        while k < chunk
            invariant
                k <= chunk,
                pos + chunk <= input.len(),
                input@ == all,
                block@ == all.subrange(pos as int, pos + k),
            decreases chunk - k,
        {
            block.push(input[pos + k]);
            assert(all.subrange(pos as int, pos + k + 1) =~= all.subrange(pos as int, pos + k).push(
                all[pos + k],
            ));
            k += 1;
        }
        let ghost before = block_views(blocks@);
        let ghost here = all.skip(pos as int);
        assert(here.take(chunk as int) =~= block@);
        assert(here.skip(chunk as int) =~= all.skip(pos + chunk));
        blocks.push(block);
        assert(block_views(blocks@) =~= before + seq![here.take(chunk as int)]);
        pos += chunk;
    }
    let rest = input.split_off(pos);
    assert(rest@ =~= all.skip(pos as int));
    assert(block_views(blocks@) =~= blocks_of(all, chunk as nat));
    (blocks, rest)
}

/// What [`RateConverter::process`] hands out.
#[derive(Debug)]
pub enum Converted<S> {
    /// The input itself: the rates are equal.
    Passthrough(Vec<S>),
    /// The full blocks that are ready for the resampling algorithm, oldest first.
    Blocks(Vec<Vec<S>>),
}

/// The buffering side of a rate converter.
pub struct RateConverter<S> {
    passthrough: bool,
    input_buf: Vec<S>,
    chunk_size: usize,
}

impl<S> RateConverter<S> {
    /// Whether the converter hands its input through.
    pub closed spec fn passthrough(self) -> bool {
        self.passthrough
    }

    /// The samples that wait for a block to fill.
    pub closed spec fn buffered(self) -> Seq<S> {
        self.input_buf@
    }

    /// The block size of the resampling algorithm.
    pub closed spec fn chunk_size(self) -> nat {
        self.chunk_size as nat
    }

    /// A converting converter has a block size and holds less than one
    /// block between calls.
    #[verifier::type_invariant]
    closed spec fn wf(self) -> bool {
        !self.passthrough ==> self.chunk_size > 0 && self.input_buf@.len() < self.chunk_size
    }

}

impl<S: Copy> RateConverter<S> {
    /// A converter from `capture_rate` to `target_rate` that works in blocks
    /// of `chunk_size` samples. Equal rates give a passthrough. Different
    /// rates are refused where the target rate is 0 or the block size is 0.
    pub fn new(capture_rate: u32, target_rate: u32, chunk_size: usize) -> (r: Result<
        Self,
        DictumError,
    >)
        ensures
            r is Ok <==> (capture_rate == target_rate || (target_rate != 0 && chunk_size != 0)),
            r matches Ok(c) ==> {
                &&& c.passthrough() == (capture_rate == target_rate)
                &&& c.buffered() == Seq::<S>::empty()
                &&& c.chunk_size() == chunk_size
            },
            r matches Err(e) ==> e is AudioDevice,
    {
        if capture_rate == target_rate {
            return Ok(RateConverter { passthrough: true, input_buf: Vec::new(), chunk_size });
        }
        if target_rate == 0 {
            return Err(
                DictumError::AudioDevice(String::from_str("resampler init: invalid ratio")),
            );
        }
        if chunk_size == 0 {
            return Err(
                DictumError::AudioDevice(String::from_str("resampler init: empty block")),
            );
        }
        Ok(RateConverter { passthrough: false, input_buf: Vec::new(), chunk_size })
    }

    /// Returns `true` when capture rate and target rate are equal.
    pub fn is_passthrough(&self) -> (b: bool)
        ensures
            b == self.passthrough(),
    {
        self.passthrough
    }

    /// The number of samples that wait for a block to fill.
    pub fn pending(&self) -> (n: usize)
        ensures
            n == self.buffered().len(),
    {
        self.input_buf.len()
    }

    /// Takes `samples` in. A passthrough hands them back as they are.
    /// Otherwise every block that is now full comes out, oldest first, and
    /// the rest waits: no sample is dropped and none is handed out twice.
    pub fn process(&mut self, samples: &Vec<S>) -> (out: Converted<S>)
        ensures
            final(self).passthrough() == old(self).passthrough(),
            final(self).chunk_size() == old(self).chunk_size(),
            old(self).passthrough() ==> {
                &&& out matches Converted::Passthrough(v) && v@ == samples@
                &&& final(self).buffered() == old(self).buffered()
            },
            !old(self).passthrough() ==> {
                &&& out matches Converted::Blocks(blocks) && block_views(blocks@) == blocks_of(
                    old(self).buffered() + samples@,
                    old(self).chunk_size(),
                )
                &&& final(self).buffered() == rest_of(
                    old(self).buffered() + samples@,
                    old(self).chunk_size(),
                )
            },
    {
        proof {
            use_type_invariant(&*self);
        }
        if self.passthrough {
            return Converted::Passthrough(copy_vec(samples));
        }
        let mut input: Vec<S> = Vec::new();
        core::mem::swap(&mut self.input_buf, &mut input);
        extend_from(&mut input, samples, 0);
        assert(samples@.subrange(0, samples@.len() as int) == samples@);
        let (blocks, mut rest) = split_blocks(input, self.chunk_size);
        core::mem::swap(&mut self.input_buf, &mut rest);
        Converted::Blocks(blocks)
    }
}

/// Buffering law. While less than one block has accumulated nothing comes
/// out and everything waits; the feed that completes a block brings output.
pub proof fn lemma_blocks_wait_for_a_full_block<S>(buffered: Seq<S>, samples: Seq<S>, chunk_size: nat)
    requires
        chunk_size > 0,
    ensures
        buffered.len() + samples.len() < chunk_size ==> {
            &&& blocks_of(buffered + samples, chunk_size).len() == 0
            &&& rest_of(buffered + samples, chunk_size) == buffered + samples
        },
        buffered.len() + samples.len() >= chunk_size ==> {
            &&& blocks_of(buffered + samples, chunk_size).len() >= 1
            &&& blocks_of(buffered + samples, chunk_size)[0] == (buffered + samples).take(
                chunk_size as int,
            )
        },
{
}

/// The samples of the feeds, one feed after the other.
pub open spec fn all_fed<S>(feeds: Seq<Seq<S>>) -> Seq<S>
    decreases feeds.len(),
{
    if feeds.len() == 0 {
        Seq::empty()
    } else {
        all_fed(feeds.drop_last()) + feeds.last()
    }
}

/// What waits in a converter that was empty before the feeds came in, one by one.
pub open spec fn waiting_after<S>(feeds: Seq<Seq<S>>, chunk_size: nat) -> Seq<S>
    decreases feeds.len(),
{
    if feeds.len() == 0 {
        Seq::empty()
    } else {
        rest_of(waiting_after(feeds.drop_last(), chunk_size) + feeds.last(), chunk_size)
    }
}

/// Buffering law over many feeds. While the feeds together hold less
/// than one block, all of them wait and the last of them brings no output;
/// the feed with which they reach a block brings output.
pub proof fn lemma_feeds_wait_until_a_block_is_full<S>(
    feeds: Seq<Seq<S>>,
    next: Seq<S>,
    chunk_size: nat,
)
    requires
        chunk_size > 0,
        all_fed(feeds).len() < chunk_size,
    ensures
        waiting_after(feeds, chunk_size) == all_fed(feeds),
        feeds.len() > 0 ==> blocks_of(
            waiting_after(feeds.drop_last(), chunk_size) + feeds.last(),
            chunk_size,
        ).len() == 0,
        all_fed(feeds).len() + next.len() >= chunk_size ==> blocks_of(
            waiting_after(feeds, chunk_size) + next,
            chunk_size,
        ).len() >= 1,
        all_fed(feeds).len() + next.len() < chunk_size ==> blocks_of(
            waiting_after(feeds, chunk_size) + next,
            chunk_size,
        ).len() == 0,
    decreases feeds.len(),
{
    if feeds.len() > 0 {
        lemma_feeds_wait_until_a_block_is_full(feeds.drop_last(), feeds.last(), chunk_size);
    }
}

/// No sample is lost or repeated: the blocks, each of the block size, and
/// the rest, shorter than a block, make up exactly what came in.
pub proof fn lemma_blocks_keep_every_sample<S>(s: Seq<S>, chunk_size: nat)
    requires
        chunk_size > 0,
    ensures
        flattened(blocks_of(s, chunk_size)) + rest_of(s, chunk_size) == s,
        rest_of(s, chunk_size).len() < chunk_size,
        forall|i: int|
            0 <= i < blocks_of(s, chunk_size).len() ==> (#[trigger] blocks_of(s, chunk_size)[i]).len()
                == chunk_size,
        blocks_of(s, chunk_size).len() * chunk_size + rest_of(s, chunk_size).len() == s.len(),
    decreases s.len(),
{
    if s.len() >= chunk_size {
        let tail = s.skip(chunk_size as int);
        lemma_blocks_keep_every_sample(tail, chunk_size);
        let blocks = blocks_of(s, chunk_size);
        assert(blocks.drop_first() =~= blocks_of(tail, chunk_size));
        assert(blocks[0] == s.take(chunk_size as int));
        assert(flattened(blocks) + rest_of(s, chunk_size) =~= s.take(chunk_size as int) + (
        flattened(blocks_of(tail, chunk_size)) + rest_of(tail, chunk_size)));
        assert(s.take(chunk_size as int) + tail =~= s);
        assert forall|i: int| 0 <= i < blocks.len() implies (#[trigger] blocks[i]).len()
            == chunk_size by {
            if i > 0 {
                assert(blocks[i] == blocks_of(tail, chunk_size)[i - 1]);
            }
        }
        assert((blocks_of(tail, chunk_size).len() + 1) * chunk_size == blocks_of(
            tail,
            chunk_size,
        ).len() * chunk_size + chunk_size) by (nonlinear_arith);
    } else {
        assert(flattened(blocks_of(s, chunk_size)) + rest_of(s, chunk_size) =~= s);
    }
}

} // verus!
