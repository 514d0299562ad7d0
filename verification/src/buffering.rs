//! Sample buffers between the capture thread and the model.
//!
//! The sample type `S` is left open: the engine moves samples and counts
//! them, it never computes with them.

use vstd::prelude::*;

pub mod chunk;

verus! {

/// Capacity of the ring between the capture callback and the pipeline, in
/// samples: 2^22, about 87 s at 48 kHz.
pub const RING_CAPACITY: usize = 4_194_304;

/// The last `n` items of `s`, or all of `s` where it has no more than `n`.
pub open spec fn tail_of<S>(s: Seq<S>, n: nat) -> Seq<S> {
    if n >= s.len() {
        s
    } else {
        s.subrange(s.len() - n, s.len() as int)
    }
}

/// What a rolling window of at most `max_len` items holds after `samples`
/// arrive: the newest `max_len` items. A window of length 0 and an empty
/// arrival leave the buffer as it is.
pub open spec fn rolling_append<S>(buf: Seq<S>, samples: Seq<S>, max_len: nat) -> Seq<S> {
    if max_len == 0 || samples.len() == 0 {
        buf
    } else {
        tail_of(buf + samples, max_len)
    }
}

/// A copy of `v`.
pub fn copy_vec<S: Copy>(v: &Vec<S>) -> (r: Vec<S>)
    ensures
        r@ == v@,
{
    let mut r: Vec<S> = Vec::new();
    let mut i: usize = 0;
    while i < v.len()
        invariant
            i <= v.len(),
            r@ == v@.take(i as int),
        decreases v.len() - i,
    {
        r.push(v[i]);
        assert(v@.take(i + 1) =~= v@.take(i as int).push(v@[i as int]));
        i += 1;
    }
    assert(v@.take(v.len() as int) == v@);
    r
}

/// Appends a copy of `more[from..]` to `buf`.
pub fn extend_from<S: Copy>(buf: &mut Vec<S>, more: &Vec<S>, from: usize)
    requires
        from <= more.len(),
    ensures
        final(buf)@ == old(buf)@ + more@.subrange(from as int, more.len() as int),
{
    let mut i: usize = from;
    while i < more.len()
        invariant
            from <= i <= more.len(),
            buf@ == old(buf)@ + more@.subrange(from as int, i as int),
        decreases more.len() - i,
    {
        buf.push(more[i]);
        assert(more@.subrange(from as int, i + 1) =~= more@.subrange(from as int, i as int).push(
            more@[i as int],
        ));
        i += 1;
    }
}

/// Keeps only the last `tail_len` items of `buf`.
pub fn retain_tail_samples<S>(buf: &mut Vec<S>, tail_len: usize)
    ensures
        final(buf)@ == tail_of(old(buf)@, tail_len as nat),
{
    if buf.len() <= tail_len {
        return ;
    }
    let keep_from: usize = buf.len() - tail_len;
    let tail = buf.split_off(keep_from);
    *buf = tail;
}

/// Appends `samples` to the rolling window `buf`, which keeps the newest
/// `max_len` items.
pub fn append_rolling_samples<S: Copy>(buf: &mut Vec<S>, samples: &Vec<S>, max_len: usize)
    ensures
        final(buf)@ == rolling_append(old(buf)@, samples@, max_len as nat),
{
    if max_len == 0 || samples.len() == 0 {
        return ;
    }
    if samples.len() >= max_len {
        buf.clear();
        extend_from(buf, samples, samples.len() - max_len);
        assert(buf@ =~= tail_of(old(buf)@ + samples@, max_len as nat));
        return ;
    }
    // Fewer new samples than the window holds: drop what no longer fits.
    let room: usize = max_len - samples.len();
    retain_tail_samples(buf, room);
    extend_from(buf, samples, 0);
    assert(buf@ =~= tail_of(old(buf)@ + samples@, max_len as nat));
}

/// The rolling window never grows past its limit.
pub proof fn lemma_rolling_append_bounded<S>(buf: Seq<S>, samples: Seq<S>, max_len: nat)
    requires
        buf.len() <= max_len,
    ensures
        rolling_append(buf, samples, max_len).len() <= max_len,
{
}

} // verus!
