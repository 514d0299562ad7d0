//! The spectrogram frontend: the index arithmetic around the transform, and
//! the framing of audio that is handed to a recovery hook.

use vstd::prelude::*;

verus! {

/// Samples in the window of the transform.
pub const N_FFT: usize = 400;

/// Frequency bins of the transform.
pub const N_FREQS: usize = 201;

/// Samples between two frames.
pub const HOP: usize = 160;

/// Mel bands, unless the encoder asks for another number.
pub const N_MELS: usize = 80;

/// Frames of the model's window.
pub const N_FRAMES: usize = 3_000;

/// Samples of the model's window: 30 s at 16 kHz.
pub const MEL_SAMPLES: usize = 480_000;

/// The width of the encoder's features where its output does not say.
pub const DEFAULT_D_MODEL: usize = 384;

// ---------------------------------------------------------------------------
// Frames
// ---------------------------------------------------------------------------

/// The frames that hold audio: those that the first `active_samples`
/// samples reach, one at least and no more than the window has.
pub open spec fn active_frame_count(active_samples: nat) -> nat {
    let active = if active_samples > MEL_SAMPLES {
        MEL_SAMPLES as nat
    } else {
        active_samples
    };
    let frames = ((active + N_FFT + HOP - 1) / (HOP as int)) as nat;
    if frames < 1 {
        1
    } else if frames > N_FRAMES {
        N_FRAMES as nat
    } else {
        frames
    }
}

/// The number of frames to compute; the frames behind them are silence.
pub fn active_frames(active_samples: usize) -> (n: usize)
    ensures
        n == active_frame_count(active_samples as nat),
        1 <= n <= N_FRAMES,
{
    let active: usize = if active_samples > MEL_SAMPLES {
        MEL_SAMPLES
    } else {
        active_samples
    };
    let frames: usize = (active + N_FFT + HOP - 1) / HOP;
    if frames < 1 {
        1
    } else if frames > N_FRAMES {
        N_FRAMES
    } else {
        frames
    }
}

/// The audio as the model takes it: cut or filled with `silence` to the
/// length of the window.
pub open spec fn windowed<S>(samples: Seq<S>, silence: S) -> Seq<S> {
    Seq::new(
        MEL_SAMPLES as nat,
        |i: int|
            if i < samples.len() {
                samples[i]
            } else {
                silence
            },
    )
}

/// Cuts or fills the audio to the length of the model's window.
pub fn pad_or_trim<S: Copy>(samples: &Vec<S>, silence: S) -> (out: Vec<S>)
    ensures
        out@ == windowed(samples@, silence),
{
    let mut out: Vec<S> = Vec::new();
    let mut i: usize = 0;
    while i < MEL_SAMPLES
        invariant
            i <= MEL_SAMPLES,
            out@.len() == i,
            forall|j: int| 0 <= j < i ==> out@[j] == windowed(samples@, silence)[j],
        decreases MEL_SAMPLES - i,
    {
        if i < samples.len() {
            out.push(samples[i]);
        } else {
            out.push(silence);
        }
        i += 1;
    }
    assert(out@ =~= windowed(samples@, silence));
    out
}

// ---------------------------------------------------------------------------
// Reflection
// ---------------------------------------------------------------------------

/// `r` is where the mirror image of index `i` falls in a signal of `len`
/// samples that is mirrored at both ends: `r` lies within the signal, and
/// `i` is `r` or `-r` moved by a whole number of periods `2 * (len - 1)`.
pub open spec fn is_reflection(i: int, len: int, r: int) -> bool {
    &&& 0 <= r < len
    &&& exists|k: int| #[trigger] mirrors(i, len, r, k)
}

/// `i` is `r` or `-r` moved by `k` periods.
pub open spec fn mirrors(i: int, len: int, r: int, k: int) -> bool {
    i - r == k * (2 * (len - 1)) || i + r == k * (2 * (len - 1))
}

/// A whole multiple of `period` that lies less than one period from 0 is 0.
proof fn lemma_small_multiple(m: int, period: int)
    requires
        period > 0,
        -period < m * period < period,
    ensures
        m == 0,
{
    assert(m == 0) by (nonlinear_arith)
        requires
            period > 0,
            -period < m * period < period,
    ;
}

/// An index is mirrored to one place only: mirroring is a function of
/// the index and the length.
pub proof fn lemma_reflection_is_unique(i: int, len: int, a: int, b: int)
    requires
        len >= 2,
        is_reflection(i, len, a),
        is_reflection(i, len, b),
    ensures
        a == b,
{
    let period = 2 * (len - 1);
    let k1 = choose|k: int| #[trigger] mirrors(i, len, a, k);
    let k2 = choose|k: int| #[trigger] mirrors(i, len, b, k);
    assert((k2 - k1) * period == k2 * period - k1 * period) by (nonlinear_arith);
    assert((k1 - k2) * period == k1 * period - k2 * period) by (nonlinear_arith);
    if i - a == k1 * period && i - b == k2 * period {
        // a - b == (k2 - k1) * period, and |a - b| < period.
        lemma_small_multiple(k2 - k1, period);
    } else if i + a == k1 * period && i + b == k2 * period {
        lemma_small_multiple(k1 - k2, period);
    } else {
        // One is i - r, the other i + r: a + b is a multiple of the period
        // between 0 and the period, so both lie at the same end.
        let m = if i - a == k1 * period {
            k2 - k1
        } else {
            k1 - k2
        };
        assert(a + b == m * period);
        assert(m == 0 || m == 1) by (nonlinear_arith)
            requires
                period > 0,
                0 <= m * period <= period,
        ;
        if m == 1 {
            assert(m * period == period);
        } else {
            assert(m * period == 0);
        }
    }
}

/// The index within a signal of `len` samples that index `i` is mirrored to.
pub fn reflect_index(i: isize, len: usize) -> (r: usize)
    requires
        len >= 2,
        2 * len <= isize::MAX,
        i > isize::MIN,
    ensures
        is_reflection(i as int, len as int, r as int),
{
    let max: isize = len as isize - 1;
    let ghost period: int = 2 * (len - 1);
    let mut cur: isize = i;
    let ghost mut k: int = 0;
    let ghost mut shift: int = 0;
    let ghost mut upright: bool = true;
    assert(0 * period == 0) by (nonlinear_arith);
    while cur < 0 || cur > max
        invariant
            len >= 2,
            2 * len <= isize::MAX,
            max == len - 1,
            period == 2 * (len - 1),
            cur > isize::MIN,
            shift == k * period,
            upright ==> i == cur + shift,
            !upright ==> i == -cur + shift,
        decreases
                (if cur < 0 {
                    -cur
                } else {
                    cur as int
                }),
                (if cur < 0 {
                    1int
                } else {
                    0int
                }),
    {
        if cur < 0 {
            cur = -cur;
            proof {
                upright = !upright;
            }
        } else {
            cur = 2 * max - cur;
            proof {
                if upright {
                    assert((k + 1) * period == k * period + period) by (nonlinear_arith);
                    k = k + 1;
                    shift = shift + period;
                } else {
                    assert((k - 1) * period == k * period - period) by (nonlinear_arith);
                    k = k - 1;
                    shift = shift - period;
                }
                upright = !upright;
            }
        }
    }
    assert(mirrors(i as int, len as int, cur as int, k));
    cur as usize
}

/// `v` is the sample that index `i` is mirrored to.
pub open spec fn is_mirrored_sample<S>(samples: Seq<S>, i: int, v: S) -> bool {
    exists|r: int| is_reflection(i, samples.len() as int, r) && #[trigger] samples[r] == v
}

/// The signal with `pad` samples before and behind it that mirror it at its
/// ends. A signal of one sample is repeated, an empty one gives silence.
pub open spec fn is_reflect_padded<S>(samples: Seq<S>, pad: int, silence: S, out: Seq<S>) -> bool {
    if pad == 0 {
        out == samples
    } else if samples.len() == 0 {
        out == Seq::new((2 * pad) as nat, |j: int| silence)
    } else if samples.len() == 1 {
        out == Seq::new((1 + 2 * pad) as nat, |j: int| samples[0])
    } else {
        &&& out.len() == samples.len() + 2 * pad
        &&& forall|j: int|
            0 <= j < out.len() ==> is_mirrored_sample(samples, j - pad, #[trigger] out[j])
    }
}

/// Pads the signal at both ends with its mirror image.
pub fn reflect_pad<S: Copy>(samples: &Vec<S>, pad: usize, silence: S) -> (out: Vec<S>)
    requires
        2 * (samples.len() + 2 * pad) <= isize::MAX,
    ensures
        is_reflect_padded(samples@, pad as int, silence, out@),
{
    let mut out: Vec<S> = Vec::new();
    let n = samples.len();
    if pad == 0 {
        let mut i: usize = 0;
        while i < n
            invariant
                i <= n,
                n == samples.len(),
                out@ == samples@.take(i as int),
            decreases n - i,
        {
            out.push(samples[i]);
            assert(samples@.take(i + 1) =~= samples@.take(i as int).push(samples@[i as int]));
            i += 1;
        }
        assert(samples@.take(n as int) == samples@);
        return out;
    }
    let total: usize = n + 2 * pad;
    if n <= 1 {
        let fill = if n == 0 {
            silence
        } else {
            samples[0]
        };
        let mut i: usize = 0;
        while i < total
            invariant
                i <= total,
                out@.len() == i,
                forall|j: int| 0 <= j < i ==> out@[j] == fill,
            decreases total - i,
        {
            out.push(fill);
            i += 1;
        }
        if n == 0 {
            assert(out@ =~= Seq::new((2 * pad) as nat, |j: int| silence));
        } else {
            assert(out@ =~= Seq::new((1 + 2 * pad) as nat, |j: int| samples@[0]));
        }
        return out;
    }
    let mut j: usize = 0;
    while j < total
        invariant
            j <= total,
            n == samples.len(),
            n >= 2,
            total == n + 2 * pad,
            2 * total <= isize::MAX,
            out@.len() == j,
            forall|m: int| 0 <= m < j ==> is_mirrored_sample(samples@, m - pad, #[trigger] out@[m]),
        decreases total - j,
    {
        let idx = reflect_index(j as isize - pad as isize, n);
        let ghost before = out@;
        let v = samples[idx];
        assert(is_mirrored_sample(samples@, j - pad, v)) by {
            assert(is_reflection(j - pad, n as int, idx as int) && samples@[idx as int] == v);
        }
        out.push(v);
        assert forall|m: int| 0 <= m < j + 1 implies is_mirrored_sample(
            samples@,
            m - pad,
            #[trigger] out@[m],
        ) by {
            if m < j {
                assert(out@[m] == before[m]);
            }
        }
        j += 1;
    }
    out
}

// ---------------------------------------------------------------------------
// What the encoder says of itself
// ---------------------------------------------------------------------------

/// The number of mel bands that the encoder's input asks for, where its
/// shape names one that differs from the current number.
pub open spec fn detected_mel_bins(shape: Seq<i64>, current: usize) -> Option<usize> {
    if shape.len() >= 2 && 0 < shape[1] <= usize::MAX && shape[1] != current {
        Some(shape[1] as usize)
    } else {
        None
    }
}

/// The number of mel bands to change to, if the encoder asks for another.
pub fn mel_bins_update(shape: &Vec<i64>, current: usize) -> (bins: Option<usize>)
    ensures
        bins == detected_mel_bins(shape@, current),
{
    if shape.len() >= 2 && shape[1] > 0 && (shape[1] as u128) <= (usize::MAX as u128) {
        let bins = shape[1] as usize;
        if bins != current {
            return Some(bins);
        }
    }
    None
}

/// The frames and the width of the encoder's output: as its shape says
/// where that has three dimensions that are sizes, and else for the default
/// width by the number of values.
pub open spec fn encoder_dims_of(shape: Seq<i64>, total: usize) -> (usize, usize) {
    if shape.len() >= 3 && 0 <= shape[1] <= usize::MAX && 0 <= shape[2] <= usize::MAX {
        (shape[1] as usize, shape[2] as usize)
    } else {
        ((total / DEFAULT_D_MODEL) as usize, DEFAULT_D_MODEL)
    }
}

/// The frames and the width of the encoder's output.
pub fn encoder_dims(shape: &Vec<i64>, total: usize) -> (dims: (usize, usize))
    ensures
        dims == encoder_dims_of(shape@, total),
{
    if shape.len() >= 3 && shape[1] >= 0 && shape[2] >= 0 && (shape[1] as u128) <= (
    usize::MAX as u128) && (shape[2] as u128) <= (usize::MAX as u128) {
        (shape[1] as usize, shape[2] as usize)
    } else {
        (total / DEFAULT_D_MODEL, DEFAULT_D_MODEL)
    }
}

// ---------------------------------------------------------------------------
// Audio for a recovery hook
// ---------------------------------------------------------------------------

/// The stretch of the audio that is handed on: from a quarter of a second
/// (or the `fraction`-th part of one) before the first sample over the noise floor
/// to as much behind the last, within the audio. `first` and `last` are the
/// indices of those samples, absent where none is over the noise floor.
pub open spec fn activity_window_of(
    len: nat,
    first: Option<usize>,
    last: Option<usize>,
    sample_rate: u32,
    fraction: u32,
) -> Option<(usize, usize)> {
    if len == 0 || fraction == 0 {
        None
    } else {
        let f: int = match first {
            Some(i) => i as int,
            None => 0,
        };
        let l: int = match last {
            Some(i) => i as int,
            None => len - 1,
        };
        if f > l || l >= len {
            None
        } else {
            let pad: int = if sample_rate / fraction < 1 {
                1
            } else {
                (sample_rate / fraction) as int
            };
            let start: int = if f < pad {
                0
            } else {
                f - pad
            };
            let end: int = if l + pad > len - 1 {
                len - 1
            } else {
                l + pad
            };
            Some((start as usize, end as usize))
        }
    }
}

/// The first and the last index of the stretch that is handed on.
pub fn activity_window(
    len: usize,
    first: Option<usize>,
    last: Option<usize>,
    sample_rate: u32,
    fraction: u32,
) -> (w: Option<(usize, usize)>)
    ensures
        w == activity_window_of(len as nat, first, last, sample_rate, fraction),
        w matches Some((start, end)) ==> start <= end < len,
{
    if len == 0 || fraction == 0 {
        return None;
    }
    let f: usize = match first {
        Some(i) => i,
        None => 0,
    };
    let l: usize = match last {
        Some(i) => i,
        None => len - 1,
    };
    if f > l || l >= len {
        return None;
    }
    let quarter: u32 = sample_rate / fraction;
    let pad: usize = if quarter < 1 {
        1
    } else {
        quarter as usize
    };
    let start: usize = if f < pad {
        0
    } else {
        f - pad
    };
    let end: usize = if pad > len - 1 - l {
        len - 1
    } else {
        l + pad
    };
    Some((start, end))
}

/// The four bytes of `x`, lowest first.
pub open spec fn le32(x: u32) -> Seq<u8> {
    seq![
        (x % 256) as u8,
        (x / 256 % 256) as u8,
        (x / 65536 % 256) as u8,
        (x / 16777216 % 256) as u8,
    ]
}

/// The two bytes of `x`, lower first.
pub open spec fn le16(x: u16) -> Seq<u8> {
    seq![(x % 256) as u8, (x / 256 % 256) as u8]
}

/// The header of a file of `sample_count` mono samples of 16 bits at
/// `sample_rate`: the RIFF chunk, the format chunk and the head of the data chunk.
pub open spec fn wav_header_of(sample_count: nat, sample_rate: u32) -> Seq<u8> {
    let data_len = (sample_count * 2) as u32;
    seq![0x52u8, 0x49, 0x46, 0x46] + le32((36 + data_len) as u32) + seq![
        0x57u8,
        0x41,
        0x56,
        0x45,
        0x66,
        0x6d,
        0x74,
        0x20,
    ] + le32(16) + le16(1) + le16(1) + le32(sample_rate) + le32((sample_rate * 2) as u32) + le16(
        2,
    ) + le16(16) + seq![0x64u8, 0x61, 0x74, 0x61] + le32(data_len)
}

fn push_le32(out: &mut Vec<u8>, x: u32)
    ensures
        final(out)@ == old(out)@ + le32(x),
{
    out.push((x % 256) as u8);
    out.push((x / 256 % 256) as u8);
    out.push((x / 65536 % 256) as u8);
    out.push((x / 16777216 % 256) as u8);
    assert(out@ =~= old(out)@ + le32(x));
}

fn push_le16(out: &mut Vec<u8>, x: u16)
    ensures
        final(out)@ == old(out)@ + le16(x),
{
    out.push((x % 256) as u8);
    out.push((x / 256 % 256) as u8);
    assert(out@ =~= old(out)@ + le16(x));
}

fn push_tag(out: &mut Vec<u8>, a: u8, b: u8, c: u8, d: u8)
    ensures
        final(out)@ == old(out)@ + seq![a, b, c, d],
{
    out.push(a);
    out.push(b);
    out.push(c);
    out.push(d);
    assert(out@ =~= old(out)@ + seq![a, b, c, d]);
}

/// The 44 bytes that begin a file of mono samples of 16 bits; absent where
/// the sizes do not fit the format's 32 bits.
pub fn wav_header(sample_count: usize, sample_rate: u32) -> (h: Option<Vec<u8>>)
    ensures
        h is Some <==> (36 + sample_count * 2 <= u32::MAX && sample_rate * 2 <= u32::MAX),
        h matches Some(bytes) ==> bytes@ == wav_header_of(sample_count as nat, sample_rate)
            && bytes@.len() == 44,
{
    if sample_count > 0x7fff_ffed || sample_rate > 0x7fff_ffff {
        return None;
    }
    let data_len: u32 = (sample_count * 2) as u32;
    let mut out: Vec<u8> = Vec::new();
    push_tag(&mut out, 0x52, 0x49, 0x46, 0x46);
    push_le32(&mut out, 36 + data_len);
    push_tag(&mut out, 0x57, 0x41, 0x56, 0x45);
    push_tag(&mut out, 0x66, 0x6d, 0x74, 0x20);
    push_le32(&mut out, 16);
    push_le16(&mut out, 1);
    push_le16(&mut out, 1);
    push_le32(&mut out, sample_rate);
    push_le32(&mut out, sample_rate * 2);
    push_le16(&mut out, 2);
    push_le16(&mut out, 16);
    push_tag(&mut out, 0x64, 0x61, 0x74, 0x61);
    push_le32(&mut out, data_len);
    assert(out@ =~= wav_header_of(sample_count as nat, sample_rate));
    Some(out)
}

} // verus!
