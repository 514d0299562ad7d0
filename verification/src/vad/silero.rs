//! Neural detector: the bookkeeping around the recurrent network.
//!
//! The network takes windows of a fixed size and carries hidden state from
//! window to window. Here the windows are cut, the names of the network's
//! inputs and outputs are settled, and the way state is passed is decided;
//! the caller runs the network on each window.

use vstd::prelude::*;
use vstd::string::*;
use crate::audio::resample::{block_views, blocks_of, rest_of, split_blocks};
use crate::buffering::extend_from;
use crate::error::DictumError;
use crate::text::{chars_of, eq_ignore_ascii_case, opt_text, same_ignoring_case};
use crate::vad::VadDecision;

verus! {

/// Samples in one window of the network: 32 ms at 16 kHz.
pub const WINDOW: usize = 512;

/// Values of each of the two state tensors of the LSTM interface.
pub const LSTM_SIZE: usize = 128;

/// Values of the state tensor of the GRU interface.
pub const GRU_STATE_SIZE: usize = 256;

/// How the network takes and gives its state.
#[derive(Debug, Clone, Copy, PartialEq, Eq, Structural)]
pub enum SileroIoMode {
    /// Two state tensors in, two out.
    StatefulLstm,
    /// One state tensor in, one out.
    StatefulGru,
    /// No state is passed.
    Stateless,
}

// ---------------------------------------------------------------------------
// Names
// ---------------------------------------------------------------------------

/// The texts of a vector of strings.
pub open spec fn texts(names: Seq<String>) -> Seq<Seq<char>> {
    Seq::new(names.len(), |i: int| names[i]@)
}

/// The texts of a vector of string slices.
pub open spec fn slice_texts(names: Seq<&str>) -> Seq<Seq<char>> {
    Seq::new(names.len(), |i: int| names[i]@)
}

/// The index of the first candidate at or after `from` that is `needle` up to case.
pub open spec fn first_like(candidates: Seq<Seq<char>>, needle: Seq<char>, from: int) -> int
    decreases candidates.len() - from,
{
    if 0 <= from < candidates.len() && !same_ignoring_case(candidates[from], needle) {
        first_like(candidates, needle, from + 1)
    } else {
        from
    }
}

/// The candidate that the preferred names settle on: the first candidate
/// that is, up to case, the first preferred name that any candidate is.
pub open spec fn resolved(candidates: Seq<Seq<char>>, preferred: Seq<Seq<char>>, from: int) -> Option<
    Seq<char>,
>
    decreases preferred.len() - from,
{
    if 0 <= from < preferred.len() {
        let at = first_like(candidates, preferred[from], 0);
        if at < candidates.len() {
            Some(candidates[at])
        } else {
            resolved(candidates, preferred, from + 1)
        }
    } else {
        None
    }
}

/// The name among `candidates` that the preferred names settle on.
pub fn resolve_name(candidates: &Vec<String>, preferred: &Vec<&str>) -> (r: Option<String>)
    ensures
        match r {
            Some(s) => Some(s@),
            None => None,
        } == resolved(texts(candidates@), slice_texts(preferred@), 0),
{
    let mut p: usize = 0;
    while p < preferred.len()
        invariant
            p <= preferred.len(),
            resolved(texts(candidates@), slice_texts(preferred@), 0) == resolved(
                texts(candidates@),
                slice_texts(preferred@),
                p as int,
            ),
        decreases preferred.len() - p,
    {
        let needle = chars_of(preferred[p]);
        assert(slice_texts(preferred@)[p as int] == needle@);
        let mut c: usize = 0;
        while c < candidates.len()
            invariant
                c <= candidates.len(),
                p < preferred.len(),
                slice_texts(preferred@)[p as int] == needle@,
                resolved(texts(candidates@), slice_texts(preferred@), 0) == resolved(
                    texts(candidates@),
                    slice_texts(preferred@),
                    p as int,
                ),
                first_like(texts(candidates@), needle@, 0) == first_like(
                    texts(candidates@),
                    needle@,
                    c as int,
                ),
            decreases candidates.len() - c,
        {
            let name = chars_of(candidates[c].as_str());
            assert(texts(candidates@)[c as int] == name@);
            if eq_ignore_ascii_case(&name, &needle) {
                return Some(candidates[c].clone());
            }
            c += 1;
        }
        p += 1;
    }
    None
}

/// The names of the network's inputs and outputs.
#[derive(Debug)]
pub struct SileroNames {
    pub input: String,
    pub sr: Option<String>,
    pub output: String,
    pub h: Option<String>,
    pub c: Option<String>,
    pub hn: Option<String>,
    pub cn: Option<String>,
    pub state: Option<String>,
    pub state_out: Option<String>,
}

/// The way state is passed, by the names that the network has: the LSTM
/// way where it has both states in and out, the GRU way where it has the
/// one state in, and no state otherwise.
pub open spec fn io_mode_of(
    has_h: bool,
    has_c: bool,
    has_hn: bool,
    has_cn: bool,
    has_state: bool,
) -> SileroIoMode {
    if has_h && has_c && has_hn && has_cn {
        SileroIoMode::StatefulLstm
    } else if has_state {
        SileroIoMode::StatefulGru
    } else {
        SileroIoMode::Stateless
    }
}

impl SileroNames {
    /// The way state is passed with these names.
    pub fn io_mode(&self) -> (mode: SileroIoMode)
        ensures
            mode == io_mode_of(
                self.h is Some,
                self.c is Some,
                self.hn is Some,
                self.cn is Some,
                self.state is Some,
            ),
    {
        if self.h.is_some() && self.c.is_some() && self.hn.is_some() && self.cn.is_some() {
            SileroIoMode::StatefulLstm
        } else if self.state.is_some() {
            SileroIoMode::StatefulGru
        } else {
            SileroIoMode::Stateless
        }
    }
}

/// The name that was resolved or, failing that, the first candidate.
pub open spec fn or_first(found: Option<Seq<char>>, candidates: Seq<Seq<char>>) -> Seq<char> {
    match found {
        Some(name) => name,
        None => candidates[0],
    }
}

fn literals(a: &'static str, b: &'static str, c: &'static str, d: &'static str, n: usize) -> (v:
    Vec<&'static str>)
    requires
        1 <= n <= 4,
    ensures
        n == 1 ==> slice_texts(v@) == seq![a@],
        n == 2 ==> slice_texts(v@) == seq![a@, b@],
        n == 3 ==> slice_texts(v@) == seq![a@, b@, c@],
        n == 4 ==> slice_texts(v@) == seq![a@, b@, c@, d@],
{
    let mut v: Vec<&'static str> = Vec::new();
    v.push(a);
    if n >= 2 {
        v.push(b);
    }
    if n >= 3 {
        v.push(c);
    }
    if n >= 4 {
        v.push(d);
    }
    assert(n == 1 ==> slice_texts(v@) =~= seq![a@]);
    assert(n == 2 ==> slice_texts(v@) =~= seq![a@, b@]);
    assert(n == 3 ==> slice_texts(v@) =~= seq![a@, b@, c@]);
    assert(n == 4 ==> slice_texts(v@) =~= seq![a@, b@, c@, d@]);
    v
}

/// Settles the names of the network's inputs and outputs. The audio input
/// and the probability output fall back on the first input and the first
/// output; a network without inputs or without outputs is refused.
pub fn resolve_io_names(input_names: &Vec<String>, output_names: &Vec<String>) -> (r: Result<
    SileroNames,
    DictumError,
>)
    ensures
        r is Ok <==> (input_names@.len() > 0 && output_names@.len() > 0),
        r matches Err(e) ==> e is OnnxSession,
        r matches Ok(n) ==> {
            let inputs = texts(input_names@);
            let outputs = texts(output_names@);
            &&& n.input@ == or_first(resolved(inputs, seq!["input"@, "audio"@, "x"@], 0), inputs)
            &&& n.output@ == or_first(
                resolved(outputs, seq!["output"@, "speech_prob"@, "prob"@], 0),
                outputs,
            )
            &&& opt_text(n.sr) == resolved(inputs, seq!["sr"@, "sample_rate"@], 0)
            &&& opt_text(n.h) == resolved(inputs, seq!["h"@, "state_h"@], 0)
            &&& opt_text(n.c) == resolved(inputs, seq!["c"@, "state_c"@], 0)
            &&& opt_text(n.hn) == resolved(outputs, seq!["hn"@, "state_hn"@, "h_out"@], 0)
            &&& opt_text(n.cn) == resolved(outputs, seq!["cn"@, "state_cn"@, "c_out"@], 0)
            &&& opt_text(n.state) == resolved(inputs, seq!["state"@, "h_0"@, "hidden"@], 0)
            &&& opt_text(n.state_out) == resolved(
                outputs,
                seq!["stateN"@, "state_out"@, "h_0_out"@, "hn_out"@],
                0,
            )
        },
{
    if input_names.len() == 0 {
        return Err(DictumError::OnnxSession(String::from_str("Silero model has no inputs")));
    }
    if output_names.len() == 0 {
        return Err(DictumError::OnnxSession(String::from_str("Silero model has no outputs")));
    }
    assert(texts(input_names@)[0] == input_names@[0]@);
    assert(texts(output_names@)[0] == output_names@[0]@);
    let input = match resolve_name(input_names, &literals("input", "audio", "x", "", 3)) {
        Some(n) => n,
        None => input_names[0].clone(),
    };
    let output = match resolve_name(
        output_names,
        &literals("output", "speech_prob", "prob", "", 3),
    ) {
        Some(n) => n,
        None => output_names[0].clone(),
    };
    Ok(
        SileroNames {
            input,
            sr: resolve_name(input_names, &literals("sr", "sample_rate", "", "", 2)),
            output,
            h: resolve_name(input_names, &literals("h", "state_h", "", "", 2)),
            c: resolve_name(input_names, &literals("c", "state_c", "", "", 2)),
            hn: resolve_name(output_names, &literals("hn", "state_hn", "h_out", "", 3)),
            cn: resolve_name(output_names, &literals("cn", "state_cn", "c_out", "", 3)),
            state: resolve_name(input_names, &literals("state", "h_0", "hidden", "", 3)),
            state_out: resolve_name(
                output_names,
                &literals("stateN", "state_out", "h_0_out", "hn_out", 4),
            ),
        },
    )
}

/// The way state is passed after a run: the network keeps its way while
/// the state outputs that it names come with the run, and turns stateless
/// once one is missing.
pub open spec fn io_mode_after(
    mode: SileroIoMode,
    names_lstm_outputs: bool,
    lstm_outputs_present: bool,
    names_gru_output: bool,
    gru_output_present: bool,
) -> SileroIoMode {
    match mode {
        SileroIoMode::StatefulLstm => if names_lstm_outputs && lstm_outputs_present {
            SileroIoMode::StatefulLstm
        } else {
            SileroIoMode::Stateless
        },
        SileroIoMode::StatefulGru => if names_gru_output && !gru_output_present {
            SileroIoMode::Stateless
        } else {
            SileroIoMode::StatefulGru
        },
        SileroIoMode::Stateless => SileroIoMode::Stateless,
    }
}

/// The windowing and state-passing side of the neural detector.
pub struct SileroVad<S> {
    io_mode: SileroIoMode,
    input_buf: Vec<S>,
}

impl<S> SileroVad<S> {
    /// The way state is passed.
    pub closed spec fn mode(self) -> SileroIoMode {
        self.io_mode
    }

    /// The samples that wait for a window to fill.
    pub closed spec fn buffered(self) -> Seq<S> {
        self.input_buf@
    }
}

impl<S: Copy> SileroVad<S> {
    /// A detector that passes state in the given way and holds no samples.
    pub fn new(io_mode: SileroIoMode) -> (vad: Self)
        ensures
            vad.mode() == io_mode,
            vad.buffered() == Seq::<S>::empty(),
    {
        SileroVad { io_mode, input_buf: Vec::new() }
    }

    /// The way state is passed.
    pub fn io_mode(&self) -> (m: SileroIoMode)
        ensures
            m == self.mode(),
    {
        self.io_mode
    }

    /// Takes the samples of a chunk and hands out the windows that are now
    /// full, oldest first; the rest waits for the next chunk.
    pub fn take_windows(&mut self, samples: &Vec<S>) -> (windows: Vec<Vec<S>>)
        ensures
            final(self).mode() == old(self).mode(),
            block_views(windows@) == blocks_of(old(self).buffered() + samples@, WINDOW as nat),
            final(self).buffered() == rest_of(old(self).buffered() + samples@, WINDOW as nat),
    {
        let mut input: Vec<S> = Vec::new();
        core::mem::swap(&mut self.input_buf, &mut input);
        extend_from(&mut input, samples, 0);
        assert(samples@.subrange(0, samples@.len() as int) == samples@);
        let (windows, rest) = split_blocks(input, WINDOW);
        self.input_buf = rest;
        windows
    }

    /// Takes note of which state outputs came with a run of the network.
    pub fn note_run(
        &mut self,
        names_lstm_outputs: bool,
        lstm_outputs_present: bool,
        names_gru_output: bool,
        gru_output_present: bool,
    )
        ensures
            final(self).buffered() == old(self).buffered(),
            final(self).mode() == io_mode_after(
                old(self).mode(),
                names_lstm_outputs,
                lstm_outputs_present,
                names_gru_output,
                gru_output_present,
            ),
    {
        self.io_mode = match self.io_mode {
            SileroIoMode::StatefulLstm => if names_lstm_outputs && lstm_outputs_present {
                SileroIoMode::StatefulLstm
            } else {
                SileroIoMode::Stateless
            },
            SileroIoMode::StatefulGru => if names_gru_output && !gru_output_present {
                SileroIoMode::Stateless
            } else {
                SileroIoMode::StatefulGru
            },
            SileroIoMode::Stateless => SileroIoMode::Stateless,
        };
    }

    /// Forgets the samples of a window in progress.
    pub fn reset(&mut self)
        ensures
            final(self).mode() == old(self).mode(),
            final(self).buffered() == Seq::<S>::empty(),
    {
        self.input_buf.clear();
    }
}

/// The decision for a chunk: speech where the network gave any of its
/// windows a speech probability at or above the threshold.
pub open spec fn windows_decision(over_threshold: Seq<bool>) -> VadDecision {
    if over_threshold.contains(true) {
        VadDecision::Speech
    } else {
        VadDecision::Silence
    }
}

/// The decision for a chunk from what the network said of its windows.
pub fn decide(over_threshold: &Vec<bool>) -> (d: VadDecision)
    ensures
        d == windows_decision(over_threshold@),
        over_threshold@.len() == 0 ==> d == VadDecision::Silence,
{
    let mut i: usize = 0;
    while i < over_threshold.len()
        invariant
            i <= over_threshold.len(),
            forall|j: int| 0 <= j < i ==> !over_threshold@[j],
        decreases over_threshold.len() - i,
    {
        if over_threshold[i] {
            return VadDecision::Speech;
        }
        i += 1;
    }
    VadDecision::Silence
}

} // verus!
