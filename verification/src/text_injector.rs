//! Typing a transcript into another application: how the text is cut into
//! key events and which way of injection is taken.

use vstd::prelude::*;
use vstd::string::*;
use crate::audio::resample::{block_views, blocks_of, rest_of, split_blocks};
use crate::text::{chars_of, equals_str, lower, lowered, opt_str_text, trim, trimmed};

verus! {

/// The way in which text is injected.
#[derive(Debug, Clone, Copy, PartialEq, Eq, Structural)]
pub enum InjectMethod {
    /// Paste for terminals, key events for everything else.
    Auto,
    /// Key events.
    Unicode,
    /// Paste from the clipboard.
    Paste,
}

/// The way of injection that a setting names; anything but `unicode` and
/// `paste` leaves the choice open.
pub open spec fn inject_method_of(raw: Option<Seq<char>>) -> InjectMethod {
    match raw {
        Some(r) => if lowered(trimmed(r)) == "unicode"@ {
            InjectMethod::Unicode
        } else if lowered(trimmed(r)) == "paste"@ {
            InjectMethod::Paste
        } else {
            InjectMethod::Auto
        },
        None => InjectMethod::Auto,
    }
}

/// The way of injection that a setting names.
pub fn inject_method(raw: Option<&str>) -> (m: InjectMethod)
    ensures
        m == inject_method_of(opt_str_text(raw)),
{
    match raw {
        Some(r) => {
            let key = lower(&trim(&chars_of(r)));
            if equals_str(&key, "unicode") {
                InjectMethod::Unicode
            } else if equals_str(&key, "paste") {
                InjectMethod::Paste
            } else {
                InjectMethod::Auto
            }
        },
        None => InjectMethod::Auto,
    }
}

/// Whether a process is a terminal, by the name of its program in small letters.
pub open spec fn is_terminal(process_name: Seq<char>) -> bool {
    ||| process_name == "warp.exe"@
    ||| process_name == "windowsterminal.exe"@
    ||| process_name == "wezterm-gui.exe"@
    ||| process_name == "alacritty.exe"@
    ||| process_name == "cmd.exe"@
    ||| process_name == "conhost.exe"@
    ||| process_name == "powershell.exe"@
    ||| process_name == "pwsh.exe"@
    ||| process_name == "mintty.exe"@
}

/// Whether a process is a terminal.
pub fn is_terminal_process(process_name: &str) -> (b: bool)
    ensures
        b == is_terminal(process_name@),
{
    let n = chars_of(process_name);
    equals_str(&n, "warp.exe") || equals_str(&n, "windowsterminal.exe") || equals_str(
        &n,
        "wezterm-gui.exe",
    ) || equals_str(&n, "alacritty.exe") || equals_str(&n, "cmd.exe") || equals_str(
        &n,
        "conhost.exe",
    ) || equals_str(&n, "powershell.exe") || equals_str(&n, "pwsh.exe") || equals_str(
        &n,
        "mintty.exe",
    )
}

/// Whether the text is pasted rather than typed: where paste is asked
/// for, or the choice is open and the target is a terminal.
pub fn prefers_paste(method: InjectMethod, target_process: &str) -> (b: bool)
    ensures
        b == (method == InjectMethod::Paste || (method == InjectMethod::Auto && is_terminal(
            target_process@,
        ))),
{
    match method {
        InjectMethod::Paste => true,
        InjectMethod::Auto => is_terminal_process(target_process),
        InjectMethod::Unicode => false,
    }
}

/// How an injection is paced.
#[derive(Debug, Clone, Copy, PartialEq, Eq, Structural)]
pub struct InjectTuning {
    /// Key events sent in one go.
    pub chunk_units: usize,
    /// Attempts for each go.
    pub retries: usize,
    /// The pause between attempts.
    pub retry_delay_ms: u64,
    /// The pause before the clipboard is restored.
    pub clipboard_restore_delay_ms: u64,
}

/// What the operator has set of the pacing.
#[derive(Debug, Clone, Copy, PartialEq, Eq, Structural)]
pub struct InjectSettings {
    pub chunk_units: Option<usize>,
    pub retries: Option<usize>,
    pub retry_delay_ms: Option<u64>,
    pub clipboard_restore_delay_ms: Option<u64>,
}

/// A setting kept within its limits, or the default where there is none.
pub open spec fn setting_or(value: Option<int>, default_value: int, min: int, max: int) -> int {
    match value {
        Some(v) => if v < min {
            min
        } else if v > max {
            max
        } else {
            v
        },
        None => default_value,
    }
}

/// The settings as integers.
pub open spec fn as_int(v: Option<usize>) -> Option<int> {
    match v {
        Some(n) => Some(n as int),
        None => None,
    }
}

/// The settings as integers.
pub open spec fn as_int64(v: Option<u64>) -> Option<int> {
    match v {
        Some(n) => Some(n as int),
        None => None,
    }
}

/// The key events sent in one go for a text of `total_units` events: the
/// configured number, between 48 and 640 and 160 by default; twice that, up
/// to 640, for a text of 4000 events or more; one and a half times, up to
/// 480, for one of 1600 or more.
pub open spec fn chunk_units_for(total_units: usize, configured: Option<usize>) -> int {
    let base = setting_or(as_int(configured), 160, 48, 640);
    if total_units >= 4_000 {
        if base * 2 > 640 {
            640
        } else {
            base * 2
        }
    } else if total_units >= 1_600 {
        if base * 3 / 2 > 480 {
            480
        } else {
            base * 3 / 2
        }
    } else {
        base
    }
}

fn clamp_or(value: Option<usize>, default_value: usize, min: usize, max: usize) -> (r: usize)
    ensures
        r == setting_or(as_int(value), default_value as int, min as int, max as int),
{
    match value {
        Some(v) => if v < min {
            min
        } else if v > max {
            max
        } else {
            v
        },
        None => default_value,
    }
}

fn clamp_or64(value: Option<u64>, default_value: u64, min: u64, max: u64) -> (r: u64)
    ensures
        r == setting_or(as_int64(value), default_value as int, min as int, max as int),
{
    match value {
        Some(v) => if v < min {
            min
        } else if v > max {
            max
        } else {
            v
        },
        None => default_value,
    }
}

/// The pacing of an injection of `total_units` key events.
pub fn inject_tuning(total_units: usize, settings: InjectSettings) -> (t: InjectTuning)
    ensures
        t.chunk_units == chunk_units_for(total_units, settings.chunk_units),
        t.chunk_units >= 48,
        t.retries == setting_or(as_int(settings.retries), 2, 1, 5),
        t.retry_delay_ms == setting_or(as_int64(settings.retry_delay_ms), 6, 1, 40),
        t.clipboard_restore_delay_ms == setting_or(
            as_int64(settings.clipboard_restore_delay_ms),
            60,
            10,
            250,
        ),
{
    let base = clamp_or(settings.chunk_units, 160, 48, 640);
    let adaptive: usize = if total_units >= 4_000 {
        if base * 2 > 640 {
            640
        } else {
            base * 2
        }
    } else if total_units >= 1_600 {
        if base * 3 / 2 > 480 {
            480
        } else {
            base * 3 / 2
        }
    } else {
        base
    };
    InjectTuning {
        chunk_units: adaptive,
        retries: clamp_or(settings.retries, 2, 1, 5),
        retry_delay_ms: clamp_or64(settings.retry_delay_ms, 6, 1, 40),
        clipboard_restore_delay_ms: clamp_or64(settings.clipboard_restore_delay_ms, 60, 10, 250),
    }
}

// ---------------------------------------------------------------------------
// Key events
// ---------------------------------------------------------------------------

/// The UTF-16 units of a character: itself where it fits 16 bits, a pair
/// of surrogates where it does not.
pub open spec fn utf16_of_char(c: char) -> Seq<u16> {
    let u = c as u32;
    if u < 0x1_0000 {
        seq![u as u16]
    } else {
        seq![(0xD800 + (u - 0x1_0000) / 0x400) as u16, (0xDC00 + (u - 0x1_0000) % 0x400) as u16]
    }
}

/// The key events for a text: its UTF-16 units, with a carriage return
/// for each line feed.
pub open spec fn key_units(text: Seq<char>) -> Seq<u16>
    decreases text.len(),
{
    if text.len() == 0 {
        Seq::empty()
    } else if text.last() == '\n' {
        key_units(text.drop_last()).push(13u16)
    } else {
        key_units(text.drop_last()) + utf16_of_char(text.last())
    }
}

/// The key events for a text.
pub fn injection_units(text: &str) -> (units: Vec<u16>)
    ensures
        units@ == key_units(text@),
{
    let chars = chars_of(text);
    let mut units: Vec<u16> = Vec::new();
    let mut i: usize = 0;
    assert(chars@.take(0) =~= Seq::<char>::empty());
    while i < chars.len()
        invariant
            i <= chars.len(),
            units@ == key_units(chars@.take(i as int)),
        decreases chars.len() - i,
    {
        let c = chars[i];
        let ghost before = units@;
        assert(chars@.take(i + 1).drop_last() =~= chars@.take(i as int));
        assert(chars@.take(i + 1).last() == c);
        if c == '\n' {
            units.push(13);
        } else {
            let u: u32 = c as u32;
            if u < 0x1_0000 {
                units.push(u as u16);
                assert(units@ =~= before + utf16_of_char(c));
            } else {
                proof {
                    vstd::utf8::char_is_scalar(c);
                }
                assert(u <= 0x10_FFFF);
                let v: u32 = u - 0x1_0000;
                units.push((0xD800 + v / 0x400) as u16);
                units.push((0xDC00 + v % 0x400) as u16);
                assert(units@ =~= before + utf16_of_char(c));
            }
        }
        i += 1;
    }
    assert(chars@.take(chars.len() as int) == chars@);
    units
}

/// The goes in which key events are sent: full goes of `chunk_units`
/// events and, behind them, what is left.
pub fn unit_chunks(units: Vec<u16>, chunk_units: usize) -> (chunks: Vec<Vec<u16>>)
    requires
        chunk_units > 0,
    ensures
        block_views(chunks@) == if rest_of(units@, chunk_units as nat).len() > 0 {
            blocks_of(units@, chunk_units as nat).push(rest_of(units@, chunk_units as nat))
        } else {
            blocks_of(units@, chunk_units as nat)
        },
{
    let ghost all = units@;
    let (mut chunks, rest) = split_blocks(units, chunk_units);
    if rest.len() > 0 {
        let ghost before = block_views(chunks@);
        chunks.push(rest);
        assert(block_views(chunks@) =~= before.push(rest_of(all, chunk_units as nat)));
    }
    chunks
}

// ---------------------------------------------------------------------------
// The course of an injection
// ---------------------------------------------------------------------------

/// Where an injection stands.
#[derive(Debug, Clone, Copy, PartialEq, Eq, Structural)]
pub enum InjectPhase {
    /// The text is to be pasted.
    Paste,
    /// The text was pasted; the clipboard is restored after a pause.
    Restore,
    /// The go `chunk` is to be sent; `attempt` attempts at it have failed.
    Send { chunk: usize, attempt: usize },
    /// A pause before the go `chunk` is sent again.
    Pause { chunk: usize, attempt: usize },
    /// The text has reached the application.
    Succeeded,
    /// The injection has failed.
    Failed,
}

/// What the host is to do next.
#[derive(Debug, Clone, Copy, PartialEq, Eq, Structural)]
pub enum InjectStep {
    /// Paste the text from the clipboard, and report how it went.
    Paste,
    /// Wait for so many milliseconds, and report that it is done.
    Wait(u64),
    /// Send the key events of the go with this index, and report how it went.
    Send(usize),
    /// Nothing: the text has reached the application.
    Succeeded,
    /// Nothing: the injection has failed.
    Failed,
}

/// The message of a paste that failed where nothing but a paste was allowed.
pub open spec fn paste_failed_text() -> Seq<char> {
    "clipboard paste injection failed"@
}

/// The mathematical content of an [`InjectRun`].
pub struct RunModel {
    pub method: InjectMethod,
    pub tuning: InjectTuning,
    pub chunks: Seq<Seq<u16>>,
    pub phase: InjectPhase,
    pub error: Option<Seq<char>>,
}

/// The goes of a text: its key events, cut as [`unit_chunks`] cuts them.
pub open spec fn goes_of(text: Seq<char>, chunk_units: nat) -> Seq<Seq<u16>> {
    if rest_of(key_units(text), chunk_units).len() > 0 {
        blocks_of(key_units(text), chunk_units).push(rest_of(key_units(text), chunk_units))
    } else {
        blocks_of(key_units(text), chunk_units)
    }
}

impl RunModel {
    /// A go and an attempt are ones that the run has.
    pub open spec fn is_sound(self) -> bool {
        &&& self.tuning.retries >= 1
        &&& self.chunks.len() <= usize::MAX
        &&& match self.phase {
            InjectPhase::Send { chunk, attempt } => chunk < self.chunks.len() && attempt
                < self.tuning.retries,
            InjectPhase::Pause { chunk, attempt } => chunk < self.chunks.len() && 0 < attempt
                < self.tuning.retries,
            InjectPhase::Paste => self.chunks.len() > 0,
            _ => true,
        }
    }

    /// Whether the injection is over.
    pub open spec fn is_over(self) -> bool {
        self.phase == InjectPhase::Succeeded || self.phase == InjectPhase::Failed
    }

    /// What the host is to do next.
    pub open spec fn step(self) -> InjectStep {
        match self.phase {
            InjectPhase::Paste => InjectStep::Paste,
            InjectPhase::Restore => InjectStep::Wait(self.tuning.clipboard_restore_delay_ms),
            InjectPhase::Send { chunk, attempt } => InjectStep::Send(chunk),
            InjectPhase::Pause { chunk, attempt } => InjectStep::Wait(self.tuning.retry_delay_ms),
            InjectPhase::Succeeded => InjectStep::Succeeded,
            InjectPhase::Failed => InjectStep::Failed,
        }
    }

    /// The run after a paste or a go went well: a paste is followed by
    /// the pause before the clipboard is restored, a go by the next go,
    /// the last go by success.
    pub open spec fn after_success(self) -> RunModel {
        match self.phase {
            InjectPhase::Paste => RunModel { phase: InjectPhase::Restore, ..self },
            InjectPhase::Send { chunk, attempt } => if chunk + 1 < self.chunks.len() {
                RunModel {
                    phase: InjectPhase::Send { chunk: (chunk + 1) as usize, attempt: 0 },
                    ..self
                }
            } else {
                RunModel { phase: InjectPhase::Succeeded, ..self }
            },
            _ => self,
        }
    }

    /// The run after a paste or a go failed with `error`. A failed paste
    /// is followed by key events, unless nothing but a paste was allowed.
    /// A failed go is sent again after a pause, until its attempts are
    /// used up; then the injection has failed with the last error.
    pub open spec fn after_failure(self, error: Seq<char>) -> RunModel {
        match self.phase {
            InjectPhase::Paste => if self.method == InjectMethod::Paste {
                RunModel {
                    phase: InjectPhase::Failed,
                    error: Some(paste_failed_text()),
                    ..self
                }
            } else {
                RunModel { phase: InjectPhase::Send { chunk: 0, attempt: 0 }, ..self }
            },
            InjectPhase::Send { chunk, attempt } => if attempt + 1 < self.tuning.retries {
                RunModel {
                    phase: InjectPhase::Pause { chunk, attempt: (attempt + 1) as usize },
                    error: Some(error),
                    ..self
                }
            } else {
                RunModel { phase: InjectPhase::Failed, error: Some(error), ..self }
            },
            _ => self,
        }
    }

    /// The run after a pause.
    pub open spec fn after_wait(self) -> RunModel {
        match self.phase {
            InjectPhase::Restore => RunModel { phase: InjectPhase::Succeeded, ..self },
            InjectPhase::Pause { chunk, attempt } => RunModel {
                phase: InjectPhase::Send { chunk, attempt },
                ..self
            },
            _ => self,
        }
    }

    /// How many more steps the run can take at most.
    pub open spec fn steps_left(self) -> nat {
        let per_go = 2 * self.tuning.retries;
        match self.phase {
            InjectPhase::Paste => (self.chunks.len() * per_go + 2) as nat,
            InjectPhase::Restore => 1,
            InjectPhase::Send { chunk, attempt } => ((self.chunks.len() - chunk) * per_go - 2
                * attempt) as nat,
            InjectPhase::Pause { chunk, attempt } => ((self.chunks.len() - chunk) * per_go - 2
                * attempt + 1) as nat,
            InjectPhase::Succeeded => 0,
            InjectPhase::Failed => 0,
        }
    }
}

/// The run at its beginning: over at once for an empty text; else a
/// paste, where the text is pasted rather than typed; else the first go.
pub open spec fn initial_run(
    text: Seq<char>,
    method: InjectMethod,
    target_process: Seq<char>,
    settings: InjectSettings,
) -> RunModel {
    let tuning = InjectTuning {
        chunk_units: chunk_units_for(key_units(text).len() as usize, settings.chunk_units) as usize,
        retries: setting_or(as_int(settings.retries), 2, 1, 5) as usize,
        retry_delay_ms: setting_or(as_int64(settings.retry_delay_ms), 6, 1, 40) as u64,
        clipboard_restore_delay_ms: setting_or(
            as_int64(settings.clipboard_restore_delay_ms),
            60,
            10,
            250,
        ) as u64,
    };
    let chunks = goes_of(text, tuning.chunk_units as nat);
    RunModel {
        method,
        tuning,
        chunks,
        phase: if key_units(text).len() == 0 {
            InjectPhase::Succeeded
        } else if method == InjectMethod::Paste || (method == InjectMethod::Auto && is_terminal(
            target_process,
        )) {
            InjectPhase::Paste
        } else {
            InjectPhase::Send { chunk: 0, attempt: 0 }
        },
        error: None,
    }
}

/// The course of one injection. The host does what [`InjectRun::step`]
/// says and reports back, until the run is over.
pub struct InjectRun {
    method: InjectMethod,
    tuning: InjectTuning,
    chunks: Vec<Vec<u16>>,
    phase: InjectPhase,
    error: Option<String>,
}

impl View for InjectRun {
    type V = RunModel;

    closed spec fn view(&self) -> RunModel {
        RunModel {
            method: self.method,
            tuning: self.tuning,
            chunks: block_views(self.chunks@),
            phase: self.phase,
            error: match self.error {
                Some(e) => Some(e@),
                None => None,
            },
        }
    }
}

impl InjectRun {
    #[verifier::type_invariant]
    closed spec fn wf(self) -> bool {
        self@.is_sound()
    }

    /// The run for a text, a way of injection and the program in front.
    pub fn new(text: &str, method: InjectMethod, target_process: &str, settings: InjectSettings) -> (run:
        InjectRun)
        ensures
            run@ == initial_run(text@, method, target_process@, settings),
            run@.is_sound(),
    {
        let units = injection_units(text);
        let empty = units.len() == 0;
        let tuning = inject_tuning(units.len(), settings);
        let chunks = unit_chunks(units, tuning.chunk_units);
        let phase = if empty {
            InjectPhase::Succeeded
        } else if prefers_paste(method, target_process) {
            InjectPhase::Paste
        } else {
            InjectPhase::Send { chunk: 0, attempt: 0 }
        };
        proof {
            let all = key_units(text@);
            let n = tuning.chunk_units as nat;
            crate::audio::resample::lemma_blocks_keep_every_sample(all, n);
            if all.len() > 0 && block_views(chunks@).len() == 0 {
                assert(crate::audio::resample::flattened(blocks_of(all, n)) =~= Seq::<u16>::empty());
                assert(false);
            }
            assert(block_views(chunks@).len() == chunks@.len());
            assert(chunks.len() == chunks@.len());
        }
        InjectRun { method, tuning, chunks, phase, error: None }
    }

    /// What the host is to do next.
    pub fn step(&self) -> (s: InjectStep)
        ensures
            s == self@.step(),
    {
        match self.phase {
            InjectPhase::Paste => InjectStep::Paste,
            InjectPhase::Restore => InjectStep::Wait(self.tuning.clipboard_restore_delay_ms),
            InjectPhase::Send { chunk, attempt } => InjectStep::Send(chunk),
            InjectPhase::Pause { chunk, attempt } => InjectStep::Wait(self.tuning.retry_delay_ms),
            InjectPhase::Succeeded => InjectStep::Succeeded,
            InjectPhase::Failed => InjectStep::Failed,
        }
    }

    /// The key events of the go that is to be sent, where one is.
    pub fn go(&self) -> (units: Option<&Vec<u16>>)
        ensures
            match self@.phase {
                InjectPhase::Send { chunk, attempt } => units matches Some(u) && u@
                    == self@.chunks[chunk as int],
                _ => units is None,
            },
    {
        proof {
            use_type_invariant(self);
        }
        match self.phase {
            InjectPhase::Send { chunk, attempt } => {
                assert(block_views(self.chunks@)[chunk as int] == self.chunks@[chunk as int]@);
                Some(&self.chunks[chunk])
            },
            _ => None,
        }
    }

    /// The message of the failure, where the last paste or go failed.
    pub fn error(&self) -> (e: Option<String>)
        ensures
            crate::text::opt_text(e) == self@.error,
    {
        match &self.error {
            Some(e) => Some(e.clone()),
            None => None,
        }
    }

    /// Takes in how the paste or the go went.
    pub fn record(&mut self, result: Result<(), String>)
        ensures
            final(self)@ == match result {
                Ok(_) => old(self)@.after_success(),
                Err(e) => old(self)@.after_failure(e@),
            },
            final(self)@.is_sound(),
    {
        proof {
            use_type_invariant(&*self);
        }
        assert(block_views(self.chunks@).len() == self.chunks@.len());
        match result {
            Ok(_) => {
                match self.phase {
                    InjectPhase::Paste => {
                        self.phase = InjectPhase::Restore;
                    },
                    InjectPhase::Send { chunk, attempt } => {
                        if chunk + 1 < self.chunks.len() {
                            self.phase = InjectPhase::Send { chunk: chunk + 1, attempt: 0 };
                        } else {
                            self.phase = InjectPhase::Succeeded;
                        }
                    },
                    _ => {},
                }
            },
            Err(e) => {
                match self.phase {
                    InjectPhase::Paste => {
                        if self.method == InjectMethod::Paste {
                            self.phase = InjectPhase::Failed;
                            self.error = Some(String::from_str("clipboard paste injection failed"));
                        } else {
                            self.phase = InjectPhase::Send { chunk: 0, attempt: 0 };
                        }
                    },
                    InjectPhase::Send { chunk, attempt } => {
                        if attempt + 1 < self.tuning.retries {
                            self.phase = InjectPhase::Pause { chunk, attempt: attempt + 1 };
                        } else {
                            self.phase = InjectPhase::Failed;
                        }
                        self.error = Some(e);
                    },
                    _ => {},
                }
            },
        }
    }

    /// Takes in that the pause is over.
    pub fn waited(&mut self)
        ensures
            final(self)@ == old(self)@.after_wait(),
            final(self)@.is_sound(),
    {
        proof {
            use_type_invariant(&*self);
        }
        match self.phase {
            InjectPhase::Restore => {
                self.phase = InjectPhase::Succeeded;
            },
            InjectPhase::Pause { chunk, attempt } => {
                self.phase = InjectPhase::Send { chunk, attempt };
            },
            _ => {},
        }
    }
}

/// Every step brings the end nearer: whatever the host reports of a
/// paste or a go, and after every pause, fewer steps are left; so an
/// injection is over after finitely many steps, and no go is sent more
/// often than the attempts allow.
pub proof fn lemma_injection_ends(run: RunModel, error: Seq<char>)
    requires
        run.is_sound(),
        !run.is_over(),
    ensures
        run.after_success().is_sound(),
        run.after_failure(error).is_sound(),
        run.after_wait().is_sound(),
        (run.step() is Paste || run.step() is Send) ==> run.after_success().steps_left()
            < run.steps_left() && run.after_failure(error).steps_left() < run.steps_left(),
        run.step() is Wait ==> run.after_wait().steps_left() < run.steps_left(),
{
    let n = run.chunks.len() as int;
    let r = run.tuning.retries as int;
    match run.phase {
        InjectPhase::Send { chunk, attempt } => {
            let c = chunk as int;
            let a = attempt as int;
            assert((n - c) * (2 * r) - 2 * a > (n - c - 1) * (2 * r)) by (nonlinear_arith)
                requires
                    0 <= a,
                    a < r,
            ;
            assert((n - c - 1) * (2 * r) >= 0) by (nonlinear_arith)
                requires
                    c < n,
                    r >= 0,
            ;
            assert((n - c) * (2 * r) - 2 * (a + 1) + 1 >= 0) by (nonlinear_arith)
                requires
                    c < n,
                    0 <= a,
                    a + 1 <= r,
            ;
        },
        InjectPhase::Pause { chunk, attempt } => {
            let c = chunk as int;
            let a = attempt as int;
            assert((n - c) * (2 * r) - 2 * a >= 0) by (nonlinear_arith)
                requires
                    c < n,
                    0 <= a,
                    a < r,
            ;
        },
        InjectPhase::Paste => {
            assert(n * (2 * r) >= 0) by (nonlinear_arith)
                requires
                    n >= 0,
                    r >= 0,
            ;
        },
        _ => {},
    }
}

/// Once an injection is over, nothing that is reported changes it.
pub proof fn lemma_finished_injection_stays(run: RunModel, error: Seq<char>)
    requires
        run.is_over(),
    ensures
        run.after_success() == run,
        run.after_failure(error) == run,
        run.after_wait() == run,
{
}

// ---------------------------------------------------------------------------
// Key events
// ---------------------------------------------------------------------------

/// A key that goes down or up. The code is a virtual key in a chord and a
/// UTF-16 unit in typed text.
#[derive(Debug, Clone, Copy, PartialEq, Eq, Structural)]
pub struct KeyEvent {
    pub code: u16,
    pub up: bool,
}

/// The events of a chord: the modifiers go down in their order, the key
/// goes down and up, and the modifiers go up in the reverse order.
pub open spec fn chord_keys(modifiers: Seq<u16>, key: u16) -> Seq<KeyEvent> {
    Seq::new(modifiers.len(), |i: int| KeyEvent { code: modifiers[i], up: false }) + seq![
        KeyEvent { code: key, up: false },
        KeyEvent { code: key, up: true },
    ] + Seq::new(
        modifiers.len(),
        |i: int| KeyEvent { code: modifiers[modifiers.len() - 1 - i], up: true },
    )
}

/// The events of a chord.
pub fn chord_events(modifiers: &Vec<u16>, key: u16) -> (events: Vec<KeyEvent>)
    ensures
        events@ == chord_keys(modifiers@, key),
{
    let n = modifiers.len();
    let mut events: Vec<KeyEvent> = Vec::new();
    let mut i: usize = 0;
    while i < n
        invariant
            i <= n,
            n == modifiers@.len(),
            events@ == Seq::new(i as nat, |j: int| KeyEvent { code: modifiers@[j], up: false }),
        decreases n - i,
    {
        events.push(KeyEvent { code: modifiers[i], up: false });
        assert(events@ =~= Seq::new(
            (i + 1) as nat,
            |j: int| KeyEvent { code: modifiers@[j], up: false },
        ));
        i += 1;
    }
    events.push(KeyEvent { code: key, up: false });
    events.push(KeyEvent { code: key, up: true });
    let ghost head = events@;
    let mut k: usize = 0;
    while k < n
        invariant
            k <= n,
            n == modifiers@.len(),
            events@ == head + Seq::new(
                k as nat,
                |j: int| KeyEvent { code: modifiers@[n - 1 - j], up: true },
            ),
        decreases n - k,
    {
        events.push(KeyEvent { code: modifiers[n - 1 - k], up: true });
        assert(events@ =~= head + Seq::new(
            (k + 1) as nat,
            |j: int| KeyEvent { code: modifiers@[n - 1 - j], up: true },
        ));
        k += 1;
    }
    assert(events@ =~= chord_keys(modifiers@, key));
    events
}

/// The events that type the units of a go: each unit goes down and up.
pub open spec fn typed_keys(units: Seq<u16>) -> Seq<KeyEvent> {
    Seq::new(2 * units.len(), |i: int| KeyEvent { code: units[i / 2], up: i % 2 == 1 })
}

/// The events that type the units of a go.
pub fn unicode_events(units: &Vec<u16>) -> (events: Vec<KeyEvent>)
    ensures
        events@ == typed_keys(units@),
{
    let mut events: Vec<KeyEvent> = Vec::new();
    let mut i: usize = 0;
    while i < units.len()
        invariant
            i <= units.len(),
            events@.len() == 2 * i,
            forall|j: int|
                0 <= j < 2 * i ==> #[trigger] events@[j] == (KeyEvent {
                    code: units@[j / 2],
                    up: j % 2 == 1,
                }),
        decreases units.len() - i,
    {
        events.push(KeyEvent { code: units[i], up: false });
        events.push(KeyEvent { code: units[i], up: true });
        i += 1;
    }
    assert(events@ =~= typed_keys(units@));
    events
}

/// A chord that pastes.
#[derive(Debug, Clone, Copy, PartialEq, Eq, Structural)]
pub enum PasteChord {
    /// Control and V.
    ControlV,
    /// Control, Shift and V.
    ControlShiftV,
}

/// The chords that paste into a program, the one to try first and the
/// one to try where the first fails: with Shift first for the terminal
/// that takes it so, without it first for every other program.
pub open spec fn paste_chords_for(target_process: Seq<char>) -> (PasteChord, PasteChord) {
    if target_process == "warp.exe"@ {
        (PasteChord::ControlShiftV, PasteChord::ControlV)
    } else {
        (PasteChord::ControlV, PasteChord::ControlShiftV)
    }
}

/// The chords that paste into a program.
pub fn paste_chords(target_process: &str) -> (chords: (PasteChord, PasteChord))
    ensures
        chords == paste_chords_for(target_process@),
{
    if crate::text::str_eq(target_process, "warp.exe") {
        (PasteChord::ControlShiftV, PasteChord::ControlV)
    } else {
        (PasteChord::ControlV, PasteChord::ControlShiftV)
    }
}

} // verus!
