//! The global shortcut that starts and stops listening: which presses
//! count, and what a press that counts does.
//!
//! Times are milliseconds on a clock of the caller that never runs backwards.

use vstd::prelude::*;
use crate::ipc::events::EngineStatus;

verus! {

/// Presses that follow an accepted one sooner than this are taken for its echo.
pub const TOGGLE_DEBOUNCE_MS: u64 = 350;

/// What becomes of a press of the shortcut.
#[derive(Debug, Clone, Copy, PartialEq, Eq, Structural)]
pub enum Press {
    /// The press follows another too closely and is ignored.
    Debounced,
    /// A toggle is still under way; the press is dropped and counted.
    Dropped,
    /// The press toggles the engine.
    Accepted,
}

/// What a toggle does to the engine.
#[derive(Debug, Clone, Copy, PartialEq, Eq, Structural)]
pub enum ToggleAction {
    /// Start listening.
    Start,
    /// Stop listening.
    Stop,
}

/// What the host remembers of the shortcut.
#[derive(Debug, Clone, Copy, PartialEq, Eq, Structural)]
pub struct ShortcutToggle {
    /// When the last press was let through.
    pub last_press_ms: Option<u64>,
    /// Whether a toggle is under way.
    pub inflight: bool,
    /// Toggles that were carried out.
    pub executed: usize,
    /// Presses that were dropped because a toggle was under way.
    pub dropped: usize,
}

/// Whether a press at `now` follows the last one too closely.
pub open spec fn is_echo(last_press_ms: Option<u64>, now: u64) -> bool {
    match last_press_ms {
        Some(last) => now <= last || now - last < TOGGLE_DEBOUNCE_MS,
        None => false,
    }
}

/// The counter after one more; behind the largest number it begins again.
pub open spec fn one_more(n: usize) -> usize {
    if n == usize::MAX {
        0
    } else {
        (n + 1) as usize
    }
}

/// What becomes of a press at `now`.
pub open spec fn press_outcome(st: ShortcutToggle, now: u64) -> Press {
    if is_echo(st.last_press_ms, now) {
        Press::Debounced
    } else if st.inflight {
        Press::Dropped
    } else {
        Press::Accepted
    }
}

/// The state after a press at `now`: a press that is no echo is
/// remembered; it is counted as dropped while a toggle is under way, and
/// else begins a toggle and is counted as carried out.
pub open spec fn after_press(st: ShortcutToggle, now: u64) -> ShortcutToggle {
    match press_outcome(st, now) {
        Press::Debounced => st,
        Press::Dropped => ShortcutToggle {
            last_press_ms: Some(now),
            dropped: one_more(st.dropped),
            ..st
        },
        Press::Accepted => ShortcutToggle {
            last_press_ms: Some(now),
            inflight: true,
            executed: one_more(st.executed),
            ..st
        },
    }
}

/// What a toggle does: it stops an engine that listens and starts any other.
pub open spec fn action_for(status: EngineStatus) -> ToggleAction {
    if status == EngineStatus::Listening {
        ToggleAction::Stop
    } else {
        ToggleAction::Start
    }
}

fn count_up(n: usize) -> (r: usize)
    ensures
        r == one_more(n),
{
    if n == usize::MAX {
        0
    } else {
        n + 1
    }
}

impl ShortcutToggle {
    /// A shortcut that was never pressed.
    pub fn new() -> (st: ShortcutToggle)
        ensures
            st == (ShortcutToggle { last_press_ms: None, inflight: false, executed: 0, dropped: 0 }),
    {
        ShortcutToggle { last_press_ms: None, inflight: false, executed: 0, dropped: 0 }
    }

    /// Takes a press in and says what becomes of it.
    pub fn press(&mut self, now_ms: u64) -> (p: Press)
        ensures
            p == press_outcome(*old(self), now_ms),
            *final(self) == after_press(*old(self), now_ms),
    {
        let echo = match self.last_press_ms {
            Some(last) => now_ms <= last || now_ms - last < TOGGLE_DEBOUNCE_MS,
            None => false,
        };
        if echo {
            return Press::Debounced;
        }
        self.last_press_ms = Some(now_ms);
        if self.inflight {
            self.dropped = count_up(self.dropped);
            Press::Dropped
        } else {
            self.inflight = true;
            self.executed = count_up(self.executed);
            Press::Accepted
        }
    }

    /// Takes in that the toggle is done, however it went.
    pub fn finished(&mut self)
        ensures
            *final(self) == (ShortcutToggle { inflight: false, ..*old(self) }),
    {
        self.inflight = false;
    }
}

/// What a toggle does to an engine of the given status.
pub fn toggle_action(status: EngineStatus) -> (a: ToggleAction)
    ensures
        a == action_for(status),
{
    match status {
        EngineStatus::Listening => ToggleAction::Stop,
        _ => ToggleAction::Start,
    }
}

/// While a toggle is under way no second one begins: every press is an
/// echo or is dropped, and the count of toggles stays.
pub proof fn lemma_toggles_do_not_overlap(st: ShortcutToggle, now: u64)
    requires
        st.inflight,
    ensures
        press_outcome(st, now) != Press::Accepted,
        after_press(st, now).executed == st.executed,
        after_press(st, now).inflight,
{
}

/// A press within the debounce window of an accepted press changes nothing.
pub proof fn lemma_echo_changes_nothing(st: ShortcutToggle, first: u64, second: u64)
    requires
        !is_echo(st.last_press_ms, first),
        first <= second,
        second - first < TOGGLE_DEBOUNCE_MS,
    ensures
        press_outcome(after_press(st, first), second) == Press::Debounced,
        after_press(after_press(st, first), second) == after_press(st, first),
{
}

} // verus!
