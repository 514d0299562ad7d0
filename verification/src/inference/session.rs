//! How a network session is set up: where it runs and on how many threads.

use vstd::prelude::*;
use crate::text::{
    chars_equal, chars_of, eq_ignore_ascii_case, lower, lowered, opt_str_text, same_ignoring_case,
    string_of, trim, trimmed,
};

verus! {

/// Where the networks are to run.
#[derive(Debug, Clone, Copy, PartialEq, Eq, Structural)]
pub enum OrtExecutionPreference {
    Auto,
    Cpu,
    DirectML,
}

/// The preference that a setting stands for: its trimmed text in small
/// letters names the CPU or the accelerator; anything else leaves the choice open.
pub open spec fn execution_preference_of(raw: Seq<char>) -> OrtExecutionPreference {
    let key = lowered(trimmed(raw));
    if key == "cpu"@ {
        OrtExecutionPreference::Cpu
    } else if key == "dml"@ || key == "directml"@ {
        OrtExecutionPreference::DirectML
    } else {
        OrtExecutionPreference::Auto
    }
}

/// The preference that a setting stands for.
pub fn ort_execution_preference(raw: &str) -> (p: OrtExecutionPreference)
    ensures
        p == execution_preference_of(raw@),
{
    let key = lower(&trim(&chars_of(raw)));
    if chars_equal(&key, &chars_of("cpu")) {
        OrtExecutionPreference::Cpu
    } else if chars_equal(&key, &chars_of("dml")) || chars_equal(&key, &chars_of("directml")) {
        OrtExecutionPreference::DirectML
    } else {
        OrtExecutionPreference::Auto
    }
}

/// The threads of a session.
#[derive(Debug, Clone, Copy, PartialEq, Eq, Structural)]
pub struct SessionThreading {
    pub intra_threads: usize,
    pub inter_threads: usize,
    pub parallel_execution: bool,
}

/// `x` kept between `low` and `high`.
pub open spec fn kept_between(x: usize, low: usize, high: usize) -> usize {
    if x < low {
        low
    } else if x > high {
        high
    } else {
        x
    }
}

/// The threads of a session. Without a setting a session takes a thread
/// for each core, between 2 and 12 (4 and 12 on the accelerator), within
/// an operator and one thread (two on the accelerator) between operators,
/// and runs operators in parallel on the accelerator only. A setting
/// counts as far as it lies between 1 and 32 within and 1 and 8 between.
pub open spec fn session_threading_of(
    preference: OrtExecutionPreference,
    logical_cores: usize,
    intra: Option<usize>,
    inter: Option<usize>,
    parallel: Option<bool>,
) -> SessionThreading {
    let on_accelerator = preference == OrtExecutionPreference::DirectML;
    SessionThreading {
        intra_threads: kept_between(
            match intra {
                Some(n) => n,
                None => kept_between(
                    logical_cores,
                    if on_accelerator {
                        4
                    } else {
                        2
                    },
                    12,
                ),
            },
            1,
            32,
        ),
        inter_threads: kept_between(
            match inter {
                Some(n) => n,
                None => if on_accelerator {
                    2
                } else {
                    1
                },
            },
            1,
            8,
        ),
        parallel_execution: match parallel {
            Some(p) => p,
            None => on_accelerator,
        },
    }
}

fn clamp(x: usize, low: usize, high: usize) -> (r: usize)
    ensures
        r == kept_between(x, low, high),
{
    if x < low {
        low
    } else if x > high {
        high
    } else {
        x
    }
}

/// The threads of a session.
pub fn session_threading(
    preference: OrtExecutionPreference,
    logical_cores: usize,
    intra: Option<usize>,
    inter: Option<usize>,
    parallel: Option<bool>,
) -> (t: SessionThreading)
    ensures
        t == session_threading_of(preference, logical_cores, intra, inter, parallel),
        1 <= t.intra_threads <= 32,
        1 <= t.inter_threads <= 8,
{
    let on_accelerator = match preference {
        OrtExecutionPreference::DirectML => true,
        _ => false,
    };
    let default_intra = clamp(
        logical_cores,
        if on_accelerator {
            4
        } else {
            2
        },
        12,
    );
    let default_inter: usize = if on_accelerator {
        2
    } else {
        1
    };
    SessionThreading {
        intra_threads: clamp(
            match intra {
                Some(n) => n,
                None => default_intra,
            },
            1,
            32,
        ),
        inter_threads: clamp(
            match inter {
                Some(n) => n,
                None => default_inter,
            },
            1,
            8,
        ),
        parallel_execution: match parallel {
            Some(p) => p,
            None => on_accelerator,
        },
    }
}

/// Whether a setting switches something on: it is `1`, or `true` in any case.
pub open spec fn is_switched_on(raw: Seq<char>) -> bool {
    raw == "1"@ || lowered(raw) == "true"@
}

/// Whether a setting switches something on.
pub fn flag_is_on(raw: &str) -> (b: bool)
    ensures
        b == is_switched_on(raw@),
{
    let chars = chars_of(raw);
    chars_equal(&chars, &chars_of("1")) || chars_equal(&lower(&chars), &chars_of("true"))
}

// ---------------------------------------------------------------------------
// Where the model's files are
// ---------------------------------------------------------------------------

/// Where the files of the model are looked for.
#[derive(Debug, Clone)]
pub enum ModelsDir {
    /// The directory that the operator named.
    Explicit(String),
    /// The directory of a profile, below the default directory.
    Profile(String),
    /// The default directory.
    Default,
}

/// What is chosen of a [`ModelsDir`].
pub enum ModelsDirModel {
    Explicit(Seq<char>),
    Profile(Seq<char>),
    Default,
}

impl View for ModelsDir {
    type V = ModelsDirModel;

    open spec fn view(&self) -> ModelsDirModel {
        match self {
            ModelsDir::Explicit(d) => ModelsDirModel::Explicit(d@),
            ModelsDir::Profile(p) => ModelsDirModel::Profile(p@),
            ModelsDir::Default => ModelsDirModel::Default,
        }
    }
}

/// The directory that a setting names: its trimmed text, where anything is left of it.
pub open spec fn named_dir(explicit: Option<Seq<char>>) -> Option<Seq<char>> {
    match explicit {
        Some(e) => if trimmed(e).len() > 0 {
            Some(trimmed(e))
        } else {
            None
        },
        None => None,
    }
}

/// The directory of the profile that a setting names: its trimmed text.
/// No setting, an empty one and the profile `small`, in whatever case,
/// name none: their files are in the default directory.
pub open spec fn profile_dir(profile: Option<Seq<char>>) -> Option<Seq<char>> {
    match profile {
        Some(p) => if trimmed(p).len() > 0 && !same_ignoring_case(trimmed(p), "small"@) {
            Some(trimmed(p))
        } else {
            None
        },
        None => None,
    }
}

/// Where the files of the model are looked for: in the directory that
/// was named; else in that of the profile, where its files are all there;
/// else in the default directory.
pub open spec fn models_dir_of(
    explicit: Option<Seq<char>>,
    profile: Option<Seq<char>>,
    profile_is_complete: bool,
) -> ModelsDirModel {
    match named_dir(explicit) {
        Some(dir) => ModelsDirModel::Explicit(dir),
        None => match profile_dir(profile) {
            Some(name) => if profile_is_complete {
                ModelsDirModel::Profile(name)
            } else {
                ModelsDirModel::Default
            },
            None => ModelsDirModel::Default,
        },
    }
}

/// The directory of the profile that a setting names, if it names one.
pub fn profile_directory(profile: Option<&str>) -> (r: Option<String>)
    ensures
        crate::text::opt_text(r) == profile_dir(opt_str_text(profile)),
{
    match profile {
        Some(p) => {
            let name = trim(&chars_of(p));
            if name.len() > 0 && !eq_ignore_ascii_case(&name, &chars_of("small")) {
                Some(string_of(&name))
            } else {
                None
            }
        },
        None => None,
    }
}

/// Where the files of the model are looked for. `profile_is_complete`
/// says whether the directory of the profile holds all the files of a model.
pub fn selected_models_dir(explicit: Option<&str>, profile: Option<&str>, profile_is_complete: bool) -> (d:
    ModelsDir)
    ensures
        d@ == models_dir_of(opt_str_text(explicit), opt_str_text(profile), profile_is_complete),
{
    match explicit {
        Some(e) => {
            let dir = trim(&chars_of(e));
            if dir.len() > 0 {
                return ModelsDir::Explicit(string_of(&dir));
            }
        },
        None => {},
    }
    match profile_directory(profile) {
        Some(name) => if profile_is_complete {
            ModelsDir::Profile(name)
        } else {
            ModelsDir::Default
        },
        None => ModelsDir::Default,
    }
}

} // verus!
