//! Tuning the host to its machine: how many threads the networks get and
//! which performance profile is taken, from the processor alone or from
//! what a benchmark measured.

use vstd::prelude::*;
use vstd::string::*;
use crate::settings::{
    count_text, env_texts, flag, flag_text, put, EnvSetting, HostSettings, SettingsUpdate,
};
use crate::text::{chars_of, decimal, opt_text, push_decimal, push_str, string_of};

verus! {

/// What a tuning sets.
#[derive(Debug, Clone, Copy, PartialEq, Eq, Structural)]
pub struct ThreadPlan {
    /// Threads within one operator.
    pub intra_threads: usize,
    /// Operators side by side.
    pub inter_threads: usize,
    /// Whether operators run side by side.
    pub parallel: bool,
}

/// A performance profile that a tuning can choose.
#[derive(Debug, Clone, Copy, PartialEq, Eq, Structural)]
pub enum TunedProfile {
    WhisperBalancedEnglish,
    BalancedGeneral,
    LatencyShortUtterance,
    StabilityLongForm,
}

/// The name of a profile.
pub open spec fn profile_name(p: TunedProfile) -> Seq<char> {
    match p {
        TunedProfile::WhisperBalancedEnglish => "whisper_balanced_english"@,
        TunedProfile::BalancedGeneral => "balanced_general"@,
        TunedProfile::LatencyShortUtterance => "latency_short_utterance"@,
        TunedProfile::StabilityLongForm => "stability_long_form"@,
    }
}

impl TunedProfile {
    /// The name of the profile.
    pub fn name(&self) -> (s: String)
        ensures
            s@ == profile_name(*self),
    {
        match self {
            TunedProfile::WhisperBalancedEnglish => String::from_str("whisper_balanced_english"),
            TunedProfile::BalancedGeneral => String::from_str("balanced_general"),
            TunedProfile::LatencyShortUtterance => String::from_str("latency_short_utterance"),
            TunedProfile::StabilityLongForm => String::from_str("stability_long_form"),
        }
    }
}

/// `n` kept between `least` and `most`.
pub open spec fn kept_within(n: int, least: int, most: int) -> int {
    if n < least {
        least
    } else if n > most {
        most
    } else {
        n
    }
}

/// The threads for a machine with `cpu_threads` threads: as many within
/// an operator as the machine has, between 2 and 12, and one operator at a
/// time; with an accelerator at least 4, two operators, and side by side
/// from 8 threads on.
pub open spec fn machine_threads(cpu_threads: usize, prefers_gpu: bool) -> ThreadPlan {
    ThreadPlan {
        intra_threads: if prefers_gpu {
            kept_within(cpu_threads as int, 4, 12) as usize
        } else {
            kept_within(cpu_threads as int, 2, 12) as usize
        },
        inter_threads: if prefers_gpu {
            2
        } else {
            1
        },
        parallel: prefers_gpu && cpu_threads >= 8,
    }
}

/// The profile for a machine: the balanced English one from 16 threads
/// on, the general one from 10, else the one for short utterances.
pub open spec fn machine_profile(cpu_threads: usize) -> TunedProfile {
    if cpu_threads >= 16 {
        TunedProfile::WhisperBalancedEnglish
    } else if cpu_threads >= 10 {
        TunedProfile::BalancedGeneral
    } else {
        TunedProfile::LatencyShortUtterance
    }
}

fn keep_within(n: usize, least: usize, most: usize) -> (r: usize)
    requires
        least <= most,
    ensures
        r == kept_within(n as int, least as int, most as int),
{
    if n < least {
        least
    } else if n > most {
        most
    } else {
        n
    }
}

/// The threads for a machine.
pub fn thread_plan(cpu_threads: usize, prefers_gpu: bool) -> (p: ThreadPlan)
    ensures
        p == machine_threads(cpu_threads, prefers_gpu),
{
    ThreadPlan {
        intra_threads: if prefers_gpu {
            keep_within(cpu_threads, 4, 12)
        } else {
            keep_within(cpu_threads, 2, 12)
        },
        inter_threads: if prefers_gpu {
            2
        } else {
            1
        },
        parallel: prefers_gpu && cpu_threads >= 8,
    }
}

/// The profile for a machine.
pub fn tuned_profile(cpu_threads: usize) -> (p: TunedProfile)
    ensures
        p == machine_profile(cpu_threads),
{
    if cpu_threads >= 16 {
        TunedProfile::WhisperBalancedEnglish
    } else if cpu_threads >= 10 {
        TunedProfile::BalancedGeneral
    } else {
        TunedProfile::LatencyShortUtterance
    }
}

// ---------------------------------------------------------------------------
// Tuning by a benchmark
// ---------------------------------------------------------------------------

/// How long the finishing of an utterance took in a benchmark, at the
/// 95th percentile, by the limits that the tuning knows.
#[derive(Debug, Clone, Copy, PartialEq, Eq, Structural)]
pub enum FinalizeLatency {
    /// Under 150 ms.
    Quick,
    /// From 150 ms, under 320 ms.
    Fair,
    /// From 320 ms, up to 420 ms.
    Slow,
    /// Over 420 ms.
    TooSlow,
}

/// The threads after a benchmark: those for the machine, with up to 14
/// within an operator where an accelerator is preferred; two more, one
/// operator at a time and side by side where utterances finish too
/// slowly; one fewer where they finish quickly. Between 2 and 16 either way.
pub open spec fn measured_threads(
    cpu_threads: usize,
    prefers_gpu: bool,
    latency: FinalizeLatency,
) -> ThreadPlan {
    let intra = if prefers_gpu {
        kept_within(cpu_threads as int, 4, 14)
    } else {
        kept_within(cpu_threads as int, 2, 12)
    };
    let inter: usize = if prefers_gpu {
        2
    } else {
        1
    };
    let parallel = prefers_gpu && cpu_threads >= 8;
    match latency {
        FinalizeLatency::TooSlow => ThreadPlan {
            intra_threads: kept_within(intra + 2, 2, 16) as usize,
            inter_threads: 1,
            parallel: true,
        },
        FinalizeLatency::Quick => ThreadPlan {
            intra_threads: kept_within(intra - 1, 2, 16) as usize,
            inter_threads: inter,
            parallel,
        },
        _ => ThreadPlan { intra_threads: intra as usize, inter_threads: inter, parallel },
    }
}

/// The profile after a benchmark: the one for long utterances where the
/// placeholder came too often; else the one for short utterances where
/// they finish slowly; else the balanced English one.
pub open spec fn measured_profile(latency: FinalizeLatency, placeholders_frequent: bool) -> TunedProfile {
    if placeholders_frequent {
        TunedProfile::StabilityLongForm
    } else if latency == FinalizeLatency::Slow || latency == FinalizeLatency::TooSlow {
        TunedProfile::LatencyShortUtterance
    } else {
        TunedProfile::WhisperBalancedEnglish
    }
}

/// The threads after a benchmark.
pub fn benchmark_thread_plan(cpu_threads: usize, prefers_gpu: bool, latency: FinalizeLatency) -> (p:
    ThreadPlan)
    ensures
        p == measured_threads(cpu_threads, prefers_gpu, latency),
{
    let intra = if prefers_gpu {
        keep_within(cpu_threads, 4, 14)
    } else {
        keep_within(cpu_threads, 2, 12)
    };
    let inter: usize = if prefers_gpu {
        2
    } else {
        1
    };
    let parallel = prefers_gpu && cpu_threads >= 8;
    match latency {
        FinalizeLatency::TooSlow => ThreadPlan {
            intra_threads: keep_within(intra + 2, 2, 16),
            inter_threads: 1,
            parallel: true,
        },
        FinalizeLatency::Quick => ThreadPlan {
            intra_threads: keep_within(intra - 1, 2, 16),
            inter_threads: inter,
            parallel,
        },
        _ => ThreadPlan { intra_threads: intra, inter_threads: inter, parallel },
    }
}

/// The profile after a benchmark.
pub fn benchmark_profile(latency: FinalizeLatency, placeholders_frequent: bool) -> (p: TunedProfile)
    ensures
        p == measured_profile(latency, placeholders_frequent),
{
    if placeholders_frequent {
        TunedProfile::StabilityLongForm
    } else {
        match latency {
            FinalizeLatency::Slow => TunedProfile::LatencyShortUtterance,
            FinalizeLatency::TooSlow => TunedProfile::LatencyShortUtterance,
            _ => TunedProfile::WhisperBalancedEnglish,
        }
    }
}

// ---------------------------------------------------------------------------
// Taking a tuning into the settings
// ---------------------------------------------------------------------------

/// What is said of a tuning that was applied.
pub open spec fn tuning_summary_of(s: HostSettings) -> Seq<char> {
    "Applied "@ + s.model_profile@ + " with "@ + s.ort_ep@ + " EP and ONNX threads intra/inter="@
        + decimal(s.ort_intra_threads as nat) + "/"@ + decimal(s.ort_inter_threads as nat)
        + " (parallel="@ + (if s.ort_parallel {
        "true"@
    } else {
        "false"@
    }) + ")."@
}

/// What is said of a tuning that was applied.
pub fn tuning_summary(settings: &HostSettings) -> (m: String)
    ensures
        m@ == tuning_summary_of(*settings),
{
    let mut out: Vec<char> = Vec::new();
    push_str(&mut out, "Applied ");
    push_str(&mut out, settings.model_profile.as_str());
    push_str(&mut out, " with ");
    push_str(&mut out, settings.ort_ep.as_str());
    push_str(&mut out, " EP and ONNX threads intra/inter=");
    push_decimal(&mut out, settings.ort_intra_threads as u64);
    push_str(&mut out, "/");
    push_decimal(&mut out, settings.ort_inter_threads as u64);
    push_str(&mut out, " (parallel=");
    if settings.ort_parallel {
        push_str(&mut out, "true");
    } else {
        push_str(&mut out, "false");
    }
    push_str(&mut out, ").");
    string_of(&out)
}

/// The variables that a tuning sets anew, with their values: the model
/// profile, where the networks run, the performance profile, the thread
/// counts and whether operators run side by side.
pub open spec fn tuning_env_of(s: HostSettings) -> Seq<(Seq<char>, Seq<char>)> {
    seq![
        ("DICTUM_MODEL_PROFILE"@, s.model_profile@),
        ("DICTUM_ORT_EP"@, s.ort_ep@),
        ("DICTUM_PERFORMANCE_PROFILE"@, s.performance_profile@),
        ("DICTUM_ORT_INTRA_THREADS"@, decimal(s.ort_intra_threads as nat)),
        ("DICTUM_ORT_INTER_THREADS"@, decimal(s.ort_inter_threads as nat)),
        ("DICTUM_ORT_PARALLEL"@, flag_text(s.ort_parallel)),
    ]
}

/// The variables that a tuning sets anew.
pub fn tuning_env(settings: &HostSettings) -> (list: Vec<EnvSetting>)
    ensures
        env_texts(list@) == tuning_env_of(*settings),
{
    let mut list: Vec<EnvSetting> = Vec::new();
    assert(env_texts(list@) =~= Seq::<(Seq<char>, Seq<char>)>::empty());
    put(&mut list, true, "DICTUM_MODEL_PROFILE", string_of(&chars_of(settings.model_profile.as_str())));
    put(&mut list, true, "DICTUM_ORT_EP", string_of(&chars_of(settings.ort_ep.as_str())));
    put(
        &mut list,
        true,
        "DICTUM_PERFORMANCE_PROFILE",
        string_of(&chars_of(settings.performance_profile.as_str())),
    );
    put(&mut list, true, "DICTUM_ORT_INTRA_THREADS", count_text(settings.ort_intra_threads));
    put(&mut list, true, "DICTUM_ORT_INTER_THREADS", count_text(settings.ort_inter_threads));
    put(&mut list, true, "DICTUM_ORT_PARALLEL", flag(settings.ort_parallel));
    assert(env_texts(list@) =~= tuning_env_of(*settings));
    list
}

/// A tuning as a change of the settings: the recommended model profile,
/// where the networks are to run, the threads and the performance profile.
pub fn tuning_update(
    recommended_profile: &str,
    suggested_ort_ep: &str,
    threads: ThreadPlan,
    profile: TunedProfile,
) -> (u: SettingsUpdate)
    ensures
        opt_text(u.model_profile) == Some(recommended_profile@),
        opt_text(u.ort_ep) == Some(suggested_ort_ep@),
        opt_text(u.performance_profile) == Some(profile_name(profile)),
        u.ort_intra_threads == Some(threads.intra_threads),
        u.ort_inter_threads == Some(threads.inter_threads),
        u.ort_parallel == Some(threads.parallel),
        u.toggle_shortcut is None,
        u.language_hint is None,
        u.post_utterance_refine is None,
        u.phrase_bias_terms is None,
        u.openai_api_key is None,
        u.cloud_mode is None,
        u.cloud_opt_in is None,
        u.reliability_mode is None,
        u.onboarding_completed is None,
        u.history_enabled is None,
        u.retention_days is None,
{
    SettingsUpdate {
        model_profile: Some(string_of(&chars_of(recommended_profile))),
        performance_profile: Some(profile.name()),
        toggle_shortcut: None,
        ort_ep: Some(string_of(&chars_of(suggested_ort_ep))),
        ort_intra_threads: Some(threads.intra_threads),
        ort_inter_threads: Some(threads.inter_threads),
        ort_parallel: Some(threads.parallel),
        language_hint: None,
        post_utterance_refine: None,
        phrase_bias_terms: None,
        openai_api_key: None,
        cloud_mode: None,
        cloud_opt_in: None,
        reliability_mode: None,
        onboarding_completed: None,
        history_enabled: None,
        retention_days: None,
    }
}

} // verus!
