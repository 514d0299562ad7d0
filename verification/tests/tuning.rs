use dictum_core::settings::HostSettings;
use dictum_core::tuning::{
    benchmark_profile, benchmark_thread_plan, thread_plan, tuned_profile, tuning_env, tuning_summary,
    tuning_update, FinalizeLatency, ThreadPlan, TunedProfile,
};

fn plan(intra_threads: usize, inter_threads: usize, parallel: bool) -> ThreadPlan {
    ThreadPlan { intra_threads, inter_threads, parallel }
}

#[test]
fn threads_follow_the_machine() {
    assert_eq!(thread_plan(1, false), plan(2, 1, false));
    assert_eq!(thread_plan(6, false), plan(6, 1, false));
    assert_eq!(thread_plan(64, false), plan(12, 1, false));
    assert_eq!(thread_plan(2, true), plan(4, 2, false));
    assert_eq!(thread_plan(8, true), plan(8, 2, true));
    assert_eq!(thread_plan(7, true), plan(7, 2, false));
    assert_eq!(thread_plan(32, true), plan(12, 2, true));
}

#[test]
fn the_profile_follows_the_machine() {
    assert_eq!(tuned_profile(16), TunedProfile::WhisperBalancedEnglish);
    assert_eq!(tuned_profile(15), TunedProfile::BalancedGeneral);
    assert_eq!(tuned_profile(10), TunedProfile::BalancedGeneral);
    assert_eq!(tuned_profile(9), TunedProfile::LatencyShortUtterance);
    assert_eq!(tuned_profile(0), TunedProfile::LatencyShortUtterance);
    assert_eq!(TunedProfile::StabilityLongForm.name(), "stability_long_form");
    assert_eq!(TunedProfile::WhisperBalancedEnglish.name(), "whisper_balanced_english");
    assert_eq!(TunedProfile::BalancedGeneral.name(), "balanced_general");
    assert_eq!(TunedProfile::LatencyShortUtterance.name(), "latency_short_utterance");
}

#[test]
fn a_benchmark_moves_the_threads() {
    assert_eq!(benchmark_thread_plan(8, false, FinalizeLatency::Fair), plan(8, 1, false));
    assert_eq!(benchmark_thread_plan(8, false, FinalizeLatency::Slow), plan(8, 1, false));
    assert_eq!(benchmark_thread_plan(8, false, FinalizeLatency::TooSlow), plan(10, 1, true));
    assert_eq!(benchmark_thread_plan(8, false, FinalizeLatency::Quick), plan(7, 1, false));
    assert_eq!(benchmark_thread_plan(1, false, FinalizeLatency::Quick), plan(2, 1, false));
    assert_eq!(benchmark_thread_plan(40, true, FinalizeLatency::Fair), plan(14, 2, true));
    assert_eq!(benchmark_thread_plan(40, true, FinalizeLatency::TooSlow), plan(16, 1, true));
    assert_eq!(benchmark_thread_plan(40, true, FinalizeLatency::Quick), plan(13, 2, true));
    assert_eq!(benchmark_thread_plan(4, true, FinalizeLatency::Quick), plan(3, 2, false));
}

#[test]
fn a_benchmark_chooses_the_profile() {
    assert_eq!(benchmark_profile(FinalizeLatency::Quick, true), TunedProfile::StabilityLongForm);
    assert_eq!(benchmark_profile(FinalizeLatency::TooSlow, true), TunedProfile::StabilityLongForm);
    assert_eq!(benchmark_profile(FinalizeLatency::TooSlow, false), TunedProfile::LatencyShortUtterance);
    assert_eq!(benchmark_profile(FinalizeLatency::Slow, false), TunedProfile::LatencyShortUtterance);
    assert_eq!(benchmark_profile(FinalizeLatency::Fair, false), TunedProfile::WhisperBalancedEnglish);
    assert_eq!(benchmark_profile(FinalizeLatency::Quick, false), TunedProfile::WhisperBalancedEnglish);
}

#[test]
fn a_tuning_is_taken_into_the_settings() {
    let mut s = HostSettings::default();
    s.apply_update(tuning_update("Turbo", "DML", thread_plan(8, true), tuned_profile(8)));
    s.normalize();
    assert_eq!(s.model_profile, "large-v3-turbo");
    assert_eq!(s.ort_ep, "directml");
    assert_eq!((s.ort_intra_threads, s.ort_inter_threads, s.ort_parallel), (8, 2, true));
    assert_eq!(s.performance_profile, "latency_short_utterance");
    assert_eq!(
        tuning_summary(&s),
        "Applied large-v3-turbo with directml EP and ONNX threads intra/inter=8/2 (parallel=true)."
    );
    let env: Vec<(String, String)> = tuning_env(&s).into_iter().map(|e| (e.key, e.value)).collect();
    let expected: Vec<(String, String)> = [
        ("DICTUM_MODEL_PROFILE", "large-v3-turbo"),
        ("DICTUM_ORT_EP", "directml"),
        ("DICTUM_PERFORMANCE_PROFILE", "latency_short_utterance"),
        ("DICTUM_ORT_INTRA_THREADS", "8"),
        ("DICTUM_ORT_INTER_THREADS", "2"),
        ("DICTUM_ORT_PARALLEL", "1"),
    ]
    .iter()
    .map(|(k, v)| (k.to_string(), v.to_string()))
    .collect();
    assert_eq!(env, expected);
    let d = HostSettings::default();
    assert_eq!(
        tuning_summary(&d),
        "Applied distil-large-v3 with auto EP and ONNX threads intra/inter=0/0 (parallel=true)."
    );
}
