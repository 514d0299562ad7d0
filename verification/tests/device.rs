use dictum_core::audio::device::{is_loopback_like_name, mic_preference_score};

#[test]
fn detects_common_loopback_names() {
    assert!(is_loopback_like_name("Stereo Mix (Realtek Audio)"));
    assert!(is_loopback_like_name("What U Hear (Sound Blaster)"));
    assert!(is_loopback_like_name("Speakers (High Definition Audio Device)"));
}

#[test]
fn scores_mic_higher_than_loopback() {
    let mic = mic_preference_score("Microphone Array (USB PnP Audio Device)");
    let loopback = mic_preference_score("Stereo Mix (Realtek Audio)");
    assert!(mic > loopback);
}
