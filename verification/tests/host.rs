use dictum_core::benchmark::{category_for, clamp_iterations, is_placeholder_text, overlap_counts};
use dictum_core::corrections::{
    delete_learned_correction, learn_correction, sort_corrections, CorrectionError,
};
use dictum_core::model_profiles::{
    choose_profile, model_profile_catalog, model_profile_present, recommend_model_profile,
};
use dictum_core::settings::{
    cloud_mode_for_consent, privacy_update, settle_cloud_mode, shortcut_to_register, trim_or_none,
    HostSettings, LearnedCorrection, SettingsUpdate,
};
use dictum_core::text::{parse_u64, split_chars, strip_leading, strip_trailing};
use dictum_core::transform::{
    apply_learned_corrections, apply_transform, is_duplicate_transcript, is_word_char, match_case,
    replace_slash_trigger, replace_word_case_aware, replace_word_case_insensitive,
    strip_terminal_period, DictionaryEntry, SnippetEntry,
};
use dictum_core::update::{
    entry_matches, name_or_path, parse_sha256_from_sums, parse_sums_line,
    check_installer_sha256, has_update, installer_sha256, latest_version, normalize_repo_slug,
    normalize_sha256_hex, sanitize_filename, select_checksums_asset, select_installer_asset, to_hex,
    verify_installer, version_tuple, SlugError,
    download_plan, installer_launched_message, release_checksums, release_feed_url,
    release_installer, signature_verdict, update_info, verify_download, DownloadError, Release, ReleaseAsset,
};

fn cs(s: &str) -> Vec<char> {
    s.chars().collect()
}

fn names(list: &[&str]) -> Vec<String> {
    list.iter().map(|s| s.to_string()).collect()
}

#[test]
fn numbers_are_parsed_like_the_standard_library() {
    for s in ["0", "7", "007", "+5", "18446744073709551615", "18446744073709551616", "", "+", "-1", "1a", " 1", "99999999999999999999999", "１"] {
        assert_eq!(parse_u64(&cs(s)), s.parse::<u64>().ok(), "parse {s:?}");
    }
}

#[test]
fn fields_are_split_like_the_standard_library() {
    for s in ["", "a", "a,b", ",", "a,,b", "a-b+c", "+-", "x\ny,z\n"] {
        let seps = vec![',', '-', '+', '\n'];
        let got: Vec<String> = split_chars(&cs(s), &seps).iter().map(|f| f.iter().collect()).collect();
        let expected: Vec<String> = s.split(&seps[..]).map(|f| f.to_string()).collect();
        assert_eq!(got, expected, "split {s:?}");
    }
    assert_eq!(strip_leading(&cs("vvV1"), 'v'), cs("V1"));
    assert_eq!(strip_leading(&cs("vvv"), 'v'), cs(""));
    assert_eq!(strip_trailing(&cs("/a/b//"), '/'), cs("/a/b"));
    assert_eq!(strip_trailing(&cs(""), '/'), cs(""));
}

#[test]
fn versions_are_read() {
    assert_eq!(version_tuple("1.2.3"), Some((1, 2, 3)));
    assert_eq!(version_tuple(" v1.2.3 "), Some((1, 2, 3)));
    assert_eq!(version_tuple("V2"), Some((2, 0, 0)));
    assert_eq!(version_tuple("vvVV3.1"), Some((3, 1, 0)));
    assert_eq!(version_tuple("1.2.3-beta.1"), Some((1, 2, 3)));
    assert_eq!(version_tuple("1.2.3+build5"), Some((1, 2, 3)));
    assert_eq!(version_tuple("1.2 -rc"), Some((1, 2, 0)));
    assert_eq!(version_tuple("1.2.3.4"), Some((1, 2, 3)));
    assert_eq!(version_tuple("1..3"), None);
    assert_eq!(version_tuple(""), None);
    assert_eq!(version_tuple("one"), None);
    assert_eq!(version_tuple("1.x"), None);
    assert_eq!(version_tuple("Vv1"), None);
    assert_eq!(version_tuple("99999999999999999999.0.0"), None);
    assert_eq!(latest_version(" v1.4.0 "), "1.4.0");
}

#[test]
fn updates_are_newer_releases() {
    assert!(has_update("1.2.3", "v1.2.4", false));
    assert!(has_update("1.2.3", "v1.3.0", false));
    assert!(has_update("1.9.9", "2.0.0", false));
    assert!(!has_update("1.2.3", "v1.2.3", false));
    assert!(!has_update("1.2.3", "v1.2.2", false));
    assert!(!has_update("1.2.3", "v9.9.9", true));
    // Versions that cannot be read are compared as texts.
    assert!(has_update("nightly", "nightly-2", false));
    assert!(!has_update(" nightly ", "nightly", false));
}

#[test]
fn repositories_are_owner_and_name() {
    assert_eq!(normalize_repo_slug(Some(" /Lattice-Labs/Dictum.app/ "), None), Ok("lattice-labs/dictum.app".to_string()));
    assert_eq!(normalize_repo_slug(None, Some("Owner/Repo")), Ok("owner/repo".to_string()));
    assert_eq!(normalize_repo_slug(None, None), Ok("latticelabs/dictum".to_string()));
    assert_eq!(normalize_repo_slug(Some("x/y"), Some("a/b")), Ok("x/y".to_string()));
    assert_eq!(normalize_repo_slug(Some(" // "), None), Err(SlugError::Empty));
    assert_eq!(normalize_repo_slug(Some("owner"), None), Err(SlugError::BadForm));
    assert_eq!(normalize_repo_slug(Some("a/b/c"), None), Err(SlugError::BadForm));
    assert_eq!(normalize_repo_slug(Some("a//b"), None), Err(SlugError::BadForm));
    assert_eq!(normalize_repo_slug(Some("a b/c"), None), Err(SlugError::BadCharacter));
    assert_eq!(normalize_repo_slug(Some("a/b?"), None), Err(SlugError::BadCharacter));
    assert_eq!(SlugError::Empty.message(), "Update repository cannot be empty.");
    assert_eq!(SlugError::BadForm.message(), "Update repository must be in the form owner/repo.");
    assert_eq!(SlugError::BadCharacter.message(), "Update repository contains invalid characters.");
}

#[test]
fn file_names_are_made_safe() {
    assert_eq!(sanitize_filename("Dictum Setup (1).exe"), "Dictum_Setup__1_.exe");
    assert_eq!(sanitize_filename("installer.EXE"), "installer.EXE");
    assert_eq!(sanitize_filename("installer.msi"), "installer.msi.exe");
    assert_eq!(sanitize_filename(""), "dictum-update.exe");
    assert_eq!(sanitize_filename("../../evil"), ".._.._evil.exe");
    assert_eq!(sanitize_filename("ünï"), "_n_.exe");
}

#[test]
fn assets_are_selected_by_name() {
    assert_eq!(select_installer_asset(&names(&["notes.txt", "app.exe", "App-Setup.exe", "app.msi"])), Some(2));
    assert_eq!(select_installer_asset(&names(&["app.exe", "setup-x64.exe", "app.msi"])), Some(1));
    assert_eq!(select_installer_asset(&names(&["app.exe", "app.msi", "b.msi"])), Some(1));
    assert_eq!(select_installer_asset(&names(&["a.exe", "b.exe"])), Some(0));
    assert_eq!(select_installer_asset(&names(&["a.zip", "setup"])), None);
    assert_eq!(select_installer_asset(&vec![]), None);
    assert_eq!(select_checksums_asset(&names(&["a.exe", "dist/SHA256SUMS.txt", "sha256sums.txt"])), Some(1));
    assert_eq!(select_checksums_asset(&names(&["a.exe", "my-sha256sums.txt"])), None);
}

#[test]
fn checksums_are_normalized() {
    let hex = "0123456789abcdef0123456789ABCDEF0123456789abcdef0123456789abcdef";
    assert_eq!(normalize_sha256_hex(hex), Some(hex.to_ascii_lowercase()));
    assert_eq!(normalize_sha256_hex(&format!("  **{hex}\n")), Some(hex.to_ascii_lowercase()));
    assert_eq!(normalize_sha256_hex(&hex[1..]), None);
    assert_eq!(normalize_sha256_hex(&format!("{hex}0")), None);
    assert_eq!(normalize_sha256_hex(&hex.replace('f', "g")), None);
    assert_eq!(normalize_sha256_hex(""), None);
}

#[test]
fn installer_is_verified_by_its_checksum() {
    // The digests of the empty input and of "abc" are published test vectors.
    let empty = "e3b0c44298fc1c149afbf4c8996fb92427ae41e4649b934ca495991b7852b855";
    let abc = "ba7816bf8f01cfea414140de5dae2223b00361a396177a9cb410ff61f20015ad";
    assert_eq!(installer_sha256(&vec![]), empty);
    assert_eq!(installer_sha256(&b"abc".to_vec()), abc);
    assert_eq!(verify_installer(&b"abc".to_vec(), abc), Ok(abc.to_string()));
    assert_eq!(
        verify_installer(&b"abd".to_vec(), abc),
        Err(format!(
            "installer checksum mismatch (expected {abc}, got {})",
            installer_sha256(&b"abd".to_vec())
        ))
    );
    assert_eq!(check_installer_sha256("aa".to_string(), "aa"), Ok("aa".to_string()));
    assert_eq!(
        check_installer_sha256("aa".to_string(), "AA"),
        Err("installer checksum mismatch (expected AA, got aa)".to_string())
    );
    assert_eq!(to_hex(&vec![0x00, 0x0f, 0xa0, 0xff, 0x7b]), "000fa0ff7b");
    assert_eq!(to_hex(&vec![]), "");
}

#[test]
fn words_are_replaced_in_their_case() {
    assert_eq!(replace_word_case_aware("i use rust daily", "rust", "Verus"), "i use Verus daily");
    assert_eq!(replace_word_case_aware("RUST and Rust and rust", "rust", "verus"), "VERUS and Verus and verus");
    assert_eq!(replace_word_case_aware("trust rusty rust's rust_x", "rust", "verus"), "trust rusty rust's rust_x");
    assert_eq!(replace_word_case_aware("rust, (rust) rust.", "rust", "ok"), "ok, (ok) ok.");
    assert_eq!(replace_word_case_aware("rust", "", "x"), "rust");
    assert_eq!(replace_word_case_aware("", "rust", "x"), "");
    assert_eq!(replace_word_case_aware("New York new york", "new york", "NYC"), "NYC NYC");
    assert_eq!(replace_word_case_aware("Rust", "rust", ""), "");
    assert_eq!(replace_word_case_aware("aaa", "a", "b"), "aaa");
    assert_eq!(replace_word_case_aware("a a a", "a", "b"), "b b b");
    assert_eq!(replace_word_case_aware("Übung rust", "RUST", "étude"), "Übung étude");
    assert_eq!(replace_word_case_insensitive("Rust RUST rust", "rust", "Verus"), "Verus Verus Verus");
    assert_eq!(replace_slash_trigger("send /sig now", "sig", "Best, A."), "send Best, A. now");
    assert_eq!(replace_slash_trigger("send /sig now", "/SIG", "Best"), "send Best now");
    assert_eq!(replace_slash_trigger("send sig now", "sig", "Best"), "send sig now");
    assert_eq!(match_case(&cs("ABC"), &cs("verus")), cs("VERUS"));
    assert_eq!(match_case(&cs("Abc"), &cs("verus")), cs("Verus"));
    assert_eq!(match_case(&cs("abc"), &cs("Verus")), cs("Verus"));
    assert_eq!(match_case(&cs("Abc"), &cs("")), cs(""));
    assert!(is_word_char('a') && is_word_char('9') && is_word_char('_') && is_word_char('\'') && is_word_char('é'));
    assert!(!is_word_char(' ') && !is_word_char('-') && !is_word_char('.'));
}

#[test]
fn terminal_period_is_stripped() {
    assert_eq!(strip_terminal_period("Done.  "), "Done");
    assert_eq!(strip_terminal_period("Done .\n"), "Done");
    assert_eq!(strip_terminal_period("Done!  "), "Done!  ");
    assert_eq!(strip_terminal_period("Done.."), "Done.");
    assert_eq!(strip_terminal_period(""), "");
}

fn entry(term: &str, aliases: &[&str], enabled: bool) -> DictionaryEntry {
    DictionaryEntry {
        id: "d".into(),
        term: term.into(),
        aliases: names(aliases),
        language: None,
        enabled,
        created_at: String::new(),
        updated_at: String::new(),
    }
}

fn snippet(trigger: &str, expansion: &str, mode: &str, enabled: bool) -> SnippetEntry {
    SnippetEntry {
        id: "s".into(),
        trigger: trigger.into(),
        expansion: expansion.into(),
        mode: mode.into(),
        enabled,
        created_at: String::new(),
        updated_at: String::new(),
    }
}

#[test]
fn dictionary_and_snippets_are_applied() {
    let dictionary = vec![
        entry("Verus", &["various", " veras "], true),
        entry("Z3", &["zee three"], false),
        entry("  ", &["blank"], true),
        entry("GitHub", &[""], true),
    ];
    let snippets = vec![
        snippet("sig", "Best regards", "slash", true),
        snippet("my address", " 1 Main St ", "phrase", true),
        snippet("off", "never", "phrase", false),
    ];
    let r = apply_transform("  i tried various things with veras and zee three on github.  ", &dictionary, &snippets);
    assert_eq!(r.text, "i tried Verus things with Verus and zee three on GitHub.");
    assert!(r.dictionary_applied);
    assert!(!r.snippet_applied);

    let r = apply_transform("Send to My Address /sig.", &dictionary, &snippets);
    assert_eq!(r.text, "Send to 1 Main St Best regards");
    assert!(!r.dictionary_applied);
    assert!(r.snippet_applied);

    let r = apply_transform("   ", &dictionary, &snippets);
    assert_eq!(r.text, "");
    assert!(!r.dictionary_applied && !r.snippet_applied);

    let r = apply_transform(" nothing to do. ", &vec![], &vec![]);
    assert_eq!(r.text, "nothing to do.");
}

#[test]
fn learned_corrections_are_applied() {
    let c = |heard: &str, corrected: &str| LearnedCorrection { heard: heard.into(), corrected: corrected.into(), hits: 1 };
    let corrections = vec![c(" verse ", "Verus"), c("", "x"), c("y", " "), c("Verus lang", "verus-lang")];
    assert_eq!(
        apply_learned_corrections(" the verse lang is Verse ", &corrections),
        ("the Verus-lang is Verus".to_string(), true)
    );
    assert_eq!(apply_learned_corrections(" nothing here ", &corrections), ("nothing here".to_string(), false));
    assert_eq!(apply_learned_corrections(" x ", &vec![]), ("x".to_string(), false));
}

#[test]
fn duplicates_are_told_by_text_and_time() {
    assert!(is_duplicate_transcript(Some(("hello", 1_000)), "hello", 1_500, 500));
    assert!(!is_duplicate_transcript(Some(("hello", 1_000)), "hello", 1_501, 500));
    assert!(!is_duplicate_transcript(Some(("hello", 1_000)), "Hello", 1_100, 500));
    assert!(is_duplicate_transcript(Some(("hello", 1_000)), "hello", 900, 0));
    assert!(!is_duplicate_transcript(None, "hello", 0, 500));
}

#[test]
fn catalog_lists_the_profiles() {
    let catalog = model_profile_catalog();
    let profiles: Vec<&str> = catalog.iter().map(|m| m.profile.as_str()).collect();
    assert_eq!(
        profiles,
        vec!["large-v3-turbo", "distil-large-v3", "large-v3", "medium.en", "medium", "small.en", "small", "base.en", "base", "tiny.en", "tiny"]
    );
    assert_eq!(catalog[0].label, "Large v3 Turbo");
    assert_eq!(catalog[0].min_ram_gb, 16);
    assert_eq!(catalog[0].min_vram_gb, Some(8));
    assert!(!catalog[0].english_optimized);
    assert_eq!(catalog[3].notes, "High quality English profile for balanced CPU/GPU use.");
    assert_eq!(catalog[10].speed_tier, "ultra_fast");
    assert_eq!(catalog[10].quality_tier, "basic");
    assert!(catalog[9].english_optimized);
}

#[test]
fn profile_is_chosen_for_the_machine() {
    let all: Vec<String> = model_profile_catalog().into_iter().map(|m| m.profile).collect();
    assert_eq!(choose_profile(&all, 4, 4, false).as_deref(), Some("distil-large-v3"));
    let small = names(&["tiny", "base.en", "small.en", "medium.en", "large-v3", "large-v3-turbo"]);
    assert_eq!(choose_profile(&small, 24, 32, true).as_deref(), Some("large-v3-turbo"));
    assert_eq!(choose_profile(&small, 12, 16, true).as_deref(), Some("large-v3-turbo"));
    assert_eq!(choose_profile(&small, 4, 8, true).as_deref(), Some("medium.en"));
    assert_eq!(choose_profile(&small, 16, 32, false).as_deref(), Some("medium.en"));
    assert_eq!(choose_profile(&small, 8, 16, false).as_deref(), Some("small.en"));
    assert_eq!(choose_profile(&small, 2, 4, false).as_deref(), Some("base.en"));
    assert_eq!(choose_profile(&names(&["tiny"]), 2, 4, false).as_deref(), Some("tiny"));
    assert_eq!(choose_profile(&names(&["custom", "medium"]), 2, 4, false).as_deref(), Some("custom"));
    assert_eq!(choose_profile(&vec![], 2, 4, false), None);
}

#[test]
fn recommendation_gives_its_reason() {
    let r = recommend_model_profile(" CPU ", true, 8, Some(32), names(&["small.en", "tiny"]));
    assert!(!r.directml_available);
    assert_eq!(r.suggested_ort_ep, "cpu");
    assert_eq!(r.recommended_profile, "small.en");
    assert_eq!(r.reason, "Detected 8 logical cores and 32 GB RAM; recommending small.en for CPU-first stability.");
    assert_eq!(r.available_profiles, names(&["small.en", "tiny"]));

    let r = recommend_model_profile("auto", true, 24, None, vec![]);
    assert!(r.directml_available);
    assert_eq!(r.suggested_ort_ep, "directml");
    assert_eq!(r.recommended_profile, "distil-large-v3");
    assert_eq!(
        r.reason,
        "Detected 24 logical cores and unknown RAM; recommending distil-large-v3 for GPU-accelerated dictation."
    );
    assert_eq!(r.system_ram_gb, None);
    assert_eq!(r.cpu_threads, 24);

    let r = recommend_model_profile("auto", false, 24, Some(64), names(&["large-v3"]));
    assert!(!r.directml_available);
    assert_eq!(r.recommended_profile, "large-v3");
}

#[test]
fn fixtures_are_classed_by_their_path() {
    assert_eq!(category_for("fixtures/Quiet/a.wav"), "quiet_speech");
    assert_eq!(category_for("fixtures/whisper/long/a.wav"), "whisper_speech");
    assert_eq!(category_for("fixtures/noise-floor/a.wav"), "noisy_room");
    assert_eq!(category_for("fixtures/NOISY/a.wav"), "noisy_room");
    assert_eq!(category_for("fixtures/long_form/a.wav"), "long_form");
    assert_eq!(category_for("fixtures/a.wav"), "other");
    assert_eq!(category_for("quiet/whisper"), "quiet_speech");
}

#[test]
fn overlap_counts_matching_places() {
    assert_eq!(overlap_counts("Hello, big world!", "hello small world"), Some((2, 3)));
    assert_eq!(overlap_counts("one two three four", "one two"), Some((2, 4)));
    assert_eq!(overlap_counts("a b", "b a c"), Some((0, 3)));
    assert_eq!(overlap_counts("", "hello"), None);
    assert_eq!(overlap_counts("hello", " ... "), None);
    assert_eq!(overlap_counts("same text", "same text"), Some((2, 2)));
    assert!(is_placeholder_text(" [Speech Captured] "));
    assert!(!is_placeholder_text("[speech captured]."));
    assert_eq!(clamp_iterations(0), 1);
    assert_eq!(clamp_iterations(5), 5);
    assert_eq!(clamp_iterations(50), 10);
}

#[test]
fn checksum_is_found_in_a_list() {
    let a = "a".repeat(64);
    let b = "B".repeat(64);
    let list = format!("# checksums\n\n{a}  Dictum-Setup.exe\r\n{b} *dist/other.msi\nnothashed file\nsingleword\nname-first.zip {a}\n");
    assert_eq!(parse_sha256_from_sums(&list, "dictum-setup.exe"), Some(a.clone()));
    assert_eq!(parse_sha256_from_sums(&list, " DICTUM-SETUP.EXE "), Some(a.clone()));
    assert_eq!(parse_sha256_from_sums(&list, "other.msi"), Some(b.to_ascii_lowercase()));
    assert_eq!(parse_sha256_from_sums(&list, "dist/other.msi"), Some(b.to_ascii_lowercase()));
    assert_eq!(parse_sha256_from_sums(&list, "name-first.zip"), Some(a.clone()));
    assert_eq!(parse_sha256_from_sums(&list, "missing.exe"), None);
    assert_eq!(parse_sha256_from_sums("", "x"), None);
    assert_eq!(parse_sums_line(&format!("  {b}   *File.EXE  extra")), Some(("file.exe".to_string(), b.to_ascii_lowercase())));
    assert_eq!(parse_sums_line(&format!("# {a} file")), None);
    assert_eq!(parse_sums_line("one two"), None);
    assert_eq!(parse_sums_line(""), None);
    assert!(entry_matches("a/b.exe", "b.exe", "c/b.exe", "b.exe"));
    assert!(entry_matches("x", "y", "x", "z"));
    assert!(!entry_matches("x", "y", "z", "w"));
}

fn stored_settings() -> HostSettings {
    HostSettings {
        preferred_input_device: Some("  ".to_string()),
        model_profile: " Turbo ".to_string(),
        performance_profile: "latency".to_string(),
        toggle_shortcut: " ".to_string(),
        ort_ep: "DML".to_string(),
        ort_intra_threads: 99,
        ort_inter_threads: 9,
        ort_parallel: false,
        language_hint: "ru".to_string(),
        post_utterance_refine: true,
        phrase_bias_terms: vec![" Verus ".to_string(), "verus".to_string(), "".to_string(), "Dictum".to_string()],
        openai_api_key: Some("  key-1 ".to_string()),
        cloud_mode: "local_only".to_string(),
        cloud_opt_in: true,
        reliability_mode: false,
        onboarding_completed: true,
        history_enabled: false,
        retention_days: 0,
        learned_corrections: vec![LearnedCorrection { heard: " Teh ".to_string(), corrected: " the ".to_string(), hits: 0 }],
    }
}

#[test]
fn settings_are_brought_to_their_canonical_form() {
    let mut s = stored_settings();
    s.normalize();
    assert_eq!(s.preferred_input_device, None);
    assert_eq!(s.model_profile, "large-v3-turbo");
    assert_eq!(s.performance_profile, "latency_short_utterance");
    assert_eq!(s.toggle_shortcut, "Ctrl+Shift+Space");
    assert_eq!(s.ort_ep, "directml");
    assert_eq!(s.ort_intra_threads, 32);
    assert_eq!(s.ort_inter_threads, 8);
    assert!(!s.ort_parallel);
    assert_eq!(s.language_hint, "russian");
    assert!(s.post_utterance_refine);
    assert_eq!(s.phrase_bias_terms, vec!["Verus".to_string(), "Dictum".to_string()]);
    assert_eq!(s.openai_api_key, Some("key-1".to_string()));
    assert_eq!(s.cloud_mode, "hybrid");
    assert!(s.cloud_opt_in);
    assert!(!s.reliability_mode);
    assert!(s.onboarding_completed);
    assert!(!s.history_enabled);
    assert_eq!(s.retention_days, 1);
    assert_eq!(s.learned_corrections.len(), 1);
    assert_eq!(s.learned_corrections[0].heard, "teh");
    assert_eq!(s.learned_corrections[0].corrected, "the");
    assert_eq!(s.learned_corrections[0].hits, 1);

    // Under the balanced English profile the hint is English; consent follows the mode.
    let mut e = stored_settings();
    e.performance_profile = "nonsense".to_string();
    e.cloud_mode = "cloud".to_string();
    e.cloud_opt_in = false;
    e.retention_days = 10_000;
    e.ort_intra_threads = 4;
    e.normalize();
    assert_eq!(e.performance_profile, "whisper_balanced_english");
    assert_eq!(e.language_hint, "english");
    assert_eq!(e.cloud_mode, "cloud_preferred");
    assert!(e.cloud_opt_in);
    assert_eq!(e.retention_days, 3650);
    assert_eq!(e.ort_intra_threads, 4);

    // Normalising twice changes nothing more.
    let mut twice = stored_settings();
    twice.normalize();
    twice.normalize();
    assert_eq!(twice.cloud_mode, s.cloud_mode);
    assert_eq!(twice.phrase_bias_terms, s.phrase_bias_terms);
    assert_eq!(twice.model_profile, s.model_profile);
}

#[test]
fn fresh_settings_are_the_defaults() {
    let d = HostSettings::default();
    assert_eq!(d.preferred_input_device, None);
    assert_eq!(d.model_profile, "distil-large-v3");
    assert_eq!(d.performance_profile, "whisper_balanced_english");
    assert_eq!(d.toggle_shortcut, "Ctrl+Shift+Space");
    assert_eq!(d.ort_ep, "auto");
    assert_eq!((d.ort_intra_threads, d.ort_inter_threads, d.ort_parallel), (0, 0, true));
    assert_eq!(d.language_hint, "english");
    assert_eq!(d.cloud_mode, "local_only");
    assert!(!d.cloud_opt_in && d.reliability_mode && !d.onboarding_completed && d.history_enabled);
    assert_eq!(d.retention_days, 90);
    assert!(d.phrase_bias_terms.is_empty() && d.learned_corrections.is_empty() && d.openai_api_key.is_none());
    let mut n = HostSettings::default();
    n.normalize();
    assert_eq!(n.model_profile, d.model_profile);
    assert_eq!(n.cloud_mode, d.cloud_mode);
    assert_eq!(n.retention_days, 90);
}

#[test]
fn cloud_modes_follow_consent() {
    assert_eq!(settle_cloud_mode("", true), "hybrid");
    assert_eq!(settle_cloud_mode("  ", false), "local_only");
    assert_eq!(settle_cloud_mode(" Local_Only ", true), "hybrid");
    assert_eq!(settle_cloud_mode("local_only", false), "local_only");
    assert_eq!(settle_cloud_mode("fallback", false), "hybrid");
    assert_eq!(settle_cloud_mode("prefer_cloud", true), "cloud_preferred");
    assert_eq!(settle_cloud_mode("whatever", true), "local_only");
    assert_eq!(cloud_mode_for_consent("cloud_preferred", true), "cloud_preferred");
    assert_eq!(cloud_mode_for_consent("local_only", true), "hybrid");
    assert_eq!(cloud_mode_for_consent("hybrid", true), "hybrid");
    assert_eq!(cloud_mode_for_consent("cloud_preferred", false), "local_only");
    assert_eq!(trim_or_none(&Some(" a b ".to_string())), Some("a b".to_string()));
    assert_eq!(trim_or_none(&Some(" \t".to_string())), None);
    assert_eq!(trim_or_none(&None), None);
}

#[test]
fn settings_reach_the_engine_as_variables() {
    let mut s = stored_settings();
    s.normalize();
    s.ort_inter_threads = 0;
    let env: Vec<(String, String)> = s.runtime_env().into_iter().map(|e| (e.key, e.value)).collect();
    let expected: Vec<(&str, &str)> = vec![
        ("DICTUM_MODEL_PROFILE", "large-v3-turbo"),
        ("DICTUM_ORT_EP", "directml"),
        ("DICTUM_ORT_INTRA_THREADS", "32"),
        ("DICTUM_ORT_PARALLEL", "0"),
        ("DICTUM_PERFORMANCE_PROFILE", "latency_short_utterance"),
        ("DICTUM_LANGUAGE_HINT", "russian"),
        ("DICTUM_CLOUD_FALLBACK", "1"),
        ("DICTUM_CLOUD_MODE", "hybrid"),
        ("DICTUM_OPENAI_API_KEY", "key-1"),
        ("DICTUM_POST_UTTERANCE_REFINEMENT", "1"),
        ("DICTUM_PHRASE_BIAS_TERMS", "Verus\nDictum"),
        ("DICTUM_RELIABILITY_MODE", "0"),
    ];
    let expected: Vec<(String, String)> = expected.into_iter().map(|(k, v)| (k.to_string(), v.to_string())).collect();
    assert_eq!(env, expected);

    let d = HostSettings::default().runtime_env();
    let keys: Vec<&str> = d.iter().map(|e| e.key.as_str()).collect();
    assert!(!keys.contains(&"DICTUM_ORT_INTRA_THREADS"));
    assert!(!keys.contains(&"DICTUM_ORT_INTER_THREADS"));
    assert!(!keys.contains(&"DICTUM_OPENAI_API_KEY"));
    let value = |k: &str| d.iter().find(|e| e.key == k).map(|e| e.value.clone());
    assert_eq!(value("DICTUM_CLOUD_FALLBACK"), Some("0".to_string()));
    assert_eq!(value("DICTUM_PHRASE_BIAS_TERMS"), Some(String::new()));
    assert_eq!(value("DICTUM_ORT_PARALLEL"), Some("1".to_string()));
}

fn pair(heard: &str, corrected: &str, hits: usize) -> LearnedCorrection {
    LearnedCorrection { heard: heard.into(), corrected: corrected.into(), hits }
}

fn pairs(list: &[LearnedCorrection]) -> Vec<(String, String, usize)> {
    list.iter().map(|c| (c.heard.clone(), c.corrected.clone(), c.hits)).collect()
}

fn triple(heard: &str, corrected: &str, hits: usize) -> (String, String, usize) {
    (heard.to_string(), corrected.to_string(), hits)
}

#[test]
fn corrections_are_listed_most_taught_first() {
    let list = vec![pair("b", "B", 1), pair("a", "A", 1), pair("z", "Z", 7), pair("a", "other", 1), pair("c", "C", 3)];
    let sorted = sort_corrections(&list);
    assert_eq!(
        pairs(&sorted),
        vec![triple("z", "Z", 7), triple("c", "C", 3), triple("a", "A", 1), triple("a", "other", 1), triple("b", "B", 1)]
    );
    assert!(sort_corrections(&vec![]).is_empty());
}

#[test]
fn a_new_pair_is_learned() {
    let list = vec![pair("teh", "the", 2)];
    let out = learn_correction(&list, "  Verus Lang ", " Verus ").unwrap();
    assert_eq!(pairs(&out), vec![triple("teh", "the", 2), triple("verus lang", "Verus", 1)]);
    let out = learn_correction(&vec![], "x", "y").unwrap();
    assert_eq!(pairs(&out), vec![triple("x", "y", 1)]);
}

#[test]
fn a_known_pair_gets_the_new_meaning_and_a_hit() {
    let list = vec![pair("teh", "the", 2), pair("adn", "and", 2), pair("adn", "an", 1)];
    let out = learn_correction(&list, " ADN ", "And").unwrap();
    // The first pair with that heard text is changed and now leads the list;
    // the second one with it says something else and stays.
    assert_eq!(pairs(&out), vec![triple("adn", "And", 3), triple("teh", "the", 2), triple("adn", "an", 1)]);
    let full = vec![pair("k", "v", usize::MAX)];
    let out = learn_correction(&full, "k", "w").unwrap();
    assert_eq!(pairs(&out), vec![triple("k", "w", 1_000_000)]);
}

#[test]
fn a_pair_that_lacks_a_side_is_refused() {
    assert_eq!(learn_correction(&vec![], "  ", "x").unwrap_err(), CorrectionError::BothRequired);
    assert_eq!(learn_correction(&vec![], "x", "\t").unwrap_err(), CorrectionError::BothRequired);
    assert_eq!(CorrectionError::BothRequired.message(), "Both 'heard' and 'corrected' are required.");
    assert_eq!(delete_learned_correction(&vec![], " ", None).unwrap_err(), CorrectionError::HeardRequired);
    assert_eq!(CorrectionError::HeardRequired.message(), "'heard' is required.");
}

#[test]
fn pairs_are_forgotten() {
    let list = vec![pair("teh", "the", 2), pair("adn", "and", 2), pair("adn", "an", 1), pair("x", "y", 1)];
    let out = delete_learned_correction(&list, " ADN", None).unwrap();
    assert_eq!(pairs(&out), vec![triple("teh", "the", 2), triple("x", "y", 1)]);
    let out = delete_learned_correction(&list, "adn", Some(" AN ")).unwrap();
    assert_eq!(pairs(&out), vec![triple("teh", "the", 2), triple("adn", "and", 2), triple("x", "y", 1)]);
    let out = delete_learned_correction(&list, "adn", Some("  ")).unwrap();
    assert_eq!(pairs(&out), vec![triple("teh", "the", 2), triple("x", "y", 1)]);
    let out = delete_learned_correction(&list, "nothing", None).unwrap();
    assert_eq!(out.len(), 4);
}

fn asset(name: &str) -> ReleaseAsset {
    ReleaseAsset { name: name.into(), browser_download_url: format!("https://example.test/{name}") }
}

fn release(tag: &str, assets: &[&str]) -> Release {
    Release {
        tag_name: tag.into(),
        name: Some("A release".into()),
        body: None,
        html_url: "https://example.test/release".into(),
        published_at: Some("2026-01-02T03:04:05Z".into()),
        draft: false,
        prerelease: false,
        assets: assets.iter().map(|a| asset(a)).collect(),
    }
}

#[test]
fn a_release_is_reported() {
    assert_eq!(release_feed_url("owner/repo"), "https://api.github.com/repos/owner/repo/releases/latest");
    let r = release(" v1.3.0 ", &["notes.txt", "Dictum.exe", "SHA256SUMS.txt", "Dictum-Setup.exe", "sha256sums.txt"]);
    let info = update_info("1.2.9", "owner/repo", &r, Some("ab".repeat(32))).unwrap();
    assert_eq!(info.current_version, "1.2.9");
    assert_eq!(info.latest_version, "1.3.0");
    assert!(info.has_update);
    assert_eq!(info.repo_slug, "owner/repo");
    assert_eq!(info.release_name.as_deref(), Some("A release"));
    assert_eq!(info.release_notes, None);
    assert_eq!(info.published_at.as_deref(), Some("2026-01-02T03:04:05Z"));
    assert_eq!(info.html_url, "https://example.test/release");
    assert_eq!(info.asset_name.as_deref(), Some("Dictum-Setup.exe"));
    assert_eq!(info.asset_download_url.as_deref(), Some("https://example.test/Dictum-Setup.exe"));
    assert_eq!(info.checksum_asset_name.as_deref(), Some("SHA256SUMS.txt"));
    assert_eq!(info.checksum_asset_download_url.as_deref(), Some("https://example.test/SHA256SUMS.txt"));
    assert_eq!(info.expected_installer_sha256, Some("ab".repeat(32)));
    assert_eq!(release_installer(&r), Some(3));
    assert_eq!(release_checksums(&r), Some(2));

    let bare = release("v1.2.9", &["readme.md"]);
    let info = update_info("1.2.9", "o/r", &bare, None).unwrap();
    assert!(!info.has_update);
    assert_eq!((info.asset_name, info.asset_download_url), (None, None));
    assert_eq!((info.checksum_asset_name, info.checksum_asset_download_url), (None, None));

    let mut pre = release("v9.0.0", &[]);
    pre.prerelease = true;
    assert!(!update_info("1.0.0", "o/r", &pre, None).unwrap().has_update);
    let mut draft = release("v9.0.0", &[]);
    draft.draft = true;
    assert_eq!(update_info("1.0.0", "o/r", &draft, None).unwrap_err(), "Latest GitHub release is still marked as draft.");
}

#[test]
fn a_download_is_planned() {
    let sum = "0123456789abcdef".repeat(4);
    let plan = download_plan("  https://example.test/dl/Dictum Setup.exe ", None, None, Some(&format!(" *{}", sum.to_uppercase()))).unwrap();
    assert_eq!(plan.url, "https://example.test/dl/Dictum Setup.exe");
    assert_eq!(plan.file_name, "Dictum_Setup.exe");
    assert!(plan.silent_install);
    assert_eq!(plan.expected_sha256, sum);
    let plan = download_plan("https://example.test/x", Some("  my tool "), Some(false), Some(&sum)).unwrap();
    assert_eq!(plan.file_name, "my_tool.exe");
    assert!(!plan.silent_install);
    let plan = download_plan("https://example.test/", None, None, Some(&sum)).unwrap();
    assert_eq!(plan.file_name, "dictum-update.exe");

    assert_eq!(download_plan("http://example.test/a.exe", None, None, Some(&sum)).unwrap_err(), DownloadError::NotHttps);
    assert_eq!(download_plan("ftp", None, None, None).unwrap_err(), DownloadError::NotHttps);
    assert_eq!(download_plan("https://example.test/a.exe", None, None, None).unwrap_err(), DownloadError::MissingChecksum);
    assert_eq!(download_plan("https://example.test/a.exe", None, None, Some("abc")).unwrap_err(), DownloadError::MissingChecksum);
    assert_eq!(DownloadError::NotHttps.message(), "Update URL must use HTTPS.");
    assert_eq!(DownloadError::MissingChecksum.message(), "Missing expected SHA-256 checksum for installer.");
}

#[test]
fn a_download_is_held_against_its_plan() {
    let bytes = b"installer".to_vec();
    let sum = installer_sha256(&bytes);
    let plan = download_plan("https://example.test/a.exe", None, None, Some(&sum)).unwrap();
    assert_eq!(verify_download(&bytes, &plan), Ok(sum.clone()));
    assert_eq!(verify_download(&vec![], &plan), Err("installer download was empty".to_string()));
    let other = b"something else".to_vec();
    let got = installer_sha256(&other);
    assert_eq!(
        verify_download(&other, &plan),
        Err(format!("installer checksum mismatch (expected {sum}, got {got})"))
    );
    assert_eq!(signature_verdict(" valid \n"), Ok("valid".to_string()));
    assert_eq!(
        signature_verdict("NotSigned"),
        Err("installer signature status is 'NotSigned', expected 'Valid'".to_string())
    );
    assert_eq!(
        installer_launched_message("abc", "C:\\tmp\\a.exe"),
        "Installer verified (sha256 abc) and launched from 'C:\\tmp\\a.exe'."
    );
}

fn no_change() -> SettingsUpdate {
    privacy_update(None, None, None)
}

#[test]
fn an_empty_change_changes_nothing() {
    let mut s = stored_settings();
    s.apply_update(no_change());
    let before = stored_settings();
    assert_eq!(s.model_profile, before.model_profile);
    assert_eq!(s.cloud_mode, before.cloud_mode);
    assert_eq!(s.cloud_opt_in, before.cloud_opt_in);
    assert_eq!(s.ort_intra_threads, before.ort_intra_threads);
    assert_eq!(s.phrase_bias_terms, before.phrase_bias_terms);
    assert_eq!(s.openai_api_key, before.openai_api_key);
    assert_eq!(s.retention_days, before.retention_days);
}

#[test]
fn a_change_is_taken_in() {
    let mut s = HostSettings::default();
    let update = SettingsUpdate {
        model_profile: Some(" Large ".into()),
        performance_profile: Some("latency".into()),
        toggle_shortcut: Some("  ".into()),
        ort_ep: Some("CPU".into()),
        ort_intra_threads: Some(64),
        ort_inter_threads: Some(3),
        ort_parallel: Some(false),
        language_hint: Some("zh".into()),
        post_utterance_refine: Some(true),
        phrase_bias_terms: Some(vec![" a ".into()]),
        openai_api_key: Some(" k ".into()),
        cloud_mode: Some("cloud".into()),
        cloud_opt_in: Some(true),
        reliability_mode: Some(false),
        onboarding_completed: Some(true),
        history_enabled: Some(false),
        retention_days: Some(0),
    };
    s.apply_update(update);
    assert_eq!(s.model_profile, "large-v3");
    assert_eq!(s.performance_profile, "latency_short_utterance");
    assert_eq!(s.toggle_shortcut, "Ctrl+Shift+Space");
    assert_eq!(s.ort_ep, "cpu");
    assert_eq!((s.ort_intra_threads, s.ort_inter_threads, s.ort_parallel), (32, 3, false));
    assert_eq!(s.language_hint, "mandarin");
    assert!(s.post_utterance_refine);
    assert_eq!(s.phrase_bias_terms, vec![" a ".to_string()]);
    assert_eq!(s.openai_api_key, Some(" k ".to_string()));
    assert_eq!(s.cloud_mode, "cloud_preferred");
    assert!(s.cloud_opt_in);
    assert!(!s.reliability_mode && s.onboarding_completed && !s.history_enabled);
    assert_eq!(s.retention_days, 1);
    s.normalize();
    assert_eq!(s.phrase_bias_terms, vec!["a".to_string()]);
    assert_eq!(s.openai_api_key, Some("k".to_string()));
    assert!(s.has_openai_api_key());
    assert_eq!(s.correction_count(), 0);
    assert!(s.cleared_env().is_empty());
}

#[test]
fn privacy_follows_consent() {
    let mut s = HostSettings::default();
    s.apply_update(privacy_update(Some(false), Some(9_999), Some(true)));
    s.normalize();
    let p = s.privacy();
    assert_eq!((p.history_enabled, p.retention_days, p.cloud_opt_in), (false, 3650, true));
    assert_eq!(s.cloud_mode, "hybrid");
    s.apply_update(privacy_update(None, None, Some(false)));
    s.normalize();
    assert_eq!(s.cloud_mode, "local_only");
    assert!(!s.privacy().cloud_opt_in);
    let mut c = HostSettings::default();
    c.cloud_mode = "cloud_preferred".into();
    c.apply_update(privacy_update(None, None, Some(true)));
    assert_eq!(c.cloud_mode, "cloud_preferred");
    // A mode that is set beside a withdrawn consent gives way to it.
    let mut u = no_change();
    u.cloud_mode = Some("cloud".into());
    u.cloud_opt_in = Some(false);
    c.apply_update(u);
    assert_eq!(c.cloud_mode, "local_only");
    assert_eq!(
        HostSettings::default().cleared_env(),
        vec!["DICTUM_ORT_INTRA_THREADS".to_string(), "DICTUM_ORT_INTER_THREADS".into(), "DICTUM_OPENAI_API_KEY".into()]
    );
    assert_eq!(shortcut_to_register("Ctrl+A", "Ctrl+A"), None);
    assert_eq!(shortcut_to_register("Ctrl+A", "Ctrl+B"), Some(("Ctrl+A".to_string(), "Ctrl+B".to_string())));
}

#[test]
fn the_small_profile_may_lie_in_the_root() {
    assert!(model_profile_present("large-v3", true, false));
    assert!(!model_profile_present("large-v3", false, true));
    assert!(model_profile_present("small", false, true));
    assert!(model_profile_present("small", true, false));
    assert!(!model_profile_present("small", false, false));
    assert!(!model_profile_present("Small", false, true));
}

#[test]
fn the_name_of_a_file_is_a_part_of_its_path() {
    assert_eq!(name_or_path("dist/file.exe", Some("file.exe".to_string())), "file.exe");
    assert_eq!(name_or_path("dist/file.exe", Some("dist".to_string())), "dist");
    assert_eq!(name_or_path("dist/file.exe", None), "dist/file.exe");
    // What is no part of the path is not taken for the name of its file.
    assert_eq!(name_or_path("dist/file.exe", Some("other.exe".to_string())), "dist/file.exe");
    assert_eq!(name_or_path("", Some("x".to_string())), "");
    assert_eq!(name_or_path("a", Some(String::new())), "");
    // The list of checksums is searched by these names.
    let sum = "c".repeat(64);
    let list = format!("{sum}  build/out/Dictum-Setup.exe\n");
    assert_eq!(parse_sha256_from_sums(&list, "Dictum-Setup.exe"), Some(sum.clone()));
    assert_eq!(parse_sha256_from_sums(&list, "elsewhere/dictum-setup.exe"), Some(sum));
    assert_eq!(parse_sha256_from_sums(&list, "Setup.exe"), None);
}
