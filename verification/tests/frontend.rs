use dictum_core::buffering::chunk::AudioChunk;
use dictum_core::buffering::{append_rolling_samples, copy_vec, retain_tail_samples, RING_CAPACITY};
use dictum_core::inference::cache::{
    can_use_cache, collect_present_key_values, decoder_with_past_input_names, has_name,
    present_to_past_input_name,
};
use dictum_core::inference::frontend::{
    active_frames, activity_window, encoder_dims, mel_bins_update, pad_or_trim, reflect_index,
    reflect_pad, wav_header,
};
use dictum_core::inference::session::{
    profile_directory, selected_models_dir, ModelsDir,
    flag_is_on, ort_execution_preference, session_threading, OrtExecutionPreference,
};

fn names(list: &[&str]) -> Vec<String> {
    list.iter().map(|s| s.to_string()).collect()
}

#[test]
fn frames_follow_the_active_samples() {
    assert_eq!(active_frames(0), 3);
    assert_eq!(active_frames(1), 3);
    assert_eq!(active_frames(16_000), 103);
    assert_eq!(active_frames(480_000), 3_000);
    assert_eq!(active_frames(usize::MAX), 3_000);
}

#[test]
fn audio_is_cut_or_filled_to_the_window() {
    let short = pad_or_trim(&vec![1.5f32, 2.5], 0.0);
    assert_eq!(short.len(), 480_000);
    assert_eq!(&short[..3], &[1.5, 2.5, 0.0]);
    assert_eq!(short[479_999], 0.0);
    let long = pad_or_trim(&vec![7u8; 480_010], 0);
    assert_eq!(long.len(), 480_000);
    assert_eq!(long[479_999], 7);
}

#[test]
fn indices_are_mirrored_at_both_ends() {
    let expected = [(-1isize, 1usize), (-2, 2), (0, 0), (4, 4), (5, 3), (8, 0), (9, 1), (-4, 4), (-5, 3), (-8, 0), (17, 1)];
    for (i, r) in expected {
        assert_eq!(reflect_index(i, 5), r, "index {i}");
    }
    assert_eq!(reflect_index(3, 2), 1);
    assert_eq!(reflect_index(-3, 2), 1);
}

#[test]
fn padding_mirrors_the_signal() {
    assert_eq!(reflect_pad(&vec![1, 2, 3, 4], 2, 0), vec![3, 2, 1, 2, 3, 4, 3, 2]);
    assert_eq!(reflect_pad(&vec![1, 2, 3, 4], 0, 0), vec![1, 2, 3, 4]);
    assert_eq!(reflect_pad(&vec![9], 2, 0), vec![9, 9, 9, 9, 9]);
    assert_eq!(reflect_pad(&Vec::<i32>::new(), 2, 0), vec![0, 0, 0, 0]);
    assert_eq!(reflect_pad(&vec![1.0f32, 2.0], 3, 0.0), vec![2.0, 1.0, 2.0, 1.0, 2.0, 1.0, 2.0, 1.0]);
}

#[test]
fn encoder_shape_is_read() {
    assert_eq!(mel_bins_update(&vec![1, 128, 3_000], 80), Some(128));
    assert_eq!(mel_bins_update(&vec![1, 80, 3_000], 80), None);
    assert_eq!(mel_bins_update(&vec![1, -1, 3_000], 80), None);
    assert_eq!(mel_bins_update(&vec![1], 80), None);
    assert_eq!(encoder_dims(&vec![1, 1_500, 512], 768_000), (1_500, 512));
    assert_eq!(encoder_dims(&vec![1, 1_500], 576_000), (1_500, 384));
    assert_eq!(encoder_dims(&vec![1, -1, 512], 3_840), (10, 384));
}

#[test]
fn activity_window_pads_within_the_audio() {
    assert_eq!(activity_window(100, Some(40), Some(50), 16, 4), Some((36, 54)));
    assert_eq!(activity_window(100, Some(2), Some(98), 16, 4), Some((0, 99)));
    assert_eq!(activity_window(100, None, None, 16, 4), Some((0, 99)));
    assert_eq!(activity_window(100, Some(10), Some(10), 0, 4), Some((9, 11)));
    assert_eq!(activity_window(100, Some(60), Some(50), 16, 4), None);
    assert_eq!(activity_window(0, None, None, 16, 4), None);
    assert_eq!(activity_window(100, Some(40), Some(50), 20, 5), Some((36, 54)));
    assert_eq!(activity_window(10, Some(4), Some(10), 16, 4), None);
}

#[test]
fn wave_header_spells_sizes_and_rates() {
    let h = wav_header(2, 16_000).unwrap();
    let expected: Vec<u8> = vec![
        b'R', b'I', b'F', b'F', 40, 0, 0, 0, b'W', b'A', b'V', b'E', b'f', b'm', b't', b' ', 16, 0, 0, 0, 1, 0, 1, 0,
        0x80, 0x3E, 0, 0, 0x00, 0x7D, 0, 0, 2, 0, 16, 0, b'd', b'a', b't', b'a', 4, 0, 0, 0,
    ];
    assert_eq!(h, expected);
    let h = wav_header(100_000, 48_000).unwrap();
    assert_eq!(&h[4..8], &(36u32 + 200_000).to_le_bytes());
    assert_eq!(&h[24..28], &48_000u32.to_le_bytes());
    assert_eq!(&h[28..32], &96_000u32.to_le_bytes());
    assert_eq!(&h[40..44], &200_000u32.to_le_bytes());
    assert_eq!(wav_header(0, 0).unwrap().len(), 44);
    assert!(wav_header(0x7fff_ffed, 1).is_some());
    assert!(wav_header(0x7fff_ffee, 1).is_none());
    assert!(wav_header(1, 0x8000_0000).is_none());
}

#[test]
fn cache_names_map_outputs_to_inputs() {
    assert_eq!(
        present_to_past_input_name("present.0.decoder.key").as_deref(),
        Some("past_key_values.0.decoder.key")
    );
    assert_eq!(present_to_past_input_name("present_key_values.1.x").as_deref(), Some("past_key_values.1.x"));
    assert_eq!(present_to_past_input_name("past_key_values.2").as_deref(), Some("past_key_values.2"));
    assert_eq!(present_to_past_input_name("present.").as_deref(), Some("past_key_values."));
    assert_eq!(present_to_past_input_name("logits"), None);
    assert_eq!(present_to_past_input_name("present"), None);
    assert_eq!(present_to_past_input_name(""), None);
}

#[test]
fn cache_runs_only_with_all_its_state() {
    let inputs = names(&["input_ids", "encoder_hidden_states", "past_key_values.0.key", "past_key_values.0.value"]);
    let required = decoder_with_past_input_names(&inputs);
    assert_eq!(required, names(&["past_key_values.0.key", "past_key_values.0.value"]));
    let some = names(&["past_key_values.0.key"]);
    let all = names(&["past_key_values.0.value", "past_key_values.0.key", "extra"]);
    assert!(!can_use_cache(0, &required, &all));
    assert!(can_use_cache(1, &required, &all));
    assert!(!can_use_cache(1, &required, &some));
    assert!(!can_use_cache(1, &vec![], &all));
    assert!(has_name(&all, "extra"));
    assert!(!has_name(&all, "Extra"));
}

#[test]
fn present_outputs_are_collected_for_the_inputs_that_exist() {
    let outputs = names(&["logits", "present.0.key", "present.0.value", "present.1.key", "past_key_values.9.key"]);
    let required = names(&["past_key_values.0.key", "past_key_values.0.value", "past_key_values.9.key"]);
    let moves = collect_present_key_values(&outputs, &required);
    let got: Vec<(usize, &str)> = moves.iter().map(|m| (m.output, m.input.as_str())).collect();
    assert_eq!(
        got,
        vec![(1, "past_key_values.0.key"), (2, "past_key_values.0.value"), (4, "past_key_values.9.key")]
    );
    assert!(collect_present_key_values(&outputs, &vec![]).is_empty());
}

#[test]
fn session_threads_are_kept_in_range() {
    let t = session_threading(OrtExecutionPreference::Cpu, 16, None, None, None);
    assert_eq!((t.intra_threads, t.inter_threads, t.parallel_execution), (12, 1, false));
    let t = session_threading(OrtExecutionPreference::Auto, 1, None, None, None);
    assert_eq!((t.intra_threads, t.inter_threads, t.parallel_execution), (2, 1, false));
    let t = session_threading(OrtExecutionPreference::DirectML, 1, None, None, None);
    assert_eq!((t.intra_threads, t.inter_threads, t.parallel_execution), (4, 2, true));
    let t = session_threading(OrtExecutionPreference::DirectML, 8, Some(0), Some(100), Some(false));
    assert_eq!((t.intra_threads, t.inter_threads, t.parallel_execution), (1, 8, false));
    let t = session_threading(OrtExecutionPreference::Cpu, 8, Some(64), Some(3), Some(true));
    assert_eq!((t.intra_threads, t.inter_threads, t.parallel_execution), (32, 3, true));
}

#[test]
fn execution_preference_and_flags_are_parsed() {
    assert_eq!(ort_execution_preference(" CPU "), OrtExecutionPreference::Cpu);
    assert_eq!(ort_execution_preference("dml"), OrtExecutionPreference::DirectML);
    assert_eq!(ort_execution_preference("DirectML"), OrtExecutionPreference::DirectML);
    assert_eq!(ort_execution_preference("gpu"), OrtExecutionPreference::Auto);
    assert_eq!(ort_execution_preference(""), OrtExecutionPreference::Auto);
    assert!(flag_is_on("1"));
    assert!(flag_is_on("TRUE"));
    assert!(flag_is_on("true"));
    assert!(!flag_is_on(" 1"));
    assert!(!flag_is_on("yes"));
    assert!(!flag_is_on("0"));
}

#[test]
fn rolling_window_keeps_the_newest() {
    let mut buf = vec![1, 2, 3];
    append_rolling_samples(&mut buf, &vec![4, 5], 4);
    assert_eq!(buf, vec![2, 3, 4, 5]);
    append_rolling_samples(&mut buf, &vec![6, 7, 8, 9, 10], 4);
    assert_eq!(buf, vec![7, 8, 9, 10]);
    append_rolling_samples(&mut buf, &vec![], 4);
    assert_eq!(buf, vec![7, 8, 9, 10]);
    append_rolling_samples(&mut buf, &vec![11], 0);
    assert_eq!(buf, vec![7, 8, 9, 10]);
    append_rolling_samples(&mut buf, &vec![11], 10);
    assert_eq!(buf, vec![7, 8, 9, 10, 11]);
    let mut long = vec![1, 2, 3, 4, 5, 6];
    append_rolling_samples(&mut long, &vec![7], 3);
    assert_eq!(long, vec![5, 6, 7]);
}

#[test]
fn tail_is_retained() {
    let mut buf = vec![1.0f32, 2.0, 3.0, 4.0];
    retain_tail_samples(&mut buf, 2);
    assert_eq!(buf, vec![3.0, 4.0]);
    retain_tail_samples(&mut buf, 5);
    assert_eq!(buf, vec![3.0, 4.0]);
    retain_tail_samples(&mut buf, 0);
    assert!(buf.is_empty());
    assert_eq!(copy_vec(&vec![1u8, 2, 3]), vec![1, 2, 3]);
}

#[test]
fn chunks_know_their_length() {
    let chunk = AudioChunk::new(vec![0.0f32; 8_000], 16_000);
    assert!(!chunk.is_empty());
    assert_eq!(chunk.duration_millis(), Some(500));
    assert_eq!(AudioChunk::new(vec![0i16; 1], 3).duration_millis(), Some(333));
    assert_eq!(AudioChunk::new(vec![0i16; 1], 0).duration_millis(), None);
    assert!(AudioChunk::<f32>::new(vec![], 16_000).is_empty());
    assert_eq!(RING_CAPACITY, 1 << 22);
}

#[test]
fn the_models_directory_is_chosen_in_order() {
    assert!(matches!(
        selected_models_dir(Some("  /opt/models "), Some("large"), true),
        ModelsDir::Explicit(d) if d == "/opt/models"
    ));
    assert!(matches!(
        selected_models_dir(Some("   "), Some(" large-v3 "), true),
        ModelsDir::Profile(p) if p == "large-v3"
    ));
    assert!(matches!(selected_models_dir(None, Some("large"), false), ModelsDir::Default));
    assert!(matches!(selected_models_dir(None, Some("SMALL"), true), ModelsDir::Default));
    assert!(matches!(selected_models_dir(None, Some(" "), true), ModelsDir::Default));
    assert!(matches!(selected_models_dir(None, None, true), ModelsDir::Default));
    assert_eq!(profile_directory(Some(" Medium ")), Some("Medium".to_string()));
    assert_eq!(profile_directory(Some("Small")), None);
    assert_eq!(profile_directory(Some("")), None);
    assert_eq!(profile_directory(None), None);
}
