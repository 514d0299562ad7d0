use dictum_core::vad::energy::EnergyVad;
use dictum_core::vad::VadDecision;

fn rms(samples: &[f32]) -> f32 {
    if samples.is_empty() {
        return 0.0;
    }
    let sum_sq: f32 = samples.iter().map(|s| s * s).sum();
    (sum_sq / samples.len() as f32).sqrt()
}

fn silent_chunk(len: usize) -> Vec<f32> {
    vec![0.0f32; len]
}

fn loud_chunk(amplitude: f32, len: usize) -> Vec<f32> {
    vec![amplitude; len]
}

/// The detector of the engine: the level is measured here, the hangover is the library's.
struct Detector {
    threshold: f32,
    vad: EnergyVad,
}

impl Detector {
    fn new(threshold: f32, hangover_frames: u32) -> Self {
        Detector { threshold, vad: EnergyVad::new(hangover_frames) }
    }

    fn classify(&mut self, samples: &[f32]) -> VadDecision {
        self.vad.classify(rms(samples) >= self.threshold)
    }

    fn reset(&mut self) {
        self.vad.reset();
    }
}

#[test]
fn silence_below_threshold() {
    let mut vad = Detector::new(0.02, 0);
    let chunk = silent_chunk(160);
    assert_eq!(vad.classify(&chunk), VadDecision::Silence);
}

#[test]
fn speech_above_threshold() {
    let mut vad = Detector::new(0.02, 0);
    let chunk = loud_chunk(0.5, 160);
    assert_eq!(vad.classify(&chunk), VadDecision::Speech);
}

#[test]
fn hangover_extends_speech() {
    let mut vad = Detector::new(0.02, 3);

    assert_eq!(vad.classify(&loud_chunk(0.5, 160)), VadDecision::Speech);

    assert_eq!(vad.classify(&silent_chunk(160)), VadDecision::Speech);
    assert_eq!(vad.classify(&silent_chunk(160)), VadDecision::Speech);
    assert_eq!(vad.classify(&silent_chunk(160)), VadDecision::Speech);

    assert_eq!(vad.classify(&silent_chunk(160)), VadDecision::Silence);
}

#[test]
fn reset_clears_hangover() {
    let mut vad = Detector::new(0.02, 5);
    vad.classify(&loud_chunk(0.5, 160));
    vad.reset();
    assert_eq!(vad.classify(&silent_chunk(160)), VadDecision::Silence);
}

#[test]
fn empty_chunk_is_silence() {
    let mut vad = Detector { threshold: 0.02, vad: EnergyVad::default() };
    let chunk: Vec<f32> = vec![];
    assert_eq!(vad.classify(&chunk), VadDecision::Silence);
}

#[test]
fn rms_of_unit_sine_approximation() {
    let samples: Vec<f32> = (0..256).map(|i| if i % 2 == 0 { 0.5 } else { -0.5 }).collect();
    let level = rms(&samples);
    assert!((level - 0.5).abs() < 1e-5, "rms={level}");
}

#[test]
fn hangover_lasts_exactly_its_frames_for_many_lengths() {
    for frames in 0u32..12 {
        let mut vad = EnergyVad::new(frames);
        assert_eq!(vad.classify(true), VadDecision::Speech);
        for i in 0..20u32 {
            let expected = if i < frames { VadDecision::Speech } else { VadDecision::Silence };
            assert_eq!(vad.classify(false), expected, "frames={frames} i={i}");
        }
    }
}

#[test]
fn loud_chunk_restarts_hangover() {
    let mut vad = EnergyVad::new(2);
    assert_eq!(vad.classify(true), VadDecision::Speech);
    assert_eq!(vad.classify(false), VadDecision::Speech);
    assert_eq!(vad.classify(true), VadDecision::Speech);
    assert_eq!(vad.classify(false), VadDecision::Speech);
    assert_eq!(vad.classify(false), VadDecision::Speech);
    assert_eq!(vad.classify(false), VadDecision::Silence);
}

#[test]
fn decision_is_speech_only_for_speech() {
    assert!(VadDecision::Speech.is_speech());
    assert!(!VadDecision::Silence.is_speech());
}
