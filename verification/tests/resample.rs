use dictum_core::audio::resample::{split_blocks, Converted, RateConverter};
use dictum_core::error::DictumError;
use rubato::{FastFixedIn, PolynomialDegree, Resampler};

/// Runs the blocks of a converter through the resampling algorithm.
fn resample_blocks(resampler: &mut FastFixedIn<f32>, blocks: &[Vec<f32>]) -> Vec<f32> {
    let mut output = vec![vec![0f32; resampler.output_frames_max()]; 1];
    let mut result = Vec::new();
    for block in blocks {
        let (_consumed, produced) = resampler
            .process_into_buffer(&[block.as_slice()], &mut output, None)
            .expect("resample");
        result.extend_from_slice(&output[0][..produced]);
    }
    result
}

fn process(rc: &mut RateConverter<f32>, resampler: &mut Option<FastFixedIn<f32>>, samples: &[f32]) -> Vec<f32> {
    match rc.process(&samples.to_vec()) {
        Converted::Passthrough(v) => v,
        Converted::Blocks(blocks) => resample_blocks(resampler.as_mut().expect("resampler"), &blocks),
    }
}

fn converter(capture: u32, target: u32, chunk: usize) -> (RateConverter<f32>, Option<FastFixedIn<f32>>) {
    let rc = RateConverter::<f32>::new(capture, target, chunk).unwrap();
    let resampler = if rc.is_passthrough() {
        None
    } else {
        Some(
            FastFixedIn::<f32>::new(target as f64 / capture as f64, 1.0, PolynomialDegree::Cubic, chunk, 1)
                .unwrap(),
        )
    };
    (rc, resampler)
}

#[test]
fn passthrough_identity() {
    let (mut rc, mut rs) = converter(16_000, 16_000, 960);
    assert!(rc.is_passthrough());
    let samples: Vec<f32> = (0..480).map(|i| i as f32 * 0.001).collect();
    let out = process(&mut rc, &mut rs, &samples);
    assert_eq!(out, samples);
}

#[test]
fn ratio_48k_to_16k_correct_length() {
    let (mut rc, mut rs) = converter(48_000, 16_000, 960);
    assert!(!rc.is_passthrough());
    let samples = vec![0.0f32; 960];
    let out = process(&mut rc, &mut rs, &samples);
    assert!(!out.is_empty(), "expected non-empty output");
    let expected = 320usize;
    assert!(
        (out.len() as isize - expected as isize).unsigned_abs() <= 10,
        "output len={} expected≈{}",
        out.len(),
        expected
    );
}

#[test]
fn partial_accumulation_returns_empty() {
    let (mut rc, mut rs) = converter(48_000, 16_000, 960);
    let samples = vec![0.0f32; 500];
    let out = process(&mut rc, &mut rs, &samples);
    assert!(out.is_empty(), "expected empty output for partial chunk, got {}", out.len());
}

#[test]
fn multiple_partial_chunks_accumulate() {
    let (mut rc, mut rs) = converter(48_000, 16_000, 960);
    let out1 = process(&mut rc, &mut rs, &vec![0.0f32; 500]);
    assert!(out1.is_empty());
    let out2 = process(&mut rc, &mut rs, &vec![0.0f32; 500]);
    assert!(!out2.is_empty(), "second push should trigger processing");
}

#[test]
fn passthrough_only_for_equal_rates() {
    for (capture, target) in [(8_000u32, 8_000u32), (44_100, 44_100), (48_000, 16_000), (16_000, 48_000), (1, 2)] {
        let rc = RateConverter::<i16>::new(capture, target, 960).unwrap();
        assert_eq!(rc.is_passthrough(), capture == target);
    }
}

#[test]
fn blocks_keep_every_sample_in_order() {
    let mut rc = RateConverter::<u32>::new(48_000, 16_000, 4).unwrap();
    let mut seen: Vec<u32> = Vec::new();
    let mut next = 0u32;
    for feed in [1usize, 2, 0, 5, 3, 8, 1] {
        let samples: Vec<u32> = (next..next + feed as u32).collect();
        next += feed as u32;
        match rc.process(&samples) {
            Converted::Blocks(blocks) => {
                for b in blocks {
                    assert_eq!(b.len(), 4);
                    seen.extend(b);
                }
            }
            Converted::Passthrough(_) => panic!("not a passthrough"),
        }
        assert!(rc.pending() < 4);
        assert_eq!(seen.len() + rc.pending(), next as usize);
    }
    let expected: Vec<u32> = (0..seen.len() as u32).collect();
    assert_eq!(seen, expected);
    assert_eq!(seen.len(), 20);
}

#[test]
fn feed_that_crosses_the_block_brings_one_block() {
    let mut rc = RateConverter::<u8>::new(2, 1, 10).unwrap();
    match rc.process(&vec![1u8; 9]) {
        Converted::Blocks(b) => assert!(b.is_empty()),
        _ => panic!(),
    }
    match rc.process(&vec![2u8; 1]) {
        Converted::Blocks(b) => {
            assert_eq!(b.len(), 1);
            assert_eq!(b[0], vec![1, 1, 1, 1, 1, 1, 1, 1, 1, 2]);
        }
        _ => panic!(),
    }
    assert_eq!(rc.pending(), 0);
}

#[test]
fn converter_refuses_zero_target_rate_and_zero_block() {
    assert!(matches!(RateConverter::<f32>::new(48_000, 0, 960), Err(DictumError::AudioDevice(_))));
    assert!(matches!(RateConverter::<f32>::new(48_000, 16_000, 0), Err(DictumError::AudioDevice(_))));
    assert!(RateConverter::<f32>::new(0, 0, 0).is_ok());
}

#[test]
fn split_blocks_cuts_full_blocks_and_rest() {
    let (blocks, rest) = split_blocks((0u8..11).collect(), 3);
    assert_eq!(blocks, vec![vec![0, 1, 2], vec![3, 4, 5], vec![6, 7, 8]]);
    assert_eq!(rest, vec![9, 10]);
}
