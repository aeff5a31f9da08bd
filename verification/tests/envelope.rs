use aac_trim::waveform::{Waveform, WaveformBuilder};

#[test]
fn avgfilter_skips_negative_samples() {
    let pcm: Vec<i16> = vec![10, -5, 20, 0, 30];
    // nonnegative samples: 10, 20, 0, 30 -> mean 60 / 4 = 15
    assert_eq!(Waveform::avgfilter(&pcm, 0, 5), 15);
}

#[test]
fn avgfilter_all_negative_yields_zero() {
    let pcm: Vec<i16> = vec![-1, -2, -3];
    assert_eq!(Waveform::avgfilter(&pcm, 0, 3), 0);
    assert_eq!(Waveform::avgfilter(&pcm, 0, 0), 0);
}

#[test]
fn avgfilter_subrange() {
    let pcm: Vec<i16> = vec![100, 100, 7, 9, 100];
    assert_eq!(Waveform::avgfilter(&pcm, 2, 4), 8);
}

#[test]
fn avgmax_mean_and_maximum() {
    let peaks: Vec<u64> = vec![3, 9, 6];
    assert_eq!(Waveform::avgmax(&peaks, 0, 3), (6, 9));
    assert_eq!(Waveform::avgmax(&peaks, 0, 0), (0, 0));
    assert_eq!(Waveform::avgmax(&peaks, 1, 2), (9, 9));
}

#[test]
fn balance_scales_rounds_and_clamps() {
    let peaks: Vec<u64> = vec![0, 5, 10];
    // 0/10 -> 0; 5/10 * 256 = 128; 10/10 * 256 = 256, clamped to 255
    assert_eq!(Waveform::balance(&peaks, 10), vec![0, 128, 255]);
}

#[test]
fn balance_with_zero_maximum_is_all_zero() {
    let peaks: Vec<u64> = vec![0, 5, 10];
    assert_eq!(Waveform::balance(&peaks, 0), vec![0, 0, 0]);
}

#[test]
fn balance_rounds_half_up() {
    // 1/3 * 256 = 85.33 -> 85; 2/3 * 256 = 170.67 -> 171
    let peaks: Vec<u64> = vec![1, 2];
    assert_eq!(Waveform::balance(&peaks, 3), vec![85, 171]);
}

#[test]
fn peak_range_maximum() {
    let peaks: Vec<u64> = vec![4, 7, 2];
    assert_eq!(Waveform::peak_range(&peaks), Some(7));
    let empty: Vec<u64> = vec![];
    assert_eq!(Waveform::peak_range(&empty), Some(0));
}

#[test]
fn builder_envelope_exact_small_case() {
    // Each chunk of four samples splits into one sub-segment of two
    // samples with mean 100, so every peak is 100. Four peaks and one
    // bucket give a bucket of two peaks: mean 100, global maximum 100,
    // and 100/100 * 256 = 256 clamps to 255.
    let mut b = WaveformBuilder::new(1, 1);
    let chunk: Vec<i16> = vec![100, 100, 100, 100];
    for _ in 0..4 {
        b.push_chunk(&chunk, 4);
    }
    assert_eq!(b.peaks, vec![100, 100, 100, 100]);
    assert_eq!(b.finalize(), vec![255]);
}

#[test]
fn builder_envelope_deterministic() {
    let chunks: Vec<Vec<i16>> = vec![
        vec![0, 40, -3, 17, 900, 2, 2, 2, 1000, 0, 5, 5],
        vec![7; 30],
        vec![-9; 25],
        vec![0; 40],
        (0..50).map(|i| (i * 13 % 331) as i16).collect(),
    ];
    let run = || {
        let mut b = WaveformBuilder::new(9, 49);
        for c in &chunks {
            b.push_chunk(c, c.len());
        }
        b.finalize()
    };
    let first = run();
    let second = run();
    assert_eq!(first, second);
    assert_eq!(first.len(), 49);
}

#[test]
fn builder_all_zero_pcm_gives_all_zero_envelope() {
    let mut b = WaveformBuilder::new(9, 49);
    let chunk: Vec<i16> = vec![0; 2048];
    for _ in 0..200 {
        b.push_chunk(&chunk, 2048);
    }
    let envelope = b.finalize();
    assert_eq!(envelope.len(), 49);
    assert!(envelope.iter().all(|&byte| byte == 0));
}

#[test]
fn builder_short_stream_envelope() {
    // Fewer peaks than buckets: every bucket is empty, the global
    // maximum is 0, and the envelope is all zero.
    let mut b = WaveformBuilder::new(9, 49);
    let chunk: Vec<i16> = vec![500; 100];
    for _ in 0..3 {
        b.push_chunk(&chunk, 100);
    }
    let envelope = b.finalize();
    assert_eq!(envelope.len(), 49);
    assert!(envelope.iter().all(|&byte| byte == 0));
}
