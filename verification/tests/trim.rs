use aac_trim::silence::{SilenceClassifier, TrimGuards};

fn classifier(duration_secs: u64, guards: TrimGuards) -> SilenceClassifier {
    SilenceClassifier {
        container_timescale: 1,
        track_timescale: 1,
        duration_secs,
        guards,
    }
}

#[test]
fn mostly_silent_at_half_zeroes() {
    let pcm: Vec<i16> = vec![0, 0, 1, 2];
    assert!(SilenceClassifier::is_mostly_silent(&pcm, 4));
    let pcm: Vec<i16> = vec![0, 1, 2, 3];
    assert!(!SilenceClassifier::is_mostly_silent(&pcm, 4));
    let pcm: Vec<i16> = vec![];
    assert!(SilenceClassifier::is_mostly_silent(&pcm, 0));
}

#[test]
fn mostly_silent_sees_only_the_valid_prefix() {
    let pcm: Vec<i16> = vec![5, 7, 0, 0, 0, 0];
    assert!(!SilenceClassifier::is_mostly_silent(&pcm, 2));
    assert!(SilenceClassifier::is_mostly_silent(&pcm, 6));
}

#[test]
fn protected_body_bounds() {
    let c = classifier(100, TrimGuards::long_window());
    assert!(!c.is_in_protected_body(20));
    assert!(c.is_in_protected_body(21));
    assert!(c.is_in_protected_body(69));
    assert!(!c.is_in_protected_body(70));
}

#[test]
fn protected_body_uses_timescale_ratio() {
    let c = SilenceClassifier {
        container_timescale: 1000,
        track_timescale: 44100,
        duration_secs: 100,
        guards: TrimGuards::short_window(),
    };
    // normalized position = 2_000_000 * 1000 / 44100 = 45351, past the end
    assert!(!c.is_in_protected_body(2_000_000));
    let near = SilenceClassifier {
        container_timescale: 1,
        track_timescale: 2,
        duration_secs: 100,
        guards: TrimGuards::short_window(),
    };
    // normalized position = 40 / 2 = 20, inside (15, 85)
    assert!(near.is_in_protected_body(40));
}

#[test]
fn short_program_has_no_protected_body() {
    let c = classifier(25, TrimGuards::long_window());
    for position in 0..60u32 {
        assert!(!c.is_in_protected_body(position));
    }
}

#[test]
fn keep_policy() {
    let c = classifier(100, TrimGuards::new(2, 2));
    let silent: Vec<i16> = vec![0; 64];
    let loud: Vec<i16> = vec![1000; 64];
    // silent and unprotected: dropped
    assert!(!c.should_keep(&silent, 64, 1));
    // silent but protected: kept
    assert!(c.should_keep(&silent, 64, 50));
    // loud anywhere: kept
    assert!(c.should_keep(&loud, 64, 1));
    assert!(c.should_keep(&loud, 64, 50));
}

#[test]
fn kept_stream_drops_exactly_the_unprotected_silence() {
    // 6 access units at positions 1..=6; duration 10 s and 2 s guards, so
    // the protected body is positions 3..=7. The two silent units at
    // positions 1 and 2 are outside it and must vanish; everything else
    // stays, in order.
    let c = classifier(10, TrimGuards::new(2, 2));
    let silent: Vec<i16> = vec![0; 32];
    let loud: Vec<i16> = vec![900; 32];
    let units: Vec<(Vec<i16>, u32)> = vec![
        (silent.clone(), 1),
        (silent.clone(), 2),
        (silent.clone(), 3),
        (loud.clone(), 4),
        (silent.clone(), 5),
        (loud.clone(), 6),
    ];
    let kept: Vec<u32> = units
        .iter()
        .filter(|(pcm, pos)| c.should_keep(pcm, pcm.len(), *pos))
        .map(|(_, pos)| *pos)
        .collect();
    assert_eq!(kept, vec![3, 4, 5, 6]);
    assert_eq!(kept.len(), units.len() - 2);
}
