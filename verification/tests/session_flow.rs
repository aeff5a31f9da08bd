use aac_trim::adts::{AudioObjectProfile, ChannelConfiguration, SampleRateIndex};
use aac_trim::session::{DecodeSession, SessionError, StepResult};
use aac_trim::silence::{SilenceClassifier, TrimGuards};
use aac_trim::waveform::WaveformBuilder;

fn fresh_session(profile: AudioObjectProfile) -> DecodeSession {
    let classifier = SilenceClassifier {
        container_timescale: 1000,
        track_timescale: 44100,
        duration_secs: 120,
        guards: TrimGuards::long_window(),
    };
    DecodeSession::new(
        classifier,
        profile,
        ChannelConfiguration::Stereo,
        SampleRateIndex::Freq44100,
        WaveformBuilder::new(9, 49),
    )
}

#[test]
fn fresh_engine_asks_for_input() {
    let mut session = fresh_session(AudioObjectProfile::LowComplexity);
    assert_eq!(session.position, 1);
    assert!(matches!(session.step(), StepResult::NeedSample));
    // still hunting: nothing was fed, so the request repeats
    assert!(matches!(session.step(), StepResult::NeedSample));
    assert_eq!(session.position, 1);
}

#[test]
fn push_sample_frames_and_advances() {
    let mut session = fresh_session(AudioObjectProfile::LowComplexity);
    let payload: Vec<u8> = vec![0x21, 0x00, 0x49, 0x90, 0x02, 0x19, 0x00, 0x23, 0x80];
    let r = session.push_sample(payload.clone());
    assert!(r.is_ok());
    assert_eq!(session.position, 2);
    let frame = session.pending.clone().expect("a framed packet is pending");
    assert_eq!(frame.len(), 7 + payload.len());
    assert_eq!(frame[0], 0xFF);
    assert_eq!(frame[1], 0xF1);
    assert_eq!(&frame[7..], &payload[..]);
}

#[test]
fn unsupported_profile_is_fatal_in_the_loop() {
    let mut session = fresh_session(AudioObjectProfile::Other);
    let r = session.push_sample(vec![0u8; 16]);
    assert!(matches!(r, Err(SessionError::UnsupportedProfile)));
    // nothing advanced, nothing pending
    assert_eq!(session.position, 1);
    assert!(session.pending.is_none());
}

#[test]
fn silent_frames_decode_and_are_trimmed_at_the_head() {
    // A minimal AAC-LC silent frame for 44.1 kHz stereo. At the head of
    // the program (normalized position 0, outside the protected body)
    // every decoded silent chunk must be dropped, never kept and never
    // fatal.
    let silent_frame: Vec<u8> = vec![0x21, 0x00, 0x49, 0x90, 0x02, 0x19, 0x00, 0x23, 0x80];
    let mut session = fresh_session(AudioObjectProfile::LowComplexity);
    let mut decoded = 0usize;
    for _ in 0..32 {
        match session.step() {
            StepResult::NeedSample => {
                session
                    .push_sample(silent_frame.clone())
                    .expect("engine accepts a framed packet");
            }
            StepResult::Dropped => {
                decoded += 1;
            }
            StepResult::Kept(_) => {
                panic!("a silent chunk at the head of the program was kept");
            }
            StepResult::Failed(message) => {
                panic!("engine failed on a valid silent frame: {}", message);
            }
        }
    }
    assert!(decoded > 0, "no frame was ever decoded");
    // dropped chunks contribute nothing to the waveform
    assert!(session.builder.peaks.is_empty());
}

#[test]
fn finish_on_empty_track_yields_silent_envelope() {
    let session = fresh_session(AudioObjectProfile::LowComplexity);
    let envelope = session.finish();
    assert_eq!(envelope.len(), 49);
    assert!(envelope.iter().all(|&byte| byte == 0));
}
