use aac_trim::adts::{
    Adts, AudioObjectProfile, ChannelConfiguration, SampleRateIndex, ADTS_HEADER_LENGTH,
    MAX_FRAME_LENGTH,
};

fn profiles() -> Vec<AudioObjectProfile> {
    vec![
        AudioObjectProfile::Main,
        AudioObjectProfile::LowComplexity,
        AudioObjectProfile::ScalableSampleRate,
        AudioObjectProfile::LongTermPrediction,
    ]
}

fn rates() -> Vec<SampleRateIndex> {
    vec![
        SampleRateIndex::Freq96000,
        SampleRateIndex::Freq88200,
        SampleRateIndex::Freq64000,
        SampleRateIndex::Freq48000,
        SampleRateIndex::Freq44100,
        SampleRateIndex::Freq32000,
        SampleRateIndex::Freq24000,
        SampleRateIndex::Freq22050,
        SampleRateIndex::Freq16000,
        SampleRateIndex::Freq12000,
        SampleRateIndex::Freq11025,
        SampleRateIndex::Freq8000,
        SampleRateIndex::Freq7350,
    ]
}

fn channels() -> Vec<ChannelConfiguration> {
    vec![
        ChannelConfiguration::Mono,
        ChannelConfiguration::Stereo,
        ChannelConfiguration::Three,
        ChannelConfiguration::Four,
        ChannelConfiguration::Five,
        ChannelConfiguration::FiveOne,
        ChannelConfiguration::SevenOne,
    ]
}

fn reassembled_frame_length(h: &[u8; 7]) -> usize {
    ((h[3] & 3) as usize) * 2048 + (h[4] as usize) * 8 + ((h[5] >> 5) as usize)
}

#[test]
fn header_shape_for_all_valid_parameters() {
    for profile in profiles() {
        for rate in rates() {
            for channel in channels() {
                for payload_len in [0usize, 1, 100, 1024, MAX_FRAME_LENGTH - ADTS_HEADER_LENGTH] {
                    let h = Adts::construct_adts_header(payload_len, &profile, &channel, &rate)
                        .expect("encodable profile must synthesize a header");
                    assert_eq!(h.len(), 7);
                    assert_eq!(h[0], 0xFF);
                    assert_eq!(h[1] >> 4, 0xF);
                    assert_eq!(
                        reassembled_frame_length(&h),
                        ADTS_HEADER_LENGTH + payload_len
                    );
                }
            }
        }
    }
}

#[test]
fn header_exact_bytes_lc_44100_stereo() {
    let h = Adts::construct_adts_header(
        0,
        &AudioObjectProfile::LowComplexity,
        &ChannelConfiguration::Stereo,
        &SampleRateIndex::Freq44100,
    )
    .unwrap();
    assert_eq!(h, [0xFF, 0xF1, 0x50, 0xBC, 0x00, 0xFF, 0xFC]);
}

#[test]
fn header_empty_payload_has_frame_length_seven() {
    let h = Adts::construct_adts_header(
        0,
        &AudioObjectProfile::Main,
        &ChannelConfiguration::Mono,
        &SampleRateIndex::Freq96000,
    )
    .unwrap();
    assert_eq!(h[0], 0xFF);
    assert_eq!(h[1] >> 4, 0xF);
    assert_eq!(reassembled_frame_length(&h), 7);
}

#[test]
fn header_rejects_unsupported_profile() {
    let r = Adts::construct_adts_header(
        64,
        &AudioObjectProfile::Other,
        &ChannelConfiguration::Stereo,
        &SampleRateIndex::Freq48000,
    );
    assert!(r.is_err());
}

#[test]
fn extract_bits_example() {
    assert_eq!(Adts::get_bits_u8(0b1011_0100, 2..4), 0b011);
    assert_eq!(Adts::get_bits(0x5800, 2..5), 0xB);
    assert_eq!(Adts::get_bits_u8(0b1011_0100, 1..8), 0b1011_0100);
    assert_eq!(Adts::get_bits(0x8001, 16..16), 1);
}
