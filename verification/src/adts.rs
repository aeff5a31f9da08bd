//! Synthesis of the 7-byte ADTS framing header that turns one raw AAC
//! access unit into a self-describing bitstream packet.

use vstd::prelude::*;
use core::ops::Range;

verus! {

/// MPEG-4 audio object profile of a track. Only the first four variants can
/// be expressed in an ADTS header; `Other` stands for every remaining
/// profile and is rejected by [`Adts::construct_adts_header`].
#[derive(Clone, Copy, Debug)]
pub enum AudioObjectProfile {
    Main,
    LowComplexity,
    ScalableSampleRate,
    LongTermPrediction,
    Other,
}

impl AudioObjectProfile {
    /// The header can carry this profile.
    pub open spec fn is_encodable(self) -> bool {
        !(self matches AudioObjectProfile::Other)
    }

    /// Two-bit object-type field of the header: the 1-based profile index
    /// minus one.
    pub open spec fn spec_object_type(self) -> u8
        recommends
            self.is_encodable(),
    {
        match self {
            AudioObjectProfile::Main => 0,
            AudioObjectProfile::LowComplexity => 1,
            AudioObjectProfile::ScalableSampleRate => 2,
            AudioObjectProfile::LongTermPrediction => 3,
            AudioObjectProfile::Other => 0,
        }
    }
}

/// Index into the fixed ADTS sampling-frequency table, 96000 Hz down to
/// 7350 Hz. Indices 13-15 are reserved or forbidden and have no variant.
#[derive(Clone, Copy, Debug)]
pub enum SampleRateIndex {
    Freq96000,
    Freq88200,
    Freq64000,
    Freq48000,
    Freq44100,
    Freq32000,
    Freq24000,
    Freq22050,
    Freq16000,
    Freq12000,
    Freq11025,
    Freq8000,
    Freq7350,
}

impl SampleRateIndex {
    /// Four-bit sampling-frequency-index field of the header.
    pub open spec fn spec_code(self) -> u8 {
        match self {
            SampleRateIndex::Freq96000 => 0,
            SampleRateIndex::Freq88200 => 1,
            SampleRateIndex::Freq64000 => 2,
            SampleRateIndex::Freq48000 => 3,
            SampleRateIndex::Freq44100 => 4,
            SampleRateIndex::Freq32000 => 5,
            SampleRateIndex::Freq24000 => 6,
            SampleRateIndex::Freq22050 => 7,
            SampleRateIndex::Freq16000 => 8,
            SampleRateIndex::Freq12000 => 9,
            SampleRateIndex::Freq11025 => 10,
            SampleRateIndex::Freq8000 => 11,
            SampleRateIndex::Freq7350 => 12,
        }
    }
}

/// Channel configuration of a track, mapping to the integers 1-7.
/// 0 (in-band configuration) and 8-15 (reserved) are never produced.
#[derive(Clone, Copy, Debug)]
pub enum ChannelConfiguration {
    Mono,
    Stereo,
    Three,
    Four,
    Five,
    FiveOne,
    SevenOne,
}

impl ChannelConfiguration {
    /// Three-bit channel-configuration field of the header.
    pub open spec fn spec_code(self) -> u8 {
        match self {
            ChannelConfiguration::Mono => 1,
            ChannelConfiguration::Stereo => 2,
            ChannelConfiguration::Three => 3,
            ChannelConfiguration::Four => 4,
            ChannelConfiguration::Five => 5,
            ChannelConfiguration::FiveOne => 6,
            ChannelConfiguration::SevenOne => 7,
        }
    }
}

/// Header synthesis is impossible for the given audio object profile.
#[derive(Clone, Copy, Debug)]
pub struct UnsupportedProfileError;

/// The ADTS header is 7 bytes long (no CRC variant), and the 13-bit frame
/// length counts the header itself.
pub const ADTS_HEADER_LENGTH: usize = 7;

/// Largest value of the 13-bit frame-length field.
pub const MAX_FRAME_LENGTH: usize = 8191;

/// The bits of `value` in the 1-based, inclusive position interval
/// `[start, end]` counted from the most significant bit, right-aligned:
/// the `end - start + 1` low bits of `value >> (16 - end)`.
pub open spec fn spec_extracted_bits(value: u16, start: u16, end: u16) -> u16
    recommends
        1 <= start <= end <= 16,
{
    (value >> ((16 - end) as u16)) & (0xFFFFu16 >> ((15 + start - end) as u16))
}

/// As [`spec_extracted_bits`], for a one-byte operand.
pub open spec fn spec_extracted_bits_u8(value: u8, start: u8, end: u8) -> u8
    recommends
        1 <= start <= end <= 8,
{
    (value >> ((8 - end) as u8)) & (0xFFu8 >> ((7 + start - end) as u8))
}

/// Byte 2 of the header: object type (2 bits), sampling-frequency index
/// (4 bits), private bit (zero), high bit of the channel configuration.
pub open spec fn spec_header_byte2(object_type: u8, rate_code: u8, channel_code: u8) -> u8
    recommends
        object_type < 4,
        rate_code < 13,
        1 <= channel_code < 8,
{
    (object_type << 6u8) | (rate_code << 2u8) | (channel_code >> 2u8)
}

/// Byte 3 of the header: low two bits of the channel configuration, the
/// four copyright/home/original bits all set, and the top two bits of the
/// 13-bit frame length.
pub open spec fn spec_header_byte3(channel_code: u8, frame_length: u16) -> u8
    recommends
        1 <= channel_code < 8,
        frame_length <= 8191,
{
    ((channel_code & 3) << 6u8) | 0x3Cu8 | ((frame_length >> 11u16) as u8)
}

/// Byte 4 of the header: bits 10 down to 3 of the frame length.
pub open spec fn spec_header_byte4(frame_length: u16) -> u8
    recommends
        frame_length <= 8191,
{
    (frame_length >> 3u16) as u8
}

/// Byte 5 of the header: low three bits of the frame length, then the five
/// high bits of the buffer-fullness field, all set (variable bitrate).
pub open spec fn spec_header_byte5(frame_length: u16) -> u8
    recommends
        frame_length <= 8191,
{
    (((frame_length as u8) & 7) << 5u8) | 0x1Fu8
}

/// The 7 header bytes for the given field codes and frame length.
/// Byte 0 is the sync word; byte 1 holds the sync tail, version, layer and
/// protection-absent bits; byte 6 holds the low six buffer-fullness bits,
/// all set, and a zero raw-data-blocks count (one access unit per packet).
pub open spec fn spec_adts_bytes(
    object_type: u8,
    rate_code: u8,
    channel_code: u8,
    frame_length: u16,
) -> Seq<u8>
    recommends
        object_type < 4,
        rate_code < 13,
        1 <= channel_code < 8,
        frame_length <= 8191,
{
    seq![
        0xFFu8,
        0xF1u8,
        spec_header_byte2(object_type, rate_code, channel_code),
        spec_header_byte3(channel_code, frame_length),
        spec_header_byte4(frame_length),
        spec_header_byte5(frame_length),
        0xFCu8,
    ]
}

/// The header for one access unit of `payload_len` bytes, in terms of the
/// track parameters. The frame length counts the header itself.
pub open spec fn spec_adts_header(
    profile: AudioObjectProfile,
    channel: ChannelConfiguration,
    rate: SampleRateIndex,
    payload_len: int,
) -> Seq<u8>
    recommends
        profile.is_encodable(),
        0 <= payload_len,
        ADTS_HEADER_LENGTH + payload_len <= MAX_FRAME_LENGTH,
{
    spec_adts_bytes(
        profile.spec_object_type(),
        rate.spec_code(),
        channel.spec_code(),
        (ADTS_HEADER_LENGTH + payload_len) as u16,
    )
}

/// The 13-bit frame-length field reassembled from bytes 3-5 of a header.
pub open spec fn spec_reassembled_frame_length(h: Seq<u8>) -> int
    recommends
        h.len() == 7,
{
    (h[3] & 3) * 2048 + h[4] * 8 + (h[5] >> 5u8)
}

/// Bit-field extraction and ADTS header synthesis.
pub struct Adts;

impl Adts {
    /// Builds the 7-byte ADTS header for one access unit of `payload_len`
    /// bytes. Returns [`UnsupportedProfileError`] exactly when the profile
    /// is not one of the four encodable ones.
    pub fn construct_adts_header(
        payload_len: usize,
        audio_profile: &AudioObjectProfile,
        channel_config: &ChannelConfiguration,
        sample_freq_index: &SampleRateIndex,
    ) -> (r: Result<[u8; 7], UnsupportedProfileError>)
        requires
            ADTS_HEADER_LENGTH + payload_len <= MAX_FRAME_LENGTH,
        ensures
            r matches Ok(h) ==> h@ == spec_adts_header(
                *audio_profile,
                *channel_config,
                *sample_freq_index,
                payload_len as int,
            ),
            r is Ok <==> audio_profile.is_encodable(),
    {
        let byte0: u8 = 0b1111_1111;

        let byte1: u8 = 0b1111_0001;

        let mut byte2: u8 = 0b0000_0000;
        let object_type: u8 = match audio_profile {
            AudioObjectProfile::Main => 1,
            AudioObjectProfile::LowComplexity => 2,
            AudioObjectProfile::ScalableSampleRate => 3,
            AudioObjectProfile::LongTermPrediction => 4,
            AudioObjectProfile::Other => {
                return Err(UnsupportedProfileError);
            },
        };
        let adts_object_type: u8 = object_type - 1;
        byte2 = (byte2 << 2) | adts_object_type;

        let freq_code: u8 = match sample_freq_index {
            SampleRateIndex::Freq96000 => 0,
            SampleRateIndex::Freq88200 => 1,
            SampleRateIndex::Freq64000 => 2,
            SampleRateIndex::Freq48000 => 3,
            SampleRateIndex::Freq44100 => 4,
            SampleRateIndex::Freq32000 => 5,
            SampleRateIndex::Freq24000 => 6,
            SampleRateIndex::Freq22050 => 7,
            SampleRateIndex::Freq16000 => 8,
            SampleRateIndex::Freq12000 => 9,
            SampleRateIndex::Freq11025 => 10,
            SampleRateIndex::Freq8000 => 11,
            SampleRateIndex::Freq7350 => 12,
        };
        byte2 = (byte2 << 4) | freq_code;
        // private bit: zero
        byte2 = byte2 << 1;

        let channel_code: u8 = match channel_config {
            ChannelConfiguration::Mono => 1,
            ChannelConfiguration::Stereo => 2,
            ChannelConfiguration::Three => 3,
            ChannelConfiguration::Four => 4,
            ChannelConfiguration::Five => 5,
            ChannelConfiguration::FiveOne => 6,
            ChannelConfiguration::SevenOne => 7,
        };
        byte2 = (byte2 << 1) | Adts::get_bits_u8(channel_code, 6..6);

        let mut byte3: u8 = 0b0000_0000;
        byte3 = (byte3 << 2) | Adts::get_bits_u8(channel_code, 7..8);
        byte3 = (byte3 << 4) | 0b1111;

        let frame_length: u16 = (ADTS_HEADER_LENGTH + payload_len) as u16;
        byte3 = (byte3 << 2) | Adts::get_bits(frame_length, 3..5) as u8;

        let byte4: u8 = Adts::get_bits(frame_length, 6..13) as u8;

        let mut byte5: u8 = 0b0000_0000;
        byte5 = (byte5 << 3) | Adts::get_bits(frame_length, 14..16) as u8;
        byte5 = (byte5 << 5) | 0b11111;

        let mut byte6: u8 = 0b0000_0000;
        byte6 = (byte6 << 6) | 0b111111;
        byte6 = (byte6 << 2) | 0b00;

        proof {
            let ot = adts_object_type;
            let fc = freq_code;
            let cc = channel_code;
            let fl = frame_length;
            assert((((((((0u8 << 2) | ot) << 4) | fc) << 1) << 1)
                | spec_extracted_bits_u8(cc, 6, 6)) == spec_header_byte2(ot, fc, cc))
                by (bit_vector)
                requires
                    ot < 4,
                    fc < 13,
                    1 <= cc < 8,
            ;
            assert(((((((0u8 << 2) | spec_extracted_bits_u8(cc, 7, 8)) << 4) | 0b1111) << 2)
                | (spec_extracted_bits(fl, 3, 5) as u8)) == spec_header_byte3(cc, fl))
                by (bit_vector)
                requires
                    1 <= cc < 8,
                    fl <= 8191,
            ;
            assert((spec_extracted_bits(fl, 6, 13) as u8) == spec_header_byte4(fl))
                by (bit_vector)
                requires
                    fl <= 8191,
            ;
            assert(((((0u8 << 3) | (spec_extracted_bits(fl, 14, 16) as u8)) << 5) | 0b11111)
                == spec_header_byte5(fl))
                by (bit_vector)
            ;
            assert((((0u8 << 6) | 0b111111u8) << 2) | 0b00 == 0xFCu8) by (bit_vector);
        }

        let header: [u8; 7] = [byte0, byte1, byte2, byte3, byte4, byte5, byte6];
        proof {
            assert(header@ =~= spec_adts_header(
                *audio_profile,
                *channel_config,
                *sample_freq_index,
                payload_len as int,
            ));
        }
        Ok(header)
    }

    /// The bits of `byte` in the 1-based, inclusive position interval
    /// `range.start..=range.end` counted from the most significant bit,
    /// right-aligned into the 16-bit result.
    pub fn get_bits(byte: u16, range: Range<u16>) -> (r: u16)
        requires
            1 <= range.start <= range.end <= 16,
        ensures
            r == spec_extracted_bits(byte, range.start, range.end),
    {
        let shaved_left = byte << (range.start - 1);
        let moved_back = shaved_left >> (range.start - 1);
        let shave_right = moved_back >> (16 - range.end);
        proof {
            let s = range.start;
            let e = range.end;
            assert(((byte << ((s - 1) as u16)) >> ((s - 1) as u16)) >> ((16 - e) as u16)
                == spec_extracted_bits(byte, s, e))
                by (bit_vector)
                requires
                    1 <= s <= e <= 16,
            ;
        }
        shave_right
    }

    /// As [`Adts::get_bits`], for a one-byte operand.
    pub fn get_bits_u8(byte: u8, range: Range<u8>) -> (r: u8)
        requires
            1 <= range.start <= range.end <= 8,
        ensures
            r == spec_extracted_bits_u8(byte, range.start, range.end),
    {
        let shaved_left = byte << (range.start - 1);
        let moved_back = shaved_left >> (range.start - 1);
        let shave_right = moved_back >> (8 - range.end);
        proof {
            let s = range.start;
            let e = range.end;
            assert(((byte << ((s - 1) as u8)) >> ((s - 1) as u8)) >> ((8 - e) as u8)
                == spec_extracted_bits_u8(byte, s, e))
                by (bit_vector)
                requires
                    1 <= s <= e <= 8,
            ;
        }
        shave_right
    }
}

/// For every encodable profile, every valid sample-rate index, every valid
/// channel configuration and every payload length that fits the 13-bit
/// field, the synthesized header is 7 bytes long, opens with the full sync
/// word, and carries the frame length `7 + payload_len` in bytes 3-5.
pub proof fn lemma_header_well_formed(
    profile: AudioObjectProfile,
    channel: ChannelConfiguration,
    rate: SampleRateIndex,
    payload_len: int,
)
    requires
        profile.is_encodable(),
        0 <= payload_len,
        ADTS_HEADER_LENGTH + payload_len <= MAX_FRAME_LENGTH,
    ensures
        spec_adts_header(profile, channel, rate, payload_len).len() == 7,
        spec_adts_header(profile, channel, rate, payload_len)[0] == 0xFF,
        spec_adts_header(profile, channel, rate, payload_len)[1] >> 4u8 == 0xF,
        spec_reassembled_frame_length(spec_adts_header(profile, channel, rate, payload_len))
            == ADTS_HEADER_LENGTH + payload_len,
{
    let h = spec_adts_header(profile, channel, rate, payload_len);
    let cc = channel.spec_code();
    let fl = (ADTS_HEADER_LENGTH + payload_len) as u16;
    assert(0xF1u8 >> 4u8 == 0xF) by (bit_vector);
    assert(h[3] == spec_header_byte3(cc, fl));
    assert(h[4] == spec_header_byte4(fl));
    assert(h[5] == spec_header_byte5(fl));
    assert((spec_header_byte3(cc, fl) & 3) * 2048 + spec_header_byte4(fl) * 8
        + (spec_header_byte5(fl) >> 5u8) == fl)
        by (bit_vector)
        requires
            1 <= cc < 8,
            fl <= 8191,
    ;
}

} // verus!
