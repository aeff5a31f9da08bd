//! Trusted boundary to the AAC decode engine of the fdk-aac crate. Each
//! wrapper makes one engine call; everything the library concludes from a
//! call rests on the contract written here.

use vstd::prelude::*;

verus! {

#[verifier::external_type_specification]
#[verifier::external_body]
pub struct ExDecoder(fdk_aac::dec::Decoder);

/// Outcome of one decode attempt, with the engine's "need more input"
/// control signal distinguished from fatal failures at the type level.
pub enum DecodeOutcome {
    /// One access unit was decoded into the scratch buffer.
    Decoded,
    /// The engine's input ran out of bits; feed the next framed packet.
    NeedInput,
    /// Any other engine failure, with the engine's message. Fatal.
    Fatal(String),
}

/// Relies on fdk_aac::dec::Decoder::new: opens a decode engine for the
/// ADTS transport format.
#[verifier::external_body]
pub(crate) fn engine_new() -> fdk_aac::dec::Decoder {
    fdk_aac::dec::Decoder::new(fdk_aac::dec::Transport::Adts)
}

/// Relies on fdk_aac::dec::Decoder::fill: submits a framed packet to the
/// engine's input buffer and returns how many bytes were consumed (the
/// engine computes it as the packet length minus what is still pending,
/// so it never exceeds the packet length), or the engine's error message.
#[verifier::external_body]
pub(crate) fn engine_fill(dec: &mut fdk_aac::dec::Decoder, frame: &Vec<u8>) -> (r: Result<
    usize,
    String,
>)
    ensures
        r matches Ok(n) ==> n <= frame@.len(),
{
    match dec.fill(frame.as_slice()) {
        Ok(n) => Ok(n),
        Err(e) => Err(String::from(e.message())),
    }
}

/// Relies on fdk_aac::dec::Decoder::decode_frame: attempts to decode one
/// access unit into the scratch buffer, writing at most the buffer's
/// length and never changing it; distinguishes the NOT_ENOUGH_BITS
/// control signal from every other error.
#[verifier::external_body]
pub(crate) fn engine_decode(dec: &mut fdk_aac::dec::Decoder, pcm: &mut Vec<i16>) -> (r:
    DecodeOutcome)
    ensures
        final(pcm)@.len() == old(pcm)@.len(),
{
    match dec.decode_frame(pcm.as_mut_slice()) {
        Ok(()) => DecodeOutcome::Decoded,
        Err(fdk_aac::dec::DecoderError::NOT_ENOUGH_BITS) => DecodeOutcome::NeedInput,
        Err(e) => DecodeOutcome::Fatal(String::from(e.message())),
    }
}

/// Relies on fdk_aac::dec::Decoder::decoded_frame_size: the number of
/// samples (channels times frame size) valid in the scratch buffer after
/// the last successful decode.
#[verifier::external_body]
pub(crate) fn engine_decoded_size(dec: &fdk_aac::dec::Decoder) -> usize {
    dec.decoded_frame_size()
}

} // verus!
