//! The state machine that drives the decode engine one access unit at a
//! time: frame, feed, decode, classify, accumulate.
//!
//! The session owns the engine, the scratch buffer and the playback
//! position. The caller runs the loop: it reads the next access unit from
//! the demuxer when the session asks for one, writes kept framed packets
//! to the output sink, and collects the envelope at end of track.

use vstd::prelude::*;
use crate::adts::{
    Adts, AudioObjectProfile, ChannelConfiguration, SampleRateIndex, spec_adts_header,
    ADTS_HEADER_LENGTH, MAX_FRAME_LENGTH,
};
use crate::engine::{engine_new, engine_fill, engine_decode, engine_decoded_size, DecodeOutcome};
use crate::silence::SilenceClassifier;
use crate::waveform::{WaveformBuilder, spec_chunk_peak, spec_envelope};

verus! {

/// Samples in the fixed-capacity PCM scratch buffer. The buffer is
/// allocated once; after a decode only a prefix of it is valid.
pub const PCM_BUFFER_LEN: usize = 8192;

/// A fatal failure of the decode loop.
#[derive(Debug)]
pub enum SessionError {
    /// The track's audio object profile cannot be framed; no packet can
    /// be emitted.
    UnsupportedProfile,
    /// The engine failed while accepting input; carries its message.
    DecodeEngine(String),
}

/// What one step of the state machine asks of the driver.
#[derive(Debug)]
pub enum StepResult {
    /// The engine needs more input: read the access unit at the current
    /// position and hand it to [`DecodeSession::push_sample`], or, when
    /// the track is exhausted, collect the envelope with
    /// [`DecodeSession::finish`].
    NeedSample,
    /// A decoded chunk was kept: append these framed bytes to the output
    /// sink.
    Kept(Vec<u8>),
    /// A decode succeeded but nothing is owed to the output: either the
    /// chunk was mostly silent outside the protected body, or no framed
    /// packet was awaiting adjudication.
    Dropped,
    /// Any engine failure other than "need more input", with the
    /// engine's message. Fatal: abort the loop.
    Failed(String),
}

/// Mutable state of one decode run, owned exclusively by the driver loop.
pub struct DecodeSession {
    pub engine: fdk_aac::dec::Decoder,
    /// 1-based position of the next access unit within the track.
    pub position: u32,
    pub classifier: SilenceClassifier,
    pub profile: AudioObjectProfile,
    pub channel_config: ChannelConfiguration,
    pub sample_freq_index: SampleRateIndex,
    /// Fixed-capacity PCM scratch buffer.
    pub pcm: Vec<i16>,
    /// Valid prefix of `pcm` after the last successful decode.
    pub pcm_len: usize,
    /// The framed packet last fed to the engine, held until a decode
    /// settles whether it is kept.
    pub pending: Option<Vec<u8>>,
    pub builder: WaveformBuilder,
}

impl DecodeSession {
    pub open spec fn wf(self) -> bool {
        &&& self.pcm@.len() == PCM_BUFFER_LEN
        &&& self.pcm_len <= PCM_BUFFER_LEN
        &&& self.classifier.wf()
        &&& self.builder.wf()
    }

    /// The valid prefix of the scratch buffer: the chunk the last
    /// successful decode produced.
    pub open spec fn spec_chunk(self) -> Seq<i16> {
        self.pcm@.subrange(0, self.pcm_len as int)
    }

    /// Opens a decode engine and a session at position 1 with an empty
    /// scratch buffer and no pending packet.
    pub fn new(
        classifier: SilenceClassifier,
        profile: AudioObjectProfile,
        channel_config: ChannelConfiguration,
        sample_freq_index: SampleRateIndex,
        builder: WaveformBuilder,
    ) -> (r: DecodeSession)
        requires
            classifier.wf(),
            builder.wf(),
        ensures
            r.wf(),
            r.position == 1,
            r.classifier == classifier,
            r.profile == profile,
            r.channel_config == channel_config,
            r.sample_freq_index == sample_freq_index,
            r.pcm_len == 0,
            r.pending is None,
            r.builder == builder,
    {
        let mut pcm: Vec<i16> = Vec::new();
        let mut i: usize = 0;
        while i < PCM_BUFFER_LEN
            invariant
                i <= PCM_BUFFER_LEN,
                pcm@.len() == i,
            decreases PCM_BUFFER_LEN - i,
        {
            pcm.push(0);
            i = i + 1;
        }
        DecodeSession {
            engine: engine_new(),
            position: 1,
            classifier,
            profile,
            channel_config,
            sample_freq_index,
            pcm,
            pcm_len: 0,
            pending: None,
            builder,
        }
    }

    /// One decode attempt. On success the scratch buffer's logical length
    /// is set to the engine-reported decoded size, and the chunk decides
    /// the fate of the pending framed packet: kept packets are returned
    /// for the output sink and their chunk's peak goes to the waveform
    /// builder; dropped ones vanish. The keep/drop verdict is exactly the
    /// classifier's, at the current position.
    pub fn step(&mut self) -> (r: StepResult)
        requires
            old(self).wf(),
        ensures
            final(self).wf(),
            final(self).position == old(self).position,
            final(self).classifier == old(self).classifier,
            final(self).profile == old(self).profile,
            final(self).channel_config == old(self).channel_config,
            final(self).sample_freq_index == old(self).sample_freq_index,
            final(self).builder.segments == old(self).builder.segments,
            final(self).builder.buckets == old(self).builder.buckets,
            match r {
                StepResult::NeedSample => {
                    &&& final(self).pending == old(self).pending
                    &&& final(self).builder == old(self).builder
                    &&& final(self).pcm_len == old(self).pcm_len
                },
                StepResult::Kept(frame) => {
                    &&& old(self).pending == Some(frame)
                    &&& final(self).pending is None
                    &&& final(self).classifier.spec_keep(
                        final(self).spec_chunk(),
                        final(self).position,
                    )
                    &&& final(self).builder.peaks@ == old(self).builder.peaks@.push(
                        spec_chunk_peak(
                            final(self).spec_chunk(),
                            old(self).builder.segments as int,
                        ) as u64,
                    )
                },
                StepResult::Dropped => {
                    &&& final(self).pending is None
                    &&& final(self).builder == old(self).builder
                    &&& (old(self).pending is Some ==> !final(self).classifier.spec_keep(
                        final(self).spec_chunk(),
                        final(self).position,
                    ))
                },
                StepResult::Failed(_) => {
                    &&& final(self).pending == old(self).pending
                    &&& final(self).builder == old(self).builder
                    &&& final(self).pcm_len == old(self).pcm_len
                },
            },
    {
        match engine_decode(&mut self.engine, &mut self.pcm) {
            DecodeOutcome::NeedInput => StepResult::NeedSample,
            DecodeOutcome::Fatal(msg) => StepResult::Failed(msg),
            DecodeOutcome::Decoded => {
                let n = engine_decoded_size(&self.engine);
                if n < PCM_BUFFER_LEN {
                    self.pcm_len = n;
                } else {
                    self.pcm_len = PCM_BUFFER_LEN;
                }
                match self.pending.take() {
                    None => StepResult::Dropped,
                    Some(frame) => {
                        if self.classifier.should_keep(&self.pcm, self.pcm_len, self.position) {
                            self.builder.push_chunk(&self.pcm, self.pcm_len);
                            StepResult::Kept(frame)
                        } else {
                            StepResult::Dropped
                        }
                    },
                }
            },
        }
    }

    /// Frames the access unit read at the current position, feeds it to
    /// the engine and advances the position. Returns
    /// [`SessionError::UnsupportedProfile`] exactly when the track's
    /// profile is not encodable; an engine refusal of the input is
    /// [`SessionError::DecodeEngine`] and fatal.
    pub fn push_sample(&mut self, payload: Vec<u8>) -> (r: Result<(), SessionError>)
        requires
            old(self).wf(),
            payload@.len() + ADTS_HEADER_LENGTH <= MAX_FRAME_LENGTH,
            old(self).position < u32::MAX,
        ensures
            final(self).wf(),
            final(self).classifier == old(self).classifier,
            final(self).profile == old(self).profile,
            final(self).channel_config == old(self).channel_config,
            final(self).sample_freq_index == old(self).sample_freq_index,
            final(self).builder == old(self).builder,
            final(self).pcm@ == old(self).pcm@,
            final(self).pcm_len == old(self).pcm_len,
            (r matches Err(SessionError::UnsupportedProfile)) <==> !old(
                self,
            ).profile.is_encodable(),
            r matches Err(SessionError::UnsupportedProfile) ==> *final(self) == *old(self),
            r is Ok ==> {
                &&& final(self).position == old(self).position + 1
                &&& final(self).pending matches Some(f) && f@ == spec_adts_header(
                    old(self).profile,
                    old(self).channel_config,
                    old(self).sample_freq_index,
                    payload@.len() as int,
                ) + payload@
            },
            r matches Err(SessionError::DecodeEngine(_)) ==> {
                &&& final(self).position == old(self).position + 1
                &&& final(self).pending == old(self).pending
            },
    {
        let header = match Adts::construct_adts_header(
            payload.len(),
            &self.profile,
            &self.channel_config,
            &self.sample_freq_index,
        ) {
            Ok(h) => h,
            Err(_) => {
                return Err(SessionError::UnsupportedProfile);
            },
        };
        let mut frame: Vec<u8> = Vec::new();
        frame.push(header[0]);
        frame.push(header[1]);
        frame.push(header[2]);
        frame.push(header[3]);
        frame.push(header[4]);
        frame.push(header[5]);
        frame.push(header[6]);
        proof {
            assert(frame@ =~= header@);
        }
        let mut rest = payload;
        frame.append(&mut rest);
        self.position = self.position + 1;
        match engine_fill(&mut self.engine, &frame) {
            Ok(_) => {
                self.pending = Some(frame);
                Ok(())
            },
            Err(msg) => Err(SessionError::DecodeEngine(msg)),
        }
    }

    /// The clean termination path, taken when the sample source reports
    /// no further access units: condenses the accumulated peaks into the
    /// fixed-length envelope.
    pub fn finish(&self) -> (r: Vec<u8>)
        requires
            self.wf(),
        ensures
            r@ == spec_envelope(self.builder.peaks@, self.builder.buckets as int),
            r@.len() == self.builder.buckets,
    {
        self.builder.finalize()
    }
}

} // verus!
