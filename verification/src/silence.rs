//! The keep/drop policy for decoded audio: a chunk is dropped only when it
//! is mostly silent and lies outside the protected body of the program.

use vstd::prelude::*;

verus! {

/// Lengths, in seconds, of the leading and trailing spans of playback time
/// in which silence may be trimmed. Inside the rest of the program silence
/// is always kept.
#[derive(Clone, Copy, Debug)]
pub struct TrimGuards {
    pub lead_secs: u64,
    pub trail_secs: u64,
}

impl TrimGuards {
    pub fn new(lead_secs: u64, trail_secs: u64) -> (r: TrimGuards)
        ensures
            r.lead_secs == lead_secs,
            r.trail_secs == trail_secs,
    {
        TrimGuards { lead_secs, trail_secs }
    }

    /// A symmetric 15 s window at each end of the program.
    pub fn short_window() -> (r: TrimGuards)
        ensures
            r.lead_secs == 15,
            r.trail_secs == 15,
    {
        TrimGuards { lead_secs: 15, trail_secs: 15 }
    }

    /// 20 s at the head and 30 s at the tail.
    pub fn long_window() -> (r: TrimGuards)
        ensures
            r.lead_secs == 20,
            r.trail_secs == 30,
    {
        TrimGuards { lead_secs: 20, trail_secs: 30 }
    }
}

/// How many samples of `s` are exactly zero.
pub open spec fn spec_zero_count(s: Seq<i16>) -> int
    decreases s.len(),
{
    if s.len() == 0 {
        0
    } else {
        spec_zero_count(s.drop_last()) + if s.last() == 0 {
            1int
        } else {
            0int
        }
    }
}

/// A buffer is mostly silent when at least half of its samples are zero.
pub open spec fn spec_mostly_silent(s: Seq<i16>) -> bool {
    spec_zero_count(s) >= s.len() / 2
}

/// The 1-based access-unit position converted to the container's time
/// scale.
pub open spec fn spec_normalized_position(
    position: u32,
    container_timescale: u32,
    track_timescale: u32,
) -> int
    recommends
        track_timescale > 0,
{
    (position * container_timescale) / (track_timescale as int)
}

/// Judges whether a decoded buffer is mostly silent and whether a playback
/// position falls inside the protected (non-trimmable) body of the program.
#[derive(Clone, Copy, Debug)]
pub struct SilenceClassifier {
    /// Ticks per second of the container.
    pub container_timescale: u32,
    /// Ticks per second of the audio track.
    pub track_timescale: u32,
    /// Total duration of the program in seconds.
    pub duration_secs: u64,
    pub guards: TrimGuards,
}

impl SilenceClassifier {
    pub open spec fn wf(self) -> bool {
        self.track_timescale > 0
    }

    /// The normalized position lies strictly between the lead guard and the
    /// duration less the trail guard.
    pub open spec fn spec_protected(self, position: u32) -> bool {
        let np = spec_normalized_position(
            position,
            self.container_timescale,
            self.track_timescale,
        );
        self.guards.lead_secs < np && np + self.guards.trail_secs < self.duration_secs
    }

    /// A chunk is kept unless it is mostly silent and unprotected.
    pub open spec fn spec_keep(self, chunk: Seq<i16>, position: u32) -> bool {
        !spec_mostly_silent(chunk) || self.spec_protected(position)
    }

    /// Counts the zero samples in the first `len` entries of `pcm`.
    pub fn is_mostly_silent(pcm: &Vec<i16>, len: usize) -> (r: bool)
        requires
            len <= pcm.len(),
        ensures
            r == spec_mostly_silent(pcm@.subrange(0, len as int)),
    {
        let mut count: usize = 0;
        let mut i: usize = 0;
        while i < len
            invariant
                i <= len <= pcm@.len(),
                count <= i,
                count == spec_zero_count(pcm@.subrange(0, i as int)),
            decreases len - i,
        {
            let ghost prefix = pcm@.subrange(0, i as int);
            if pcm[i] == 0 {
                count = count + 1;
            }
            i = i + 1;
            proof {
                let cur = pcm@.subrange(0, i as int);
                assert(cur.drop_last() =~= prefix);
                assert(cur.last() == pcm@[i - 1]);
            }
        }
        count >= len / 2
    }

    pub fn is_in_protected_body(&self, position: u32) -> (r: bool)
        requires
            self.wf(),
        ensures
            r == self.spec_protected(position),
    {
        proof {
            assert(position as int * self.container_timescale as int <= 0xFFFF_FFFFu64
                * 0xFFFF_FFFFu64) by (nonlinear_arith)
                requires
                    position <= 0xFFFF_FFFFu64,
                    self.container_timescale <= 0xFFFF_FFFFu64,
            ;
        }
        let np: u64 = (position as u64) * (self.container_timescale as u64)
            / (self.track_timescale as u64);
        self.guards.lead_secs < np && self.duration_secs > self.guards.trail_secs
            && np < self.duration_secs - self.guards.trail_secs
    }

    /// The keep/drop decision for the first `len` samples of a decoded
    /// buffer heard at `position`.
    pub fn should_keep(&self, pcm: &Vec<i16>, len: usize, position: u32) -> (r: bool)
        requires
            self.wf(),
            len <= pcm.len(),
        ensures
            r == self.spec_keep(pcm@.subrange(0, len as int), position),
    {
        !SilenceClassifier::is_mostly_silent(pcm, len) || self.is_in_protected_body(position)
    }
}

/// The chunks among `units` (each a decoded chunk with its position) that
/// the classifier keeps, in their original order.
pub open spec fn spec_kept_units(
    c: SilenceClassifier,
    units: Seq<(Seq<i16>, u32)>,
) -> Seq<(Seq<i16>, u32)>
    decreases units.len(),
{
    if units.len() == 0 {
        Seq::empty()
    } else {
        let rest = spec_kept_units(c, units.drop_last());
        if c.spec_keep(units.last().0, units.last().1) {
            rest.push(units.last())
        } else {
            rest
        }
    }
}

/// How many of `units` are dropped: mostly silent and outside the
/// protected body.
pub open spec fn spec_dropped_count(c: SilenceClassifier, units: Seq<(Seq<i16>, u32)>) -> int
    decreases units.len(),
{
    if units.len() == 0 {
        0
    } else {
        spec_dropped_count(c, units.drop_last()) + if !c.spec_keep(
            units.last().0,
            units.last().1,
        ) {
            1int
        } else {
            0int
        }
    }
}

/// Law: of N access units of which M are mostly silent and outside the
/// protected body, exactly the other N - M are kept, in original order
/// (the kept sequence is built left to right, so order is preserved by
/// construction).
pub proof fn lemma_kept_count(c: SilenceClassifier, units: Seq<(Seq<i16>, u32)>)
    ensures
        spec_kept_units(c, units).len() == units.len() - spec_dropped_count(c, units),
        0 <= spec_dropped_count(c, units) <= units.len(),
    decreases units.len(),
{
    if units.len() > 0 {
        lemma_kept_count(c, units.drop_last());
    }
}

} // verus!
