//! The amplitude envelope of the kept audio: per-chunk peaks of
//! sub-segment means, downsampled at end of stream into a fixed number of
//! buckets of bytes.
//!
//! All arithmetic is exact integer arithmetic with floor division and, for
//! the final scaling, round-half-up, so the envelope is a function of the
//! input samples alone.

use vstd::prelude::*;

verus! {

/// Sum of the nonnegative samples of `s`.
pub open spec fn spec_nonneg_sum(s: Seq<i16>) -> int
    decreases s.len(),
{
    if s.len() == 0 {
        0
    } else {
        spec_nonneg_sum(s.drop_last()) + if s.last() >= 0 {
            s.last() as int
        } else {
            0int
        }
    }
}

/// How many samples of `s` are nonnegative.
pub open spec fn spec_nonneg_count(s: Seq<i16>) -> int
    decreases s.len(),
{
    if s.len() == 0 {
        0
    } else {
        spec_nonneg_count(s.drop_last()) + if s.last() >= 0 {
            1int
        } else {
            0int
        }
    }
}

/// Mean of the nonnegative samples of `s`, rounded down; 0 when there is
/// none (all samples negative, or `s` empty).
pub open spec fn spec_avgfilter(s: Seq<i16>) -> int {
    if spec_nonneg_count(s) == 0 {
        0
    } else {
        spec_nonneg_sum(s) / spec_nonneg_count(s)
    }
}

/// Sum of a sequence of peaks.
pub open spec fn spec_sum_u64(s: Seq<u64>) -> int
    decreases s.len(),
{
    if s.len() == 0 {
        0
    } else {
        spec_sum_u64(s.drop_last()) + s.last()
    }
}

/// Largest entry of `s`, or 0 when `s` is empty.
pub open spec fn spec_max_u64(s: Seq<u64>) -> int
    decreases s.len(),
{
    if s.len() == 0 {
        0
    } else {
        let rest = spec_max_u64(s.drop_last());
        if s.last() > rest {
            s.last() as int
        } else {
            rest
        }
    }
}

/// Mean of `s`, rounded down; 0 when `s` is empty.
pub open spec fn spec_avg_u64(s: Seq<u64>) -> int {
    if s.len() == 0 {
        0
    } else {
        spec_sum_u64(s) / s.len() as int
    }
}

/// One envelope byte: `value / max * 256`, rounded half up and clamped to
/// a byte; 0 when `max` is 0, so a silent or empty program never divides
/// by zero.
pub open spec fn spec_balance_byte(value: int, max: int) -> int {
    if max == 0 {
        0
    } else {
        let rounded = (512 * value + max) / (2 * max);
        if rounded > 255 {
            255
        } else {
            rounded
        }
    }
}

/// Largest of the means of the first `k` sub-segments of `chunk`, each
/// `seg` samples long; 0 when `k` is 0.
pub open spec fn spec_peak_upto(chunk: Seq<i16>, seg: int, k: int) -> int
    recommends
        0 <= seg,
        0 <= k,
        k * seg <= chunk.len(),
    decreases k,
{
    if k <= 0 {
        0
    } else {
        let m = spec_avgfilter(chunk.subrange((k - 1) * seg, k * seg));
        let rest = spec_peak_upto(chunk, seg, k - 1);
        if m > rest {
            m
        } else {
            rest
        }
    }
}

/// The representative peak of one decoded chunk: the chunk is split into
/// `segments` sub-segments of `len / (segments + 1)` samples (the tail
/// that does not fill a sub-segment is ignored), and the largest
/// sub-segment mean is taken.
pub open spec fn spec_chunk_peak(chunk: Seq<i16>, segments: int) -> int
    recommends
        0 <= segments,
{
    spec_peak_upto(chunk, chunk.len() as int / (segments + 1), segments)
}

/// The finished envelope: `buckets` bytes, byte `i` scaling the mean of
/// bucket `i` of the peaks by the largest peak seen in any bucket.
pub open spec fn spec_envelope(peaks: Seq<u64>, buckets: int) -> Seq<u8>
    recommends
        0 <= buckets,
{
    let bsize = peaks.len() as int / (buckets + 1);
    let gmax = spec_max_u64(peaks.subrange(0, buckets * bsize));
    Seq::new(
        buckets as nat,
        |i: int|
            spec_balance_byte(
                spec_avg_u64(peaks.subrange(i * bsize, (i + 1) * bsize)),
                gmax,
            ) as u8,
    )
}

/// Exact-integer amplitude statistics over PCM buffers and peak
/// sequences.
pub struct Waveform;

impl Waveform {
    /// Mean of the nonnegative samples among `pcm[start..end]`, rounded
    /// down; negative samples count neither toward the sum nor toward the
    /// divisor, and a range with no nonnegative sample yields 0.
    pub fn avgfilter(pcm: &Vec<i16>, start: usize, end: usize) -> (r: u64)
        requires
            start <= end <= pcm.len(),
        ensures
            r as int == spec_avgfilter(pcm@.subrange(start as int, end as int)),
            r <= 32767,
    {
        let mut sum: u128 = 0;
        let mut count: u128 = 0;
        let mut i: usize = start;
        while i < end
            invariant
                start <= i <= end <= pcm@.len(),
                count <= i - start,
                sum <= 32767 * count,
                sum as int == spec_nonneg_sum(pcm@.subrange(start as int, i as int)),
                count as int == spec_nonneg_count(pcm@.subrange(start as int, i as int)),
            decreases end - i,
        {
            let ghost prefix = pcm@.subrange(start as int, i as int);
            let x = pcm[i];
            if x >= 0 {
                sum = sum + (x as u128);
                count = count + 1;
            }
            i = i + 1;
            proof {
                let cur = pcm@.subrange(start as int, i as int);
                assert(cur.drop_last() =~= prefix);
                assert(cur.last() == pcm@[i - 1]);
            }
        }
        if count == 0 {
            0
        } else {
            let q = sum / count;
            proof {
                assert(sum / count <= 32767) by (nonlinear_arith)
                    requires
                        count > 0,
                        sum <= 32767 * count,
                ;
            }
            q as u64
        }
    }

    /// Mean (rounded down) and maximum of `peaks[start..end]`; `(0, 0)`
    /// for an empty range.
    pub fn avgmax(peaks: &Vec<u64>, start: usize, end: usize) -> (r: (u64, u64))
        requires
            start <= end <= peaks.len(),
        ensures
            r.0 as int == spec_avg_u64(peaks@.subrange(start as int, end as int)),
            r.1 as int == spec_max_u64(peaks@.subrange(start as int, end as int)),
    {
        let mut sum: u128 = 0;
        let mut max: u64 = 0;
        let mut i: usize = start;
        while i < end
            invariant
                start <= i <= end <= peaks@.len(),
                sum <= 0xFFFF_FFFF_FFFF_FFFFu128 * ((i - start) as u128),
                sum as int == spec_sum_u64(peaks@.subrange(start as int, i as int)),
                max as int == spec_max_u64(peaks@.subrange(start as int, i as int)),
            decreases end - i,
        {
            let ghost prefix = peaks@.subrange(start as int, i as int);
            let x = peaks[i];
            if x > max {
                max = x;
            }
            sum = sum + (x as u128);
            i = i + 1;
            proof {
                let cur = peaks@.subrange(start as int, i as int);
                assert(cur.drop_last() =~= prefix);
                assert(cur.last() == peaks@[i - 1]);
            }
        }
        if i == start {
            (0, max)
        } else {
            let cnt = (end - start) as u128;
            let q = sum / cnt;
            proof {
                assert(sum / cnt <= 0xFFFF_FFFF_FFFF_FFFFu128) by (nonlinear_arith)
                    requires
                        cnt > 0,
                        sum <= 0xFFFF_FFFF_FFFF_FFFFu128 * cnt,
                ;
            }
            (q as u64, max)
        }
    }

    /// Scales each peak against `max` into a byte: `value / max * 256`,
    /// rounded half up and clamped to 255. When `max` is 0 every byte is
    /// 0.
    pub fn balance(peaks: &Vec<u64>, max: u64) -> (r: Vec<u8>)
        ensures
            r@.len() == peaks@.len(),
            forall|i: int|
                0 <= i < peaks@.len() ==> r@[i] == spec_balance_byte(
                    peaks@[i] as int,
                    max as int,
                ),
    {
        let mut out: Vec<u8> = Vec::new();
        let mut i: usize = 0;
        while i < peaks.len()
            invariant
                i <= peaks@.len(),
                out@.len() == i,
                forall|j: int|
                    0 <= j < i ==> out@[j] == spec_balance_byte(peaks@[j] as int, max as int),
            decreases peaks@.len() - i,
        {
            let byte: u8 = if max == 0 {
                0
            } else {
                let num: u128 = (peaks[i] as u128) * 512 + (max as u128);
                let den: u128 = 2 * (max as u128);
                let q = num / den;
                if q > 255 {
                    255
                } else {
                    q as u8
                }
            };
            out.push(byte);
            i = i + 1;
        }
        out
    }

    /// Largest entry of `peaks`; `Some(0)` when `peaks` is empty.
    pub fn peak_range(peaks: &Vec<u64>) -> (r: Option<u64>)
        ensures
            r matches Some(m) && m as int == spec_max_u64(peaks@),
    {
        let mut max: u64 = 0;
        let mut i: usize = 0;
        while i < peaks.len()
            invariant
                i <= peaks@.len(),
                max as int == spec_max_u64(peaks@.subrange(0, i as int)),
            decreases peaks@.len() - i,
        {
            let ghost prefix = peaks@.subrange(0, i as int);
            let x = peaks[i];
            if x > max {
                max = x;
            }
            i = i + 1;
            proof {
                let cur = peaks@.subrange(0, i as int);
                assert(cur.drop_last() =~= prefix);
                assert(cur.last() == peaks@[i - 1]);
            }
        }
        proof {
            assert(peaks@.subrange(0, peaks@.len() as int) =~= peaks@);
        }
        Some(max)
    }
}

/// Every peak sequence has a nonnegative maximum.
pub proof fn lemma_max_u64_nonneg(s: Seq<u64>)
    ensures
        0 <= spec_max_u64(s) <= u64::MAX,
    decreases s.len(),
{
    if s.len() > 0 {
        lemma_max_u64_nonneg(s.drop_last());
    }
}

/// The maximum over `s[a..c]` is the larger of the maxima over `s[a..b]`
/// and `s[b..c]`.
pub proof fn lemma_max_u64_split(s: Seq<u64>, a: int, b: int, c: int)
    requires
        0 <= a <= b <= c <= s.len(),
    ensures
        spec_max_u64(s.subrange(a, c)) == if spec_max_u64(s.subrange(b, c)) > spec_max_u64(
            s.subrange(a, b),
        ) {
            spec_max_u64(s.subrange(b, c))
        } else {
            spec_max_u64(s.subrange(a, b))
        },
    decreases c - b,
{
    if c == b {
        assert(s.subrange(b, c) =~= Seq::<u64>::empty());
        assert(s.subrange(a, c) =~= s.subrange(a, b));
        lemma_max_u64_nonneg(s.subrange(a, b));
    } else {
        lemma_max_u64_split(s, a, b, c - 1);
        assert(s.subrange(a, c).drop_last() =~= s.subrange(a, c - 1));
        assert(s.subrange(b, c).drop_last() =~= s.subrange(b, c - 1));
        assert(s.subrange(a, c).last() == s[c - 1]);
        assert(s.subrange(b, c).last() == s[c - 1]);
    }
}

/// A sequence whose entries are the first `k` sub-segment means of a
/// chunk has the peak of those `k` sub-segments as its maximum.
proof fn lemma_peak_from_means(chunk: Seq<i16>, seg: int, means: Seq<u64>, k: int)
    requires
        0 <= k,
        means.len() == k,
        forall|j: int|
            0 <= j < k ==> means[j] as int == spec_avgfilter(
                chunk.subrange(j * seg, (j + 1) * seg),
            ),
    ensures
        spec_max_u64(means) == spec_peak_upto(chunk, seg, k),
    decreases k,
{
    if k > 0 {
        assert(forall|j: int|
            0 <= j < k - 1 ==> means.drop_last()[j] as int == spec_avgfilter(
                chunk.subrange(j * seg, (j + 1) * seg),
            ));
        lemma_peak_from_means(chunk, seg, means.drop_last(), k - 1);
        assert(means.last() as int == spec_avgfilter(chunk.subrange((k - 1) * seg, k * seg)));
    }
}

/// Accumulates one peak per kept decoded chunk and, at end of stream,
/// condenses them into a fixed-length byte envelope.
pub struct WaveformBuilder {
    /// One representative peak per kept chunk, in stream order.
    pub peaks: Vec<u64>,
    /// Sub-segments per chunk when computing a chunk's peak.
    pub segments: usize,
    /// Bytes in the finished envelope.
    pub buckets: usize,
}

impl WaveformBuilder {
    pub open spec fn wf(self) -> bool {
        self.segments < usize::MAX && self.buckets < usize::MAX
    }

    pub fn new(segments: usize, buckets: usize) -> (r: WaveformBuilder)
        requires
            segments < usize::MAX,
            buckets < usize::MAX,
        ensures
            r.wf(),
            r.peaks@ =~= Seq::<u64>::empty(),
            r.segments == segments,
            r.buckets == buckets,
    {
        WaveformBuilder { peaks: Vec::new(), segments, buckets }
    }

    /// Appends the representative peak of the first `len` samples of a
    /// kept decoded chunk.
    pub fn push_chunk(&mut self, pcm: &Vec<i16>, len: usize)
        requires
            old(self).wf(),
            len <= pcm.len(),
        ensures
            final(self).wf(),
            final(self).segments == old(self).segments,
            final(self).buckets == old(self).buckets,
            final(self).peaks@ == old(self).peaks@.push(
                spec_chunk_peak(pcm@.subrange(0, len as int), old(self).segments as int) as u64,
            ),
    {
        let ghost chunk = pcm@.subrange(0, len as int);
        let segments = self.segments;
        let seg = len / (segments + 1);
        proof {
            assert((segments + 1) * seg <= len) by (nonlinear_arith)
                requires
                    seg == len as int / (segments as int + 1),
                    segments as int + 1 > 0,
                    len >= 0,
            ;
        }
        let mut avg: Vec<u64> = Vec::new();
        let mut i: usize = 0;
        while i < segments
            invariant
                i <= segments,
                seg == len as int / (segments as int + 1),
                (segments + 1) * seg <= len <= pcm@.len(),
                chunk == pcm@.subrange(0, len as int),
                avg@.len() == i,
                forall|j: int|
                    0 <= j < i ==> avg@[j] as int == spec_avgfilter(
                        chunk.subrange(j * seg, (j + 1) * seg),
                    ),
            decreases segments - i,
        {
            proof {
                assert((i + 1) * seg <= (segments + 1) * seg) by (nonlinear_arith)
                    requires
                        i + 1 <= segments + 1,
                        seg >= 0,
                ;
                assert(i * seg <= (i + 1) * seg) by (nonlinear_arith)
                    requires
                        seg >= 0,
                        i >= 0,
                ;
            }
            let lo = i * seg;
            let hi = (i + 1) * seg;
            let a = Waveform::avgfilter(pcm, lo, hi);
            proof {
                assert(pcm@.subrange(lo as int, hi as int) =~= chunk.subrange(
                    lo as int,
                    hi as int,
                ));
            }
            avg.push(a);
            i = i + 1;
        }
        if let Some(peak) = Waveform::peak_range(&avg) {
            proof {
                lemma_peak_from_means(chunk, seg as int, avg@, segments as int);
            }
            self.peaks.push(peak);
        }
    }

    /// Downsamples the accumulated peaks into `self.buckets` bytes. Does
    /// not consume the builder; the envelope depends only on the peaks
    /// and the bucket count.
    pub fn finalize(&self) -> (r: Vec<u8>)
        requires
            self.wf(),
        ensures
            r@ == spec_envelope(self.peaks@, self.buckets as int),
            r@.len() == self.buckets,
    {
        let n = self.peaks.len();
        let buckets = self.buckets;
        let bsize = n / (buckets + 1);
        proof {
            assert((buckets + 1) * bsize <= n) by (nonlinear_arith)
                requires
                    bsize == n as int / (buckets as int + 1),
                    buckets as int + 1 > 0,
                    n >= 0,
            ;
        }
        let mut avg: Vec<u64> = Vec::new();
        let mut max: u64 = 0;
        let mut i: usize = 0;
        while i < buckets
            invariant
                i <= buckets,
                bsize == n as int / (buckets as int + 1),
                (buckets + 1) * bsize <= n == self.peaks@.len(),
                avg@.len() == i,
                forall|j: int|
                    0 <= j < i ==> avg@[j] as int == spec_avg_u64(
                        self.peaks@.subrange(j * bsize, (j + 1) * bsize),
                    ),
                max as int == spec_max_u64(self.peaks@.subrange(0, i * bsize)),
            decreases buckets - i,
        {
            proof {
                assert((i + 1) * bsize <= (buckets + 1) * bsize) by (nonlinear_arith)
                    requires
                        i + 1 <= buckets + 1,
                        bsize >= 0,
                ;
                assert(i * bsize <= (i + 1) * bsize) by (nonlinear_arith)
                    requires
                        bsize >= 0,
                        i >= 0,
                ;
            }
            let lo = i * bsize;
            let hi = (i + 1) * bsize;
            let (val, maxval) = Waveform::avgmax(&self.peaks, lo, hi);
            proof {
                lemma_max_u64_split(self.peaks@, 0, lo as int, hi as int);
            }
            if maxval > max {
                max = maxval;
            }
            avg.push(val);
            i = i + 1;
        }
        let out = Waveform::balance(&avg, max);
        proof {
            assert((buckets as int) * (bsize as int) <= (buckets as int + 1) * (bsize as int))
                by (nonlinear_arith)
                requires
                    bsize >= 0,
                    buckets >= 0,
            ;
            assert(out@ =~= spec_envelope(self.peaks@, buckets as int));
        }
        out
    }
}

/// Law: the envelope is a function of the accumulated peaks and the
/// bucket count alone. Together with the contracts of
/// [`WaveformBuilder::push_chunk`] and [`WaveformBuilder::finalize`],
/// which pin the peaks and the envelope to those spec functions, two runs
/// over the same sequence of kept PCM chunks yield byte-identical
/// envelopes.
pub proof fn lemma_envelope_deterministic(a: WaveformBuilder, b: WaveformBuilder)
    requires
        a.peaks@ == b.peaks@,
        a.buckets == b.buckets,
    ensures
        spec_envelope(a.peaks@, a.buckets as int) == spec_envelope(b.peaks@, b.buckets as int),
{
}

/// An all-zero sample sequence has zero nonnegative sum.
proof fn lemma_nonneg_sum_all_zero(s: Seq<i16>)
    requires
        forall|i: int| 0 <= i < s.len() ==> s[i] == 0,
    ensures
        spec_nonneg_sum(s) == 0,
    decreases s.len(),
{
    if s.len() > 0 {
        lemma_nonneg_sum_all_zero(s.drop_last());
    }
}

/// Law: an all-zero chunk contributes a zero peak, whatever the segment
/// count.
pub proof fn lemma_chunk_peak_all_zero(chunk: Seq<i16>, segments: int)
    requires
        0 <= segments,
        forall|i: int| 0 <= i < chunk.len() ==> chunk[i] == 0,
    ensures
        spec_chunk_peak(chunk, segments) == 0,
{
    let seg = chunk.len() as int / (segments + 1);
    assert(seg >= 0 && (segments + 1) * seg <= chunk.len()) by (nonlinear_arith)
        requires
            seg == chunk.len() as int / (segments + 1),
            segments + 1 > 0,
            chunk.len() >= 0,
    ;
    assert(segments * seg <= (segments + 1) * seg) by (nonlinear_arith)
        requires
            seg >= 0,
            segments >= 0,
    ;
    lemma_peak_upto_all_zero(chunk, seg, segments);
}

proof fn lemma_peak_upto_all_zero(chunk: Seq<i16>, seg: int, k: int)
    requires
        0 <= k,
        0 <= seg,
        k * seg <= chunk.len(),
        forall|i: int| 0 <= i < chunk.len() ==> chunk[i] == 0,
    ensures
        spec_peak_upto(chunk, seg, k) == 0,
    decreases k,
{
    if k > 0 {
        assert(0 <= (k - 1) * seg <= k * seg) by (nonlinear_arith)
            requires
                k >= 1,
                seg >= 0,
        ;
        lemma_peak_upto_all_zero(chunk, seg, k - 1);
        let sub = chunk.subrange((k - 1) * seg, k * seg);
        assert(forall|i: int| 0 <= i < sub.len() ==> sub[i] == 0);
        lemma_nonneg_sum_all_zero(sub);
        assert(spec_avgfilter(sub) == 0) by {
            if spec_nonneg_count(sub) != 0 {
                lemma_div_of_zero(spec_nonneg_count(sub));
            }
        }
    }
}

proof fn lemma_div_of_zero(d: int)
    requires
        d != 0,
    ensures
        0int / d == 0,
{
    assert(0int / d == 0) by (nonlinear_arith)
        requires
            d != 0,
    ;
}

/// An all-zero peak sequence has maximum zero.
pub proof fn lemma_max_u64_all_zero(s: Seq<u64>)
    requires
        forall|i: int| 0 <= i < s.len() ==> s[i] == 0,
    ensures
        spec_max_u64(s) == 0,
    decreases s.len(),
{
    if s.len() > 0 {
        lemma_max_u64_all_zero(s.drop_last());
    }
}

/// Law: when every accumulated peak is zero (an all-zero PCM stream), the
/// global maximum is zero and every envelope byte is zero; no division by
/// zero occurs because the zero maximum is never divided by.
pub proof fn lemma_envelope_all_zero(peaks: Seq<u64>, buckets: int)
    requires
        0 <= buckets,
        forall|i: int| 0 <= i < peaks.len() ==> peaks[i] == 0,
    ensures
        spec_envelope(peaks, buckets).len() == buckets,
        forall|i: int| 0 <= i < buckets ==> spec_envelope(peaks, buckets)[i] == 0,
{
    let bsize = peaks.len() as int / (buckets + 1);
    assert(bsize >= 0 && (buckets + 1) * bsize <= peaks.len()) by (nonlinear_arith)
        requires
            bsize == peaks.len() as int / (buckets + 1),
            buckets + 1 > 0,
            peaks.len() >= 0,
    ;
    assert(0 <= buckets * bsize <= (buckets + 1) * bsize) by (nonlinear_arith)
        requires
            bsize >= 0,
            buckets >= 0,
    ;
    let prefix = peaks.subrange(0, buckets * bsize);
    assert(forall|i: int| 0 <= i < prefix.len() ==> prefix[i] == 0);
    lemma_max_u64_all_zero(prefix);
}

} // verus!
