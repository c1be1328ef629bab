//! Framing of captured microphone samples into the 10 ms frames the audio
//! processing and the room expect, with a cap on buffered latency.

use vstd::prelude::*;

verus! {

/// At most this many frames (10 ms each) are kept buffered; older complete
/// frames are dropped to cap latency.
pub const MAX_BUFFER_FRAMES: usize = 10;

/// Number of samples in one 10 ms frame at the given sample rate.
pub open spec fn samples_per_frame(sample_rate: u32) -> int {
    sample_rate as int / 100
}

/// Buffers captured samples and hands them out in whole frames.
#[derive(Debug)]
pub struct AudioFrameQueue {
    buffer: Vec<i16>,
    samples_per_unit: usize,
}

/// Number of whole frames dropped from `joined` samples to cap latency.
pub open spec fn dropped_frames(len: int, spu: int) -> int {
    if len > MAX_BUFFER_FRAMES * spu {
        len / spu - MAX_BUFFER_FRAMES
    } else {
        0
    }
}

/// The samples kept after dropping the oldest whole frames.
pub open spec fn kept_samples(joined: Seq<i16>, spu: int) -> Seq<i16> {
    joined.skip(dropped_frames(joined.len() as int, spu) * spu)
}

/// Frame `k` of `kept`.
pub open spec fn frame_at(kept: Seq<i16>, spu: int, k: int) -> Seq<i16> {
    kept.subrange(k * spu, (k + 1) * spu)
}

/// Concatenation of the first `n` frames.
pub open spec fn joined_frames(frames: Seq<Vec<i16>>, n: int) -> Seq<i16>
    decreases n,
{
    if n <= 0 {
        Seq::empty()
    } else {
        joined_frames(frames, n - 1) + frames[n - 1]@
    }
}

impl AudioFrameQueue {
    /// A frame holds at least one sample and ten frames fit in memory sizes.
    #[verifier::type_invariant]
    spec fn frame_len_ok(&self) -> bool {
        0 < self.samples_per_unit <= 42949672
    }

    /// Samples waiting for a frame to fill.
    pub closed spec fn pending(&self) -> Seq<i16> {
        self.buffer@
    }

    /// Samples per frame.
    pub closed spec fn frame_len(&self) -> int {
        self.samples_per_unit as int
    }

    /// A queue for audio captured at `sample_rate` Hz.
    pub fn new(sample_rate: u32) -> (r: Self)
        requires
            sample_rate >= 100,
        ensures
            r.pending().len() == 0,
            r.frame_len() == samples_per_frame(sample_rate),
            r.frame_len() > 0,
    {
        AudioFrameQueue { buffer: Vec::new(), samples_per_unit: (sample_rate / 100) as usize }
    }

    /// Appends newly captured samples, drops the oldest whole frames when more
    /// than ten frames are buffered, and returns how many frames were dropped
    /// and the complete frames, oldest first. Fewer than one frame of samples
    /// stays pending.
    pub fn ingest(&mut self, data: &[i16]) -> (r: (usize, Vec<Vec<i16>>))
        requires
            old(self).pending().len() + data@.len() + old(self).frame_len() <= usize::MAX,
        ensures
            final(self).frame_len() == old(self).frame_len(),
            old(self).frame_len() > 0,
            ({
                let joined = old(self).pending() + data@;
                let spu = old(self).frame_len();
                let kept = kept_samples(joined, spu);
                &&& r.0 == dropped_frames(joined.len() as int, spu)
                &&& r.1@.len() == (kept.len() as int) / spu
                &&& forall|k: int|
                    0 <= k < r.1@.len() ==> (#[trigger] r.1@[k])@ == frame_at(kept, spu, k)
                &&& final(self).pending() == kept.skip(r.1@.len() * spu)
            }),
    {
        proof {
            use_type_invariant(&*self);
        }
        let spu = self.samples_per_unit;
        let ghost joined = self.buffer@ + data@;
        let mut all: Vec<i16> = Vec::new();
        let mut i: usize = 0;
        while i < self.buffer.len()
            invariant
                i <= self.buffer@.len(),
                all@ == self.buffer@.take(i as int),
            decreases self.buffer@.len() - i,
        {
            all.push(self.buffer[i]);
            i += 1;
            assert(all@ =~= self.buffer@.take(i as int));
        }
        let mut j: usize = 0;
        while j < data.len()
            invariant
                j <= data@.len(),
                all@ == self.buffer@ + data@.take(j as int),
            decreases data@.len() - j,
        {
            all.push(data[j]);
            j += 1;
            assert(all@ =~= self.buffer@ + data@.take(j as int));
        }
        assert(all@ =~= joined);
        let len = all.len();
        proof {
            if len > MAX_BUFFER_FRAMES * spu {
                assert(len / spu >= MAX_BUFFER_FRAMES) by (nonlinear_arith)
                    requires
                        len > 10 * spu,
                        spu > 0,
                ;
                assert((len / spu - 10) * spu <= len) by (nonlinear_arith)
                    requires
                        spu > 0,
                        len >= 0,
                ;
            }
        }
        let dropped = if len > MAX_BUFFER_FRAMES * spu {
            len / spu - MAX_BUFFER_FRAMES
        } else {
            0
        };
        let start = dropped * spu;
        let ghost kept = joined.skip(start as int);
        let count = (len - start) / spu;
        proof {
            assert(count * spu <= len - start) by (nonlinear_arith)
                requires
                    count as int == (len - start) as int / (spu as int),
                    spu > 0,
                    len - start >= 0,
            ;
        }
        let mut frames: Vec<Vec<i16>> = Vec::new();
        let mut k: usize = 0;
        while k < count
            invariant
                all@ == joined,
                len == joined.len(),
                kept == joined.skip(start as int),
                start <= len,
                spu > 0,
                count * spu <= len - start,
                k <= count,
                frames@.len() == k,
                forall|m: int|
                    0 <= m < k ==> (#[trigger] frames@[m])@ == frame_at(kept, spu as int, m),
            decreases count - k,
        {
            proof {
                assert((k + 1) * spu <= count * spu) by (nonlinear_arith)
                    requires
                        k + 1 <= count,
                        spu > 0,
                ;
                assert((k + 1) * spu == k * spu + spu) by (nonlinear_arith);
            }
            let from = start + k * spu;
            let to = from + spu;
            let mut frame: Vec<i16> = Vec::new();
            let mut p: usize = from;
            while p < to
                invariant
                    from <= p <= to,
                    to <= all@.len(),
                    frame@ == all@.subrange(from as int, p as int),
                decreases to - p,
            {
                frame.push(all[p]);
                p += 1;
                assert(frame@ =~= all@.subrange(from as int, p as int));
            }
            assert(frame@ =~= frame_at(kept, spu as int, k as int));
            frames.push(frame);
            k += 1;
        }
        let rest_from = start + count * spu;
        let mut rest: Vec<i16> = Vec::new();
        let mut q: usize = rest_from;
        while q < len
            invariant
                rest_from <= q <= len,
                len == all@.len(),
                rest@ == all@.subrange(rest_from as int, q as int),
            decreases len - q,
        {
            rest.push(all[q]);
            q += 1;
            assert(rest@ =~= all@.subrange(rest_from as int, q as int));
        }
        assert(rest@ =~= kept.skip(count * spu));
        self.buffer = rest;
        (dropped, frames)
    }
}

proof fn lemma_joined_frames(kept: Seq<i16>, spu: int, frames: Seq<Vec<i16>>, n: int)
    requires
        spu > 0,
        0 <= n <= frames.len(),
        frames.len() * spu <= kept.len(),
        forall|m: int| 0 <= m < frames.len() ==> (#[trigger] frames[m])@ == frame_at(kept, spu, m),
    ensures
        joined_frames(frames, n) == kept.take(n * spu),
    decreases n,
{
    if n == 0 {
        assert(n * spu == 0) by (nonlinear_arith)
            requires
                n == 0,
        ;
        assert(kept.take(0) =~= Seq::<i16>::empty());
    } else {
        lemma_joined_frames(kept, spu, frames, n - 1);
        assert(n * spu == (n - 1) * spu + spu) by (nonlinear_arith);
        assert(n * spu <= frames.len() * spu) by (nonlinear_arith)
            requires
                n <= frames.len(),
                spu > 0,
        ;
        assert(frames[n - 1]@ == frame_at(kept, spu, n - 1));
        assert(kept.take(n * spu) =~= kept.take((n - 1) * spu) + frame_at(kept, spu, n - 1));
    }
}

/// Framing loses and reorders nothing: the dropped samples, the frames in
/// order and the pending remainder make up exactly the samples that came in;
/// fewer than one frame stays pending, and at most ten frames plus that
/// remainder are kept.
pub proof fn law_framing_preserves_samples(
    joined: Seq<i16>,
    spu: int,
    dropped: int,
    frames: Seq<Vec<i16>>,
    pending: Seq<i16>,
)
    requires
        spu > 0,
        dropped == dropped_frames(joined.len() as int, spu),
        frames.len() == (kept_samples(joined, spu).len() as int) / spu,
        forall|k: int|
            0 <= k < frames.len() ==> (#[trigger] frames[k])@ == frame_at(
                kept_samples(joined, spu),
                spu,
                k,
            ),
        pending == kept_samples(joined, spu).skip(frames.len() * spu),
    ensures
        joined == joined.take(dropped * spu) + joined_frames(frames, frames.len() as int) + pending,
        pending.len() < spu,
        joined_frames(frames, frames.len() as int).len() + pending.len() <= MAX_BUFFER_FRAMES * spu
            + spu - 1 || dropped == 0,
{
    let len = joined.len() as int;
    let n = frames.len() as int;
    if len > MAX_BUFFER_FRAMES * spu {
        assert(len / spu >= MAX_BUFFER_FRAMES) by (nonlinear_arith)
            requires
                len > 10 * spu,
                spu > 0,
        ;
        assert((len / spu - 10) * spu <= len) by (nonlinear_arith)
            requires
                spu > 0,
                len >= 0,
        ;
        assert(len - (len / spu - 10) * spu <= 10 * spu + spu - 1) by (nonlinear_arith)
            requires
                spu > 0,
                len >= 0,
        ;
    }
    let kept = kept_samples(joined, spu);
    assert(n * spu <= kept.len()) by (nonlinear_arith)
        requires
            n == (kept.len() as int) / spu,
            spu > 0,
    ;
    assert(kept.len() - n * spu < spu) by (nonlinear_arith)
        requires
            n == (kept.len() as int) / spu,
            spu > 0,
    ;
    lemma_joined_frames(kept, spu, frames, n);
    assert(joined =~= joined.take(dropped * spu) + kept.take(n * spu) + pending);
}

/// A frame holds 10 ms of audio: the whole number of samples the rate gives
/// in a hundredth of a second. Frames are dropped only when eleven or more
/// whole frames are buffered, and then exactly enough of the oldest that ten
/// whole frames and the part of a frame after them remain.
pub proof fn law_latency_cap(sample_rate: u32, len: int, spu: int)
    requires
        len >= 0,
        spu > 0,
    ensures
        samples_per_frame(sample_rate) * 100 <= sample_rate < (samples_per_frame(sample_rate) + 1) * 100,
        len <= 10 * spu ==> dropped_frames(len, spu) == 0,
        (dropped_frames(len, spu) > 0) == (len >= 11 * spu),
        len > 10 * spu ==> 10 * spu <= len - dropped_frames(len, spu) * spu < 11 * spu,
{
    if len > 10 * spu {
        assert(len / spu >= 10) by (nonlinear_arith)
            requires
                len > 10 * spu,
                spu > 0,
        ;
        assert((len / spu >= 11) == (len >= 11 * spu)) by (nonlinear_arith)
            requires
                spu > 0,
                len >= 0,
        ;
        assert(10 * spu <= len - (len / spu - 10) * spu < 11 * spu) by (nonlinear_arith)
            requires
                spu > 0,
                len >= 0,
        ;
    }
}

} // verus!
