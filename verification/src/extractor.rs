//! Playback-synchronized sample extraction.
//!
//! Each rendered frame the extractor reads the playback clock, decides
//! how many sample-frames should have arrived since the last poll, and
//! asks the caller to pull that many raw interleaved samples from the
//! decoded stream ([`Extractor::pull_request`]). The pulled samples are
//! then grouped into stereo frames, pushed into the overwriting ring,
//! and the ring's contents are copied out as the snapshot to visualize
//! ([`Extractor::get_samples`]).

use vstd::prelude::*;
use crate::ring::{
    StereoFrame, FrameRing, ring_new, ring_push, ring_peek, ring_frames, ring_cap, push_one,
    push_all,
};

verus! {

/// The stereo frame read out of one group of interleaved raw samples:
/// the first value is the left amplitude; the second, when the group has
/// one, is the right, and otherwise the left value is reused (mono upmix).
pub open spec fn group_frame(g: Seq<i16>) -> StereoFrame {
    StereoFrame { left: g[0], right: if g.len() >= 2 { g[1] } else { g[0] } }
}

/// Interleaved raw samples grouped into stereo frames, `channels` raw
/// values per group. Channels beyond the second are dropped, and a short
/// final group still yields a frame.
pub open spec fn stereo_frames(raw: Seq<i16>, channels: nat) -> Seq<StereoFrame>
    decreases raw.len(),
{
    if channels == 0 || raw.len() == 0 {
        Seq::empty()
    } else if raw.len() <= channels {
        seq![group_frame(raw)]
    } else {
        seq![group_frame(raw.take(channels as int))] + stereo_frames(raw.skip(channels as int), channels)
    }
}

/// Nanoseconds of playback since the previous poll; a clock that moved
/// backwards counts as zero elapsed time.
pub open spec fn elapsed_nanos(last: nat, pos: nat) -> nat {
    if pos >= last {
        (pos - last) as nat
    } else {
        0
    }
}

/// How many whole sample-frames the elapsed playback time spans, rounded
/// half up.
pub open spec fn expected_frames(elapsed: nat, rate: nat) -> nat {
    (elapsed * rate + 500_000_000) / 1_000_000_000
}

/// How many frames to take this poll: the elapsed count, capped at the
/// buffer capacity.
pub open spec fn take_count(expected: nat, cap: nat) -> nat {
    if expected <= cap {
        expected
    } else {
        cap
    }
}

/// How many frames to discard before taking, when the extractor has
/// fallen more than a full buffer behind.
pub open spec fn skip_count(expected: nat, cap: nat) -> nat {
    if expected <= cap {
        0
    } else {
        (expected - cap) as nat
    }
}

/// How many raw interleaved samples the caller should discard
/// (`skip_raw`) and then hand over (`take_raw`) from the decoded stream,
/// as decided by [`Extractor::pull_request`].
#[derive(Clone, Copy, PartialEq, Eq, Structural, Debug)]
pub struct PullRequest {
    pub skip_raw: u128,
    pub take_raw: u64,
}

/// Pulls a sliding window of decoded stereo samples in lock-step with
/// the playback clock, buffering them in a fixed-capacity overwriting
/// ring.
pub struct Extractor {
    last_position_nanos: u64,
    buffer_size: usize,
    sample_rate: u32,
    channels: u16,
    ring: FrameRing,
}

impl Extractor {
    /// Configuration and buffer are consistent; every method keeps this.
    pub closed spec fn wf(self) -> bool {
        &&& 1 <= self.buffer_size <= 0x1000_0000
        &&& self.channels >= 1
        &&& ring_cap(self.ring) == self.buffer_size
        &&& ring_frames(self.ring).len() <= self.buffer_size
    }

    /// The frames currently buffered, oldest first.
    pub closed spec fn frames(self) -> Seq<StereoFrame> {
        ring_frames(self.ring)
    }

    /// The configured buffer capacity.
    pub closed spec fn capacity(self) -> nat {
        self.buffer_size as nat
    }

    /// The channel count of the decoded stream.
    pub closed spec fn spec_channels(self) -> nat {
        self.channels as nat
    }

    /// The sample rate of the decoded stream, in frames per second.
    pub closed spec fn spec_sample_rate(self) -> nat {
        self.sample_rate as nat
    }

    /// The playback position seen at the previous poll, in nanoseconds.
    pub closed spec fn last_position(self) -> nat {
        self.last_position_nanos as nat
    }

    /// A fresh extractor: empty ring of `buffer_size` frames, playback
    /// clock at zero.
    pub fn new(buffer_size: usize, sample_rate: u32, channels: u16) -> (ex: Extractor)
        requires
            1 <= buffer_size <= 0x1000_0000,
            channels >= 1,
        ensures
            ex.wf(),
            ex.capacity() == buffer_size,
            ex.spec_sample_rate() == sample_rate,
            ex.spec_channels() == channels,
            ex.last_position() == 0,
            ex.frames() == Seq::<StereoFrame>::empty(),
    {
        Extractor {
            last_position_nanos: 0,
            buffer_size,
            sample_rate,
            channels,
            ring: ring_new(buffer_size),
        }
    }

    /// Reads one playback-clock sample and decides how much of the
    /// decoded stream belongs to this frame: `skip_raw` raw samples to
    /// discard (only when more frames elapsed than the buffer can hold),
    /// then `take_raw` raw samples to hand to [`Extractor::get_samples`].
    pub fn pull_request(&mut self, position_nanos: u64) -> (req: PullRequest)
        requires
            old(self).wf(),
        ensures
            final(self).wf(),
            final(self).last_position() == position_nanos,
            final(self).frames() == old(self).frames(),
            final(self).capacity() == old(self).capacity(),
            final(self).spec_channels() == old(self).spec_channels(),
            final(self).spec_sample_rate() == old(self).spec_sample_rate(),
            req.take_raw == take_count(
                expected_frames(
                    elapsed_nanos(old(self).last_position(), position_nanos as nat),
                    old(self).spec_sample_rate(),
                ),
                old(self).capacity(),
            ) * old(self).spec_channels(),
            req.skip_raw == skip_count(
                expected_frames(
                    elapsed_nanos(old(self).last_position(), position_nanos as nat),
                    old(self).spec_sample_rate(),
                ),
                old(self).capacity(),
            ) * old(self).spec_channels(),
    {
        let elapsed: u64 = if position_nanos >= self.last_position_nanos {
            position_nanos - self.last_position_nanos
        } else {
            0
        };
        self.last_position_nanos = position_nanos;

        proof {
            assert(elapsed as int * self.sample_rate as int <= 0xffff_ffff_ffff_ffff * 0xffff_ffff)
                by (nonlinear_arith)
                requires
                    0 <= elapsed <= 0xffff_ffff_ffff_ffffu64,
                    0 <= self.sample_rate <= 0xffff_ffffu32,
            ;
        }
        let product: u128 = elapsed as u128 * self.sample_rate as u128 + 500_000_000;
        let expected: u128 = product / 1_000_000_000;
        assert(expected <= product);
        let cap128: u128 = self.buffer_size as u128;
        let take: u64 = if expected <= cap128 {
            expected as u64
        } else {
            self.buffer_size as u64
        };
        let skip: u128 = if expected <= cap128 {
            0
        } else {
            expected - cap128
        };
        proof {
            assert(take as int * self.channels as int <= 0x1000_0000 * 0xffff)
                by (nonlinear_arith)
                requires
                    0 <= take <= 0x1000_0000u64,
                    0 <= self.channels <= 0xffffu16,
            ;
            assert(skip as int * self.channels as int <= (0xffff_ffff_ffff_ffff * 0xffff_ffff
                + 500_000_000) * 0xffff)
                by (nonlinear_arith)
                requires
                    0 <= skip <= 0xffff_ffff_ffff_ffff * 0xffff_ffff + 500_000_000,
                    0 <= self.channels <= 0xffffu16,
            ;
        }
        PullRequest { skip_raw: skip * self.channels as u128, take_raw: take * self.channels as u64 }
    }

    /// Groups the freshly pulled raw samples into stereo frames, pushes
    /// them into the ring with overwrite semantics, and copies the
    /// ring's contents, oldest first, into the front of `output`.
    /// Entries of `output` beyond what the ring holds keep their
    /// previous values, so the snapshot always has full length.
    pub fn get_samples(&mut self, raw: &Vec<i16>, output: &mut Vec<StereoFrame>)
        requires
            old(self).wf(),
            old(output)@.len() == old(self).capacity(),
        ensures
            final(self).wf(),
            final(self).capacity() == old(self).capacity(),
            final(self).spec_channels() == old(self).spec_channels(),
            final(self).spec_sample_rate() == old(self).spec_sample_rate(),
            final(self).last_position() == old(self).last_position(),
            final(self).frames() == push_all(
                old(self).frames(),
                stereo_frames(raw@, old(self).spec_channels()),
                old(self).capacity(),
            ),
            final(output)@.len() == old(output)@.len(),
            forall|i: int|
                0 <= i < final(self).frames().len() ==> final(output)@[i] == final(self).frames()[i],
            forall|i: int|
                final(self).frames().len() <= i < old(output)@.len()
                    ==> final(output)@[i] == old(output)@[i],
    {
        let frames = pair_frames(raw, self.channels);
        let ghost s0 = ring_frames(self.ring);
        let ghost cap = self.buffer_size as nat;
        let mut j: usize = 0;
        while j < frames.len()
            invariant
                j <= frames.len(),
                self.buffer_size == old(self).buffer_size,
                self.sample_rate == old(self).sample_rate,
                self.channels == old(self).channels,
                self.last_position_nanos == old(self).last_position_nanos,
                1 <= self.buffer_size <= 0x1000_0000,
                cap == self.buffer_size as nat,
                ring_cap(self.ring) == cap,
                ring_frames(self.ring).len() <= cap,
                ring_frames(self.ring) == push_all(s0, frames@.take(j as int), cap),
            decreases frames.len() - j,
        {
            proof {
                lemma_push_all_snoc(s0, frames@, j as int, cap);
            }
            ring_push(&mut self.ring, frames[j]);
            j = j + 1;
        }
        proof {
            assert(frames@.take(frames@.len() as int) =~= frames@);
        }
        ring_peek(&self.ring, output);
    }
}

/// Interleaved raw samples grouped into stereo frames: one frame per
/// `channels` raw values, mono upmixed and extra channels dropped.
fn pair_frames(raw: &Vec<i16>, channels: u16) -> (frames: Vec<StereoFrame>)
    requires
        channels >= 1,
    ensures
        frames@ == stereo_frames(raw@, channels as nat),
{
    let ch: usize = channels as usize;
    let mut frames: Vec<StereoFrame> = Vec::new();
    let mut i: usize = 0;
    proof {
        assert(raw@.skip(0) =~= raw@);
        assert(frames@ + stereo_frames(raw@, channels as nat) =~= stereo_frames(
            raw@,
            channels as nat,
        ));
    }
    while i < raw.len()
        invariant
            ch == channels as usize,
            ch >= 1,
            i <= raw.len(),
            stereo_frames(raw@, channels as nat) == frames@ + stereo_frames(
                raw@.skip(i as int),
                channels as nat,
            ),
        decreases raw.len() - i,
    {
        let left = raw[i];
        let right = if ch >= 2 && i + 1 < raw.len() {
            raw[i + 1]
        } else {
            left
        };
        let ghost rest = raw@.skip(i as int);
        let ghost fr = StereoFrame { left: left, right: right };
        let ghost old_frames = frames@;
        proof {
            if rest.len() <= ch {
                assert(rest[0] == raw@[i as int]);
                if rest.len() >= 2 {
                    assert(rest[1] == raw@[i as int + 1]);
                }
                assert(group_frame(rest) == fr);
                assert(stereo_frames(rest, channels as nat) == seq![fr]);
            } else {
                assert(rest.take(ch as int)[0] == raw@[i as int]);
                if ch >= 2 {
                    assert(rest.take(ch as int)[1] == raw@[i as int + 1]);
                }
                assert(group_frame(rest.take(ch as int)) == fr);
                assert(rest.skip(ch as int) =~= raw@.skip(i as int + ch as int));
                assert(stereo_frames(rest, channels as nat) == seq![fr] + stereo_frames(
                    raw@.skip(i as int + ch as int),
                    channels as nat,
                ));
            }
        }
        frames.push(StereoFrame { left, right });
        if raw.len() - i <= ch {
            i = raw.len();
        } else {
            i = i + ch;
        }
        proof {
            assert(frames@ =~= old_frames + seq![fr]);
            if rest.len() <= ch {
                assert(stereo_frames(raw@.skip(i as int), channels as nat) == Seq::<
                    StereoFrame,
                >::empty());
                assert(old_frames + stereo_frames(rest, channels as nat) =~= frames@
                    + stereo_frames(raw@.skip(i as int), channels as nat));
            } else {
                assert(old_frames + stereo_frames(rest, channels as nat) =~= frames@
                    + stereo_frames(raw@.skip(i as int), channels as nat));
            }
        }
    }
    proof {
        assert(raw@.skip(raw@.len() as int) =~= Seq::<i16>::empty());
        assert(frames@ + stereo_frames(raw@.skip(raw@.len() as int), channels as nat) =~= frames@);
    }
    frames
}

/// Taking one more frame into an overwriting push sequence is one more
/// overwriting push.
proof fn lemma_push_all_snoc(s: Seq<StereoFrame>, xs: Seq<StereoFrame>, j: int, cap: nat)
    requires
        0 <= j < xs.len(),
    ensures
        push_all(s, xs.take(j + 1), cap) == push_one(push_all(s, xs.take(j), cap), xs[j], cap),
    decreases j,
{
    let s1 = push_one(s, xs[0], cap);
    if j == 0 {
        assert(xs.take(1)[0] == xs[0]);
        assert(xs.take(1).skip(1) =~= Seq::<StereoFrame>::empty());
        assert(xs.take(0) =~= Seq::<StereoFrame>::empty());
        assert(push_all(s, xs.take(1), cap) == push_all(s1, Seq::<StereoFrame>::empty(), cap));
        assert(push_all(s1, Seq::<StereoFrame>::empty(), cap) == s1);
        assert(push_all(s, xs.take(0), cap) == s);
    } else {
        lemma_push_all_snoc(s1, xs.skip(1), j - 1, cap);
        assert(xs.take(j + 1)[0] == xs[0]);
        assert(xs.take(j + 1).skip(1) =~= xs.skip(1).take(j));
        assert(push_all(s, xs.take(j + 1), cap) == push_all(s1, xs.skip(1).take(j), cap));
        assert(xs.take(j)[0] == xs[0]);
        assert(xs.take(j).skip(1) =~= xs.skip(1).take(j - 1));
        assert(push_all(s, xs.take(j), cap) == push_all(s1, xs.skip(1).take(j - 1), cap));
        assert(xs.skip(1)[j - 1] == xs[j]);
    }
}

/// Mono upmix law: grouping a single-channel stream yields one frame per
/// raw sample, each with the right amplitude equal to the left.
pub proof fn lemma_mono_upmix(raw: Seq<i16>)
    ensures
        stereo_frames(raw, 1).len() == raw.len(),
        forall|j: int|
            0 <= j < raw.len() ==> stereo_frames(raw, 1)[j] == (StereoFrame {
                left: raw[j],
                right: raw[j],
            }),
    decreases raw.len(),
{
    if raw.len() == 0 {
    } else if raw.len() == 1 {
        assert(stereo_frames(raw, 1) == seq![group_frame(raw)]);
    } else {
        lemma_mono_upmix(raw.skip(1));
        assert(raw.take(1)[0] == raw[0]);
        assert forall|j: int| 0 <= j < raw.len() implies stereo_frames(raw, 1)[j] == (StereoFrame {
            left: raw[j],
            right: raw[j],
        }) by {
            if j >= 1 {
                assert(stereo_frames(raw, 1)[j] == stereo_frames(raw.skip(1), 1)[j - 1]);
                assert(raw.skip(1)[j - 1] == raw[j]);
            }
        }
    }
}

} // verus!
