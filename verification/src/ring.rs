//! Fixed-capacity overwriting ring of stereo frames.
//!
//! The storage is `ringbuf`'s heap ring buffer. Verus cannot look inside
//! that type (it is an alias of a storage-generic struct whose operations
//! are provided trait methods), so the buffer sits in a hidden field of
//! [`FrameRing`] and every operation the extractor needs goes through a
//! small contracted wrapper. The overwrite semantics themselves are
//! restated as the spec functions [`push_one`] and [`push_all`], and the
//! retention law of the buffer is proved from them.

use vstd::prelude::*;
use ringbuf::traits::{Consumer, RingBuffer};

verus! {

/// One time-step of stereo audio: a left and a right amplitude.
#[derive(Clone, Copy, PartialEq, Eq, Structural, Debug)]
pub struct StereoFrame {
    pub left: i16,
    pub right: i16,
}

/// Fixed-capacity overwriting buffer of stereo frames, backed by
/// `ringbuf::HeapRb`.
#[verifier::external_body]
pub struct FrameRing {
    inner: ringbuf::HeapRb<StereoFrame>,
}

/// The frames the ring currently holds, oldest first.
pub uninterp spec fn ring_frames(r: FrameRing) -> Seq<StereoFrame>;

/// The fixed capacity the ring was created with.
pub uninterp spec fn ring_cap(r: FrameRing) -> nat;

/// Relies on `ringbuf::HeapRb::new`: allocates an empty ring buffer of
/// the given capacity. It panics on zero capacity, so zero is excluded.
#[verifier::external_body]
pub fn ring_new(capacity: usize) -> (r: FrameRing)
    requires
        capacity >= 1,
    ensures
        ring_cap(r) == capacity,
        ring_frames(r) == Seq::<StereoFrame>::empty(),
{
    FrameRing { inner: ringbuf::HeapRb::new(capacity) }
}

/// Relies on `ringbuf`'s `RingBuffer::push_overwrite`: when the buffer is
/// full it pops the oldest frame first, then appends the new one.
#[verifier::external_body]
pub fn ring_push(r: &mut FrameRing, frame: StereoFrame)
    requires
        ring_cap(*old(r)) >= 1,
        ring_frames(*old(r)).len() <= ring_cap(*old(r)),
    ensures
        ring_cap(*final(r)) == ring_cap(*old(r)),
        ring_frames(*old(r)).len() < ring_cap(*old(r)) ==>
            ring_frames(*final(r)) == ring_frames(*old(r)).push(frame),
        ring_frames(*old(r)).len() == ring_cap(*old(r)) ==>
            ring_frames(*final(r)) == ring_frames(*old(r)).skip(1).push(frame),
{
    r.inner.push_overwrite(frame);
}

/// Relies on `ringbuf`'s `Consumer::peek_slice`: copies the oldest
/// `min(out.len(), held)` frames into the front of `out` without removing
/// them from the ring, returns how many were copied, and leaves the rest
/// of `out` untouched.
#[verifier::external_body]
pub fn ring_peek(r: &FrameRing, out: &mut Vec<StereoFrame>) -> (n: usize)
    ensures
        final(out)@.len() == old(out)@.len(),
        n as int == if old(out)@.len() <= ring_frames(*r).len() {
            old(out)@.len() as int
        } else {
            ring_frames(*r).len() as int
        },
        forall|i: int| 0 <= i < n ==> final(out)@[i] == ring_frames(*r)[i],
        forall|i: int| n <= i < old(out)@.len() ==> final(out)@[i] == old(out)@[i],
{
    r.inner.peek_slice(out.as_mut_slice())
}

/// One overwriting push: the oldest frame is dropped when the buffer is
/// already at capacity.
pub open spec fn push_one(s: Seq<StereoFrame>, f: StereoFrame, cap: nat) -> Seq<StereoFrame> {
    if s.len() < cap {
        s.push(f)
    } else {
        s.skip(1).push(f)
    }
}

/// All of `xs` pushed in order with overwrite semantics, starting from `s`.
pub open spec fn push_all(s: Seq<StereoFrame>, xs: Seq<StereoFrame>, cap: nat) -> Seq<StereoFrame>
    decreases xs.len(),
{
    if xs.len() == 0 {
        s
    } else {
        push_all(push_one(s, xs[0], cap), xs.skip(1), cap)
    }
}

/// Overwriting pushes keep a sliding window: starting from contents
/// within capacity, the buffer afterwards holds exactly the most recent
/// frames of `s + xs`, in order, and never more than `cap` of them.
pub proof fn lemma_push_all_window(s: Seq<StereoFrame>, xs: Seq<StereoFrame>, cap: nat)
    requires
        cap >= 1,
        s.len() <= cap,
    ensures
        push_all(s, xs, cap) == if s.len() + xs.len() <= cap {
            s + xs
        } else {
            (s + xs).skip(s.len() + xs.len() - cap)
        },
    decreases xs.len(),
{
    if xs.len() == 0 {
        assert(s + xs =~= s);
    } else {
        let s1 = push_one(s, xs[0], cap);
        lemma_push_all_window(s1, xs.skip(1), cap);
        if s.len() < cap {
            assert(s1 =~= s + seq![xs[0]]);
            assert(s1 + xs.skip(1) =~= s + xs);
        } else {
            assert(s1 =~= s.skip(1) + seq![xs[0]]);
            assert(s1 + xs.skip(1) =~= (s + xs).skip(1));
            if s1.len() + xs.skip(1).len() <= cap {
                assert((s + xs).skip(s.len() + xs.len() - cap) =~= (s + xs).skip(1));
            } else {
                assert(((s + xs).skip(1)).skip(s1.len() + xs.len() - 1 - cap) =~= (s + xs).skip(
                    s.len() + xs.len() - cap,
                ));
            }
        }
    }
}

/// Retention law of the overwrite ring: pushing at least `cap` frames
/// leaves exactly the `cap` most recently pushed frames, in push order,
/// whatever the buffer held before.
pub proof fn lemma_ring_retains_most_recent(s: Seq<StereoFrame>, xs: Seq<StereoFrame>, cap: nat)
    requires
        cap >= 1,
        s.len() <= cap,
        xs.len() >= cap,
    ensures
        push_all(s, xs, cap) == xs.skip(xs.len() - cap),
{
    lemma_push_all_window(s, xs, cap);
    if s.len() + xs.len() <= cap {
        assert(s + xs =~= xs);
        assert(xs.skip(0) =~= xs);
    } else {
        assert((s + xs).skip(s.len() + xs.len() - cap) =~= xs.skip(xs.len() - cap));
    }
}

} // verus!
