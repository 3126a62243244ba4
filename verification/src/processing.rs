//! Spectral analysis of one window of stereo samples.
//!
//! Per frame the processor's sample buffers are overwritten with the
//! extractor's snapshot, each channel is tapered by the window table and
//! handed out for the forward transform, and the magnitudes that come
//! back are averaged into a fixed number of output bins. The transform
//! itself runs on floating-point complex values outside this crate; the
//! contracts here pin everything on both sides of it.

use vstd::prelude::*;
use crate::ring::StereoFrame;
use crate::processing::fft::{HannWindow, MeanExt, mean_of};

pub mod fft;

verus! {

/// Which channel of the stereo sample buffer to analyze.
#[allow(non_camel_case_types)]
pub enum Channel {
    LEFT,
    RIGHT,
}

/// Per-channel binned magnitude spectra, one value per output bin, in
/// ascending frequency order.
pub struct ProcessorOutput {
    pub left_fft: Vec<u64>,
    pub right_fft: Vec<u64>,
}

/// Converts one window of time-domain stereo samples into two
/// fixed-length magnitude spectra.
///
/// The window size must be a positive multiple-or-more of the output
/// bin count: bin `k` averages the `window_size / output_bins`
/// magnitudes of its chunk (integer division), and when the division is
/// not exact the trailing partial chunk is dropped, so the output
/// always has exactly `output_bins` entries. A bin count larger than
/// the window is rejected at construction.
pub struct Processor {
    /// The per-channel sample buffers (left, right), overwritten in
    /// place each frame from the extractor's snapshot.
    pub audio_buffer: (Vec<i16>, Vec<i16>),
    fft_window: usize,
    /// The number of output bins per channel.
    pub fft_output_bins: usize,
    window: HannWindow,
}

impl Processor {
    /// Buffers and table all have the configured window length and the
    /// bin count is in range; every method keeps this.
    pub closed spec fn wf(self) -> bool {
        &&& 1 <= self.fft_output_bins
        &&& self.fft_output_bins <= self.fft_window
        &&& self.fft_window <= 0x1_0000_0000
        &&& self.audio_buffer.0@.len() == self.fft_window
        &&& self.audio_buffer.1@.len() == self.fft_window
        &&& self.window@.len() == self.fft_window
        &&& self.window.wf()
    }

    /// The configured window size.
    pub closed spec fn window_size(self) -> nat {
        self.fft_window as nat
    }

    /// The configured number of output bins.
    pub closed spec fn output_bins(self) -> nat {
        self.fft_output_bins as nat
    }

    /// The 16.16 fixed-point window table.
    pub closed spec fn window_table(self) -> Seq<u32> {
        self.window@
    }

    /// The samples of one channel of the buffer.
    pub closed spec fn channel_samples(self, source: Channel) -> Seq<i16> {
        match source {
            Channel::LEFT => self.audio_buffer.0@,
            Channel::RIGHT => self.audio_buffer.1@,
        }
    }

    /// How many magnitudes each output bin averages.
    pub open spec fn chunk_len(self) -> int {
        self.window_size() as int / self.output_bins() as int
    }

    /// A processor for one window size and bin count: zeroed sample
    /// buffers and a freshly computed window table.
    pub fn new(sample_window: usize, fft_output_bins: usize) -> (p: Processor)
        requires
            1 <= fft_output_bins,
            fft_output_bins <= sample_window,
            sample_window <= 0x1_0000_0000,
        ensures
            p.wf(),
            p.window_size() == sample_window,
            p.output_bins() == fft_output_bins,
            forall|k: int| 0 <= k < sample_window ==> p.channel_samples(Channel::LEFT)[k] == 0,
            forall|k: int| 0 <= k < sample_window ==> p.channel_samples(Channel::RIGHT)[k] == 0,
            forall|k: int|
                0 <= k < sample_window ==> p.window_table()[k] == fft::hann_scale_spec(
                    sample_window as int,
                    k,
                ),
    {
        Processor {
            audio_buffer: (zero_samples(sample_window), zero_samples(sample_window)),
            fft_window: sample_window,
            fft_output_bins,
            window: HannWindow::new(sample_window),
        }
    }

    /// Copies one extractor snapshot into the per-channel sample
    /// buffers, left amplitudes to the left buffer and right to the
    /// right.
    pub fn load_frames(&mut self, frames: &Vec<StereoFrame>)
        requires
            old(self).wf(),
            frames@.len() == old(self).window_size(),
        ensures
            final(self).wf(),
            final(self).window_size() == old(self).window_size(),
            final(self).output_bins() == old(self).output_bins(),
            final(self).window_table() == old(self).window_table(),
            forall|k: int|
                0 <= k < frames@.len() ==> final(self).channel_samples(Channel::LEFT)[k]
                    == frames@[k].left,
            forall|k: int|
                0 <= k < frames@.len() ==> final(self).channel_samples(Channel::RIGHT)[k]
                    == frames@[k].right,
    {
        let mut left: Vec<i16> = Vec::new();
        let mut right: Vec<i16> = Vec::new();
        let mut k: usize = 0;
        while k < frames.len()
            invariant
                k <= frames@.len(),
                left@.len() == k,
                right@.len() == k,
                forall|j: int| 0 <= j < k ==> left@[j] == frames@[j].left,
                forall|j: int| 0 <= j < k ==> right@[j] == frames@[j].right,
            decreases frames@.len() - k,
        {
            left.push(frames[k].left);
            right.push(frames[k].right);
            k = k + 1;
        }
        self.audio_buffer = (left, right);
    }

    /// One channel of the sample buffer with the window table applied:
    /// entry `i` is the raw amplitude times the 16.16 fixed-point scale
    /// factor at that index. An all-zero channel yields an all-zero
    /// result.
    pub fn windowed_samples(&self, source: Channel) -> (w: Vec<i64>)
        requires
            self.wf(),
        ensures
            w@.len() == self.window_size(),
            forall|k: int|
                0 <= k < w@.len() ==> w@[k] == self.channel_samples(source)[k] as int
                    * self.window_table()[k] as int,
    {
        let buf: &Vec<i16> = match source {
            Channel::LEFT => &self.audio_buffer.0,
            Channel::RIGHT => &self.audio_buffer.1,
        };
        let mut w: Vec<i64> = Vec::new();
        let mut k: usize = 0;
        while k < buf.len()
            invariant
                self.wf(),
                buf@ == self.channel_samples(source),
                buf@.len() == self.window_size(),
                k <= buf@.len(),
                w@.len() == k,
                forall|j: int|
                    0 <= j < k ==> w@[j] == self.channel_samples(source)[j] as int
                        * self.window_table()[j] as int,
            decreases buf@.len() - k,
        {
            let v = self.window.process((k, buf[k]));
            w.push(v);
            k = k + 1;
        }
        w
    }

    /// One channel's magnitudes averaged into output bins: bin `k` is
    /// the mean of chunk `k` of the magnitudes, chunks of
    /// `window_size / output_bins` in ascending frequency order, any
    /// trailing partial chunk dropped.
    pub fn process_fft_samples(&self, magnitudes: &Vec<u64>) -> (bins: Vec<u64>)
        requires
            self.wf(),
            magnitudes@.len() == self.window_size(),
        ensures
            bins@.len() == self.output_bins(),
            forall|k: int|
                0 <= k < bins@.len() ==> bins@[k] == mean_of(
                    magnitudes@.subrange(k * self.chunk_len(), (k + 1) * self.chunk_len()),
                ),
    {
        let chunk: usize = self.fft_window / self.fft_output_bins;
        proof {
            assert(chunk >= 1 && chunk * self.fft_output_bins <= self.fft_window)
                by (nonlinear_arith)
                requires
                    1 <= self.fft_output_bins <= self.fft_window,
                    chunk == self.fft_window as int / self.fft_output_bins as int,
            ;
        }
        let mut bins: Vec<u64> = Vec::new();
        let mut k: usize = 0;
        while k < self.fft_output_bins
            invariant
                self.wf(),
                magnitudes@.len() == self.window_size(),
                chunk == self.chunk_len(),
                chunk >= 1,
                chunk * self.fft_output_bins <= self.fft_window,
                k <= self.fft_output_bins,
                bins@.len() == k,
                forall|j: int|
                    0 <= j < k ==> bins@[j] == mean_of(
                        magnitudes@.subrange(j * self.chunk_len(), (j + 1) * self.chunk_len()),
                    ),
            decreases self.fft_output_bins - k,
        {
            proof {
                assert(k * chunk + chunk == (k + 1) * chunk) by (nonlinear_arith);
                assert(0 <= k * chunk) by (nonlinear_arith)
                    requires
                        0 <= k,
                        0 <= chunk,
                ;
                assert((k + 1) * chunk <= self.fft_output_bins * chunk) by (nonlinear_arith)
                    requires
                        0 <= k < self.fft_output_bins,
                        chunk >= 1,
                ;
                assert(self.fft_output_bins * chunk == chunk * self.fft_output_bins)
                    by (nonlinear_arith);
            }
            let start: usize = k * chunk;
            let m = magnitudes.mean_range(start, start + chunk);
            bins.push(m);
            k = k + 1;
        }
        bins
    }

    /// Both channels' magnitude spectra averaged into output bins.
    pub fn process_samples(&self, left_magnitudes: &Vec<u64>, right_magnitudes: &Vec<u64>) -> (out:
        ProcessorOutput)
        requires
            self.wf(),
            left_magnitudes@.len() == self.window_size(),
            right_magnitudes@.len() == self.window_size(),
        ensures
            out.left_fft@.len() == self.output_bins(),
            out.right_fft@.len() == self.output_bins(),
            forall|k: int|
                0 <= k < out.left_fft@.len() ==> out.left_fft@[k] == mean_of(
                    left_magnitudes@.subrange(k * self.chunk_len(), (k + 1) * self.chunk_len()),
                ),
            forall|k: int|
                0 <= k < out.right_fft@.len() ==> out.right_fft@[k] == mean_of(
                    right_magnitudes@.subrange(k * self.chunk_len(), (k + 1) * self.chunk_len()),
                ),
    {
        let left_fft = self.process_fft_samples(left_magnitudes);
        let right_fft = self.process_fft_samples(right_magnitudes);
        ProcessorOutput { left_fft, right_fft }
    }
}

/// Silence invariant for the binning stage: when every magnitude is
/// zero, every chunk of them averages to zero, whatever the chunk
/// layout. Together with the windowing contract (a zero amplitude stays
/// zero under any scale factor) this covers the stages around the
/// transform.
pub proof fn lemma_silent_bins(magnitudes: Seq<u64>, a: int, b: int)
    requires
        forall|i: int| 0 <= i < magnitudes.len() ==> magnitudes[i] == 0,
        0 <= a <= b <= magnitudes.len(),
    ensures
        mean_of(magnitudes.subrange(a, b)) == 0,
{
    let sub = magnitudes.subrange(a, b);
    assert(forall|i: int| 0 <= i < sub.len() ==> sub[i] == 0);
    fft::lemma_zero_mean(sub);
}

/// A zeroed sample buffer of the given length.
fn zero_samples(n: usize) -> (v: Vec<i16>)
    ensures
        v@.len() == n,
        forall|k: int| 0 <= k < n ==> v@[k] == 0,
{
    let mut v: Vec<i16> = Vec::new();
    let mut k: usize = 0;
    while k < n
        invariant
            k <= n,
            v@.len() == k,
            forall|j: int| 0 <= j < k ==> v@[j] == 0,
        decreases n - k,
    {
        v.push(0);
        k = k + 1;
    }
    v
}

} // verus!
