//! End-to-end scenarios: the verified stages composed with the real
//! floating-point forward transform, as the rendering driver composes
//! them.

use rustfft::num_complex::Complex32;
use rustfft::FftPlanner;
use spectra::{Channel, Extractor, Processor, StereoFrame};

/// Windows one channel, lifts it to complex values with zero padding,
/// runs the forward transform, and hands the rounded magnitudes of the
/// lower half back.
fn spectrum(p: &Processor, channel: Channel) -> Vec<u64> {
    let windowed = p.windowed_samples(channel);
    let n = windowed.len();
    let mut buf: Vec<Complex32> = windowed
        .iter()
        .map(|&w| Complex32::new(w as f32 / 65536.0, 0.0))
        .collect();
    buf.resize(2 * n, Complex32::new(0.0, 0.0));
    let mut planner = FftPlanner::<f32>::new();
    let fft = planner.plan_fft_forward(2 * n);
    fft.process(&mut buf);
    buf[..n].iter().map(|c| c.norm().round() as u64).collect()
}

fn zero_frames(n: usize) -> Vec<StereoFrame> {
    (0..n).map(|_| StereoFrame { left: 0, right: 0 }).collect()
}

#[test]
fn silent_stream_yields_zero_bins() {
    // Window 1024, 32 bins, 44100 frames per second, constant silence,
    // the clock advancing by one full window per call: every snapshot
    // is a full window of zero frames and every output bin is zero.
    let window = 1024usize;
    let mut ex = Extractor::new(window, 44100, 2);
    let mut p = Processor::new(window, 32);
    let mut out = zero_frames(window);
    let step: u64 = 23_219_955; // ~1024 / 44100 seconds, rounds to 1024 frames
    let mut pos: u64 = 0;
    for _ in 0..3 {
        pos += step;
        let req = ex.pull_request(pos);
        assert_eq!(req.skip_raw, 0);
        assert_eq!(req.take_raw as usize, 2 * window);
        let raw: Vec<i16> = vec![0; req.take_raw as usize];
        ex.get_samples(&raw, &mut out);
    }
    assert_eq!(out, zero_frames(window));
    p.load_frames(&out);
    let left = spectrum(&p, Channel::LEFT);
    let right = spectrum(&p, Channel::RIGHT);
    let bars = p.process_samples(&left, &right);
    assert_eq!(bars.left_fft, vec![0u64; 32]);
    assert_eq!(bars.right_fft, vec![0u64; 32]);
}

#[test]
fn aligned_sinusoid_peaks_in_one_bin() {
    // A sinusoid aligned to transform bin 10 (window 32, transform size
    // 64, 8 output bins of 4 magnitudes): the output peaks in bin 2 and
    // bins far from it stay near zero.
    let window = 32usize;
    let mut p = Processor::new(window, 8);
    let frames: Vec<StereoFrame> = (0..window)
        .map(|i| {
            let phase = 2.0 * std::f64::consts::PI * 10.0 * i as f64 / 64.0;
            let amp = (16000.0 * phase.sin()).round() as i16;
            StereoFrame { left: amp, right: amp }
        })
        .collect();
    p.load_frames(&frames);
    let mags = spectrum(&p, Channel::LEFT);
    let bins = p.process_fft_samples(&mags);
    assert_eq!(bins.len(), 8);
    let peak = bins[2];
    for (k, &b) in bins.iter().enumerate() {
        assert!(b <= peak, "bin {} above the peak bin", k);
        if !(1..=3).contains(&k) {
            assert!(
                10 * b < peak,
                "bin {} not near zero: {} against peak {}",
                k,
                b,
                peak
            );
        }
    }
}

#[test]
fn uneven_bins_still_fill_all_seven() {
    // Window 1000, 7 bins: the division is not exact, the trailing
    // partial chunk of magnitudes is dropped, and the output still has
    // exactly 7 bins per channel.
    let window = 1000usize;
    let mut ex = Extractor::new(window, 44100, 2);
    let mut p = Processor::new(window, 7);
    let mut out = zero_frames(window);
    let raw: Vec<i16> = vec![0; 2 * window];
    ex.get_samples(&raw, &mut out);
    p.load_frames(&out);
    let left = spectrum(&p, Channel::LEFT);
    let right = spectrum(&p, Channel::RIGHT);
    let bars = p.process_samples(&left, &right);
    assert_eq!(bars.left_fft, vec![0u64; 7]);
    assert_eq!(bars.right_fft, vec![0u64; 7]);
}
