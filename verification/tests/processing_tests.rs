use spectra::{Channel, HannWindow, Mean, MeanExt, Processor, StereoFrame};

const SCALE: f64 = 65536.0;

fn hann_value(window: &HannWindow, i: usize) -> i64 {
    // A unit amplitude reads the scale factor back out of the table.
    window.process((i, 1))
}

#[test]
fn mean_of_zero_elements_is_zero() {
    let v: Vec<u64> = vec![1, 2, 3];
    assert_eq!(<u64 as Mean>::mean(&v, 2, 2), 0);
    assert_eq!(v.mean_range(0, 0), 0);
    let empty: Vec<u64> = Vec::new();
    assert_eq!(empty.mean_range(0, 0), 0);
}

#[test]
fn mean_exact_values() {
    let v: Vec<u64> = vec![1, 2, 3, 4];
    assert_eq!(<u64 as Mean>::mean(&v, 0, 4), 2);
    assert_eq!(v.mean_range(1, 3), 2);
    assert_eq!(v.mean_range(3, 4), 4);
}

#[test]
fn window_tapers_to_silence_at_edges() {
    // First and last scale factors of a size-8 table are (near) zero,
    // and the peak sits at the midpoint.
    let w = HannWindow::new(8);
    let values: Vec<i64> = (0..8).map(|i| hann_value(&w, i)).collect();
    assert_eq!(values[0], 0);
    assert!((values[7] as f64) / SCALE < 0.2);
    assert_eq!(values[4], 65536);
    for i in 0..8 {
        assert!(values[i] <= values[4]);
    }
}

#[test]
fn window_is_symmetric() {
    let w = HannWindow::new(8);
    for i in 1..8 {
        assert_eq!(hann_value(&w, i), hann_value(&w, 8 - i));
    }
}

#[test]
fn window_matches_raised_sine() {
    for n in [8usize, 100, 1024] {
        let w = HannWindow::new(n);
        for i in 0..n {
            let exact = (std::f64::consts::PI * i as f64 / n as f64).sin().powi(2);
            let got = hann_value(&w, i) as f64 / SCALE;
            assert!(
                (got - exact).abs() < 0.01,
                "window {} entry {}: {} vs {}",
                n,
                i,
                got,
                exact
            );
        }
    }
}

#[test]
fn windowing_scales_amplitudes() {
    let mut p = Processor::new(4, 2);
    let frames = vec![
        StereoFrame { left: 100, right: -50 },
        StereoFrame { left: 100, right: -50 },
        StereoFrame { left: 100, right: -50 },
        StereoFrame { left: 100, right: -50 },
    ];
    p.load_frames(&frames);
    let w = HannWindow::new(4);
    let left = p.windowed_samples(Channel::LEFT);
    let right = p.windowed_samples(Channel::RIGHT);
    for i in 0..4 {
        assert_eq!(left[i], 100 * hann_value(&w, i));
        assert_eq!(right[i], -50 * hann_value(&w, i));
    }
}

#[test]
fn silence_windows_and_bins_to_silence() {
    // A freshly built processor holds zeroed buffers; windowing them
    // and binning zero magnitudes both yield exact zeros.
    let p = Processor::new(16, 4);
    let left = p.windowed_samples(Channel::LEFT);
    assert_eq!(left, vec![0i64; 16]);
    let zeros: Vec<u64> = vec![0; 16];
    assert_eq!(p.process_fft_samples(&zeros), vec![0u64; 4]);
}

#[test]
fn bins_average_chunks_in_order() {
    let p = Processor::new(8, 4);
    let magnitudes: Vec<u64> = vec![1, 3, 10, 20, 5, 5, 0, 8];
    assert_eq!(p.process_fft_samples(&magnitudes), vec![2, 15, 5, 4]);
}

#[test]
fn uneven_bin_count_truncates_trailing_chunk() {
    // 1000 magnitudes into 7 bins: chunks of 142, always exactly 7
    // output bins, the last 6 magnitudes dropped.
    let p = Processor::new(1000, 7);
    let magnitudes: Vec<u64> = (0..1000u64).collect();
    let bins = p.process_fft_samples(&magnitudes);
    assert_eq!(bins.len(), 7);
    for k in 0..7u64 {
        assert_eq!(bins[k as usize], 142 * k + 70);
    }
}

#[test]
fn process_samples_bins_both_channels() {
    let p = Processor::new(4, 2);
    let left: Vec<u64> = vec![2, 4, 6, 8];
    let right: Vec<u64> = vec![10, 0, 1, 1];
    let out = p.process_samples(&left, &right);
    assert_eq!(out.left_fft, vec![3, 7]);
    assert_eq!(out.right_fft, vec![5, 1]);
}
