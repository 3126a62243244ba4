use spectra::{Extractor, StereoFrame};

fn zeros(n: usize) -> Vec<StereoFrame> {
    (0..n).map(|_| StereoFrame { left: 0, right: 0 }).collect()
}

fn frame(left: i16, right: i16) -> StereoFrame {
    StereoFrame { left, right }
}

#[test]
fn output_always_full_length() {
    // Fewer new samples than the capacity: the snapshot still has
    // exactly the configured number of entries, the tail keeping its
    // previous (zero-initialized) contents.
    for cap in [1usize, 2, 4, 7] {
        let mut ex = Extractor::new(cap, 44100, 2);
        let mut out = zeros(cap);
        let raw: Vec<i16> = vec![10, -10];
        ex.get_samples(&raw, &mut out);
        assert_eq!(out.len(), cap);
        assert_eq!(out[0], frame(10, -10));
        for k in 1..cap {
            assert_eq!(out[k], frame(0, 0));
        }
    }
}

#[test]
fn empty_pull_keeps_previous_snapshot() {
    let mut ex = Extractor::new(3, 44100, 2);
    let mut out = vec![frame(7, 7), frame(8, 8), frame(9, 9)];
    let raw: Vec<i16> = Vec::new();
    ex.get_samples(&raw, &mut out);
    assert_eq!(out, vec![frame(7, 7), frame(8, 8), frame(9, 9)]);
}

#[test]
fn ring_retains_most_recent_in_order() {
    // Pushing more frames than the capacity keeps exactly the most
    // recent ones, in push order.
    let mut ex = Extractor::new(3, 44100, 2);
    let mut out = zeros(3);
    let raw: Vec<i16> = vec![1, 10, 2, 20, 3, 30, 4, 40, 5, 50];
    ex.get_samples(&raw, &mut out);
    assert_eq!(out, vec![frame(3, 30), frame(4, 40), frame(5, 50)]);
}

#[test]
fn ring_retains_across_calls() {
    let mut ex = Extractor::new(3, 44100, 2);
    let mut out = zeros(3);
    ex.get_samples(&vec![1, 10, 2, 20], &mut out);
    ex.get_samples(&vec![3, 30, 4, 40], &mut out);
    assert_eq!(out, vec![frame(2, 20), frame(3, 30), frame(4, 40)]);
}

#[test]
fn mono_upmix_duplicates_left() {
    let mut ex = Extractor::new(4, 44100, 1);
    let mut out = zeros(4);
    let raw: Vec<i16> = vec![5, -7, 9];
    ex.get_samples(&raw, &mut out);
    assert_eq!(out[0], frame(5, 5));
    assert_eq!(out[1], frame(-7, -7));
    assert_eq!(out[2], frame(9, 9));
    assert_eq!(out[3], frame(0, 0));
}

#[test]
fn extra_channels_dropped() {
    let mut ex = Extractor::new(4, 44100, 3);
    let mut out = zeros(4);
    let raw: Vec<i16> = vec![1, 2, 3, 4, 5, 6];
    ex.get_samples(&raw, &mut out);
    assert_eq!(out[0], frame(1, 2));
    assert_eq!(out[1], frame(4, 5));
}

#[test]
fn short_final_group_upmixed() {
    // A stream that ends mid-frame still yields a frame rather than a
    // fault: the lone value is upmixed.
    let mut ex = Extractor::new(4, 44100, 2);
    let mut out = zeros(4);
    let raw: Vec<i16> = vec![1, 2, 3];
    ex.get_samples(&raw, &mut out);
    assert_eq!(out[0], frame(1, 2));
    assert_eq!(out[1], frame(3, 3));
}

#[test]
fn pull_request_counts_elapsed_frames() {
    // 1000 frames per second: 5 ms elapsed are 5 frames, times two
    // channels of raw samples.
    let mut ex = Extractor::new(8, 1000, 2);
    let req = ex.pull_request(5_000_000);
    assert_eq!(req.skip_raw, 0);
    assert_eq!(req.take_raw, 10);
}

#[test]
fn pull_request_clamps_backwards_clock() {
    let mut ex = Extractor::new(8, 1000, 2);
    let _ = ex.pull_request(5_000_000);
    let req = ex.pull_request(3_000_000);
    assert_eq!(req.skip_raw, 0);
    assert_eq!(req.take_raw, 0);
}

#[test]
fn pull_request_skips_when_behind() {
    // 20 ms elapsed at 1000 frames per second are 20 frames; with a
    // buffer of 8 the extractor skips 12 and takes 8.
    let mut ex = Extractor::new(8, 1000, 2);
    let _ = ex.pull_request(3_000_000);
    let req = ex.pull_request(23_000_000);
    assert_eq!(req.skip_raw, 24);
    assert_eq!(req.take_raw, 16);
}

#[test]
fn pull_request_rounds_half_up() {
    // At 44100 frames per second one frame is about 22676 ns; half a
    // frame period rounds up to one frame exactly at 11338 ns.
    let mut ex = Extractor::new(8, 44100, 2);
    let req = ex.pull_request(11337);
    assert_eq!(req.take_raw, 0);
    let mut ex2 = Extractor::new(8, 44100, 2);
    let req2 = ex2.pull_request(11338);
    assert_eq!(req2.take_raw, 2);
}
