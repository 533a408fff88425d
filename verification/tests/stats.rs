use cufx_vio::ieee::Double;
use cufx_vio::stats::{Durations, TrackerTiming, MAX_SAMPLES};

fn ms(v: f64) -> Double {
    Double::from_bits(v.to_bits())
}

/// The rank a percentile of `n` samples is read at.
fn rank(p: f64, n: usize) -> usize {
    ((p / 100.0) * n as f64).ceil() as usize
}

fn pct(d: &Durations, p: f64) -> Option<f64> {
    d.pct(rank(p, d.len())).map(|x| f64::from_bits(x.bits))
}

#[test]
fn test_keyframe_ratio_is_not_distorted_by_the_ring_caps() {
    let mut t = TrackerTiming::default();
    for i in 0..(MAX_SAMPLES * 8) {
        t.push(ms(1.0), i % 8 == 0);
    }
    let pct = 100.0 * t.keyframe_frames() as f64 / t.total_frames() as f64;
    assert!((pct - 12.5).abs() < 0.5, "reported {pct} %, truth 12.5 %");
    assert!(
        t.tracking.len() < t.total_frames() as usize,
        "the tracking ring must have capped for this test to discriminate"
    );
}

#[test]
fn test_duration_ring_caps_and_drops_the_oldest() {
    let mut d = Durations::default();
    for i in 0..MAX_SAMPLES + 500 {
        d.push(ms(i as f64));
    }
    assert_eq!(d.len(), MAX_SAMPLES, "the ring did not cap");
    assert!(
        pct(&d, 0.0).expect("non-empty") >= 500.0,
        "eviction dropped the newest sample, not the oldest"
    );
    assert!(
        pct(&d, 100.0).expect("non-empty") >= (MAX_SAMPLES + 499) as f64,
        "the most recent sample was evicted"
    );
}

#[test]
fn test_nearest_rank_percentiles() {
    let mut d = Durations::default();
    for v in [10.0, 20.0, 30.0, 40.0, 50.0, 60.0, 70.0, 80.0, 90.0, 100.0] {
        d.push(ms(v));
    }
    assert_eq!(pct(&d, 50.0).map(|v| v.round()), Some(50.0));
    assert_eq!(pct(&d, 99.0).map(|v| v.round()), Some(100.0));
    assert_eq!(pct(&d, 100.0).map(|v| v.round()), Some(100.0));
}

#[test]
fn test_empty_reports_no_samples_rather_than_zero() {
    let d = Durations::default();
    assert_eq!(d.len(), 0);
    assert_eq!(pct(&d, 50.0), None, "an empty stream has no p50, not a p50 of 0");
}

#[test]
fn test_keyframe_and_tracking_stay_separate() {
    let mut t = TrackerTiming::default();
    for _ in 0..90 {
        t.push(ms(10.0), false);
    }
    for _ in 0..10 {
        t.push(ms(100.0), true);
    }
    assert_eq!(pct(&t.tracking, 99.0).map(|v| v.round()), Some(10.0));
    assert_eq!(pct(&t.keyframe, 99.0).map(|v| v.round()), Some(100.0));
    assert_eq!((t.keyframe_frames(), t.total_frames()), (10, 100));
}

#[test]
fn percentiles_sort_what_arrived_out_of_order() {
    let mut d = Durations::new();
    for v in [3.0, -1.0, 2.0, 0.5] {
        d.push(ms(v));
    }
    let sorted: Vec<f64> = (1..=4).map(|r| f64::from_bits(d.pct(r).unwrap().bits)).collect();
    assert_eq!(sorted, [-1.0, 0.5, 2.0, 3.0]);
    assert_eq!(d.pct(0), d.pct(1), "ranks are held inside the list");
    assert_eq!(d.pct(99), d.pct(4));
}

#[test]
fn each_ring_holds_the_newest_of_its_own_kind() {
    let mut t = TrackerTiming::new();
    for i in 0..MAX_SAMPLES + 10 {
        t.push(ms(i as f64), false);
        if i % 1000 == 0 {
            t.push(ms(-1.0), true);
        }
    }
    assert_eq!(t.total_frames(), MAX_SAMPLES as u64 + 10 + 101);
    assert_eq!(t.keyframe_frames(), 101);
    assert_eq!((t.tracking.len(), t.keyframe.len()), (MAX_SAMPLES, 101));
    assert_eq!(pct(&t.tracking, 0.0), Some(10.0), "the first ten went");
    assert_eq!(pct(&t.keyframe, 100.0), Some(-1.0));
}
