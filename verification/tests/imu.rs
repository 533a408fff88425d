use cufx_vio::geometry::Vec3;
use cufx_vio::ieee::Double;
use cufx_vio::imu::{
    push_bounded, since_epoch_ns, ImuBuffer, ImuGates, ImuWindowError, RawImuSample,
};
use std::collections::VecDeque;

/// 200 Hz, exactly.
const PERIOD_NS: u64 = 5_000_000;

fn vec3(x: f64, y: f64, z: f64) -> Vec3 {
    Vec3 {
        x: Double::from_bits(x.to_bits()),
        y: Double::from_bits(y.to_bits()),
        z: Double::from_bits(z.to_bits()),
    }
}

fn samples(from_ns: u64, n: usize) -> Vec<RawImuSample> {
    (0..n)
        .map(|i| RawImuSample {
            stamp_ns: from_ns + i as u64 * PERIOD_NS,
            gyro: vec3(0.0, 0.0, 0.01),
            accel: vec3(0.0, 9.81, 0.0),
        })
        .collect()
}

fn gates() -> ImuGates {
    ImuGates::new(Double::from_bits(200.0f64.to_bits()), 15_000_000)
}

/// How many samples 200 Hz at the gates' coverage ratio asks for over a span.
fn coverage(t0: u64, t1: u64, gates: &ImuGates) -> usize {
    let span = t1.saturating_sub(t0) as f64 * 1e-9;
    let ratio = f64::from_bits(gates.min_coverage_ratio.bits);
    (f64::from_bits(gates.nominal_rate.bits) * span * ratio).ceil() as usize
}

fn window(buf: &ImuBuffer, t0: u64, t1: u64) -> Result<Vec<RawImuSample>, ImuWindowError> {
    buf.window(t0, t1, &gates(), coverage(t0, t1, &gates()))
}

#[test]
fn test_a_covered_interval_returns_every_sample_in_it() {
    let mut buf = ImuBuffer::with_capacity(1024);
    buf.push(&samples(1_000_000_000, 400), 0);
    // [1.0 s, 1.5 s]: samples at 1.000, 1.005, ... 1.500 inclusive => 101.
    let got = window(&buf, 1_000_000_000, 1_500_000_000).expect("covered");
    assert_eq!(got.len(), 101);
    assert_eq!(got.first().unwrap().stamp_ns, 1_000_000_000);
    assert_eq!(got.last().unwrap().stamp_ns, 1_500_000_000);
}

#[test]
fn test_a_reported_drop_inside_the_interval_refuses_it() {
    let mut buf = ImuBuffer::with_capacity(1024);
    buf.push(&samples(1_000_000_000, 100), 0);
    // Same cadence, so there is no gap to find: the ONLY evidence is the counter.
    buf.push(&samples(1_000_000_000 + 100 * PERIOD_NS, 100), 7);
    let err = window(&buf, 1_000_000_000, 1_900_000_000).unwrap_err();
    assert!(matches!(err, ImuWindowError::DroppedSamples { .. }), "{err:?}");
    assert_eq!(buf.stats().drop_reports, 1);
}

#[test]
fn test_the_first_drop_count_is_a_baseline_not_a_drop() {
    let mut buf = ImuBuffer::with_capacity(1024);
    // A tracker started mid-run sees a large cumulative count on its very first batch.
    buf.push(&samples(1_000_000_000, 200), 4242);
    assert_eq!(buf.stats().drop_reports, 0);
    window(&buf, 1_000_000_000, 1_500_000_000)
        .expect("historical drops must not refuse the first interval");
}

#[test]
fn test_a_drop_ages_out_with_the_samples_it_invalidated() {
    let mut buf = ImuBuffer::with_capacity(1024);
    buf.push(&samples(1_000_000_000, 100), 0);
    buf.push(&samples(1_000_000_000 + 100 * PERIOD_NS, 200), 1);
    // The interval that straddled the hole is gone; the next one must not inherit it.
    buf.prune_before(1_600_000_000);
    window(&buf, 1_600_000_000, 2_000_000_000)
        .expect("a pruned drop mark must not refuse later intervals");
}

#[test]
fn test_a_hole_in_the_middle_is_refused_even_with_full_coverage_either_side() {
    let mut buf = ImuBuffer::with_capacity(1024);
    buf.push(&samples(1_000_000_000, 100), 0);
    // 100 ms of nothing, then the stream resumes, and no drop is reported.
    buf.push(&samples(1_600_000_000, 100), 0);
    match window(&buf, 1_000_000_000, 2_000_000_000).unwrap_err() {
        ImuWindowError::Gap { gap, .. } => assert_eq!(gap, 105_000_000),
        other => panic!("{other:?}"),
    }
}

#[test]
fn test_an_interval_ending_in_a_hole_is_refused() {
    let mut buf = ImuBuffer::with_capacity(1024);
    buf.push(&samples(1_000_000_000, 100), 0);
    // Asking out to 2.0 s when the samples stop at 1.495 s.
    let err = window(&buf, 1_000_000_000, 2_000_000_000).unwrap_err();
    assert!(matches!(err, ImuWindowError::Gap { .. }), "{err:?}");
}

#[test]
fn test_an_interval_whose_start_was_evicted_is_refused() {
    let mut buf = ImuBuffer::with_capacity(64);
    // 400 samples span 1.000-2.995 s; only the last 64 (2.680-2.995 s) survive.
    buf.push(&samples(1_000_000_000, 400), 0);
    assert_eq!(buf.stats().evicted, 336);
    let err = window(&buf, 2_500_000_000, 2_900_000_000).unwrap_err();
    assert!(matches!(err, ImuWindowError::Gap { .. }), "{err:?}");
}

#[test]
fn test_uniform_decimation_is_refused_by_coverage_not_by_gap() {
    let mut buf = ImuBuffer::with_capacity(1024);
    // Every other sample, i.e. 100 Hz: each gap is 10 ms, under the 15 ms limit.
    let thinned: Vec<RawImuSample> = samples(1_000_000_000, 200).into_iter().step_by(2).collect();
    buf.push(&thinned, 0);
    match window(&buf, 1_000_000_000, 1_500_000_000).unwrap_err() {
        ImuWindowError::TooFewSamples { got, want, .. } => {
            assert_eq!(got, 51);
            assert_eq!(want, 90);
        }
        other => panic!("{other:?}"),
    }
}

#[test]
fn test_out_of_order_samples_are_rejected_at_ingest() {
    let mut buf = ImuBuffer::with_capacity(1024);
    buf.push(&samples(1_000_000_000, 10), 0);
    // A repeat of the same stamps.
    buf.push(&samples(1_000_000_000, 10), 0);
    assert_eq!(buf.stats().out_of_order, 10);
    assert_eq!(buf.stats().buffered, 10);
}

#[test]
fn test_an_empty_or_inverted_interval_is_refused() {
    let mut buf = ImuBuffer::with_capacity(1024);
    buf.push(&samples(1_000_000_000, 200), 0);
    assert!(matches!(
        window(&buf, 1_500_000_000, 1_500_000_000).unwrap_err(),
        ImuWindowError::NonPositiveInterval { .. }
    ));
    assert!(matches!(
        window(&buf, 1_500_000_000, 1_400_000_000).unwrap_err(),
        ImuWindowError::NonPositiveInterval { .. }
    ));
}

#[test]
fn test_an_interval_the_buffer_never_saw_is_refused_as_no_samples() {
    let mut buf = ImuBuffer::with_capacity(1024);
    buf.push(&samples(1_000_000_000, 100), 0);
    let err = window(&buf, 5_000_000_000, 5_500_000_000).unwrap_err();
    assert!(matches!(err, ImuWindowError::NoSamples { buffered: 100, .. }), "{err:?}");
}

#[test]
fn test_stamps_are_rebased_on_the_tracker_epoch_not_on_the_buffer() {
    let epoch = 1_757_000_000_000_000_000u64;
    let rebased = since_epoch_ns(epoch + 5_000_000, epoch) as f64 * 1e-9;
    assert!((rebased - 0.005).abs() < 1e-12, "{rebased}");
    // A sample from before the first frame collapses to 0 rather than wrapping.
    assert_eq!(since_epoch_ns(epoch - 1, epoch), 0);
    // The ring hands a sample out as it came in, on its own clock.
    let mut buf = ImuBuffer::with_capacity(16);
    let batch: Vec<RawImuSample> = (0..8)
        .map(|i| RawImuSample {
            stamp_ns: epoch + i * PERIOD_NS,
            gyro: vec3(1.0, 2.0, 3.0),
            accel: vec3(4.0, 5.0, 6.0),
        })
        .collect();
    buf.push(&batch, 0);
    let got = window(&buf, epoch, epoch + 7 * PERIOD_NS).expect("covered");
    assert_eq!(f64::from_bits(got[1].gyro.x.bits), 1.0);
    assert_eq!(f64::from_bits(got[1].accel.z.bits), 6.0);
    assert_eq!(got[1].stamp_ns, epoch + 5_000_000);
}

#[test]
fn a_drop_without_samples_waits_for_the_next_one() {
    let mut buf = ImuBuffer::with_capacity(1024);
    buf.push(&samples(1_000_000_000, 100), 0);
    assert_eq!(buf.push(&[], 3), 0);
    assert_eq!(buf.stats().drop_reports, 1);
    window(&buf, 1_000_000_000, 1_495_000_000).expect("the hole is not in what was already there");
    buf.push(&samples(1_000_000_000 + 100 * PERIOD_NS, 100), 3);
    assert_eq!(buf.stats().drop_reports, 1, "a repeated count reports nothing");
    match window(&buf, 1_000_000_000, 1_900_000_000).unwrap_err() {
        ImuWindowError::DroppedSamples { at, .. } => assert_eq!(at, 1_500_000_000),
        other => panic!("{other:?}"),
    }
}

#[test]
fn a_mark_outlasts_later_batches_until_it_is_pruned_or_outlived() {
    let mut buf = ImuBuffer::with_capacity(300);
    buf.push(&samples(1_000_000_000, 100), 0);
    buf.push(&samples(1_500_000_000, 100), 7);
    buf.push(&samples(2_000_000_000, 100), 7);
    buf.prune_before(1_400_000_000);
    for t1 in [1_600_000_000, 1_900_000_000, 2_400_000_000] {
        match window(&buf, 1_400_000_000, t1).unwrap_err() {
            ImuWindowError::DroppedSamples { at, .. } => assert_eq!(at, 1_500_000_000),
            other => panic!("{other:?}"),
        }
    }
    window(&buf, 1_600_000_000, 2_400_000_000).expect("the mark is not in this one");
    // The ring holds 300, so another 200 push everything up to the mark out.
    buf.push(&samples(2_500_000_000, 200), 7);
    let err = window(&buf, 1_400_000_000, 2_400_000_000).unwrap_err();
    assert!(matches!(err, ImuWindowError::Gap { .. }), "outlived: {err:?}");
}

#[test]
fn a_full_eviction_count_still_takes_what_evicts_nothing() {
    let mut ring = VecDeque::new();
    let mut evicted = u64::MAX;
    for s in samples(0, 3) {
        push_bounded(&mut ring, s, 3, &mut evicted);
    }
    assert_eq!(ring.len(), 3);
    assert_eq!(evicted, u64::MAX);

    let mut evicted = 0;
    push_bounded(&mut ring, samples(PERIOD_NS * 3, 1)[0], 1, &mut evicted);
    assert_eq!((ring.len(), evicted), (1, 3));
    assert_eq!(ring[0].stamp_ns, PERIOD_NS * 3, "the newest stays");
}

#[test]
fn a_ring_without_a_bound_takes_everything_in() {
    let mut buf = ImuBuffer::with_capacity(usize::MAX);
    let mut batch = samples(1_000_000_000, 10);
    batch[4].stamp_ns = 0;
    assert_eq!(buf.push(&batch, 0), 9);
    let stats = buf.stats();
    assert_eq!((stats.buffered, stats.accepted), (9, 9));
    assert_eq!((stats.out_of_order, stats.evicted), (1, 0));
}

#[test]
fn a_capacity_of_none_still_holds_one() {
    let mut buf = ImuBuffer::with_capacity(0);
    assert_eq!(buf.push(&samples(1_000_000_000, 5), 0), 5);
    assert_eq!(buf.stats().buffered, 1);
    assert_eq!(buf.stats().evicted, 4);
    assert_eq!(buf.stats().accepted, 5);
    buf.clear();
    assert_eq!(buf.stats().buffered, 0);
    assert_eq!(buf.stats().accepted, 5, "a clear keeps the counts");
}
