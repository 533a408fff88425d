use cufx_vio::ieee::Single;
use cufx_vio::imu_channel::{Drained, ImuQueue, CAPACITY};
use cufx_vio::payload::{ImuPayload, ImuSample};

fn batch(from_ns: u64, n: u64) -> Vec<ImuSample> {
    (0..n)
        .map(|i| ImuSample {
            tov: from_ns + i,
            imu: ImuPayload {
                temperature: Single::from_bits((25.0f32 + 273.15).to_bits()),
                ..ImuPayload::default()
            },
        })
        .collect()
}

#[test]
fn test_an_unarmed_queue_does_not_buffer() {
    let mut queue = ImuQueue::new();
    queue.push(&batch(0, 3), 1, false);
    let out: Drained = queue.drain();
    assert!(out.samples.is_empty(), "an unarmed queue must not buffer");
    assert_eq!(out.dropped, 0, "an unarmed push must not even record the drop count");
}

#[test]
fn test_push_then_drain_round_trips_samples_and_drops() {
    let mut queue = ImuQueue::new();
    queue.arm();
    queue.push(&batch(1_000, 3), 5, false);
    let out = queue.drain();
    assert_eq!(
        out.samples.iter().map(|s| s.stamp_ns).collect::<Vec<_>>(),
        [1_000, 1_001, 1_002]
    );
    assert_eq!(out.dropped, 5);
    assert!(!out.aligned);

    // Drained means drained: a second call must not re-deliver.
    let out = queue.drain();
    assert!(out.samples.is_empty());
    assert_eq!(out.dropped, 5, "the cumulative count survives the drain");
}

#[test]
fn test_overflow_is_counted_as_a_drop_and_alignment_is_sticky() {
    let mut queue = ImuQueue::new();
    queue.arm();
    queue.push(&batch(2_000, CAPACITY as u64 + 10), 5, true);
    queue.push(&batch(1_000_000, 0), 5, false);
    let out = queue.drain();
    assert_eq!(out.samples.len(), CAPACITY);
    assert_eq!(out.samples[0].stamp_ns, 2_010, "the OLDEST samples are the ones evicted");
    assert_eq!(out.dropped, 15, "5 reported by the source + 10 evicted here");
    assert!(out.aligned, "a later unaligned batch must not clear the flag");

    queue.clear();
    let out = queue.drain();
    assert!(!out.aligned, "clear forgets the alignment flag");
    assert_eq!(out.dropped, 15, "clear keeps the cumulative drop count");
}

#[test]
fn test_two_queues_are_independent() {
    let (mut a, mut b) = (ImuQueue::new(), ImuQueue::new());
    a.arm();
    b.arm();
    a.push(&batch(0, 2), 0, false);
    assert_eq!(a.drain().samples.len(), 2);
    assert!(b.drain().samples.is_empty(), "a push to one bus reached the other");
}

#[test]
fn a_drop_count_that_no_longer_adds_up_cannot_be_drained() {
    let mut queue = ImuQueue::new();
    queue.arm();
    assert!(queue.has_room_for(usize::MAX), "all but the capacity would go, and can be counted");

    // One sample over the capacity is evicted, and the source has counted as far as it can.
    queue.push(&batch(0, CAPACITY as u64 + 1), u64::MAX - 1, false);
    assert!(queue.can_drain());
    queue.push(&batch(10_000, 0), u64::MAX, false);
    assert!(!queue.can_drain());
    assert!(queue.has_room_for(usize::MAX - 1), "a full queue evicts as many as come");
    assert!(!queue.has_room_for(usize::MAX));
    assert!(ImuQueue::new().has_room_for(usize::MAX), "unarmed, it evicts nothing");
}

#[test]
fn a_drain_gives_the_newest_pushed_since_the_last_one() {
    let mut queue = ImuQueue::new();
    queue.arm();
    queue.push(&batch(0, 5), 1, true);
    queue.clear();
    queue.push(&batch(10, 3), 2, false);
    queue.push(&batch(20, CAPACITY as u64), 4, false);
    let out = queue.drain();
    assert_eq!(out.samples.len(), CAPACITY);
    assert_eq!(out.samples[0].stamp_ns, 20, "the three before them went");
    assert_eq!(out.dropped, 4 + 3);
    assert!(!out.aligned, "what was aligned was cleared");
    queue.push(&batch(90_000, 2), 4, true);
    queue.drain();
    queue.push(&batch(90_010, 1), 9, false);
    let out = queue.drain();
    assert_eq!(out.samples.len(), 1, "a drained sample does not come again");
    assert_eq!(out.dropped, 9 + 3, "evictions are counted for good");
    assert!(out.aligned, "a drain does not forget the alignment");
    assert_eq!(queue.drain().dropped, 12);
}
