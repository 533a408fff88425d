//! Inertial ingest: the sample ring, the coverage gates it refuses an interval on, and the
//! configuration the inertial path cannot run without.
//!
//! An integrator fed a window with holes in it returns a fully formed motion delta of the wrong
//! size, and one fed an empty window returns a confident "did not move". Neither is visible
//! further on, so [`ImuBuffer::window`] hands samples out only where the interval is covered, and
//! otherwise says why it is not.
use crate::geometry::Vec3;
use crate::ieee::Double;
use std::collections::VecDeque;
use vstd::prelude::*;

verus! {

/// One raw inertial sample, in the units and on the clock the driver publishes.
#[derive(Clone, Copy, Debug, PartialEq, Eq, Structural)]
pub struct RawImuSample {
    /// Capture stamp in nanoseconds, on the timeline of the image stamps.
    pub stamp_ns: u64,
    /// Angular velocity, rad/s, in the sensor's own axes.
    pub gyro: Vec3,
    /// Linear acceleration, m/s^2, in the sensor's own axes.
    pub accel: Vec3,
}

/// Samples held by a ring, on either side of the ingest channel.
pub const DEFAULT_BUFFER_CAPACITY: usize = 2048;

/// Most samples a ring sets memory aside for before they come.
pub const MAX_RESERVED: usize = 4096;

/// The newest `n` elements of a sequence, in order; all of them where there are no more than `n`.
pub open spec fn newest<T>(s: Seq<T>, n: nat) -> Seq<T> {
    if s.len() <= n {
        s
    } else {
        s.skip(s.len() - n)
    }
}

/// How many elements [`newest`] leaves out.
pub open spec fn overflow(len: nat, n: nat) -> nat {
    if len <= n {
        0
    } else {
        (len - n) as nat
    }
}

/// Keeping the newest as elements come is keeping the newest of them all.
pub proof fn lemma_newest_appended<T>(a: Seq<T>, b: Seq<T>, n: nat)
    ensures
        newest(newest(a, n) + b, n) == newest(a + b, n),
        newest(a, n).len() + overflow(a.len(), n) == a.len(),
{
    assert(newest(newest(a, n) + b, n) =~= newest(a + b, n));
}

/// Nanoseconds since `epoch_ns`; a stamp from before the epoch collapses to 0.
pub fn since_epoch_ns(stamp_ns: u64, epoch_ns: u64) -> (r: u64)
    ensures
        r == if stamp_ns >= epoch_ns {
            stamp_ns - epoch_ns
        } else {
            0
        },
{
    if stamp_ns >= epoch_ns {
        stamp_ns - epoch_ns
    } else {
        0
    }
}

/// Appends to a capacity-bounded ring, evicting the oldest samples and counting the evictions.
pub fn push_bounded(
    ring: &mut VecDeque<RawImuSample>,
    sample: RawImuSample,
    capacity: usize,
    evicted: &mut u64,
)
    requires
        *old(evicted) + overflow(old(ring)@.len() + 1, capacity as nat) <= u64::MAX,
    ensures
        final(ring)@ == newest(old(ring)@.push(sample), capacity as nat),
        *final(evicted) == *old(evicted) + overflow(old(ring)@.len() + 1, capacity as nat),
{
    let ghost full = ring@.push(sample);
    ring.push_back(sample);
    while ring.len() > capacity
        invariant
            ring@.len() <= full.len(),
            ring@ == full.skip(full.len() - ring@.len()),
            ring@.len() == full.len() || ring@.len() >= capacity,
            full.len() == old(ring)@.len() + 1,
            *evicted == *old(evicted) + (full.len() - ring@.len()),
            *old(evicted) + overflow(full.len(), capacity as nat) <= u64::MAX,
        decreases ring@.len(),
    {
        ring.pop_front();
        assert(ring@ =~= full.skip(full.len() - ring@.len()));
        *evicted += 1;
    }
    assert(ring@ =~= newest(full, capacity as nat));
}

/// Coverage thresholds [`ImuBuffer::window`] enforces before an interval may be integrated.
#[derive(Clone, Copy, Debug, PartialEq, Eq, Structural)]
pub struct ImuGates {
    /// The sample rate the device is configured for, in hertz. It has no default: a rate set too
    /// low disables the coverage count in silence.
    pub nominal_rate: Double,
    /// Largest tolerated gap between consecutive samples inside the interval, between its start
    /// and the first sample, and between the last sample and its end, in nanoseconds.
    pub max_gap_ns: u64,
    /// Minimum fraction of the nominal number of samples that must be present.
    pub min_coverage_ratio: Double,
    /// Absolute floor on the sample count, whatever the length of the interval.
    pub min_samples: usize,
}

/// The pattern of `0.9`, the default coverage ratio.
pub const DEFAULT_COVERAGE_RATIO_BITS: u64 = 0x3fec_cccc_cccc_cccd;

/// The default floor on the sample count of an interval.
pub const DEFAULT_MIN_SAMPLES: usize = 4;

impl ImuGates {
    /// Gates for a device at `nominal_rate`, with the widest tolerated gap in nanoseconds (three
    /// nominal periods is the usual choice).
    pub fn new(nominal_rate: Double, max_gap_ns: u64) -> (r: ImuGates)
        ensures
            r.nominal_rate == nominal_rate,
            r.max_gap_ns == max_gap_ns,
            r.min_coverage_ratio.bits == DEFAULT_COVERAGE_RATIO_BITS,
            r.min_samples == DEFAULT_MIN_SAMPLES,
    {
        ImuGates {
            nominal_rate,
            max_gap_ns,
            min_coverage_ratio: Double { bits: DEFAULT_COVERAGE_RATIO_BITS },
            min_samples: DEFAULT_MIN_SAMPLES,
        }
    }
}

/// Why an interval was refused. All times are in nanoseconds.
#[derive(Clone, Copy, Debug, PartialEq, Eq, Structural)]
pub enum ImuWindowError {
    /// `t1 <= t0`: two keyframes at one stamp, or a stamp that went backwards.
    NonPositiveInterval {
        /// Start of the requested interval.
        t0: u64,
        /// End of the requested interval.
        t1: u64,
    },
    /// The source reported dropped samples inside this interval.
    DroppedSamples {
        /// Stamp at which the drop was observed.
        at: u64,
        /// Start of the requested interval.
        t0: u64,
        /// End of the requested interval.
        t1: u64,
    },
    /// No buffered sample falls in the interval.
    NoSamples {
        /// Start of the requested interval.
        t0: u64,
        /// End of the requested interval.
        t1: u64,
        /// How many samples the buffer holds in total.
        buffered: usize,
    },
    /// A gap wider than [`ImuGates::max_gap_ns`], at either boundary or inside.
    Gap {
        /// Width of the offending gap.
        gap: u64,
        /// Where it starts.
        at: u64,
        /// The configured limit.
        max_gap: u64,
    },
    /// Enough samples to look integrable, too few to be.
    TooFewSamples {
        /// Samples present in the interval.
        got: usize,
        /// Samples required.
        want: usize,
        /// Length of the interval.
        span: u64,
        /// The nominal rate the requirement was derived from.
        rate: Double,
        /// The configured coverage ratio.
        coverage: Double,
    },
}

/// Counters for everything the buffer absorbed or refused.
#[derive(Clone, Copy, Debug, PartialEq, Eq, Structural)]
pub struct ImuBufferStats {
    /// Samples currently held.
    pub buffered: usize,
    /// Samples accepted over the buffer's lifetime.
    pub accepted: u64,
    /// Samples rejected at ingest because their stamp did not advance.
    pub out_of_order: u64,
    /// Samples pushed out by the capacity bound before anything read them.
    pub evicted: u64,
    /// Times the source's cumulative drop counter increased.
    pub drop_reports: u64,
}

impl ImuBufferStats {
    /// All counters at zero.
    pub open spec fn zero() -> ImuBufferStats {
        ImuBufferStats { buffered: 0, accepted: 0, out_of_order: 0, evicted: 0, drop_reports: 0 }
    }
}

impl Default for ImuBufferStats {
    fn default() -> (r: ImuBufferStats)
        ensures
            r == ImuBufferStats::zero(),
    {
        ImuBufferStats { buffered: 0, accepted: 0, out_of_order: 0, evicted: 0, drop_reports: 0 }
    }
}

/// The mathematical content of an [`ImuBuffer`].
#[verifier::ext_equal]
pub struct ImuBufferModel {
    /// The held samples, oldest first.
    pub samples: Seq<RawImuSample>,
    /// The most samples the ring may hold.
    pub capacity: nat,
    /// Stamps at which drops were reported, in report order.
    pub drop_marks: Seq<u64>,
    /// The source's cumulative drop count as last seen.
    pub baseline: Option<u64>,
    /// Whether a reported drop still waits for a sample to take its stamp from.
    pub pending_drop_mark: bool,
    /// Lifetime counters; the occupancy is not kept here.
    pub stats: ImuBufferStats,
}

/// One change to a buffer, short of emptying it.
pub enum BufferStep {
    /// A batch with the source's cumulative drop count.
    Push {
        /// The batch.
        batch: Seq<RawImuSample>,
        /// The drop count.
        dropped_cumulative: u64,
    },
    /// Everything stamped before this is dropped.
    Prune {
        /// The oldest stamp that stays.
        stamp_ns: u64,
    },
}

/// Whether stamps strictly increase along the sequence.
pub open spec fn strictly_stamped(s: Seq<RawImuSample>) -> bool {
    forall|i: int, j: int| 0 <= i < j < s.len() ==> (#[trigger] s[i]).stamp_ns < (#[trigger] s[j]).stamp_ns
}

/// The stamp a new sample has to exceed, if any.
pub open spec fn last_stamp(s: Seq<RawImuSample>) -> Option<u64> {
    if s.len() == 0 {
        None
    } else {
        Some(s.last().stamp_ns)
    }
}

/// Whether a stamp advances past the last one.
pub open spec fn advances(last: Option<u64>, stamp_ns: u64) -> bool {
    match last {
        Some(l) => stamp_ns > l,
        None => true,
    }
}

/// The samples of a batch whose stamps advance past `last` and past every accepted one before
/// them.
pub open spec fn advancing(last: Option<u64>, batch: Seq<RawImuSample>) -> Seq<RawImuSample>
    decreases batch.len(),
{
    if batch.len() == 0 {
        Seq::empty()
    } else {
        let kept = advancing(last, batch.drop_last());
        let top = if kept.len() == 0 {
            last
        } else {
            last_stamp(kept)
        };
        if advances(top, batch.last().stamp_ns) {
            kept.push(batch.last())
        } else {
            kept
        }
    }
}

/// The marks stamped at or after `stamp_ns`.
pub open spec fn marks_from(marks: Seq<u64>, stamp_ns: u64) -> Seq<u64> {
    marks.filter(|m: u64| m >= stamp_ns)
}

/// The samples stamped at or after `stamp_ns`.
pub open spec fn samples_from(samples: Seq<RawImuSample>, stamp_ns: u64) -> Seq<RawImuSample> {
    samples.filter(|s: RawImuSample| s.stamp_ns >= stamp_ns)
}

/// The samples stamped inside `[t0, t1]`.
pub open spec fn samples_within(samples: Seq<RawImuSample>, t0: u64, t1: u64) -> Seq<RawImuSample> {
    samples.filter(|s: RawImuSample| t0 <= s.stamp_ns <= t1)
}

/// The first mark inside `[t0, t1]`, in report order.
pub open spec fn first_mark_within(marks: Seq<u64>, t0: u64, t1: u64) -> Option<u64>
    decreases marks.len(),
{
    if marks.len() == 0 {
        None
    } else if t0 <= marks[0] <= t1 {
        Some(marks[0])
    } else {
        first_mark_within(marks.skip(1), t0, t1)
    }
}

/// The index of the first sample that the next one trails by more than `max_gap` nanoseconds.
pub open spec fn first_wide_gap(w: Seq<RawImuSample>, max_gap: u64) -> Option<int>
    decreases w.len(),
{
    if w.len() < 2 {
        None
    } else {
        match first_wide_gap(w.drop_last(), max_gap) {
            Some(i) => Some(i),
            None => if w[w.len() - 1].stamp_ns - w[w.len() - 2].stamp_ns > max_gap {
                Some(w.len() - 2)
            } else {
                None
            },
        }
    }
}

impl ImuBufferModel {
    /// A buffer that has seen nothing, with room for the given number of samples and at least one.
    pub open spec fn empty(capacity: usize) -> ImuBufferModel {
        ImuBufferModel {
            samples: Seq::empty(),
            capacity: if capacity == 0 {
                1
            } else {
                capacity as nat
            },
            drop_marks: Seq::empty(),
            baseline: None,
            pending_drop_mark: false,
            stats: ImuBufferStats::zero(),
        }
    }

    /// The representation invariant: stamps strictly increase, the bound holds, and no more
    /// samples were evicted or are held than were ever accepted.
    pub open spec fn wf(self) -> bool {
        &&& 1 <= self.capacity <= usize::MAX
        &&& self.samples.len() <= self.capacity
        &&& strictly_stamped(self.samples)
        &&& self.samples.len() + self.stats.evicted <= self.stats.accepted
        &&& self.stats.buffered == 0
    }

    /// Whether a cumulative drop count reports a new drop.
    pub open spec fn reports_drop(self, dropped_cumulative: u64) -> bool {
        match self.baseline {
            Some(prev) => dropped_cumulative > prev,
            None => false,
        }
    }

    /// Whether every counter has room for what a batch and a drop count add to it.
    pub open spec fn has_room_for(self, batch: Seq<RawImuSample>, dropped_cumulative: u64) -> bool {
        let kept = advancing(last_stamp(self.samples), batch).len();
        &&& self.stats.accepted + kept <= u64::MAX
        &&& self.stats.out_of_order + (batch.len() - kept) <= u64::MAX
        &&& self.reports_drop(dropped_cumulative) ==> self.stats.drop_reports < u64::MAX
    }

    /// The drop marks after a batch, before the ones the ring has outlived are forgotten: the
    /// batch's own first stamp for a newly reported drop, and the first accepted stamp for a drop
    /// that had none.
    pub open spec fn marks_after(self, batch: Seq<RawImuSample>, dropped_cumulative: u64) -> Seq<
        u64,
    > {
        let kept = advancing(last_stamp(self.samples), batch);
        let reported = if self.reports_drop(dropped_cumulative) && batch.len() > 0 {
            self.drop_marks.push(batch[0].stamp_ns)
        } else {
            self.drop_marks
        };
        let waiting = self.pending_drop_mark || (self.reports_drop(dropped_cumulative)
            && batch.len() == 0);
        if waiting && kept.len() > 0 {
            reported.push(kept[0].stamp_ns)
        } else {
            reported
        }
    }

    /// The buffer after a batch and the source's cumulative drop count.
    pub open spec fn pushed(self, batch: Seq<RawImuSample>, dropped_cumulative: u64)
        -> ImuBufferModel {
        let kept = advancing(last_stamp(self.samples), batch);
        let samples = newest(self.samples + kept, self.capacity);
        let marks = self.marks_after(batch, dropped_cumulative);
        let waiting = self.pending_drop_mark || (self.reports_drop(dropped_cumulative)
            && batch.len() == 0);
        ImuBufferModel {
            samples,
            capacity: self.capacity,
            drop_marks: if samples.len() > 0 {
                marks_from(marks, samples[0].stamp_ns)
            } else {
                marks
            },
            baseline: Some(dropped_cumulative),
            pending_drop_mark: waiting && kept.len() == 0,
            stats: ImuBufferStats {
                buffered: 0,
                accepted: (self.stats.accepted + kept.len()) as u64,
                out_of_order: (self.stats.out_of_order + batch.len() - kept.len()) as u64,
                evicted: (self.stats.evicted + overflow(
                    self.samples.len() + kept.len(),
                    self.capacity,
                )) as u64,
                drop_reports: (self.stats.drop_reports + if self.reports_drop(dropped_cumulative) {
                    1int
                } else {
                    0int
                }) as u64,
            },
        }
    }

    /// The buffer without what is stamped before `stamp_ns`.
    pub open spec fn pruned(self, stamp_ns: u64) -> ImuBufferModel {
        ImuBufferModel {
            samples: samples_from(self.samples, stamp_ns),
            drop_marks: marks_from(self.drop_marks, stamp_ns),
            ..self
        }
    }

    /// The buffer without samples and drop marks, its counters and drop baseline kept.
    pub open spec fn cleared(self) -> ImuBufferModel {
        ImuBufferModel {
            samples: Seq::empty(),
            drop_marks: Seq::empty(),
            pending_drop_mark: false,
            ..self
        }
    }

    /// The buffer after a run of pushes and prunings.
    pub open spec fn after(self, steps: Seq<BufferStep>) -> ImuBufferModel
        decreases steps.len(),
    {
        if steps.len() == 0 {
            self
        } else {
            let before = self.after(steps.drop_last());
            match steps.last() {
                BufferStep::Push { batch, dropped_cumulative } => before.pushed(
                    batch,
                    dropped_cumulative,
                ),
                BufferStep::Prune { stamp_ns } => before.pruned(stamp_ns),
            }
        }
    }

    /// Whether every held sample is newer than a stamp, and there is one.
    pub open spec fn has_outlived(self, stamp_ns: u64) -> bool {
        self.samples.len() > 0 && self.samples[0].stamp_ns > stamp_ns
    }

    /// What a request for `[t0, t1]` is answered, where `coverage_count` is the number of samples
    /// the nominal rate and coverage ratio ask for over that span.
    pub open spec fn window(
        self,
        t0: u64,
        t1: u64,
        gates: ImuGates,
        coverage_count: usize,
    ) -> Result<Seq<RawImuSample>, ImuWindowError> {
        let inside = samples_within(self.samples, t0, t1);
        let want = if coverage_count >= gates.min_samples {
            coverage_count
        } else {
            gates.min_samples
        };
        let limit = gates.max_gap_ns;
        if t1 <= t0 {
            Err(ImuWindowError::NonPositiveInterval { t0, t1 })
        } else if let Some(at) = first_mark_within(self.drop_marks, t0, t1) {
            Err(ImuWindowError::DroppedSamples { at, t0, t1 })
        } else if inside.len() == 0 {
            Err(ImuWindowError::NoSamples { t0, t1, buffered: self.samples.len() as usize })
        } else if inside[0].stamp_ns - t0 > limit {
            Err(
                ImuWindowError::Gap {
                    gap: (inside[0].stamp_ns - t0) as u64,
                    at: t0,
                    max_gap: limit,
                },
            )
        } else if t1 - inside.last().stamp_ns > limit {
            Err(
                ImuWindowError::Gap {
                    gap: (t1 - inside.last().stamp_ns) as u64,
                    at: inside.last().stamp_ns,
                    max_gap: limit,
                },
            )
        } else if let Some(i) = first_wide_gap(inside, limit) {
            Err(
                ImuWindowError::Gap {
                    gap: (inside[i + 1].stamp_ns - inside[i].stamp_ns) as u64,
                    at: inside[i].stamp_ns,
                    max_gap: limit,
                },
            )
        } else if inside.len() < want {
            Err(
                ImuWindowError::TooFewSamples {
                    got: inside.len() as usize,
                    want,
                    span: (t1 - t0) as u64,
                    rate: gates.nominal_rate,
                    coverage: gates.min_coverage_ratio,
                },
            )
        } else {
            Ok(inside)
        }
    }
}

/// What a batch leaves accepted is no longer than it, in strict stamp order, and past what was
/// there.
pub proof fn lemma_advancing(last: Option<u64>, batch: Seq<RawImuSample>)
    ensures
        advancing(last, batch).len() <= batch.len(),
        strictly_stamped(advancing(last, batch)),
        forall|i: int|
            0 <= i < advancing(last, batch).len() ==> advances(
                last,
                (#[trigger] advancing(last, batch)[i]).stamp_ns,
            ),
    decreases batch.len(),
{
    if batch.len() > 0 {
        lemma_advancing(last, batch.drop_last());
    }
}

proof fn lemma_advancing_grows(last: Option<u64>, batch: Seq<RawImuSample>, n: int)
    requires
        0 <= n <= batch.len(),
    ensures
        advancing(last, batch.take(n)).len() <= advancing(last, batch).len(),
        n - advancing(last, batch.take(n)).len() <= batch.len() - advancing(last, batch).len(),
    decreases batch.len() - n,
{
    if n < batch.len() {
        assert(batch.take(n + 1).drop_last() =~= batch.take(n));
        lemma_advancing_grows(last, batch, n + 1);
    } else {
        assert(batch.take(n) =~= batch);
    }
}

proof fn lemma_appended_stays_stamped(a: Seq<RawImuSample>, b: Seq<RawImuSample>)
    requires
        strictly_stamped(a),
        strictly_stamped(b),
        forall|i: int| 0 <= i < b.len() ==> advances(last_stamp(a), (#[trigger] b[i]).stamp_ns),
    ensures
        strictly_stamped(a + b),
{
    let c = a + b;
    assert forall|i: int, j: int| 0 <= i < j < c.len() implies (#[trigger] c[i]).stamp_ns < (
    #[trigger] c[j]).stamp_ns by {
        if i < a.len() && j >= a.len() {
            assert(c[j] == b[j - a.len()]);
            assert(a[i].stamp_ns <= a.last().stamp_ns);
        } else if i >= a.len() {
            assert(c[i] == b[i - a.len()]);
            assert(c[j] == b[j - a.len()]);
        }
    }
}

proof fn lemma_within_is_range(s: Seq<RawImuSample>, t0: u64, t1: u64, lo: int, hi: int)
    requires
        0 <= lo <= hi <= s.len(),
        forall|i: int| 0 <= i < lo ==> (#[trigger] s[i]).stamp_ns < t0,
        forall|i: int| lo <= i < hi ==> t0 <= (#[trigger] s[i]).stamp_ns <= t1,
        forall|i: int| hi <= i < s.len() ==> (#[trigger] s[i]).stamp_ns > t1,
    ensures
        samples_within(s, t0, t1) == s.subrange(lo, hi),
    decreases s.len(),
{
    reveal(Seq::filter);
    if s.len() > 0 {
        let front = s.drop_last();
        if hi == s.len() {
            if lo == hi {
                lemma_within_is_range(front, t0, t1, lo - 1, hi - 1);
                assert(front.subrange(lo - 1, hi - 1) =~= s.subrange(lo, hi));
            } else {
                lemma_within_is_range(front, t0, t1, lo, hi - 1);
                assert(front.subrange(lo, hi - 1).push(s.last()) =~= s.subrange(lo, hi));
            }
        } else {
            lemma_within_is_range(front, t0, t1, lo, hi);
            assert(front.subrange(lo, hi) =~= s.subrange(lo, hi));
        }
    } else {
        assert(s.subrange(lo, hi) =~= s);
    }
}

proof fn lemma_from_is_suffix(s: Seq<RawImuSample>, stamp_ns: u64, lo: int)
    requires
        0 <= lo <= s.len(),
        forall|i: int| 0 <= i < lo ==> (#[trigger] s[i]).stamp_ns < stamp_ns,
        forall|i: int| lo <= i < s.len() ==> (#[trigger] s[i]).stamp_ns >= stamp_ns,
    ensures
        samples_from(s, stamp_ns) == s.skip(lo),
    decreases s.len(),
{
    reveal(Seq::filter);
    if s.len() > 0 {
        let front = s.drop_last();
        if lo == s.len() {
            lemma_from_is_suffix(front, stamp_ns, lo - 1);
            assert(front.skip(lo - 1) =~= s.skip(lo));
        } else {
            lemma_from_is_suffix(front, stamp_ns, lo);
            assert(front.skip(lo).push(s.last()) =~= s.skip(lo));
        }
    } else {
        assert(s.skip(lo) =~= s);
    }
}

/// A stamp-indexed ring of raw inertial samples, queried by interval.
#[derive(Debug)]
pub struct ImuBuffer {
    samples: VecDeque<RawImuSample>,
    capacity: usize,
    drop_marks: VecDeque<u64>,
    last_dropped_cumulative: Option<u64>,
    pending_drop_mark: bool,
    stats: ImuBufferStats,
}

impl View for ImuBuffer {
    type V = ImuBufferModel;

    closed spec fn view(&self) -> ImuBufferModel {
        ImuBufferModel {
            samples: self.samples@,
            capacity: self.capacity as nat,
            drop_marks: self.drop_marks@,
            baseline: self.last_dropped_cumulative,
            pending_drop_mark: self.pending_drop_mark,
            stats: self.stats,
        }
    }
}

impl ImuBuffer {
    /// A buffer holding at most `capacity` samples, and at least one.
    pub fn with_capacity(capacity: usize) -> (r: ImuBuffer)
        ensures
            r@ == ImuBufferModel::empty(capacity),
            r@.wf(),
    {
        ImuBuffer {
            samples: VecDeque::with_capacity(
                if capacity < MAX_RESERVED {
                    capacity
                } else {
                    MAX_RESERVED
                },
            ),
            capacity: if capacity == 0 {
                1
            } else {
                capacity
            },
            drop_marks: VecDeque::new(),
            last_dropped_cumulative: None,
            pending_drop_mark: false,
            stats: ImuBufferStats::default(),
        }
    }

    /// Appends a batch, taking the source's cumulative drop count with it.
    ///
    /// Only an increase of that count is a new hole, and the first observation is a baseline.
    /// Samples whose stamp does not strictly advance are left out and counted. Returns how many
    /// samples were accepted.
    pub fn push(&mut self, batch: &[RawImuSample], dropped_cumulative: u64) -> (accepted: usize)
        requires
            old(self)@.wf(),
            old(self)@.has_room_for(batch@, dropped_cumulative),
        ensures
            final(self)@ == old(self)@.pushed(batch@, dropped_cumulative),
            final(self)@.wf(),
            accepted == advancing(last_stamp(old(self)@.samples), batch@).len(),
    {
        let ghost before = self@;
        let ghost last = last_stamp(before.samples);
        let grew = match self.last_dropped_cumulative {
            Some(prev) => dropped_cumulative > prev,
            None => false,
        };
        self.last_dropped_cumulative = Some(dropped_cumulative);
        if grew {
            self.stats.drop_reports += 1;
            if batch.len() > 0 {
                self.drop_marks.push_back(batch[0].stamp_ns);
            } else {
                self.pending_drop_mark = true;
            }
        }
        let ghost marks0 = self.drop_marks@;
        let ghost waiting = self.pending_drop_mark;
        let mut accepted: usize = 0;
        let mut i: usize = 0;
        proof {
            assert(batch@.take(0) =~= Seq::empty());
            assert(before.samples + Seq::<RawImuSample>::empty() =~= before.samples);
        }
        while i < batch.len()
            invariant
                i <= batch@.len(),
                before.wf(),
                last == last_stamp(before.samples),
                before.has_room_for(batch@, dropped_cumulative),
                self.capacity == before.capacity,
                self.last_dropped_cumulative == Some(dropped_cumulative),
                accepted == advancing(last, batch@.take(i as int)).len(),
                accepted <= i,
                self.samples@ == newest(
                    before.samples + advancing(last, batch@.take(i as int)),
                    before.capacity,
                ),
                self.pending_drop_mark == (waiting && accepted == 0),
                self.drop_marks@ == if waiting && accepted > 0 {
                    marks0.push(advancing(last, batch@.take(i as int))[0].stamp_ns)
                } else {
                    marks0
                },
                self.stats.buffered == 0,
                self.stats.accepted == before.stats.accepted,
                self.stats.out_of_order == before.stats.out_of_order + (i - accepted),
                self.stats.evicted == before.stats.evicted + overflow(
                    before.samples.len() + accepted as nat,
                    before.capacity,
                ),
                self.stats.drop_reports == before.stats.drop_reports + if before.reports_drop(
                    dropped_cumulative,
                ) {
                    1int
                } else {
                    0int
                },
            decreases batch@.len() - i,
        {
            let sample = batch[i];
            let ghost kept = advancing(last, batch@.take(i as int));
            let ghost all = before.samples + kept;
            proof {
                assert(batch@.take(i + 1).drop_last() =~= batch@.take(i as int));
                assert(batch@.take(i + 1).last() == sample);
                lemma_advancing(last, batch@.take(i as int));
                lemma_advancing_grows(last, batch@, i + 1);
                if self.samples@.len() > 0 {
                    assert(self.samples@.last() == all.last());
                    if kept.len() > 0 {
                        assert(all.last() == kept.last());
                    }
                }
            }
            let n: usize = self.samples.len();
            if n > 0 && sample.stamp_ns <= self.samples[n - 1].stamp_ns {
                self.stats.out_of_order += 1;
            } else {
                if self.pending_drop_mark {
                    self.drop_marks.push_back(sample.stamp_ns);
                    self.pending_drop_mark = false;
                }
                push_bounded(&mut self.samples, sample, self.capacity, &mut self.stats.evicted);
                proof {
                    let all2 = before.samples + kept.push(sample);
                    assert(all2 =~= all.push(sample));
                    if all.len() > before.capacity {
                        assert(newest(newest(all, before.capacity).push(sample), before.capacity)
                            =~= newest(all2, before.capacity));
                    }
                }
                accepted += 1;
            }
            i += 1;
        }
        proof {
            assert(batch@.take(batch@.len() as int) =~= batch@);
            lemma_advancing(last, batch@);
        }
        self.stats.accepted += accepted as u64;
        let ghost kept = advancing(last, batch@);
        proof {
            lemma_appended_stays_stamped(before.samples, kept);
            assert(marks0 == if before.reports_drop(dropped_cumulative) && batch@.len() > 0 {
                before.drop_marks.push(batch@[0].stamp_ns)
            } else {
                before.drop_marks
            });
        }
        if self.samples.len() > 0 {
            let oldest: u64 = self.samples[0].stamp_ns;
            self.forget_marks_before(oldest);
        }
        proof {
            assert(self@ =~= before.pushed(batch@, dropped_cumulative));
        }
        accepted
    }

    /// Forgets drop marks stamped strictly before `stamp_ns`.
    fn forget_marks_before(&mut self, stamp_ns: u64)
        ensures
            final(self)@ == (ImuBufferModel {
                drop_marks: marks_from(old(self)@.drop_marks, stamp_ns),
                ..old(self)@
            }),
    {
        let ghost marks = self.drop_marks@;
        let mut kept: VecDeque<u64> = VecDeque::new();
        let mut i: usize = 0;
        proof {
            reveal(Seq::filter);
            assert(marks_from(marks.take(0), stamp_ns) =~= Seq::<u64>::empty());
        }
        while i < self.drop_marks.len()
            invariant
                i <= marks.len(),
                self.drop_marks@ == marks,
                *self == *old(self),
                kept@ == marks_from(marks.take(i as int), stamp_ns),
            decreases marks.len() - i,
        {
            let m: u64 = self.drop_marks[i];
            proof {
                reveal(Seq::filter);
                assert(marks.take(i + 1).drop_last() =~= marks.take(i as int));
                assert(marks.take(i + 1).last() == m);
            }
            if m >= stamp_ns {
                kept.push_back(m);
            }
            i += 1;
        }
        proof {
            assert(marks.take(i as int) =~= marks);
        }
        self.drop_marks = kept;
    }

    /// Drops everything stamped strictly before `stamp_ns`.
    pub fn prune_before(&mut self, stamp_ns: u64)
        requires
            old(self)@.wf(),
        ensures
            final(self)@ == old(self)@.pruned(stamp_ns),
            final(self)@.wf(),
    {
        let ghost before = self@;
        let ghost mut gone: int = 0;
        proof {
            assert(before.samples.skip(0) =~= before.samples);
        }
        while self.samples.len() > 0 && self.samples[0].stamp_ns < stamp_ns
            invariant
                before.wf(),
                0 <= gone <= before.samples.len(),
                self.samples@ == before.samples.skip(gone),
                forall|i: int| 0 <= i < gone ==> (#[trigger] before.samples[i]).stamp_ns < stamp_ns,
                self@ == (ImuBufferModel { samples: self.samples@, ..before }),
            decreases before.samples.len() - gone,
        {
            self.samples.pop_front();
            proof {
                assert(before.samples.skip(gone).skip(1) =~= before.samples.skip(gone + 1));
                gone = gone + 1;
                assert(self.samples@ =~= before.samples.skip(gone));
            }
        }
        proof {
            assert forall|i: int| gone <= i < before.samples.len() implies (
            #[trigger] before.samples[i]).stamp_ns >= stamp_ns by {
                assert(self.samples@[0] == before.samples[gone]);
            }
            lemma_from_is_suffix(before.samples, stamp_ns, gone);
        }
        self.forget_marks_before(stamp_ns);
    }

    /// Empties the buffer and every drop mark, keeping the lifetime counters and the drop
    /// baseline.
    pub fn clear(&mut self)
        requires
            old(self)@.wf(),
        ensures
            final(self)@ == old(self)@.cleared(),
            final(self)@.wf(),
    {
        self.samples.clear();
        self.drop_marks.clear();
        self.pending_drop_mark = false;
    }

    /// Counters, plus the current occupancy.
    pub fn stats(&self) -> (r: ImuBufferStats)
        ensures
            r == (ImuBufferStats { buffered: self@.samples.len() as usize, ..self@.stats }),
    {
        ImuBufferStats {
            buffered: self.samples.len(),
            accepted: self.stats.accepted,
            out_of_order: self.stats.out_of_order,
            evicted: self.stats.evicted,
            drop_reports: self.stats.drop_reports,
        }
    }

    /// How many leading samples are stamped before `stamp_ns`, or at it too if `inclusive`.
    fn leading(&self, stamp_ns: u64, inclusive: bool) -> (r: usize)
        requires
            self@.wf(),
        ensures
            r <= self@.samples.len(),
            forall|i: int|
                0 <= i < r ==> (#[trigger] self@.samples[i]).stamp_ns < stamp_ns || (inclusive
                    && self@.samples[i].stamp_ns == stamp_ns),
            forall|i: int|
                r <= i < self@.samples.len() ==> (#[trigger] self@.samples[i]).stamp_ns > stamp_ns
                    || (!inclusive && self@.samples[i].stamp_ns == stamp_ns),
    {
        let mut lo: usize = 0;
        let mut hi: usize = self.samples.len();
        while lo < hi
            invariant
                self@.wf(),
                lo <= hi <= self@.samples.len(),
                forall|i: int|
                    0 <= i < lo ==> (#[trigger] self@.samples[i]).stamp_ns < stamp_ns || (inclusive
                        && self@.samples[i].stamp_ns == stamp_ns),
                forall|i: int|
                    hi <= i < self@.samples.len() ==> (#[trigger] self@.samples[i]).stamp_ns
                        > stamp_ns || (!inclusive && self@.samples[i].stamp_ns == stamp_ns),
            decreases hi - lo,
        {
            let mid: usize = lo + (hi - lo) / 2;
            let s: u64 = self.samples[mid].stamp_ns;
            assert(s == self@.samples[mid as int].stamp_ns);
            if s < stamp_ns || (inclusive && s == stamp_ns) {
                lo = mid + 1;
            } else {
                hi = mid;
            }
        }
        lo
    }

    /// The samples covering `[t0_ns, t1_ns]`, or the reason the interval must not be integrated.
    ///
    /// The tests run most damning first, so the reported reason is the root cause rather than a
    /// symptom of it. `coverage_count` is how many samples the nominal rate and the coverage
    /// ratio ask for over the span.
    pub fn window(&self, t0_ns: u64, t1_ns: u64, gates: &ImuGates, coverage_count: usize) -> (r:
        Result<Vec<RawImuSample>, ImuWindowError>)
        requires
            self@.wf(),
        ensures
            match r {
                Ok(v) => self@.window(t0_ns, t1_ns, *gates, coverage_count) == Ok::<
                    Seq<RawImuSample>,
                    ImuWindowError,
                >(v@),
                Err(e) => self@.window(t0_ns, t1_ns, *gates, coverage_count) == Err::<
                    Seq<RawImuSample>,
                    ImuWindowError,
                >(e),
            },
    {
        if t1_ns <= t0_ns {
            return Err(ImuWindowError::NonPositiveInterval { t0: t0_ns, t1: t1_ns });
        }
        let ghost marks = self@.drop_marks;
        let mut k: usize = 0;
        proof {
            assert(marks.skip(0) =~= marks);
        }
        while k < self.drop_marks.len()
            invariant
                marks == self@.drop_marks,
                k <= marks.len(),
                t0_ns < t1_ns,
                first_mark_within(marks, t0_ns, t1_ns) == first_mark_within(
                    marks.skip(k as int),
                    t0_ns,
                    t1_ns,
                ),
            decreases marks.len() - k,
        {
            let at_ns: u64 = self.drop_marks[k];
            if at_ns >= t0_ns && at_ns <= t1_ns {
                return Err(ImuWindowError::DroppedSamples { at: at_ns, t0: t0_ns, t1: t1_ns });
            }
            assert(marks.skip(k as int).skip(1) =~= marks.skip(k + 1));
            k += 1;
        }
        assert(first_mark_within(marks, t0_ns, t1_ns) is None);
        let lo: usize = self.leading(t0_ns, false);
        let hi: usize = self.leading(t1_ns, true);
        let ghost inside = samples_within(self@.samples, t0_ns, t1_ns);
        proof {
            if lo > hi {
                let between = self@.samples[hi as int].stamp_ns;
                assert(between < t0_ns && between > t1_ns);
            }
            lemma_within_is_range(self@.samples, t0_ns, t1_ns, lo as int, hi as int);
        }
        if lo >= hi {
            return Err(
                ImuWindowError::NoSamples { t0: t0_ns, t1: t1_ns, buffered: self.samples.len() },
            );
        }
        let first: u64 = self.samples[lo].stamp_ns;
        let last: u64 = self.samples[hi - 1].stamp_ns;
        assert(inside[0] == self@.samples[lo as int]);
        assert(inside.last() == self@.samples[hi - 1]);
        let max_gap_ns: u64 = gates.max_gap_ns;
        let lead: u64 = first - t0_ns;
        if lead > max_gap_ns {
            return Err(ImuWindowError::Gap { gap: lead, at: t0_ns, max_gap: max_gap_ns });
        }
        let tail: u64 = t1_ns - last;
        if tail > max_gap_ns {
            return Err(ImuWindowError::Gap { gap: tail, at: last, max_gap: max_gap_ns });
        }
        let mut out: Vec<RawImuSample> = Vec::new();
        out.push(self.samples[lo]);
        let mut i: usize = lo + 1;
        proof {
            assert(out@ =~= inside.take(1));
        }
        while i < hi
            invariant
                self@.wf(),
                lo < i <= hi <= self@.samples.len(),
                inside == self@.samples.subrange(lo as int, hi as int),
                inside == samples_within(self@.samples, t0_ns, t1_ns),
                out@ == inside.take(i - lo),
                first_wide_gap(inside.take(i - lo), max_gap_ns) is None,
                max_gap_ns == gates.max_gap_ns,
                t0_ns < t1_ns,
                first_mark_within(self@.drop_marks, t0_ns, t1_ns) is None,
                inside.len() > 0,
                inside[0].stamp_ns - t0_ns <= max_gap_ns,
                t1_ns - inside.last().stamp_ns <= max_gap_ns,
            decreases hi - i,
        {
            let a: u64 = self.samples[i - 1].stamp_ns;
            let b: u64 = self.samples[i].stamp_ns;
            proof {
                assert(self@.samples[i - 1].stamp_ns < self@.samples[i as int].stamp_ns);
                assert(inside.take(i - lo + 1).drop_last() =~= inside.take(i - lo));
                assert(inside.take(i - lo + 1)[i - lo] == self@.samples[i as int]);
                assert(inside.take(i - lo + 1)[i - lo - 1] == self@.samples[i - 1]);
            }
            let gap: u64 = b - a;
            if gap > max_gap_ns {
                proof {
                    lemma_first_wide_gap_prefix(inside, i - lo + 1, max_gap_ns);
                    assert(inside[i - lo - 1] == self@.samples[i - 1]);
                    assert(inside[i - lo] == self@.samples[i as int]);
                }
                return Err(ImuWindowError::Gap { gap, at: a, max_gap: max_gap_ns });
            }
            out.push(self.samples[i]);
            proof {
                assert(out@ =~= inside.take(i - lo + 1));
            }
            i += 1;
        }
        proof {
            assert(inside.take(hi - lo) =~= inside);
        }
        let want: usize = if coverage_count >= gates.min_samples {
            coverage_count
        } else {
            gates.min_samples
        };
        if out.len() < want {
            return Err(
                ImuWindowError::TooFewSamples {
                    got: out.len(),
                    want,
                    span: t1_ns - t0_ns,
                    rate: gates.nominal_rate,
                    coverage: gates.min_coverage_ratio,
                },
            );
        }
        Ok(out)
    }
}

proof fn lemma_first_wide_gap_prefix(w: Seq<RawImuSample>, n: int, max_gap: u64)
    requires
        0 <= n <= w.len(),
        first_wide_gap(w.take(n), max_gap) is Some,
    ensures
        first_wide_gap(w, max_gap) == first_wide_gap(w.take(n), max_gap),
    decreases w.len() - n,
{
    if n < w.len() {
        assert(w.take(n + 1).drop_last() =~= w.take(n));
        lemma_first_wide_gap_prefix(w, n + 1, max_gap);
    } else {
        assert(w.take(n) =~= w);
    }
}

proof fn lemma_no_wide_gap(w: Seq<RawImuSample>, max_gap: u64)
    requires
        first_wide_gap(w, max_gap) is None,
    ensures
        forall|i: int|
            0 <= i && i + 1 < w.len() ==> w[i + 1].stamp_ns - (#[trigger] w[i]).stamp_ns <= max_gap,
    decreases w.len(),
{
    if w.len() >= 2 {
        let front = w.drop_last();
        lemma_no_wide_gap(front, max_gap);
        assert forall|i: int| 0 <= i && i + 1 < w.len() implies w[i + 1].stamp_ns - (
        #[trigger] w[i]).stamp_ns <= max_gap by {
            if i + 1 < front.len() {
                assert(front[i].stamp_ns == w[i].stamp_ns);
                assert(front[i + 1] == w[i + 1]);
            }
        }
    }
}

proof fn lemma_within_keeps(s: Seq<RawImuSample>, t0: u64, t1: u64)
    requires
        strictly_stamped(s),
    ensures
        strictly_stamped(samples_within(s, t0, t1)),
        forall|i: int|
            0 <= i < samples_within(s, t0, t1).len() ==> s.contains(
                #[trigger] samples_within(s, t0, t1)[i],
            ),
    decreases s.len(),
{
    reveal(Seq::filter);
    if s.len() > 0 {
        let front = s.drop_last();
        lemma_within_keeps(front, t0, t1);
        let w = samples_within(s, t0, t1);
        let wf = samples_within(front, t0, t1);
        assert forall|i: int| 0 <= i < w.len() implies s.contains(#[trigger] w[i]) by {
            if i < wf.len() {
                assert(w[i] == wf[i]);
                let k = choose|k: int| 0 <= k < front.len() && front[k] == wf[i];
                assert(s[k] == w[i]);
            } else {
                assert(w[i] == s[s.len() - 1]);
            }
        }
        assert forall|i: int, j: int| 0 <= i < j < w.len() implies (#[trigger] w[i]).stamp_ns < (
        #[trigger] w[j]).stamp_ns by {
            assert(w[i] == wf[i]);
            if j < wf.len() {
                assert(w[j] == wf[j]);
            } else {
                let k = choose|k: int| 0 <= k < front.len() && front[k] == wf[i];
                assert(s[k].stamp_ns < s[s.len() - 1].stamp_ns);
            }
        }
    }
}

/// A window that is handed out covers its interval: its samples are held samples in strict stamp
/// order, all of them inside the interval and every held sample inside the interval among them,
/// no two neighbours and neither boundary further apart than the tolerated gap, and at least as
/// many as both floors ask for; and no reported drop falls inside it.
pub proof fn a_granted_window_is_covered(
    buffer: ImuBufferModel,
    t0: u64,
    t1: u64,
    gates: ImuGates,
    coverage_count: usize,
)
    requires
        buffer.wf(),
        buffer.window(t0, t1, gates, coverage_count) is Ok,
    ensures
        ({
            let w = buffer.window(t0, t1, gates, coverage_count)->Ok_0;
            &&& t0 < t1
            &&& strictly_stamped(w)
            &&& forall|s: RawImuSample| #[trigger]
                w.contains(s) <==> buffer.samples.contains(s) && t0 <= s.stamp_ns <= t1
            &&& w.len() > 0
            &&& w[0].stamp_ns - t0 <= gates.max_gap_ns
            &&& t1 - w.last().stamp_ns <= gates.max_gap_ns
            &&& forall|i: int|
                0 <= i && i + 1 < w.len() ==> w[i + 1].stamp_ns - (#[trigger] w[i]).stamp_ns
                    <= gates.max_gap_ns
            &&& w.len() >= coverage_count
            &&& w.len() >= gates.min_samples
            &&& forall|i: int|
                0 <= i < buffer.drop_marks.len() ==> !(t0 <= #[trigger] buffer.drop_marks[i] <= t1)
        }),
{
    let w = samples_within(buffer.samples, t0, t1);
    lemma_within_keeps(buffer.samples, t0, t1);
    lemma_no_wide_gap(w, gates.max_gap_ns);
    lemma_no_mark_within(buffer.drop_marks, t0, t1);
    broadcast use vstd::seq_lib::group_filter_ensures;

    assert forall|s: RawImuSample| #[trigger]
        w.contains(s) <==> buffer.samples.contains(s) && t0 <= s.stamp_ns <= t1 by {
        if w.contains(s) {
            let i = choose|i: int| 0 <= i < w.len() && w[i] == s;
            assert(buffer.samples.contains(w[i]));
        }
        if buffer.samples.contains(s) && t0 <= s.stamp_ns <= t1 {
            let i = choose|i: int| 0 <= i < buffer.samples.len() && buffer.samples[i] == s;
            buffer.samples.lemma_filter_contains(
                |x: RawImuSample| t0 <= x.stamp_ns <= t1,
                i,
            );
        }
    }
}

proof fn lemma_no_mark_within(marks: Seq<u64>, t0: u64, t1: u64)
    requires
        first_mark_within(marks, t0, t1) is None,
    ensures
        forall|i: int| 0 <= i < marks.len() ==> !(t0 <= #[trigger] marks[i] <= t1),
    decreases marks.len(),
{
    if marks.len() > 0 {
        lemma_no_mark_within(marks.skip(1), t0, t1);
        assert forall|i: int| 0 <= i < marks.len() implies !(t0 <= #[trigger] marks[i] <= t1) by {
            if i > 0 {
                assert(marks.skip(1)[i - 1] == marks[i]);
            }
        }
    }
}

proof fn lemma_first_mark_is_within(marks: Seq<u64>, t0: u64, t1: u64)
    ensures
        first_mark_within(marks, t0, t1) matches Some(at) ==> t0 <= at <= t1,
    decreases marks.len(),
{
    if marks.len() > 0 {
        lemma_first_mark_is_within(marks.skip(1), t0, t1);
    }
}

/// A request that overlaps what the ring has evicted or pruned is never granted: if the interval
/// starts more than the tolerated gap before the oldest held sample, it is refused.
pub proof fn a_truncated_window_is_refused(
    buffer: ImuBufferModel,
    t0: u64,
    t1: u64,
    gates: ImuGates,
    coverage_count: usize,
)
    requires
        buffer.wf(),
        buffer.samples.len() > 0,
        buffer.samples[0].stamp_ns > t0 + gates.max_gap_ns,
    ensures
        buffer.window(t0, t1, gates, coverage_count) is Err,
{
    if buffer.window(t0, t1, gates, coverage_count) is Ok {
        a_granted_window_is_covered(buffer, t0, t1, gates, coverage_count);
        let w = buffer.window(t0, t1, gates, coverage_count)->Ok_0;
        assert(w.contains(w[0]));
        let k = choose|k: int| 0 <= k < buffer.samples.len() && buffer.samples[k] == w[0];
        if k > 0 {
            assert(buffer.samples[0].stamp_ns < buffer.samples[k].stamp_ns);
        }
    }
}

/// The first cumulative drop count a buffer sees is a baseline: it marks nothing.
pub proof fn first_drop_count_is_a_baseline(
    buffer: ImuBufferModel,
    batch: Seq<RawImuSample>,
    dropped_cumulative: u64,
)
    requires
        buffer.baseline is None,
        buffer.drop_marks.len() == 0,
        !buffer.pending_drop_mark,
    ensures
        buffer.pushed(batch, dropped_cumulative).drop_marks.len() == 0,
        buffer.pushed(batch, dropped_cumulative).stats.drop_reports == buffer.stats.drop_reports,
{
    reveal(Seq::filter);
}

/// A repeated cumulative drop count is no new drop: it reports nothing.
pub proof fn a_repeated_drop_count_reports_nothing(
    buffer: ImuBufferModel,
    first: Seq<RawImuSample>,
    second: Seq<RawImuSample>,
    dropped_cumulative: u64,
)
    ensures
        ({
            let once = buffer.pushed(first, dropped_cumulative);
            let twice = once.pushed(second, dropped_cumulative);
            twice.stats.drop_reports == once.stats.drop_reports
        }),
{
}

/// Every sample of a batch is accounted for once: it is accepted where nothing is held or its
/// stamp exceeds the newest one held when its turn comes, and counted as out of order otherwise;
/// of what is then held only the oldest goes, down to the capacity, and each is counted.
pub proof fn every_pushed_sample_is_accounted_for(
    buffer: ImuBufferModel,
    batch: Seq<RawImuSample>,
    dropped_cumulative: u64,
)
    requires
        buffer.wf(),
        buffer.has_room_for(batch, dropped_cumulative),
    ensures
        ({
            let last = last_stamp(buffer.samples);
            let kept = advancing(last, batch);
            let after = buffer.pushed(batch, dropped_cumulative);
            &&& forall|i: int|
                0 <= i < batch.len() ==> {
                    let so_far = advancing(last, #[trigger] batch.take(i));
                    let held = newest(buffer.samples + so_far, buffer.capacity);
                    advancing(last, batch.take(i + 1)) == if advances(
                        last_stamp(held),
                        batch[i].stamp_ns,
                    ) {
                        so_far.push(batch[i])
                    } else {
                        so_far
                    }
                }
            &&& after.samples == newest(buffer.samples + kept, buffer.capacity)
            &&& after.stats.accepted == buffer.stats.accepted + kept.len()
            &&& after.stats.out_of_order == buffer.stats.out_of_order + (batch.len() - kept.len())
            &&& after.stats.evicted == buffer.stats.evicted + buffer.samples.len() + kept.len()
                - after.samples.len()
            &&& after.samples.len() == if buffer.samples.len() + kept.len() <= buffer.capacity {
                buffer.samples.len() + kept.len()
            } else {
                buffer.capacity
            }
        }),
{
    let last = last_stamp(buffer.samples);
    lemma_advancing(last, batch);
    assert forall|i: int| 0 <= i < batch.len() implies {
        let so_far = advancing(last, #[trigger] batch.take(i));
        let held = newest(buffer.samples + so_far, buffer.capacity);
        advancing(last, batch.take(i + 1)) == if advances(last_stamp(held), batch[i].stamp_ns) {
            so_far.push(batch[i])
        } else {
            so_far
        }
    } by {
        let so_far = advancing(last, batch.take(i));
        let all = buffer.samples + so_far;
        let held = newest(all, buffer.capacity);
        assert(batch.take(i + 1).drop_last() =~= batch.take(i));
        assert(batch.take(i + 1).last() == batch[i]);
        if all.len() > 0 {
            assert(held.last() == all.last());
            if so_far.len() > 0 {
                assert(all.last() == so_far.last());
            } else {
                assert(all =~= buffer.samples);
            }
        }
    }
}

proof fn lemma_leading(s: Seq<RawImuSample>, stamp_ns: u64) -> (lo: int)
    requires
        strictly_stamped(s),
    ensures
        0 <= lo <= s.len(),
        forall|i: int| 0 <= i < lo ==> (#[trigger] s[i]).stamp_ns < stamp_ns,
        forall|i: int| lo <= i < s.len() ==> (#[trigger] s[i]).stamp_ns >= stamp_ns,
    decreases s.len(),
{
    if s.len() == 0 {
        0
    } else {
        let front = s.drop_last();
        let lo = lemma_leading(front, stamp_ns);
        assert forall|i: int| 0 <= i < lo implies (#[trigger] s[i]).stamp_ns < stamp_ns by {
            assert(front[i] == s[i]);
        }
        assert forall|i: int| lo <= i < front.len() implies (#[trigger] s[i]).stamp_ns
            >= stamp_ns by {
            assert(front[i] == s[i]);
        }
        if lo < front.len() {
            assert(s[lo].stamp_ns < s[s.len() - 1].stamp_ns);
            lo
        } else if s.last().stamp_ns < stamp_ns {
            s.len() as int
        } else {
            lo
        }
    }
}

proof fn lemma_marks_from(marks: Seq<u64>, stamp_ns: u64, mark: u64)
    requires
        marks.contains(mark),
        mark >= stamp_ns,
    ensures
        marks_from(marks, stamp_ns).contains(mark),
{
    let i = choose|i: int| 0 <= i < marks.len() && marks[i] == mark;
    marks.lemma_filter_contains(|m: u64| m >= stamp_ns, i);
}

/// A step keeps the stamps in order, and keeps a mark unless the buffer outlives it. What has been
/// outlived stays so.
proof fn lemma_step_keeps_mark(before: ImuBufferModel, step: BufferStep, mark: u64)
    requires
        strictly_stamped(before.samples),
        before.capacity >= 1,
        step matches BufferStep::Prune { stamp_ns } ==> stamp_ns <= mark,
    ensures
        ({
            let after = match step {
                BufferStep::Push { batch, dropped_cumulative } => before.pushed(
                    batch,
                    dropped_cumulative,
                ),
                BufferStep::Prune { stamp_ns } => before.pruned(stamp_ns),
            };
            &&& strictly_stamped(after.samples)
            &&& after.capacity == before.capacity
            &&& before.has_outlived(mark) ==> after.has_outlived(mark)
            &&& before.drop_marks.contains(mark) ==> after.drop_marks.contains(mark)
                || after.has_outlived(mark)
        }),
{
    match step {
        BufferStep::Push { batch, dropped_cumulative } => {
            let kept = advancing(last_stamp(before.samples), batch);
            let all = before.samples + kept;
            let after = before.pushed(batch, dropped_cumulative);
            lemma_advancing(last_stamp(before.samples), batch);
            lemma_appended_stays_stamped(before.samples, kept);
            if before.samples.len() > 0 {
                assert(all[0] == before.samples[0]);
                let gone = all.len() - after.samples.len();
                assert(after.samples[0] == all[gone]);
                if gone > 0 {
                    assert(all[0].stamp_ns < all[gone].stamp_ns);
                }
            }
            let marks = before.marks_after(batch, dropped_cumulative);
            if before.drop_marks.contains(mark) {
                let i = choose|i: int| 0 <= i < before.drop_marks.len() && before.drop_marks[i] == mark;
                assert(marks[i] == mark);
                if after.samples.len() > 0 && mark >= after.samples[0].stamp_ns {
                    lemma_marks_from(marks, after.samples[0].stamp_ns, mark);
                }
            }
        },
        BufferStep::Prune { stamp_ns } => {
            let lo = lemma_leading(before.samples, stamp_ns);
            lemma_from_is_suffix(before.samples, stamp_ns, lo);
            if before.has_outlived(mark) {
                assert(lo == 0);
            }
            if before.drop_marks.contains(mark) {
                lemma_marks_from(before.drop_marks, stamp_ns, mark);
            }
        },
    }
}

proof fn lemma_mark_lasts(buffer: ImuBufferModel, mark: u64, steps: Seq<BufferStep>)
    requires
        strictly_stamped(buffer.samples),
        buffer.capacity >= 1,
        buffer.drop_marks.contains(mark),
        forall|i: int|
            0 <= i < steps.len() ==> (#[trigger] steps[i] matches BufferStep::Prune { stamp_ns }
                ==> stamp_ns <= mark),
    ensures
        strictly_stamped(buffer.after(steps).samples),
        buffer.after(steps).capacity == buffer.capacity,
        buffer.after(steps).drop_marks.contains(mark) || buffer.after(steps).has_outlived(mark),
    decreases steps.len(),
{
    if steps.len() > 0 {
        let front = steps.drop_last();
        assert forall|i: int| 0 <= i < front.len() implies (#[trigger] front[i] matches BufferStep::Prune {
            stamp_ns,
        } ==> stamp_ns <= mark) by {
            assert(front[i] == steps[i]);
        }
        lemma_mark_lasts(buffer, mark, front);
        assert(steps.last() == steps[steps.len() - 1]);
        lemma_step_keeps_mark(buffer.after(front), steps.last(), mark);
    }
}

/// A drop mark lasts: after any pushes, and any prunings that do not reach it, every interval that
/// contains it is still refused for the drop, until every held sample is newer than the mark.
pub proof fn a_drop_mark_lasts_until_it_is_outlived(
    buffer: ImuBufferModel,
    mark: u64,
    steps: Seq<BufferStep>,
    t0: u64,
    t1: u64,
    gates: ImuGates,
    coverage_count: usize,
)
    requires
        buffer.wf(),
        buffer.drop_marks.contains(mark),
        forall|i: int|
            0 <= i < steps.len() ==> (#[trigger] steps[i] matches BufferStep::Prune { stamp_ns }
                ==> stamp_ns <= mark),
        !buffer.after(steps).has_outlived(mark),
        t0 < t1,
        t0 <= mark <= t1,
    ensures
        buffer.after(steps).drop_marks.contains(mark),
        buffer.after(steps).window(t0, t1, gates, coverage_count) matches Err(
            ImuWindowError::DroppedSamples { at, t0: a, t1: b },
        ) && t0 <= at <= t1 && a == t0 && b == t1,
{
    lemma_mark_lasts(buffer, mark, steps);
    let marks = buffer.after(steps).drop_marks;
    let i = choose|i: int| 0 <= i < marks.len() && marks[i] == mark;
    a_marked_drop_refuses_its_interval(buffer.after(steps), i, t0, t1, gates, coverage_count);
}

/// A drop count that grew is counted once and marked: at the first stamp of the batch it came
/// with, or, if that was empty, at the next stamp accepted, however many batches later. A count
/// that did not grow, and the first one, are not counted. The only way not to hold the mark is to
/// have outlived it already.
pub proof fn a_reported_drop_is_counted_and_marked(
    buffer: ImuBufferModel,
    batch: Seq<RawImuSample>,
    dropped_cumulative: u64,
)
    requires
        buffer.wf(),
        buffer.has_room_for(batch, dropped_cumulative),
    ensures
        ({
            let after = buffer.pushed(batch, dropped_cumulative);
            let grew = buffer.baseline matches Some(p) && dropped_cumulative > p;
            let kept = advancing(last_stamp(buffer.samples), batch);
            &&& after.baseline == Some(dropped_cumulative)
            &&& after.stats.drop_reports == buffer.stats.drop_reports + if grew {
                1int
            } else {
                0int
            }
            &&& grew && batch.len() > 0 ==> after.drop_marks.contains(batch[0].stamp_ns)
                || after.has_outlived(batch[0].stamp_ns)
            &&& grew && batch.len() == 0 ==> after.pending_drop_mark
            &&& buffer.pending_drop_mark && kept.len() == 0 ==> after.pending_drop_mark
            &&& buffer.pending_drop_mark && kept.len() > 0 ==> !after.pending_drop_mark && (
            after.drop_marks.contains(kept[0].stamp_ns) || after.has_outlived(kept[0].stamp_ns))
        }),
        forall|stamp_ns: u64| (#[trigger] buffer.pruned(stamp_ns)).pending_drop_mark
            == buffer.pending_drop_mark,
{
    let after = buffer.pushed(batch, dropped_cumulative);
    let kept = advancing(last_stamp(buffer.samples), batch);
    let marks = buffer.marks_after(batch, dropped_cumulative);
    lemma_advancing(last_stamp(buffer.samples), batch);
    if buffer.reports_drop(dropped_cumulative) && batch.len() > 0 {
        assert(marks[buffer.drop_marks.len() as int] == batch[0].stamp_ns);
        if after.samples.len() > 0 && batch[0].stamp_ns >= after.samples[0].stamp_ns {
            lemma_marks_from(marks, after.samples[0].stamp_ns, batch[0].stamp_ns);
        }
    }
    if buffer.pending_drop_mark && kept.len() > 0 {
        assert(marks.last() == kept[0].stamp_ns);
        if after.samples.len() > 0 && kept[0].stamp_ns >= after.samples[0].stamp_ns {
            lemma_marks_from(marks, after.samples[0].stamp_ns, kept[0].stamp_ns);
        }
    }
}

/// An interval that contains the stamp a drop was marked at is refused for it, for as long as the
/// mark is held.
pub proof fn a_marked_drop_refuses_its_interval(
    buffer: ImuBufferModel,
    mark: int,
    t0: u64,
    t1: u64,
    gates: ImuGates,
    coverage_count: usize,
)
    requires
        0 <= mark < buffer.drop_marks.len(),
        t0 <= buffer.drop_marks[mark] <= t1,
    ensures
        buffer.window(t0, t1, gates, coverage_count) is Err,
        t0 < t1 ==> (buffer.window(t0, t1, gates, coverage_count) matches Err(
            ImuWindowError::DroppedSamples { at, t0: a, t1: b },
        ) && t0 <= at <= t1 && a == t0 && b == t1),
{
    lemma_first_mark_is_within(buffer.drop_marks, t0, t1);
    if first_mark_within(buffer.drop_marks, t0, t1) is None {
        lemma_no_mark_within(buffer.drop_marks, t0, t1);
    }
}

/// A ring without samples answers no request.
pub proof fn an_empty_ring_answers_nothing(
    buffer: ImuBufferModel,
    t0: u64,
    t1: u64,
    gates: ImuGates,
    coverage_count: usize,
)
    requires
        buffer.samples.len() == 0,
    ensures
        buffer.window(t0, t1, gates, coverage_count) is Err,
{
    lemma_within_is_range(buffer.samples, t0, t1, 0, 0);
}

} // verus!
