//! Latency accounting.
//!
//! A frame that inserts a keyframe costs several times one that does not, so the two populations
//! are kept apart and reported as percentiles: a mean over both describes neither.
use crate::ieee::Double;
use crate::imu::{lemma_newest_appended, newest};
use crate::order::{is_stable_order, stable_order, total_keys, total_keys_spec};
use std::collections::VecDeque;
use vstd::prelude::*;

verus! {

/// Cap on retained samples.
pub const MAX_SAMPLES: usize = 100_000;

/// A stream of durations in milliseconds, of which the most recent ones are kept in full.
#[derive(Debug)]
pub struct Durations {
    ms: VecDeque<Double>,
}

impl View for Durations {
    type V = Seq<Double>;

    closed spec fn view(&self) -> Seq<Double> {
        self.ms@
    }
}

/// The position in a list of `len` that a nearest-rank percentile of this rank reads: ranks count
/// from one, and are held inside the list.
pub open spec fn rank_position(rank: usize, len: nat) -> int {
    if rank == 0 {
        0
    } else if rank <= len {
        rank - 1
    } else {
        len - 1
    }
}

/// Whether a sample is the one of a given rank: sorted into the total order, it is the one at the
/// rank's position.
pub open spec fn has_rank(samples: Seq<Double>, rank: usize, x: Double) -> bool {
    exists|order: Seq<usize>| #[trigger]
        is_stable_order(total_keys_spec(samples), order) && x
            == samples[order[rank_position(rank, samples.len())] as int]
}

impl Durations {
    /// The representation invariant.
    pub open spec fn wf(self) -> bool {
        self@.len() <= MAX_SAMPLES
    }

    /// No samples.
    pub fn new() -> (r: Durations)
        ensures
            r@ == Seq::<Double>::empty(),
            r.wf(),
    {
        Durations { ms: VecDeque::with_capacity(MAX_SAMPLES) }
    }

    /// Records one sample, evicting the oldest past the cap.
    pub fn push(&mut self, ms: Double)
        requires
            old(self).wf(),
        ensures
            final(self)@ == newest(old(self)@.push(ms), MAX_SAMPLES as nat),
            final(self).wf(),
    {
        let ghost full = self@.push(ms);
        if self.ms.len() == MAX_SAMPLES {
            self.ms.pop_front();
        }
        self.ms.push_back(ms);
        assert(self@ =~= newest(full, MAX_SAMPLES as nat));
    }

    /// How many samples are kept.
    pub fn len(&self) -> (r: usize)
        ensures
            r == self@.len(),
    {
        self.ms.len()
    }

    /// The sample of a given rank, counted from the smallest, or `None` where there is none. A
    /// percentile that is an observed sample is easier to hold against a deadline than one that is
    /// interpolated.
    pub fn pct(&self, rank: usize) -> (r: Option<Double>)
        ensures
            r is None <==> self@.len() == 0,
            r matches Some(x) ==> has_rank(self@, rank, x),
    {
        let n: usize = self.ms.len();
        if n == 0 {
            return None;
        }
        let mut v: Vec<Double> = Vec::new();
        let mut i: usize = 0;
        while i < n
            invariant
                i <= n,
                n == self.ms@.len(),
                v@ == self.ms@.take(i as int),
            decreases n - i,
        {
            v.push(self.ms[i]);
            i += 1;
            assert(v@ =~= self.ms@.take(i as int));
        }
        assert(v@ =~= self@);
        let keys: Vec<u128> = total_keys(&v);
        let order: Vec<usize> = stable_order(&keys);
        let at: usize = if rank == 0 {
            0
        } else if rank <= n {
            rank - 1
        } else {
            n - 1
        };
        Some(v[order[at]])
    }
}

impl Default for Durations {
    fn default() -> (r: Durations)
        ensures
            r@ == Seq::<Double>::empty(),
            r.wf(),
    {
        Durations::new()
    }
}

/// A percentile is an observed sample.
pub proof fn a_percentile_was_observed(samples: Seq<Double>, rank: usize, x: Double)
    requires
        samples.len() > 0,
        has_rank(samples, rank, x),
    ensures
        samples.contains(x),
{
    let order = choose|order: Seq<usize>| #[trigger]
        is_stable_order(total_keys_spec(samples), order) && x
            == samples[order[rank_position(rank, samples.len())] as int];
    let at = order[rank_position(rank, samples.len())] as int;
    assert(samples[at] == x);
}

/// Percentiles rise with their rank.
pub proof fn percentiles_rise_with_rank(
    samples: Seq<Double>,
    low: usize,
    high: usize,
    x: Double,
    y: Double,
)
    requires
        samples.len() > 0,
        low <= high,
        has_rank(samples, low, x),
        has_rank(samples, high, y),
    ensures
        x.total_rank() <= y.total_rank(),
{
    let keys = total_keys_spec(samples);
    let a = choose|order: Seq<usize>| #[trigger]
        is_stable_order(keys, order) && x == samples[order[rank_position(low, samples.len())] as int];
    let b = choose|order: Seq<usize>| #[trigger]
        is_stable_order(keys, order) && y == samples[order[rank_position(
            high,
            samples.len(),
        )] as int];
    crate::order::stable_order_is_unique(keys, a, b);
    let i = rank_position(low, samples.len());
    let j = rank_position(high, samples.len());
    if i < j {
        assert(crate::order::before(keys, a[i] as int, a[j] as int));
    }
}

/// The sample of the last rank is the largest, the sample of the first rank the smallest.
pub proof fn extreme_ranks_are_the_extremes(samples: Seq<Double>, lowest: Double, highest: Double)
    requires
        0 < samples.len() <= usize::MAX,
        has_rank(samples, 0, lowest),
        has_rank(samples, samples.len() as usize, highest),
    ensures
        forall|i: int|
            0 <= i < samples.len() ==> lowest.total_rank() <= (#[trigger] samples[i]).total_rank()
                <= highest.total_rank(),
{
    let keys = total_keys_spec(samples);
    let n = samples.len() as usize;
    let a = choose|order: Seq<usize>| #[trigger]
        is_stable_order(keys, order) && lowest == samples[order[rank_position(
            0,
            samples.len(),
        )] as int];
    let b = choose|order: Seq<usize>| #[trigger]
        is_stable_order(keys, order) && highest == samples[order[rank_position(
            n,
            samples.len(),
        )] as int];
    crate::order::stable_order_is_unique(keys, a, b);
    assert forall|i: int| 0 <= i < samples.len() implies lowest.total_rank() <= (
    #[trigger] samples[i]).total_rank() <= highest.total_rank() by {
        assert(a.contains(i as usize));
        let p = choose|p: int| 0 <= p < a.len() && #[trigger] a[p] == i;
        if p > 0 {
            assert(crate::order::before(keys, a[0] as int, a[p] as int));
        }
        if p < a.len() - 1 {
            assert(crate::order::before(keys, a[p] as int, a[a.len() - 1] as int));
        }
    }
}

/// The costs of the frames that did, or did not, insert a keyframe, in order.
pub open spec fn of_kind(frames: Seq<(Double, bool)>, keyframe: bool) -> Seq<Double>
    decreases frames.len(),
{
    if frames.len() == 0 {
        Seq::empty()
    } else {
        let rest = of_kind(frames.drop_last(), keyframe);
        if frames.last().1 == keyframe {
            rest.push(frames.last().0)
        } else {
            rest
        }
    }
}

/// The mathematical content of a [`TrackerTiming`].
#[verifier::ext_equal]
pub struct TimingModel {
    /// The newest costs of frames that inserted no keyframe.
    pub tracking: Seq<Double>,
    /// The newest costs of frames that did.
    pub keyframe: Seq<Double>,
    /// How many did not, over the whole run.
    pub tracking_n: u64,
    /// How many did, over the whole run.
    pub keyframe_n: u64,
}

impl TimingModel {
    /// Nothing recorded.
    pub open spec fn empty() -> TimingModel {
        TimingModel {
            tracking: Seq::empty(),
            keyframe: Seq::empty(),
            tracking_n: 0,
            keyframe_n: 0,
        }
    }

    /// With one frame more.
    pub open spec fn pushed(self, ms: Double, keyframe_inserted: bool) -> TimingModel {
        if keyframe_inserted {
            TimingModel {
                keyframe: newest(self.keyframe.push(ms), MAX_SAMPLES as nat),
                keyframe_n: (self.keyframe_n + 1) as u64,
                ..self
            }
        } else {
            TimingModel {
                tracking: newest(self.tracking.push(ms), MAX_SAMPLES as nat),
                tracking_n: (self.tracking_n + 1) as u64,
                ..self
            }
        }
    }

    /// With a run of frames more.
    pub open spec fn after(self, frames: Seq<(Double, bool)>) -> TimingModel
        decreases frames.len(),
    {
        if frames.len() == 0 {
            self
        } else {
            self.after(frames.drop_last()).pushed(frames.last().0, frames.last().1)
        }
    }
}

/// The counts are those of the whole run, however long, while each ring holds the newest costs of
/// its own kind up to the cap and none of the other kind.
pub proof fn counts_outlast_the_rings(frames: Seq<(Double, bool)>)
    requires
        frames.len() <= u64::MAX,
    ensures
        ({
            let t = TimingModel::empty().after(frames);
            &&& t.keyframe_n == of_kind(frames, true).len()
            &&& t.tracking_n == of_kind(frames, false).len()
            &&& t.tracking_n + t.keyframe_n == frames.len()
            &&& t.keyframe == newest(of_kind(frames, true), MAX_SAMPLES as nat)
            &&& t.tracking == newest(of_kind(frames, false), MAX_SAMPLES as nat)
        }),
    decreases frames.len(),
{
    if frames.len() > 0 {
        let front = frames.drop_last();
        counts_outlast_the_rings(front);
        let one = seq![frames.last().0];
        let cap = MAX_SAMPLES as nat;
        let kind = of_kind(front, frames.last().1);
        lemma_newest_appended(kind, one, cap);
        assert(newest(kind, cap).push(frames.last().0) =~= newest(kind, cap) + one);
        assert(kind.push(frames.last().0) =~= kind + one);
    }
}

/// Tracker cost, split by the branch that makes it bimodal.
#[derive(Debug)]
pub struct TrackerTiming {
    /// Frames that did not insert a keyframe.
    pub tracking: Durations,
    /// Frames that did.
    pub keyframe: Durations,
    /// How many did not, over the whole run.
    pub tracking_n: u64,
    /// How many did, over the whole run.
    pub keyframe_n: u64,
}

impl View for TrackerTiming {
    type V = TimingModel;

    open spec fn view(&self) -> TimingModel {
        TimingModel {
            tracking: self.tracking@,
            keyframe: self.keyframe@,
            tracking_n: self.tracking_n,
            keyframe_n: self.keyframe_n,
        }
    }
}

impl TrackerTiming {
    /// The representation invariant.
    pub open spec fn wf(self) -> bool {
        self.tracking.wf() && self.keyframe.wf()
    }

    /// Nothing recorded.
    pub fn new() -> (r: TrackerTiming)
        ensures
            r@ == TimingModel::empty(),
            r.wf(),
    {
        TrackerTiming {
            tracking: Durations::new(),
            keyframe: Durations::new(),
            tracking_n: 0,
            keyframe_n: 0,
        }
    }

    /// Records one frame against the right population. The counts are kept apart from the samples:
    /// the two rings fill at different times, and a ratio of their lengths would drift.
    pub fn push(&mut self, ms: Double, keyframe_inserted: bool)
        requires
            old(self).wf(),
            keyframe_inserted ==> old(self).keyframe_n < u64::MAX,
            !keyframe_inserted ==> old(self).tracking_n < u64::MAX,
        ensures
            final(self).wf(),
            final(self)@ == old(self)@.pushed(ms, keyframe_inserted),
    {
        if keyframe_inserted {
            self.keyframe.push(ms);
            self.keyframe_n += 1;
        } else {
            self.tracking.push(ms);
            self.tracking_n += 1;
        }
    }

    /// Frames that inserted a keyframe, over the whole run.
    pub fn keyframe_frames(&self) -> (r: u64)
        ensures
            r == self.keyframe_n,
    {
        self.keyframe_n
    }

    /// Every frame recorded, over the whole run.
    pub fn total_frames(&self) -> (r: u64)
        requires
            self.tracking_n + self.keyframe_n <= u64::MAX,
        ensures
            r == self.tracking_n + self.keyframe_n,
    {
        self.tracking_n + self.keyframe_n
    }
}

impl Default for TrackerTiming {
    fn default() -> (r: TrackerTiming)
        ensures
            r@ == TimingModel::empty(),
            r.wf(),
    {
        TrackerTiming::new()
    }
}

} // verus!
