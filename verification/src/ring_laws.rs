//! Which samples a ring and a queue keep, hand out and forget.
use crate::ieee::Double;
use crate::imu::{
    advancing, first_mark_within, first_wide_gap, newest, samples_within, ImuBufferModel, ImuGates,
    ImuWindowError, RawImuSample,
};
use crate::imu_channel::{ImuQueueModel, CAPACITY};
use crate::order::{is_stable_order, ordering, total_keys_spec};
use crate::stats::{has_rank, TimingModel};
use crate::track_inertial::window_upto;
use vstd::prelude::*;

verus! {

/// The newest elements are the last ones: the `i`-th from the end is the `i`-th from the end, and
/// there are as many as asked for, or all.
pub proof fn the_newest_are_the_last<T>(s: Seq<T>, n: nat)
    ensures
        newest(s, n).len() <= n,
        newest(s, n).len() <= s.len(),
        newest(s, n).len() == n || newest(s, n).len() == s.len(),
        forall|i: int|
            0 <= i < newest(s, n).len() ==> #[trigger] newest(s, n)[i] == s[s.len() - newest(
                s,
                n,
            ).len() + i],
{
}

/// The newest stamp that was taken in is the highest of the batch, and nothing is taken in only where
/// no stamp of the batch is past the last one held.
pub proof fn the_newest_stamp_is_the_highest(last: Option<u64>, batch: Seq<RawImuSample>, j: int)
    requires
        0 <= j < batch.len(),
    ensures
        ({
            let kept = advancing(last, batch);
            &&& kept.len() > 0 ==> batch[j].stamp_ns <= kept.last().stamp_ns
            &&& kept.len() == 0 ==> (last matches Some(l) && batch[j].stamp_ns <= l)
        }),
    decreases batch.len(),
{
    let front = batch.drop_last();
    if j < front.len() {
        the_newest_stamp_is_the_highest(last, front, j);
    }
}

/// A sample is taken in where its stamp is past the last one held and past every stamp of its batch
/// before it.
pub proof fn a_sample_with_the_highest_stamp_is_taken_in(
    last: Option<u64>,
    batch: Seq<RawImuSample>,
    i: int,
)
    requires
        0 <= i < batch.len(),
        last matches Some(l) ==> batch[i].stamp_ns > l,
        forall|j: int| 0 <= j < i ==> (#[trigger] batch[j]).stamp_ns < batch[i].stamp_ns,
    ensures
        advancing(last, batch).contains(batch[i]),
    decreases batch.len(),
{
    let front = batch.drop_last();
    let kept = advancing(last, front);
    let r = advancing(last, batch);
    if i < front.len() {
        assert forall|j: int| 0 <= j < i implies (#[trigger] front[j]).stamp_ns
            < front[i].stamp_ns by {
            assert(batch[j].stamp_ns < batch[i].stamp_ns);
        }
        a_sample_with_the_highest_stamp_is_taken_in(last, front, i);
        let k = choose|k: int| 0 <= k < kept.len() && #[trigger] kept[k] == front[i];
        assert(r[k] == batch[i]);
    } else {
        if kept.len() > 0 {
            a_sample_taken_in_had_the_highest_stamp(last, front, kept.len() - 1);
            let j = choose|j: int|
                0 <= j < front.len() && #[trigger] front[j] == kept[kept.len() - 1];
            assert(batch[j].stamp_ns < batch[i].stamp_ns);
        }
        assert(r[kept.len() as int] == batch[i]);
    }
}

/// A sample that was taken in is one of its batch, past the last one held.
pub proof fn a_sample_taken_in_had_the_highest_stamp(
    last: Option<u64>,
    batch: Seq<RawImuSample>,
    k: int,
)
    requires
        0 <= k < advancing(last, batch).len(),
    ensures
        batch.contains(advancing(last, batch)[k]),
        last matches Some(l) ==> advancing(last, batch)[k].stamp_ns > l,
        exists|j: int|
            0 <= j < batch.len() && #[trigger] batch[j] == advancing(last, batch)[k] && (forall|
                i: int,
            |
                0 <= i < j ==> (#[trigger] batch[i]).stamp_ns < batch[j].stamp_ns),
    decreases batch.len(),
{
    if batch.len() > 0 {
        let front = batch.drop_last();
        let kept = advancing(last, front);
        let x = advancing(last, batch)[k];
        crate::imu::lemma_advancing(last, batch);
        if k < kept.len() {
            a_sample_taken_in_had_the_highest_stamp(last, front, k);
            let j = choose|j: int|
                0 <= j < front.len() && #[trigger] front[j] == kept[k] && (forall|i: int|
                    0 <= i < j ==> (#[trigger] front[i]).stamp_ns < front[j].stamp_ns);
            assert(batch[j] == x);
            assert forall|i: int| 0 <= i < j implies (#[trigger] batch[i]).stamp_ns
                < batch[j].stamp_ns by {
                assert(front[i].stamp_ns < front[j].stamp_ns);
            }
        } else {
            let j = batch.len() - 1;
            assert(batch[j] == x);
            assert forall|i: int| 0 <= i < j implies (#[trigger] batch[i]).stamp_ns
                < batch[j].stamp_ns by {
                the_newest_stamp_is_the_highest(last, front, i);
                assert(front[i] == batch[i]);
            }
        }
    }
}

proof fn lemma_filtered_from<A>(s: Seq<A>, keep: spec_fn(A) -> bool, i: int)
    requires
        0 <= i < s.filter(keep).len(),
    ensures
        s.contains(s.filter(keep)[i]),
        keep(s.filter(keep)[i]),
    decreases s.len(),
{
    reveal(Seq::filter);
    if s.len() > 0 {
        let front = s.drop_last();
        if i < front.filter(keep).len() {
            lemma_filtered_from(front, keep, i);
            let k = choose|k: int|
                0 <= k < front.len() && #[trigger] front[k] == front.filter(keep)[i];
            assert(s[k] == s.filter(keep)[i]);
        } else {
            assert(s[s.len() - 1] == s.filter(keep)[i]);
        }
    }
}

/// Pruning forgets what is stamped before the stamp, samples and drop marks alike, and nothing else:
/// what is stamped at it or later stays, in order, and the counters and the drop baseline do.
pub proof fn pruning_forgets_what_came_before(b: ImuBufferModel, stamp_ns: u64)
    ensures
        ({
            let p = b.pruned(stamp_ns);
            &&& forall|s: RawImuSample| #[trigger]
                p.samples.contains(s) <==> b.samples.contains(s) && s.stamp_ns >= stamp_ns
            &&& forall|m: u64| #[trigger]
                p.drop_marks.contains(m) <==> b.drop_marks.contains(m) && m >= stamp_ns
            &&& p.samples.len() <= b.samples.len()
            &&& p.stats == b.stats
            &&& p.baseline == b.baseline
            &&& p.capacity == b.capacity
            &&& p.pending_drop_mark == b.pending_drop_mark
            &&& (forall|i: int| 0 <= i < b.samples.len() ==> (#[trigger] b.samples[i]).stamp_ns
                >= stamp_ns) ==> p.samples == b.samples
        }),
{
    broadcast use vstd::seq_lib::group_filter_ensures;

    let p = b.pruned(stamp_ns);
    let keep = |s: RawImuSample| s.stamp_ns >= stamp_ns;
    let late = |m: u64| m >= stamp_ns;
    assert(p.samples == b.samples.filter(keep));
    assert(p.drop_marks == b.drop_marks.filter(late));
    assert forall|s: RawImuSample| #[trigger]
        p.samples.contains(s) <==> b.samples.contains(s) && s.stamp_ns >= stamp_ns by {
        if b.samples.contains(s) && s.stamp_ns >= stamp_ns {
            let i = choose|i: int| 0 <= i < b.samples.len() && #[trigger] b.samples[i] == s;
            b.samples.lemma_filter_contains(keep, i);
        }
        if p.samples.contains(s) {
            let i = choose|i: int| 0 <= i < p.samples.len() && #[trigger] p.samples[i] == s;
            lemma_filtered_from(b.samples, keep, i);
        }
    }
    assert forall|m: u64| #[trigger]
        p.drop_marks.contains(m) <==> b.drop_marks.contains(m) && m >= stamp_ns by {
        if b.drop_marks.contains(m) && m >= stamp_ns {
            let i = choose|i: int| 0 <= i < b.drop_marks.len() && #[trigger] b.drop_marks[i] == m;
            b.drop_marks.lemma_filter_contains(late, i);
        }
        if p.drop_marks.contains(m) {
            let i = choose|i: int| 0 <= i < p.drop_marks.len() && #[trigger] p.drop_marks[i] == m;
            lemma_filtered_from(b.drop_marks, late, i);
        }
    }
    if forall|i: int| 0 <= i < b.samples.len() ==> (#[trigger] b.samples[i]).stamp_ns >= stamp_ns {
        lemma_all_kept(b.samples, keep);
    }
}

proof fn lemma_all_kept(s: Seq<RawImuSample>, keep: spec_fn(RawImuSample) -> bool)
    requires
        forall|i: int| 0 <= i < s.len() ==> keep(#[trigger] s[i]),
    ensures
        s.filter(keep) == s,
    decreases s.len(),
{
    reveal(Seq::filter);
    if s.len() > 0 {
        let front = s.drop_last();
        assert forall|i: int| 0 <= i < front.len() implies keep(#[trigger] front[i]) by {
            assert(front[i] == s[i]);
        }
        lemma_all_kept(front, keep);
        assert(keep(s[s.len() - 1]));
        assert(s == front.push(s.last()));
    }
}

/// Clearing forgets samples and drop marks, and keeps the counters and the drop baseline.
pub proof fn clearing_keeps_the_counters(b: ImuBufferModel)
    ensures
        ({
            let c = b.cleared();
            &&& c.samples.len() == 0
            &&& c.drop_marks.len() == 0
            &&& !c.pending_drop_mark
            &&& c.stats == b.stats
            &&& c.baseline == b.baseline
            &&& c.capacity == b.capacity
        }),
{
}

/// A window is granted where its interval is covered: where it has a positive length, no drop was
/// reported inside it, no boundary and no neighbours inside are further apart than the tolerated
/// gap, and there are as many samples inside as both floors ask for.
pub proof fn a_covered_window_is_granted(
    b: ImuBufferModel,
    t0: u64,
    t1: u64,
    gates: ImuGates,
    coverage_count: usize,
)
    requires
        t0 < t1,
        forall|i: int| 0 <= i < b.drop_marks.len() ==> !(t0 <= #[trigger] b.drop_marks[i] <= t1),
        ({
            let w = samples_within(b.samples, t0, t1);
            &&& w.len() > 0
            &&& w[0].stamp_ns - t0 <= gates.max_gap_ns
            &&& t1 - w.last().stamp_ns <= gates.max_gap_ns
            &&& forall|i: int|
                0 <= i && i + 1 < w.len() ==> w[i + 1].stamp_ns - (#[trigger] w[i]).stamp_ns
                    <= gates.max_gap_ns
            &&& w.len() >= coverage_count
            &&& w.len() >= gates.min_samples
        }),
    ensures
        b.window(t0, t1, gates, coverage_count) == Ok::<Seq<RawImuSample>, ImuWindowError>(
            samples_within(b.samples, t0, t1),
        ),
{
    lemma_no_mark(b.drop_marks, t0, t1);
    lemma_no_gap(samples_within(b.samples, t0, t1), gates.max_gap_ns);
}

proof fn lemma_no_mark(marks: Seq<u64>, t0: u64, t1: u64)
    requires
        forall|i: int| 0 <= i < marks.len() ==> !(t0 <= #[trigger] marks[i] <= t1),
    ensures
        first_mark_within(marks, t0, t1) is None,
    decreases marks.len(),
{
    if marks.len() > 0 {
        assert(!(t0 <= marks[0] <= t1));
        let rest = marks.skip(1);
        assert forall|i: int| 0 <= i < rest.len() implies !(t0 <= #[trigger] rest[i] <= t1) by {
            assert(rest[i] == marks[i + 1]);
        }
        lemma_no_mark(rest, t0, t1);
    }
}

proof fn lemma_no_gap(w: Seq<RawImuSample>, limit: u64)
    requires
        forall|i: int|
            0 <= i && i + 1 < w.len() ==> w[i + 1].stamp_ns - (#[trigger] w[i]).stamp_ns <= limit,
    ensures
        first_wide_gap(w, limit) is None,
    decreases w.len(),
{
    if w.len() >= 2 {
        let front = w.drop_last();
        assert forall|i: int| 0 <= i && i + 1 < front.len() implies front[i + 1].stamp_ns - (
        #[trigger] front[i]).stamp_ns <= limit by {
            assert(w[i + 1].stamp_ns - w[i].stamp_ns <= limit);
        }
        lemma_no_gap(front, limit);
        let i = w.len() - 2;
        assert(w[i + 1].stamp_ns - w[i].stamp_ns <= limit);
    }
}

/// A refusal says what is wrong with its interval, with the interval's own numbers: no length, the
/// first drop inside it, no sample inside it, a gap wider than is tolerated, at either end or the
/// first between two samples, or too few samples.
pub proof fn a_refusal_says_what_is_wrong(
    b: ImuBufferModel,
    t0: u64,
    t1: u64,
    gates: ImuGates,
    coverage_count: usize,
)
    requires
        b.samples.len() <= usize::MAX,
    ensures
        ({
            let w = samples_within(b.samples, t0, t1);
            b.window(t0, t1, gates, coverage_count) matches Err(e) ==> match e {
                ImuWindowError::NonPositiveInterval { t0: a, t1: z } => a == t0 && z == t1 && t1
                    <= t0,
                ImuWindowError::DroppedSamples { at, t0: a, t1: z } => a == t0 && z == t1 && t0
                    <= at <= t1 && exists|i: int|
                    0 <= i < b.drop_marks.len() && #[trigger] b.drop_marks[i] == at && (forall|
                        k: int,
                    |
                        0 <= k < i ==> !(t0 <= #[trigger] b.drop_marks[k] <= t1)),
                ImuWindowError::NoSamples { t0: a, t1: z, buffered } => a == t0 && z == t1
                    && w.len() == 0 && buffered == b.samples.len(),
                ImuWindowError::Gap { gap, at, max_gap } => {
                    &&& gap > gates.max_gap_ns && max_gap == gates.max_gap_ns
                    &&& t0 <= at <= t1
                    &&& w.len() > 0
                    &&& {
                        ||| at == t0 && gap == w[0].stamp_ns - t0
                        ||| at == w.last().stamp_ns && gap == t1 - at
                        ||| exists|i: int|
                            0 <= i && i + 1 < w.len() && (#[trigger] w[i]).stamp_ns == at && gap
                                == w[i + 1].stamp_ns - at && (forall|k: int|
                                0 <= k < i ==> w[k + 1].stamp_ns - (#[trigger] w[k]).stamp_ns
                                    <= max_gap)
                    }
                },
                ImuWindowError::TooFewSamples { got, want, span, rate, coverage } => {
                    &&& got == w.len()
                    &&& got < want
                    &&& want == coverage_count || want == gates.min_samples
                    &&& want >= coverage_count && want >= gates.min_samples
                    &&& span == t1 - t0
                    &&& rate == gates.nominal_rate
                    &&& coverage == gates.min_coverage_ratio
                },
            }
        }),
        t1 <= t0 ==> b.window(t0, t1, gates, coverage_count) is Err
            && b.window(t0, t1, gates, coverage_count)->Err_0 is NonPositiveInterval,
{
    let w = samples_within(b.samples, t0, t1);
    lemma_mark_found(b.drop_marks, t0, t1);
    lemma_gap_found(w, gates.max_gap_ns);
    broadcast use vstd::seq_lib::group_filter_ensures;

    let inside = |s: RawImuSample| t0 <= s.stamp_ns <= t1;
    assert(w == b.samples.filter(inside));
    assert forall|i: int| 0 <= i < w.len() implies t0 <= (#[trigger] w[i]).stamp_ns <= t1 by {
        assert(inside(w[i]));
    }
    assert(w.len() <= b.samples.len());
}

proof fn lemma_mark_found(marks: Seq<u64>, t0: u64, t1: u64)
    ensures
        first_mark_within(marks, t0, t1) matches Some(at) ==> t0 <= at <= t1 && exists|i: int|
            0 <= i < marks.len() && #[trigger] marks[i] == at && (forall|k: int|
                0 <= k < i ==> !(t0 <= #[trigger] marks[k] <= t1)),
    decreases marks.len(),
{
    if marks.len() > 0 {
        let rest = marks.skip(1);
        lemma_mark_found(rest, t0, t1);
        if t0 <= marks[0] <= t1 {
            assert(marks[0] == first_mark_within(marks, t0, t1)->0);
        } else if first_mark_within(rest, t0, t1) is Some {
            let at = first_mark_within(rest, t0, t1)->0;
            let i = choose|i: int|
                0 <= i < rest.len() && #[trigger] rest[i] == at && (forall|k: int|
                    0 <= k < i ==> !(t0 <= #[trigger] rest[k] <= t1));
            assert(marks[i + 1] == at);
            assert forall|k: int| 0 <= k < i + 1 implies !(t0 <= #[trigger] marks[k] <= t1) by {
                if k > 0 {
                    assert(rest[k - 1] == marks[k]);
                }
            }
        }
    }
}

proof fn lemma_gap_found(w: Seq<RawImuSample>, limit: u64)
    ensures
        first_wide_gap(w, limit) matches Some(i) ==> 0 <= i && i + 1 < w.len() && w[i + 1].stamp_ns
            - w[i].stamp_ns > limit && (forall|k: int|
            0 <= k < i ==> w[k + 1].stamp_ns - (#[trigger] w[k]).stamp_ns <= limit),
        first_wide_gap(w, limit) is None ==> forall|k: int|
            0 <= k && k + 1 < w.len() ==> w[k + 1].stamp_ns - (#[trigger] w[k]).stamp_ns <= limit,
    decreases w.len(),
{
    if w.len() >= 2 {
        let front = w.drop_last();
        lemma_gap_found(front, limit);
        assert forall|k: int| 0 <= k < front.len() implies #[trigger] w[k] == front[k] by {}
        if first_wide_gap(front, limit) is Some {
            let i = first_wide_gap(front, limit)->0;
            assert(front[i] == w[i] && front[i + 1] == w[i + 1]);
            assert forall|k: int| 0 <= k < i implies w[k + 1].stamp_ns - (
            #[trigger] w[k]).stamp_ns <= limit by {
                assert(front[k] == w[k] && front[k + 1] == w[k + 1]);
            }
        } else {
            assert forall|k: int| 0 <= k && k + 1 < front.len() implies w[k + 1].stamp_ns - (
            #[trigger] w[k]).stamp_ns <= limit by {
                assert(front[k] == w[k] && front[k + 1] == w[k + 1]);
            }
        }
    }
}

/// A push into an armed queue adds the batch after what waits, keeps the newest two thousand and
/// forty-eight, and takes the producer's drop count as it is reported; an unarmed queue stays as it
/// is.
pub proof fn an_armed_queue_keeps_the_newest(
    q: ImuQueueModel,
    batch: Seq<RawImuSample>,
    dropped_cumulative: u64,
    aligned: bool,
)
    requires
        q.can_push(batch.len()),
        q.wf(),
    ensures
        ({
            let n = q.pushed(batch, dropped_cumulative, aligned);
            let all = q.samples + batch;
            &&& !q.armed ==> n == q
            &&& q.armed ==> {
                &&& n.armed
                &&& n.source_dropped == dropped_cumulative
                &&& n.aligned == (q.aligned || aligned)
                &&& n.samples.len() <= 2048
                &&& n.samples.len() == 2048 || n.samples.len() == all.len()
                &&& forall|i: int|
                    0 <= i < n.samples.len() ==> #[trigger] n.samples[i] == all[all.len()
                        - n.samples.len() + i]
                &&& n.evicted + n.samples.len() == q.evicted + q.samples.len() + batch.len()
                &&& n.dropped() == dropped_cumulative + n.evicted
            }
        }),
{
    assert(CAPACITY == 2048);
}

/// A drain takes the samples and nothing else; a clear forgets the frame they came in as well. The
/// drop counts outlast both.
pub proof fn a_drain_takes_the_samples_alone(q: ImuQueueModel)
    ensures
        q.drained().samples.len() == 0,
        q.drained().armed == q.armed,
        q.drained().aligned == q.aligned,
        q.drained().source_dropped == q.source_dropped,
        q.drained().evicted == q.evicted,
        q.cleared().samples.len() == 0,
        !q.cleared().aligned,
        q.cleared().armed == q.armed,
        q.cleared().source_dropped == q.source_dropped,
        q.cleared().evicted == q.evicted,
        q.cleared().dropped() == q.dropped(),
        q.dropped() == q.source_dropped + q.evicted,
{
}

/// The sample of a rank is the one that many samples reach up to: sorted, as many as the rank less
/// one stand before it, none of them larger, and none that stand behind it is smaller.
pub proof fn a_rank_counts_from_the_smallest(samples: Seq<Double>, rank: usize, x: Double)
    requires
        has_rank(samples, rank, x),
        1 <= rank <= samples.len() <= usize::MAX,
    ensures
        ({
            let order = ordering(total_keys_spec(samples));
            &&& order.len() == samples.len()
            &&& x == samples[order[rank - 1] as int]
            &&& forall|i: int|
                0 <= i < rank ==> samples[#[trigger] order[i] as int].total_rank()
                    <= x.total_rank()
            &&& forall|i: int|
                rank <= i < order.len() ==> samples[#[trigger] order[i] as int].total_rank()
                    >= x.total_rank()
        }),
{
    let keys = total_keys_spec(samples);
    let o = choose|o: Seq<usize>| #[trigger]
        is_stable_order(keys, o) && x == samples[o[crate::stats::rank_position(
            rank,
            samples.len(),
        )] as int];
    crate::order::a_stable_order_is_the_ordering(keys, o);
    let order = ordering(keys);
    let p = rank - 1;
    assert(keys[order[p] as int] == x.total_rank() + crate::ieee::SIGN64);
    assert forall|i: int| 0 <= i < rank implies samples[#[trigger] order[i] as int].total_rank()
        <= x.total_rank() by {
        assert(keys[order[i] as int] == samples[order[i] as int].total_rank()
            + crate::ieee::SIGN64);
        if i < p {
            assert(crate::order::before(keys, order[i] as int, order[p] as int));
        }
    }
    assert forall|i: int| rank <= i < order.len() implies samples[#[trigger] order[i] as int].total_rank()
        >= x.total_rank() by {
        assert(keys[order[i] as int] == samples[order[i] as int].total_rank()
            + crate::ieee::SIGN64);
        assert(crate::order::before(keys, order[p] as int, order[i] as int));
    }
}

/// A frame's cost is recorded last among its own kind, and counted there; the other kind is left
/// alone.
pub proof fn a_cost_is_recorded_with_its_kind(t: TimingModel, ms: Double, keyframe: bool)
    requires
        t.tracking_n < u64::MAX,
        t.keyframe_n < u64::MAX,
    ensures
        ({
            let n = t.pushed(ms, keyframe);
            &&& keyframe ==> {
                &&& n.keyframe_n == t.keyframe_n + 1
                &&& n.keyframe.len() > 0
                &&& n.keyframe.last() == ms
                &&& n.tracking == t.tracking
                &&& n.tracking_n == t.tracking_n
                &&& t.keyframe.len() < 100_000 ==> n.keyframe == t.keyframe.push(ms)
            }
            &&& !keyframe ==> {
                &&& n.tracking_n == t.tracking_n + 1
                &&& n.tracking.len() > 0
                &&& n.tracking.last() == ms
                &&& n.keyframe == t.keyframe
                &&& n.keyframe_n == t.keyframe_n
                &&& t.tracking.len() < 100_000 ==> n.tracking == t.tracking.push(ms)
            }
        }),
{
}

/// The initialization window holds the keyframes from its first on: those whose index is no smaller,
/// each once and in order, and all of them.
pub proof fn a_window_holds_the_keyframes_from_its_first_on(
    indices: Seq<usize>,
    start_kf_idx: usize,
    n: int,
)
    requires
        0 <= n <= indices.len() <= usize::MAX,
    ensures
        ({
            let r = window_upto(indices, start_kf_idx, n);
            &&& forall|i: int|
                0 <= i < r.len() ==> (#[trigger] r[i]) < n && indices[r[i] as int] >= start_kf_idx
            &&& forall|i: int, j: int|
                0 <= i < j < r.len() ==> (#[trigger] r[i]) < (#[trigger] r[j])
            &&& forall|k: usize|
                k < n && indices[k as int] >= start_kf_idx ==> #[trigger] r.contains(k)
        }),
    decreases n,
{
    if n > 0 {
        a_window_holds_the_keyframes_from_its_first_on(indices, start_kf_idx, n - 1);
        let rest = window_upto(indices, start_kf_idx, n - 1);
        let r = window_upto(indices, start_kf_idx, n);
        assert forall|k: usize| k < n && indices[k as int] >= start_kf_idx implies #[trigger] r.contains(
            k,
        ) by {
            if k == n - 1 {
                assert(r[rest.len() as int] == k);
            } else {
                assert(rest.contains(k));
                let i = choose|i: int| 0 <= i < rest.len() && #[trigger] rest[i] == k;
                assert(r[i] == k);
            }
        }
    }
}

/// A push takes the reported drop count as the one to compare the next with, and keeps the capacity;
/// the samples that are then held are the newest of those that were held and taken in.
pub proof fn a_push_remembers_the_drop_count(
    b: ImuBufferModel,
    batch: Seq<RawImuSample>,
    dropped_cumulative: u64,
)
    requires
        b.wf(),
        b.has_room_for(batch, dropped_cumulative),
    ensures
        ({
            let n = b.pushed(batch, dropped_cumulative);
            let all = b.samples + advancing(crate::imu::last_stamp(b.samples), batch);
            &&& n.baseline == Some(dropped_cumulative)
            &&& n.capacity == b.capacity
            &&& n.samples.len() <= b.capacity
            &&& n.samples.len() == b.capacity || n.samples.len() == all.len()
            &&& forall|i: int|
                0 <= i < n.samples.len() ==> #[trigger] n.samples[i] == all[all.len()
                    - n.samples.len() + i]
            &&& n.stats.drop_reports == b.stats.drop_reports + if b.baseline is Some
                && dropped_cumulative > b.baseline->0 {
                1int
            } else {
                0int
            }
        }),
{
}

/// No drop is marked that was not reported: a mark after a push was there before it, or stands at the
/// batch's first stamp where the drop count grew with it, or at the first stamp taken in where a
/// reported drop was still waiting for one. Nothing waits that was not reported either.
pub proof fn no_drop_is_marked_that_was_not_reported(
    b: ImuBufferModel,
    batch: Seq<RawImuSample>,
    dropped_cumulative: u64,
    mark: u64,
)
    requires
        b.pushed(batch, dropped_cumulative).drop_marks.contains(mark),
    ensures
        ({
            let grew = b.baseline matches Some(p) && dropped_cumulative > p;
            let kept = advancing(crate::imu::last_stamp(b.samples), batch);
            ||| b.drop_marks.contains(mark)
            ||| grew && batch.len() > 0 && mark == batch[0].stamp_ns
            ||| b.pending_drop_mark && kept.len() > 0 && mark == kept[0].stamp_ns
        }),
{
    let n = b.pushed(batch, dropped_cumulative);
    let marks = b.marks_after(batch, dropped_cumulative);
    crate::imu::lemma_advancing(crate::imu::last_stamp(b.samples), batch);
    let k = choose|k: int| 0 <= k < n.drop_marks.len() && #[trigger] n.drop_marks[k] == mark;
    if n.samples.len() > 0 {
        let first = n.samples[0].stamp_ns;
        lemma_filtered_from(marks, |m: u64| m >= first, k);
    }
    assert(marks.contains(mark));
    let i = choose|i: int| 0 <= i < marks.len() && #[trigger] marks[i] == mark;
    if i < b.drop_marks.len() {
        assert(b.drop_marks[i] == mark);
    }
}

/// A drop waits for a stamp if and only if one was reported, with this push or before it, and no
/// stamp was there to mark it at.
pub proof fn a_drop_waits_only_for_a_stamp(
    b: ImuBufferModel,
    batch: Seq<RawImuSample>,
    dropped_cumulative: u64,
)
    ensures
        ({
            let grew = b.baseline matches Some(p) && dropped_cumulative > p;
            let kept = advancing(crate::imu::last_stamp(b.samples), batch);
            b.pushed(batch, dropped_cumulative).pending_drop_mark <==> kept.len() == 0 && (
            b.pending_drop_mark || (grew && batch.len() == 0))
        }),
{
}

} // verus!
