//! The queue that gets inertial samples to a tracker that runs in the background.
//!
//! The frame edge into such a tracker drops what arrives while a solve is running, and the samples
//! must not be dropped with the frames. So they travel beside it: an inline producer pushes every
//! batch it sees, and the tracker drains the queue on the frame it is given. Until a consumer arms
//! the queue, nothing is kept, so that its evictions mean a consumer that was slow, not one that
//! never was.
use crate::imu::{
    lemma_newest_appended, newest, overflow, push_bounded, RawImuSample, DEFAULT_BUFFER_CAPACITY,
};
use crate::payload::{unpack_sample, unpacked_all, ImuSample};
use std::collections::VecDeque;
use vstd::prelude::*;

verus! {

/// Samples held between drains; the tracker's own ring is sized the same way.
pub const CAPACITY: usize = DEFAULT_BUFFER_CAPACITY;

/// The mathematical content of an [`ImuQueue`].
#[verifier::ext_equal]
pub struct ImuQueueModel {
    /// Whether a consumer exists.
    pub armed: bool,
    /// The samples waiting, oldest first.
    pub samples: Seq<RawImuSample>,
    /// The producer's cumulative drop count, as last reported.
    pub source_dropped: u64,
    /// Samples this queue evicted.
    pub evicted: u64,
    /// Whether a batch since the last clear was in the camera's frame.
    pub aligned: bool,
}

impl ImuQueueModel {
    /// The representation invariant.
    pub open spec fn wf(self) -> bool {
        self.samples.len() <= CAPACITY
    }

    /// The queue after a batch: nothing changes until it is armed.
    pub open spec fn pushed(self, batch: Seq<RawImuSample>, dropped_cumulative: u64, aligned: bool)
        -> ImuQueueModel {
        if !self.armed {
            self
        } else {
            ImuQueueModel {
                samples: newest(self.samples + batch, CAPACITY as nat),
                source_dropped: dropped_cumulative,
                evicted: (self.evicted + overflow(
                    self.samples.len() + batch.len(),
                    CAPACITY as nat,
                )) as u64,
                aligned: self.aligned || aligned,
                ..self
            }
        }
    }

    /// Whether the eviction count has room for what a batch of this size would evict.
    pub open spec fn can_push(self, batch: nat) -> bool {
        self.armed ==> self.evicted + overflow(self.samples.len() + batch, CAPACITY as nat)
            <= u64::MAX
    }

    /// The drop count a consumer is handed: holes in the stream, wherever they were made.
    pub open spec fn dropped(self) -> int {
        self.source_dropped + self.evicted
    }

    /// The queue after a drain.
    pub open spec fn drained(self) -> ImuQueueModel {
        ImuQueueModel { samples: Seq::empty(), ..self }
    }

    /// The queue after a clear.
    pub open spec fn cleared(self) -> ImuQueueModel {
        ImuQueueModel { samples: Seq::empty(), aligned: false, ..self }
    }

    /// The queue after a run of uses.
    pub open spec fn after(self, steps: Seq<QueueStep>) -> ImuQueueModel
        decreases steps.len(),
    {
        if steps.len() == 0 {
            self
        } else {
            let before = self.after(steps.drop_last());
            match steps.last() {
                QueueStep::Push { batch, dropped_cumulative, aligned } => before.pushed(
                    batch,
                    dropped_cumulative,
                    aligned,
                ),
                QueueStep::Drain => before.drained(),
                QueueStep::Clear => before.cleared(),
            }
        }
    }

    /// How many samples drains and clears took out over a run of uses.
    pub open spec fn taken_out(self, steps: Seq<QueueStep>) -> nat
        decreases steps.len(),
    {
        if steps.len() == 0 {
            0
        } else {
            self.taken_out(steps.drop_last()) + match steps.last() {
                QueueStep::Push { .. } => 0,
                _ => self.after(steps.drop_last()).samples.len(),
            }
        }
    }
}

/// One use of a queue that is armed.
pub enum QueueStep {
    /// A batch is pushed.
    Push {
        /// The batch.
        batch: Seq<RawImuSample>,
        /// The producer's cumulative drop count.
        dropped_cumulative: u64,
        /// Whether the batch is in the camera's frame.
        aligned: bool,
    },
    /// The queue is drained.
    Drain,
    /// The queue is cleared.
    Clear,
}

/// What was pushed since the last drain or clear, on top of what was waiting at first.
pub open spec fn pushed_since(waiting: Seq<RawImuSample>, steps: Seq<QueueStep>) -> Seq<
    RawImuSample,
>
    decreases steps.len(),
{
    if steps.len() == 0 {
        waiting
    } else {
        match steps.last() {
            QueueStep::Push { batch, .. } => pushed_since(waiting, steps.drop_last()) + batch,
            _ => Seq::empty(),
        }
    }
}

/// How many samples were pushed in all.
pub open spec fn pushed_in_all(steps: Seq<QueueStep>) -> nat
    decreases steps.len(),
{
    if steps.len() == 0 {
        0
    } else {
        pushed_in_all(steps.drop_last()) + match steps.last() {
            QueueStep::Push { batch, .. } => batch.len(),
            _ => 0,
        }
    }
}

/// The drop count of the last push, or the one from before if there was none.
pub open spec fn last_reported(dropped: u64, steps: Seq<QueueStep>) -> u64
    decreases steps.len(),
{
    if steps.len() == 0 {
        dropped
    } else {
        match steps.last() {
            QueueStep::Push { dropped_cumulative, .. } => dropped_cumulative,
            _ => last_reported(dropped, steps.drop_last()),
        }
    }
}

/// Whether a push since the last clear was in the camera's frame, or one before that left it so.
pub open spec fn aligned_since(aligned: bool, steps: Seq<QueueStep>) -> bool
    decreases steps.len(),
{
    if steps.len() == 0 {
        aligned
    } else {
        match steps.last() {
            QueueStep::Push { aligned: now, .. } => now || aligned_since(
                aligned,
                steps.drop_last(),
            ),
            QueueStep::Drain => aligned_since(aligned, steps.drop_last()),
            QueueStep::Clear => false,
        }
    }
}

/// What a drain hands over.
#[derive(Debug)]
pub struct Drained {
    /// The samples, oldest first.
    pub samples: Vec<RawImuSample>,
    /// The producer's cumulative drop count and the queue's own evictions.
    pub dropped: u64,
    /// Whether a batch was in the camera's frame.
    pub aligned: bool,
}

/// A bounded queue of inertial samples between an inline producer and a consumer in the
/// background.
#[derive(Debug)]
pub struct ImuQueue {
    armed: bool,
    samples: VecDeque<RawImuSample>,
    source_dropped: u64,
    evicted: u64,
    aligned: bool,
}

impl View for ImuQueue {
    type V = ImuQueueModel;

    closed spec fn view(&self) -> ImuQueueModel {
        ImuQueueModel {
            armed: self.armed,
            samples: self.samples@,
            source_dropped: self.source_dropped,
            evicted: self.evicted,
            aligned: self.aligned,
        }
    }
}

impl ImuQueue {
    /// An empty, unarmed queue.
    pub fn new() -> (r: ImuQueue)
        ensures
            r@ == (ImuQueueModel {
                armed: false,
                samples: Seq::empty(),
                source_dropped: 0,
                evicted: 0,
                aligned: false,
            }),
            r@.wf(),
    {
        ImuQueue {
            armed: false,
            samples: VecDeque::new(),
            source_dropped: 0,
            evicted: 0,
            aligned: false,
        }
    }

    /// Declares that a consumer will drain this queue.
    pub fn arm(&mut self)
        ensures
            final(self)@ == (ImuQueueModel { armed: true, ..old(self)@ }),
    {
        self.armed = true;
    }

    /// Whether a consumer has armed the queue.
    pub fn is_armed(&self) -> (r: bool)
        ensures
            r == self@.armed,
    {
        self.armed
    }

    /// Whether the eviction count has room for a batch, so that [`ImuQueue::push`] may take it.
    pub fn has_room_for(&self, batch: usize) -> (r: bool)
        ensures
            r == self@.can_push(batch as nat),
    {
        if !self.armed {
            return true;
        }
        let n: u128 = self.samples.len() as u128 + batch as u128;
        let over: u128 = if n <= CAPACITY as u128 {
            0
        } else {
            n - CAPACITY as u128
        };
        self.evicted as u128 + over <= u64::MAX as u128
    }

    /// Whether the drop counts still add up, so that [`ImuQueue::drain`] may hand them over.
    pub fn can_drain(&self) -> (r: bool)
        ensures
            r == (self@.dropped() <= u64::MAX),
    {
        self.source_dropped.checked_add(self.evicted).is_some()
    }

    /// Hands a batch of samples to whichever tracker drains next, with the producer's cumulative
    /// drop count and whether the samples are already in the camera's frame. Past the capacity the
    /// oldest samples go.
    pub fn push(&mut self, samples: &[ImuSample], dropped_cumulative: u64, aligned: bool)
        requires
            old(self)@.wf(),
            old(self)@.can_push(samples@.len()),
        ensures
            final(self)@ == old(self)@.pushed(unpacked_all(samples@), dropped_cumulative, aligned),
            final(self)@.wf(),
    {
        if !self.armed {
            return;
        }
        let ghost before = self@;
        let ghost batch = unpacked_all(samples@);
        self.source_dropped = dropped_cumulative;
        self.aligned = self.aligned || aligned;
        let mut i: usize = 0;
        proof {
            assert(before.samples + batch.take(0) =~= before.samples);
        }
        while i < samples.len()
            invariant
                i <= samples@.len(),
                before.wf(),
                batch == unpacked_all(samples@),
                before.armed && before.can_push(samples@.len()),
                self.armed,
                self.source_dropped == dropped_cumulative,
                self.aligned == (before.aligned || aligned),
                self.samples@ == newest(before.samples + batch.take(i as int), CAPACITY as nat),
                self.evicted == before.evicted + overflow(
                    before.samples.len() + i as nat,
                    CAPACITY as nat,
                ),
            decreases samples@.len() - i,
        {
            let sample = unpack_sample(&samples[i]);
            let ghost all = before.samples + batch.take(i as int);
            push_bounded(&mut self.samples, sample, CAPACITY, &mut self.evicted);
            proof {
                let all2 = before.samples + batch.take(i + 1);
                assert(all2 =~= all.push(sample));
                if all.len() > CAPACITY {
                    assert(newest(newest(all, CAPACITY as nat).push(sample), CAPACITY as nat)
                        =~= newest(all2, CAPACITY as nat));
                }
            }
            i += 1;
        }
        assert(batch.take(i as int) =~= batch);
    }

    /// Hands over everything the queue holds, emptying it. The drop count stays: it is cumulative.
    pub fn drain(&mut self) -> (r: Drained)
        requires
            old(self)@.dropped() <= u64::MAX,
        ensures
            r.samples@ == old(self)@.samples,
            r.dropped == old(self)@.dropped(),
            r.aligned == old(self)@.aligned,
            final(self)@ == old(self)@.drained(),
    {
        let mut samples: Vec<RawImuSample> = Vec::new();
        let mut i: usize = 0;
        while i < self.samples.len()
            invariant
                i <= self.samples@.len(),
                *self == *old(self),
                samples@ == self.samples@.take(i as int),
            decreases self.samples@.len() - i,
        {
            samples.push(self.samples[i]);
            i += 1;
            assert(samples@ =~= self.samples@.take(i as int));
        }
        assert(self.samples@.take(i as int) =~= self.samples@);
        self.samples.clear();
        Drained { samples, dropped: self.source_dropped + self.evicted, aligned: self.aligned }
    }

    /// Empties the queue and forgets the alignment, for a consumer that wants a clean slate. The
    /// drop counts stay: they are cumulative.
    pub fn clear(&mut self)
        ensures
            final(self)@ == old(self)@.cleared(),
            final(self)@.wf(),
    {
        self.samples.clear();
        self.aligned = false;
    }
}

impl Default for ImuQueue {
    fn default() -> (r: ImuQueue)
        ensures
            r@ == (ImuQueueModel {
                armed: false,
                samples: Seq::empty(),
                source_dropped: 0,
                evicted: 0,
                aligned: false,
            }),
    {
        ImuQueue::new()
    }
}

/// Until a consumer arms it, a queue takes nothing in: the producer of a graph without one is inert.
pub proof fn an_unarmed_queue_takes_nothing_in(
    queue: ImuQueueModel,
    batch: Seq<RawImuSample>,
    dropped_cumulative: u64,
    aligned: bool,
)
    requires
        !queue.armed,
    ensures
        queue.pushed(batch, dropped_cumulative, aligned) == queue,
{
}

/// What is pushed into an armed queue comes out of the next drain, in order and once, as long as it
/// fits; a second drain gives nothing again and the same drop count.
pub proof fn a_push_comes_out_of_the_next_drain(
    queue: ImuQueueModel,
    batch: Seq<RawImuSample>,
    dropped_cumulative: u64,
    aligned: bool,
)
    requires
        queue.armed,
        queue.samples.len() + batch.len() <= CAPACITY,
    ensures
        queue.pushed(batch, dropped_cumulative, aligned).samples == queue.samples + batch,
        queue.pushed(batch, dropped_cumulative, aligned).drained().samples.len() == 0,
        queue.pushed(batch, dropped_cumulative, aligned).drained().dropped() == queue.pushed(
            batch,
            dropped_cumulative,
            aligned,
        ).dropped(),
{
}

/// Past the capacity it is the oldest samples that go, and every one of them is counted as a drop:
/// the newest of what was pushed stays, and the count handed over exceeds the producer's by the
/// number evicted.
pub proof fn an_overflow_evicts_the_oldest_and_counts_it(
    queue: ImuQueueModel,
    batch: Seq<RawImuSample>,
    dropped_cumulative: u64,
    aligned: bool,
)
    requires
        queue.armed,
        queue.can_push(batch.len()),
        queue.samples.len() + batch.len() > CAPACITY,
    ensures
        ({
            let after = queue.pushed(batch, dropped_cumulative, aligned);
            let all = queue.samples + batch;
            &&& after.samples.len() == CAPACITY
            &&& after.samples == all.skip(all.len() - CAPACITY)
            &&& after.dropped() == dropped_cumulative + queue.evicted + (all.len() - CAPACITY)
        }),
{
}

/// Whatever an armed queue was put through, the next drain hands over the newest of the samples
/// pushed since the last drain or clear, in push order and up to the capacity; the drop count of
/// the last push, plus every sample the queue ever evicted, which is every one that came in and
/// was neither taken out nor is held; and whether a push since the last clear was in the camera's
/// frame. The queue is then empty, and drained again it gives the same drop count.
pub proof fn a_drain_hands_over_what_was_pushed_since_the_last(
    queue: ImuQueueModel,
    steps: Seq<QueueStep>,
)
    requires
        queue.wf(),
        queue.armed,
        queue.evicted + queue.samples.len() + pushed_in_all(steps) <= u64::MAX,
    ensures
        ({
            let q = queue.after(steps);
            &&& q.wf() && q.armed
            &&& q.samples == newest(pushed_since(queue.samples, steps), CAPACITY as nat)
            &&& q.source_dropped == last_reported(queue.source_dropped, steps)
            &&& q.evicted + queue.taken_out(steps) + q.samples.len() == queue.evicted
                + queue.samples.len() + pushed_in_all(steps)
            &&& q.dropped() == last_reported(queue.source_dropped, steps) + q.evicted
            &&& q.aligned == aligned_since(queue.aligned, steps)
            &&& q.drained().samples.len() == 0
            &&& q.drained().dropped() == q.dropped()
        }),
    decreases steps.len(),
{
    if steps.len() > 0 {
        let front = steps.drop_last();
        a_drain_hands_over_what_was_pushed_since_the_last(queue, front);
        let before = queue.after(front);
        match steps.last() {
            QueueStep::Push { batch, .. } => {
                lemma_newest_appended(
                    pushed_since(queue.samples, front),
                    batch,
                    CAPACITY as nat,
                );
                lemma_newest_appended(
                    before.samples + batch,
                    Seq::<RawImuSample>::empty(),
                    CAPACITY as nat,
                );
            },
            _ => {},
        }
    }
}

/// Alignment sticks: once a batch was in the camera's frame, no later batch and no drain clears
/// that.
pub proof fn alignment_is_sticky(
    queue: ImuQueueModel,
    batch: Seq<RawImuSample>,
    dropped_cumulative: u64,
    aligned: bool,
)
    requires
        queue.aligned,
    ensures
        queue.pushed(batch, dropped_cumulative, aligned).aligned,
        queue.drained().aligned,
{
}

} // verus!
