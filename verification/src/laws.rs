//! What holds of the tracker and the task across their operations.
use crate::frame::FrameArrays;
use crate::geometry::RigidPose;
use crate::ieee::Double;
use crate::imu::{ImuWindowError, RawImuSample};
use crate::imu_channel::{ImuQueueModel, CAPACITY};
use crate::inertial::InertialStats;
use crate::payload::{StereoPair, Tov};
use crate::state::{initial_gravity, InitStage, SystemMode, SystemState, TrackingStatus};
use crate::stereo_vio::{RigNumbers, VioModel};
use crate::track::{
    with_refusal, InitStep, SolvedInit, TrackerModel, REFINE_1_AFTER_BITS, REFINE_2_AFTER_BITS,
    REFINE_UNTIL_BITS,
};
use vstd::prelude::*;

verus! {

/// A reset starts exactly one new world: the generation moves by one, the tracker bootstraps from
/// the origin, and neither a pending drop of the map nor a newest keyframe is left over. Frame
/// numbers and the time base go on.
pub proof fn a_reset_starts_one_new_world(m: TrackerModel, keep_calibration: bool)
    requires
        m.world_generation < u64::MAX,
    ensures
        ({
            let n = m.reset(keep_calibration);
            &&& n.world_generation == m.world_generation + 1
            &&& n.state == SystemState::fresh()
            &&& !n.pending_map_reset
            &&& n.edge_start() is None
            &&& n.next_frame_idx == m.next_frame_idx
            &&& n.epoch_ns == m.epoch_ns
            &&& n.config == m.config
        }),
{
}

/// A reset that was asked for leaves nothing of the old world: the tracker bootstraps at the origin
/// with its frame count at zero, an armed drop of the map is cancelled, so that the next frame
/// starts no second world, and the ring is empty with the configured bias. What was counted over
/// the lifetime stays, and frame numbers go on, so that they stay unique.
pub proof fn a_reset_leaves_nothing_of_the_old_world(
    m: TrackerModel,
    frame: FrameArrays,
    stamp_ns: u64,
)
    requires
        m.world_generation < u64::MAX,
    ensures
        ({
            let n = m.reset(false);
            let next = n.admitted(frame, stamp_ns);
            &&& n.state.mode == SystemMode::Bootstrap
            &&& n.state.pose_world_to_cam == RigidPose::identity_spec()
            &&& n.stats.frames == 0
            &&& n.world_generation == m.world_generation + 1
            &&& !n.pending_map_reset
            &&& next.world_generation == n.world_generation
            &&& n.next_frame_idx == m.next_frame_idx
            &&& m.inertial matches Some(i) ==> {
                let j = n.inertial->0;
                &&& n.inertial is Some
                &&& j.buffer.samples.len() == 0
                &&& j.buffer.drop_marks.len() == 0
                &&& j.bias == i.cfg.initial_bias
                &&& j.buffer.stats == i.buffer.stats
                &&& j.stats.factors_added == i.stats.factors_added
                &&& j.stats.refusals() == i.stats.refusals()
                &&& j.stats.init_attempts == i.stats.init_attempts
                &&& j.stats.init_accepted == i.stats.init_accepted
            }
        }),
{
}

/// Looking at the bound on the map arms a drop if one was armed already or this frame inserted a
/// keyframe that reaches the bound, and does nothing else. An armed drop is carried out by the
/// next frame that is admitted, which starts exactly one new world and keeps the bias; the frame
/// after that starts none.
pub proof fn an_armed_drop_is_carried_out_once(
    m: TrackerModel,
    inserted: bool,
    keyframes: usize,
    first: FrameArrays,
    second: FrameArrays,
    first_ns: u64,
    second_ns: u64,
)
    requires
        m.world_generation < u64::MAX,
    ensures
        ({
            let b = m.bounded(inserted, keyframes);
            let next = b.admitted(first, first_ns);
            &&& b.pending_map_reset <==> m.pending_map_reset || (inserted && (
            m.config.max_keyframes matches Some(cap) && keyframes >= cap))
            &&& b == (TrackerModel { pending_map_reset: b.pending_map_reset, ..m })
            &&& !next.pending_map_reset
            &&& next.world_generation == m.world_generation + if b.pending_map_reset {
                1int
            } else {
                0int
            }
            &&& b.pending_map_reset ==> next.state.mode == SystemMode::Bootstrap
            &&& m.inertial is Some ==> next.inertial->0.bias == m.inertial->0.bias
            &&& next.admitted(second, second_ns).world_generation == next.world_generation
        }),
{
}

/// Dropping the map keeps the estimated biases, which belong to the sensor; a reset that was asked
/// for goes back to the configured ones. Gravity, which belongs to the map, is forgotten either way.
pub proof fn only_a_requested_reset_forgets_the_bias(m: TrackerModel)
    requires
        m.inertial is Some,
    ensures
        m.reset(true).inertial->0.bias == m.inertial->0.bias,
        m.reset(false).inertial->0.bias == m.inertial->0.cfg.initial_bias,
        m.reset(true).inertial->0.gravity_world == initial_gravity(),
        m.reset(false).inertial->0.gravity_world == initial_gravity(),
{
}

/// After a reset the ring holds no samples, so no interval of the old world can be integrated in
/// the new one; the initialization window is closed too.
pub proof fn a_reset_forgets_the_samples(
    m: TrackerModel,
    keep_calibration: bool,
    t0: u64,
    t1: u64,
    coverage_count: usize,
)
    requires
        m.inertial is Some,
    ensures
        ({
            let i = m.reset(keep_calibration).inertial->0;
            &&& i.buffer.window(t0, t1, i.cfg.gates, coverage_count) is Err
            &&& i.start_kf_idx is None
        }),
{
    let i = m.reset(keep_calibration).inertial->0;
    assert(i.buffer.samples.len() == 0);
    crate::imu::an_empty_ring_answers_nothing(i.buffer, t0, t1, i.cfg.gates, coverage_count);
}

/// The bound on the map: an insertion that reaches it changes nothing about the frame it happened
/// on, and the next frame starts in exactly one new world, with the biases kept.
pub proof fn a_bounded_map_is_dropped_before_the_next_frame(
    m: TrackerModel,
    keyframes: usize,
    timestamp_sec: Double,
    frame: FrameArrays,
    stamp_ns: u64,
)
    requires
        m.world_generation < u64::MAX,
        m.reaches_bound(true, keyframes),
    ensures
        ({
            let closed = m.concluded(true, keyframes, timestamp_sec);
            let next = closed.admitted(frame, stamp_ns);
            &&& closed.world_generation == m.world_generation
            &&& closed.state.pose_world_to_cam == m.state.pose_world_to_cam
            &&& next.world_generation == m.world_generation + 1
            &&& next.state.mode == SystemMode::Bootstrap
            &&& !next.pending_map_reset
            &&& m.inertial is Some ==> next.inertial->0.bias == m.inertial->0.bias
        }),
{
}

/// Without a bound, and on a frame that inserted nothing, no drop becomes pending.
pub proof fn no_drop_without_a_bound(m: TrackerModel, inserted: bool, keyframes: usize)
    requires
        m.config.max_keyframes is None || !inserted,
    ensures
        m.bounded(inserted, keyframes) == m,
{
}

/// A map too young to be worth waiting for is given up on its first lost frame.
pub proof fn a_young_map_is_given_up_at_once(m: TrackerModel, keyframes: usize, lost_for: Double)
    requires
        !m.map_established(keyframes),
    ensures
        m.gives_up(keyframes, lost_for),
{
}

/// An established map outlasts both the grace period and the relocalizer's patience, whichever is
/// longer.
pub proof fn an_established_map_is_waited_for(m: TrackerModel, keyframes: usize, lost_for: Double)
    requires
        m.map_established(keyframes),
        m.gives_up(keyframes, lost_for),
        !m.config.tracking_loss_recovery.grace_period_sec.nan(),
        m.config.relocalization matches Some(r) ==> !r.patience.nan(),
    ensures
        m.config.tracking_loss_recovery.grace_period_sec.le_spec(lost_for),
        m.config.relocalization matches Some(r) ==> r.patience.le_spec(lost_for),
{
}

/// Giving a map up starts exactly one new world, whether the map is dropped or kept; waiting starts
/// none.
pub proof fn a_lost_frame_starts_at_most_one_new_world(
    m: TrackerModel,
    timestamp_sec: Double,
    lost_for: Double,
    since_log: Double,
    keyframes: usize,
)
    requires
        m.world_generation < u64::MAX,
    ensures
        m.lost(timestamp_sec, lost_for, since_log, keyframes).world_generation
            == m.world_generation + if m.gives_up(keyframes, lost_for) {
            1int
        } else {
            0int
        },
{
}

/// Dropping the map after a loss keeps the estimated biases.
pub proof fn a_dropped_map_keeps_the_bias(
    m: TrackerModel,
    timestamp_sec: Double,
    lost_for: Double,
    since_log: Double,
    keyframes: usize,
)
    requires
        m.inertial is Some,
    ensures
        m.lost(timestamp_sec, lost_for, since_log, keyframes).inertial->0.bias
            == m.inertial->0.bias,
{
}

/// A frame found again in the map ends the loss in the same world, with the same calibration.
pub proof fn relocalization_keeps_the_world(
    m: TrackerModel,
    pose: RigidPose,
    keyframe_idx: usize,
    timestamp_sec: Double,
)
    ensures
        ({
            let n = m.found(pose, keyframe_idx, timestamp_sec);
            &&& n.world_generation == m.world_generation
            &&& n.inertial == m.inertial
            &&& n.state.lost_since_sec is None
            &&& n.state.last_keyframe_idx == m.state.last_keyframe_idx
        }),
{
}

/// The first loss of a world is always reported: a reset leaves no throttle behind.
pub proof fn the_first_loss_of_a_world_is_reported(
    m: TrackerModel,
    keep_calibration: bool,
    since_log: Double,
    established: bool,
    retry: Double,
)
    ensures
        crate::state::log_due(
            m.reset(keep_calibration).last_loss_log,
            since_log,
            established,
            retry,
        ),
        m.reset(keep_calibration).losses_suppressed == 0,
{
}

/// Losses in a kept map are reported at most once per retry interval, and each one that is not is
/// counted towards the next report.
pub proof fn an_unreported_loss_is_counted(
    m: TrackerModel,
    timestamp_sec: Double,
    since_log: Double,
    established: bool,
)
    requires
        m.losses_suppressed < u64::MAX,
    ensures
        ({
            let n = m.loss_noted(timestamp_sec, since_log, established);
            &&& n.losses_suppressed == 0 || n.losses_suppressed == m.losses_suppressed + 1
            &&& n.losses_suppressed == m.losses_suppressed + 1 ==> n.last_loss_log
                == m.last_loss_log && m.last_loss_log is Some
        }),
{
}

/// Opening a new initialization window has its first look reported and its first solve tried at
/// once.
pub proof fn a_new_window_is_looked_at_at_once(
    m: TrackerModel,
    frame_idx: usize,
    timestamp_sec: Double,
    stamp_ns: u64,
    since_attempt: Double,
    since_window: Double,
)
    requires
        m.inertial is Some,
        !m.state.imu_initialized,
    ensures
        ({
            let n = m.bootstrapped(frame_idx, timestamp_sec, stamp_ns);
            &&& n.inertial->0.last_window_log is None
            &&& n.init_step(since_attempt, since_window) == (InitStep::CheckReadiness {
                start_kf_idx: frame_idx,
            })
        }),
{
}

/// An edge runs from the keyframe before: from the bootstrap keyframe to the first inserted one,
/// and from each inserted one to the next.
pub proof fn an_edge_starts_at_the_newest_keyframe(
    m: TrackerModel,
    frame_idx: usize,
    timestamp_sec: Double,
    stamp_ns: u64,
)
    ensures
        m.bootstrapped(frame_idx, timestamp_sec, stamp_ns).edge_start() == Some(
            (frame_idx, stamp_ns),
        ),
        m.committed(frame_idx, timestamp_sec, stamp_ns).edge_start() == Some(
            (frame_idx, stamp_ns),
        ),
{
}

/// Each refused interval is counted once, under one reason.
pub proof fn a_refusal_is_counted_once(stats: InertialStats, error: ImuWindowError)
    requires
        stats.refusals() < u64::MAX,
    ensures
        with_refusal(stats, error).refusals() == stats.refusals() + 1,
        with_refusal(stats, error).factors_added == stats.factors_added,
{
}

/// With the inertial path not allowed to move a pose, an accepted solve moves nothing: neither the
/// pose nor the world nor the bias nor gravity, and no other solve is tried in that window.
pub proof fn a_dry_run_moves_nothing(
    m: TrackerModel,
    solved: SolvedInit,
    now_sec: Double,
    since_attempt: Double,
    since_window: Double,
)
    requires
        m.inertial is Some,
        !m.inertial->0.cfg.enable_inertial_ba,
        !m.state.imu_initialized,
    ensures
        ({
            let n = m.init_concluded(InitStage::Initial, Some(solved), now_sec);
            &&& n.state == m.state
            &&& n.world_generation == m.world_generation
            &&& n.inertial->0.bias == m.inertial->0.bias
            &&& n.inertial->0.gravity_world == m.inertial->0.gravity_world
            &&& n.inertial->0.stats.init_accepted == (m.inertial->0.stats.init_accepted + 1) as u64
            &&& n.init_step(since_attempt, since_window) == InitStep::Idle
        }),
{
}

/// An applied solve starts exactly one new world, turned onto the gravity it found and with the
/// bias it found; the motion model of the old world is dropped.
pub proof fn an_applied_solve_starts_one_new_world(
    m: TrackerModel,
    stage: InitStage,
    solved: SolvedInit,
    now_sec: Double,
)
    requires
        m.inertial is Some,
        m.inertial->0.cfg.enable_inertial_ba,
        m.world_generation < u64::MAX,
    ensures
        ({
            let n = m.init_concluded(stage, Some(solved), now_sec);
            &&& n.world_generation == m.world_generation + 1
            &&& n.state.imu_initialized
            &&& n.state.velocity is None
            &&& n.inertial->0.bias == solved.bias
            &&& n.inertial->0.gravity_world == solved.gravity_world
        }),
{
}

/// A solve that was not accepted moves nothing.
pub proof fn a_rejected_solve_moves_nothing(m: TrackerModel, stage: InitStage, now_sec: Double)
    requires
        m.inertial is Some,
    ensures
        ({
            let n = m.init_concluded(stage, None, now_sec);
            &&& n.state == m.state
            &&& n.world_generation == m.world_generation
            &&& n.inertial->0.bias == m.inertial->0.bias
            &&& n.inertial->0.gravity_world == m.inertial->0.gravity_world
        }),
{
}

/// A keyframe makes at most one attempt to initialize, and only where one is due: none without a
/// window; before initialization none after a solve that was accepted and not applied, none within
/// the retry interval of the last attempt, and none on a window that is not ready; afterwards only
/// the first refinement, strictly between its time and the end of refining, or, once that is done,
/// the second.
pub proof fn an_attempt_is_made_only_when_due(
    m: TrackerModel,
    since_attempt: Double,
    since_window: Double,
    ready: bool,
    now_sec: Double,
    since_log: Double,
)
    requires
        m.inertial is Some,
        m.inertial->0.stats.init_attempts < u64::MAX,
    ensures
        ({
            let i = m.inertial->0;
            let step = m.init_step(since_attempt, since_window);
            let after = match step {
                InitStep::Idle => m,
                InitStep::CheckReadiness { .. } => m.readiness_seen(ready, now_sec, since_log),
                InitStep::Refine { .. } => m.attempted(),
            };
            let made = after.inertial->0.stats.init_attempts - i.stats.init_attempts;
            &&& made == 0 || made == 1
            &&& i.start_kf_idx is None ==> made == 0
            &&& !m.state.imu_initialized && (i.dry_run_accepted || !ready || (
            i.last_init_attempt_sec is Some && since_attempt.lt_spec(i.cfg.init_retry))) ==> made
                == 0
            &&& !m.state.imu_initialized && i.start_kf_idx is Some && !i.dry_run_accepted && ready
                && !(i.last_init_attempt_sec is Some && since_attempt.lt_spec(i.cfg.init_retry))
                ==> made == 1
            &&& m.state.imu_initialized && made == 1 ==> {
                &&& i.window_start_sec is Some
                &&& !(Double { bits: REFINE_UNTIL_BITS }).le_spec(since_window)
                &&& if i.stats.first_refinement_done {
                    !i.stats.second_refinement_done && (Double {
                        bits: REFINE_2_AFTER_BITS,
                    }).lt_spec(since_window)
                } else {
                    (Double { bits: REFINE_1_AFTER_BITS }).lt_spec(since_window)
                }
            }
        }),
{
}

/// A refinement is done with once it was tried, whatever came of it: the same pass is never due
/// again in that window.
pub proof fn a_refinement_is_tried_once(
    m: TrackerModel,
    stage: InitStage,
    solved: Option<SolvedInit>,
    now_sec: Double,
    since_attempt: Double,
    since_window: Double,
)
    requires
        m.inertial is Some,
        stage != InitStage::Initial,
    ensures
        m.init_concluded(stage, solved, now_sec).init_step(since_attempt, since_window) matches
            InitStep::Refine { stage: again, .. } ==> again != stage,
{
}

/// Between keyframes that start a world, the generation only ever moves forward: a consumer that
/// sees it change knows that the world did.
pub proof fn worlds_never_go_back(
    m: TrackerModel,
    frame: FrameArrays,
    status: TrackingStatus,
    stage: InitStage,
    solved: Option<SolvedInit>,
    timestamp_sec: Double,
    lost_for: Double,
    since_log: Double,
    stamp_ns: u64,
    frame_idx: usize,
    keyframes: usize,
    active_points: usize,
    inserted: bool,
    keep_calibration: bool,
)
    requires
        m.world_generation < u64::MAX,
    ensures
        m.reset(keep_calibration).world_generation > m.world_generation,
        m.admitted(frame, stamp_ns).world_generation >= m.world_generation,
        m.bootstrapped(frame_idx, timestamp_sec, stamp_ns).world_generation == m.world_generation,
        m.committed(frame_idx, timestamp_sec, stamp_ns).world_generation == m.world_generation,
        m.concluded(inserted, keyframes, timestamp_sec).world_generation == m.world_generation,
        m.lost(timestamp_sec, lost_for, since_log, keyframes).world_generation
            >= m.world_generation,
        m.inertial is Some ==> m.init_concluded(stage, solved, timestamp_sec).world_generation
            >= m.world_generation,
        m.finished(status, stamp_ns, keyframes, active_points).world_generation
            == m.world_generation,
{
}

/// The live points are those of the map as its keyframes now are: the count a frame is closed with
/// is taken whenever the keyframes or the world have changed since the last one.
pub proof fn a_changed_map_is_recounted(
    m: TrackerModel,
    status: TrackingStatus,
    stamp_ns: u64,
    keyframes: usize,
    active_points: usize,
)
    ensures
        ({
            let n = m.finished(status, stamp_ns, keyframes, active_points);
            &&& n.live_map_points_key == (keyframes, m.world_generation)
            &&& m.live_map_points_key != n.live_map_points_key ==> n.live_map_points
                == active_points
            &&& m.live_map_points_key == n.live_map_points_key ==> n.live_map_points
                == m.live_map_points
        }),
{
}

/// A requested reset is applied once: a second look at the same epoch changes nothing, and each
/// change of the epoch starts exactly one new world.
pub proof fn a_request_is_applied_once(task: VioModel, epoch: u64)
    requires
        task.tracker is Some,
        task.tracker->0.world_generation < u64::MAX,
    ensures
        task.reset_to(epoch).reset_to(epoch) == task.reset_to(epoch),
        task.reset_to(epoch).tracker->0.world_generation == task.tracker->0.world_generation
            + if epoch != task.reset_epoch {
            1int
        } else {
            0int
        },
{
}

/// A frame takes its time from its message: the time given, or the start of a range. One whose
/// message has none is refused for that, and no other is.
pub proof fn a_frame_is_stamped_by_its_message(task: VioModel, tov: Tov, pair: StereoPair)
    ensures
        tov matches Tov::Time(t) ==> tov.stamp_spec() == Some(t),
        tov matches Tov::Range(r) ==> tov.stamp_spec() == Some(r.start),
        tov is Absent <==> task.refusal(tov, pair) is Some && task.refusal(tov, pair)->0 is Untimed,
{
}

/// Once there is a tracker, a frame is refused if and only if it is untimed, invalid, or carries
/// another calibration; a frame that repeats the first calibration is never refused for it.
pub proof fn the_first_calibration_stays_accepted(task: VioModel, tov: Tov, pair: StereoPair)
    requires
        tov.stamp_spec() is Some,
        pair.fault() is None,
        task.tracker is Some ==> pair.calib.matches_spec(task.calib),
    ensures
        task.refusal(tov, pair) is None,
{
}

/// What the feed pushes into the queue of a task with an inertial path reaches the tracker's ring
/// at the next frame, in order and once, with every hole counted; a second frame finds nothing.
pub proof fn pushed_samples_reach_the_tracker(
    task: VioModel,
    queue: ImuQueueModel,
    batch: Seq<RawImuSample>,
    dropped_cumulative: u64,
)
    requires
        task.settings.inertial is Some,
        task.tracker is Some,
        task.tracker->0.inertial is Some,
        queue.armed,
        !queue.aligned,
        queue.samples.len() == 0,
        0 < batch.len() <= CAPACITY,
        dropped_cumulative + queue.evicted <= u64::MAX,
    ensures
        ({
            let filled = queue.pushed(batch, dropped_cumulative, false);
            let fed = task.sampled(filled);
            &&& fed.tracker == Some(
                task.tracker->0.fed(batch, (dropped_cumulative + queue.evicted) as u64),
            )
            &&& task.rejection(filled) is None
            &&& fed.sampled(task.drained(filled)) == fed
        }),
{
    assert(queue.samples + batch =~= batch);
}

/// Samples already in the camera's frame are rejected, and the tracker goes on without them.
pub proof fn aligned_samples_leave_the_tracker_alone(task: VioModel, queue: ImuQueueModel)
    requires
        task.tracker is Some,
        task.offers(queue),
        queue.aligned,
    ensures
        task.rejection(queue) is Some,
        task.sampled(queue).tracker == task.tracker,
        task.sampled(queue).imu_push_warned,
{
}

/// A task without an inertial block never touches the queue.
pub proof fn a_stereo_only_task_leaves_the_queue_alone(task: VioModel, queue: ImuQueueModel)
    requires
        task.settings.inertial is None,
    ensures
        task.drained(queue) == queue,
        task.sampled(queue) == task,
        task.rejection(queue) is None,
{
}

/// A malformed inertial block is refused on every frame: it builds no tracker, and what it noted of
/// the frame does not keep a later frame from being looked at afresh.
pub proof fn a_malformed_block_never_builds_a_tracker(
    task: VioModel,
    first: StereoPair,
    second: StereoPair,
    rig: RigNumbers,
)
    requires
        task.tracker is None,
        task.inertial_config(rig) is Err,
    ensures
        task.built(first, rig).tracker is None,
        task.built(first, rig).built(second, rig) == task.built(second, rig),
{
}

} // verus!
