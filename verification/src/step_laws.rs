//! What the steps of a frame make of the tracker, from its admission to its end.
use crate::frame::{Distortion, FrameArrays};
use crate::geometry::RigidPose;
use crate::ieee::Double;
use crate::run::{Job, Phase, Report, RunModel};
use crate::state::{SystemMode, SystemState, TrackingStatus};
use crate::track::{FrameStart, TrackStatus, TrackerConfig, TrackerModel, TrackerStats};
use vstd::prelude::*;

verus! {

/// An accepted estimate is held as it was reported: its pose as the tracker's pose, its motion as
/// the motion model whatever motion was held before, and its inliers. Nothing else of the tracker
/// changes, and what the map holds is asked for next.
pub proof fn an_accepted_estimate_is_held_as_reported(
    m: TrackerModel,
    run: RunModel,
    pose: RigidPose,
    velocity: RigidPose,
    inliers: usize,
)
    requires
        run.phase is Estimating,
    ensures
        ({
            let next = m.advanced(run, Report::Estimated { pose, velocity, inliers });
            let n = next.tracker;
            &&& n.state.pose_world_to_cam == pose
            &&& n.state.velocity == Some(velocity)
            &&& n.stats.inliers == inliers
            &&& n.state.velocity_world == m.state.velocity_world
            &&& n.state.last_frame_timestamp_sec == m.state.last_frame_timestamp_sec
            &&& n.state.imu_initialized == m.state.imu_initialized
            &&& n.state.current_keyframe_idx == m.state.current_keyframe_idx
            &&& n.state.last_keyframe_idx == m.state.last_keyframe_idx
            &&& n.state.lost_since_sec == m.state.lost_since_sec
            &&& n.state.mode == m.state.mode
            &&& n.stats.frames == m.stats.frames
            &&& n.stats.consecutive_failures == m.stats.consecutive_failures
            &&& n.inertial == m.inertial
            &&& n.world_generation == m.world_generation
            &&& n.pending_map_reset == m.pending_map_reset
            &&& n.last_keyframe_stamp_ns == m.last_keyframe_stamp_ns
            &&& n.config == m.config
            &&& n == (TrackerModel { state: n.state, stats: n.stats, ..m })
            &&& n.state == (SystemState {
                pose_world_to_cam: n.state.pose_world_to_cam,
                velocity: n.state.velocity,
                ..m.state
            })
            &&& n.stats == (TrackerStats { inliers: n.stats.inliers, ..m.stats })
            &&& n == m.estimated(pose, velocity, inliers)
            &&& next.job == Job::CountVisible
            &&& next.run.phase == (Phase::Judging { inliers })
        }),
{
    reveal(TrackerModel::after_estimated);
}

/// The gyroscope's samples are handed on where they cover the time since the last frame: where the
/// ring grants that window with two samples or more, the estimate goes on with exactly those, and
/// no prior is counted as missing; where it is refused or shorter, the estimate goes on without
/// any, and one more is.
pub proof fn a_covered_interval_predicts_the_rotation(
    m: TrackerModel,
    run: RunModel,
    coverage_count: usize,
)
    requires
        run.phase is GyroCoverage,
        m.inertial is Some,
        m.last_frame_stamp_ns is Some,
        m.gyro_prior_unavailable < u64::MAX,
    ensures
        ({
            let next = m.advanced(run, Report::Coverage(coverage_count));
            let n = next.tracker;
            let i = m.inertial->0;
            let window = i.buffer.window(
                m.last_frame_stamp_ns->0,
                run.stamp_ns,
                i.cfg.gates,
                coverage_count,
            );
            let covered = window is Ok && window->Ok_0.len() >= 2;
            &&& next.job == Job::EstimatePose
            &&& next.run.phase is Estimating
            &&& covered ==> m.gyro_samples(run.stamp_ns, coverage_count) == Some(window->Ok_0)
            &&& !covered ==> m.gyro_samples(run.stamp_ns, coverage_count) is None
            &&& n == m.gyro_asked(run.stamp_ns, coverage_count)
            &&& covered ==> next.run.samples == window->Ok_0 && n == m
            &&& !covered ==> next.run.samples.len() == 0 && n.gyro_prior_unavailable
                == m.gyro_prior_unavailable + 1
            &&& n == (TrackerModel { gyro_prior_unavailable: n.gyro_prior_unavailable, ..m })
            &&& n.state == m.state
            &&& n.inertial == m.inertial
            &&& n.stats == m.stats
            &&& n.last_frame_stamp_ns == m.last_frame_stamp_ns
            &&& n.world_generation == m.world_generation
        }),
{
    reveal(TrackerModel::after_coverage);
}

/// Before the second frame of a world, or without an inertial path, no samples are asked for.
pub proof fn a_prior_needs_a_frame_before(
    m: TrackerModel,
    stamp_ns: u64,
    coverage_count: usize,
)
    requires
        m.inertial is None || m.last_frame_stamp_ns is None,
    ensures
        m.gyro_samples(stamp_ns, coverage_count) is None,
        m.gyro_asked(stamp_ns, coverage_count) == m,
{
}

/// How a frame starts: one that bootstraps has its stereo points counted; one that follows another
/// in a tracker with an inertial path has the time between the two looked at first; any other has
/// its pose estimated.
pub proof fn a_frame_starts_with_what_it_needs(
    m: TrackerModel,
    start: FrameStart,
    timestamp_sec: Double,
    stamp_ns: u64,
)
    ensures
        ({
            let first = m.started(start, timestamp_sec, stamp_ns);
            let prior = m.last_frame_stamp_ns is Some && m.inertial is Some;
            &&& first.tracker == m
            &&& start.bootstrap ==> first.job == Job::CountStereo && first.run.phase == (
            Phase::Counting { recovering: false })
            &&& !start.bootstrap && prior ==> first.run.phase is GyroCoverage && first.job == (
            Job::CountCoverage { from_ns: m.last_frame_stamp_ns->0, to_ns: stamp_ns })
            &&& !start.bootstrap && !prior ==> first.job == Job::EstimatePose
                && first.run.phase is Estimating
            &&& first.run.samples.len() == 0
            &&& first.run.neighbours.len() == 0
            &&& first.run.candidates.len() == 0
        }),
{
}

/// An admitted frame is numbered and counted once. The first one of all sets the time base for
/// good. Without a drop of the map pending nothing else changes but what the last frame was seen
/// to hold.
pub proof fn an_admitted_frame_is_counted_once(m: TrackerModel, frame: FrameArrays, stamp_ns: u64)
    requires
        m.next_frame_idx < usize::MAX,
        m.stats.frames < u64::MAX,
        m.world_generation < u64::MAX,
    ensures
        ({
            let n = m.admitted(frame, stamp_ns);
            &&& n.next_frame_idx == m.next_frame_idx + 1
            &&& m.epoch_ns matches Some(e) ==> n.epoch_ns == Some(e)
            &&& m.epoch_ns is None ==> n.epoch_ns == Some(stamp_ns)
            &&& n.stats.keypoints == frame.keypoints_xy@.len() as usize
            &&& n.stats.stereo_matches == frame.stereo_matches() as usize
            &&& n.stats.inliers == 0
            &&& n.state.mode != SystemMode::ImuInit
            &&& m.pending_map_reset ==> n.stats.frames == 1
            &&& !m.pending_map_reset ==> {
                &&& n == (TrackerModel {
                    next_frame_idx: n.next_frame_idx,
                    epoch_ns: n.epoch_ns,
                    state: n.state,
                    stats: n.stats,
                    ..m
                })
                &&& n.state == (SystemState { mode: n.state.mode, ..m.state })
                &&& n.stats == (TrackerStats {
                    frames: n.stats.frames,
                    keypoints: n.stats.keypoints,
                    stereo_matches: n.stats.stereo_matches,
                    inliers: n.stats.inliers,
                    ..m.stats
                })
                &&& n.stats.frames == m.stats.frames + 1
                &&& n.stats.consecutive_failures == m.stats.consecutive_failures
                &&& m.state.mode != SystemMode::ImuInit ==> n.state == m.state
                &&& m.state.mode == SystemMode::ImuInit ==> n.state.mode == SystemMode::Bootstrap
                &&& n.state.pose_world_to_cam == m.state.pose_world_to_cam
                &&& n.state.velocity == m.state.velocity
                &&& n.inertial == m.inertial
                &&& n.world_generation == m.world_generation
                &&& n.last_frame_stamp_ns == m.last_frame_stamp_ns
                &&& n.last_keyframe_stamp_ns == m.last_keyframe_stamp_ns
            }
            &&& n.gyro_prior_unavailable == m.gyro_prior_unavailable
            &&& n.config == m.config
            &&& n.distortion == m.distortion
        }),
{
}

/// A closed frame is remembered by its stamp, its outcome and the stage it left the tracker in;
/// failures in a row are counted, up to the largest count there is, and a success ends them. The
/// pose and everything the map and the inertial path stand for are left alone.
pub proof fn a_closed_frame_is_remembered(
    m: TrackerModel,
    run: RunModel,
    keyframes: usize,
    active_points: usize,
)
    requires
        run.phase is Closing,
    ensures
        ({
            let next = m.advanced(run, Report::Totals { keyframes, active_points });
            let n = next.tracker;
            let status = run.phase->Closing_status;
            &&& n.last_frame_stamp_ns == Some(run.stamp_ns)
            &&& n == (TrackerModel {
                last_frame_stamp_ns: n.last_frame_stamp_ns,
                stats: n.stats,
                live_map_points: n.live_map_points,
                live_map_points_key: n.live_map_points_key,
                ..m
            })
            &&& n.stats == (TrackerStats {
                status: n.stats.status,
                mode: n.stats.mode,
                consecutive_failures: n.stats.consecutive_failures,
                ..m.stats
            })
            &&& n.stats.status == Some(status)
            &&& n.stats.mode == m.state.mode
            &&& status == TrackingStatus::Skipped && m.stats.consecutive_failures < u32::MAX
                ==> n.stats.consecutive_failures == m.stats.consecutive_failures + 1
            &&& status == TrackingStatus::Skipped && m.stats.consecutive_failures == u32::MAX
                ==> n.stats.consecutive_failures == u32::MAX
            &&& status != TrackingStatus::Skipped ==> n.stats.consecutive_failures == 0
            &&& n.stats.frames == m.stats.frames
            &&& n.stats.keypoints == m.stats.keypoints
            &&& n.stats.stereo_matches == m.stats.stereo_matches
            &&& n.stats.inliers == m.stats.inliers
            &&& n.state == m.state
            &&& n.inertial == m.inertial
            &&& n.live_map_points_key == (keyframes, m.world_generation)
            &&& m.live_map_points_key != (keyframes, m.world_generation) ==> n.live_map_points
                == active_points
            &&& m.live_map_points_key == (keyframes, m.world_generation) ==> n.live_map_points
                == m.live_map_points
            &&& n.gyro_prior_unavailable == m.gyro_prior_unavailable
            &&& n.world_generation == m.world_generation
            &&& n.pending_map_reset == m.pending_map_reset
            &&& n.epoch_ns == m.epoch_ns
            &&& n.next_frame_idx == m.next_frame_idx
            &&& n.last_keyframe_stamp_ns == m.last_keyframe_stamp_ns
            &&& next.run.phase is Done
            &&& status == TrackingStatus::Skipped ==> next.job == Job::Done(TrackStatus::Untracked)
            &&& status != TrackingStatus::Skipped ==> {
                &&& next.job is Done
                &&& next.job->Done_0 is Localized
                &&& next.job->Done_0->Localized_0.stamp == run.stamp_ns
                &&& next.job->Done_0->Localized_0.pose_world_to_cam == m.state.pose_world_to_cam
                &&& next.job->Done_0->Localized_0.keyframe == (status
                    == TrackingStatus::KeyframeAccepted)
            }
        }),
{
    reveal(TrackerModel::after_totals);
}

/// A tracker begins at the origin with nothing seen, counted or pending, and with the inertial path
/// of its settings if they have one.
pub proof fn a_tracker_begins_with_nothing_seen(
    distortion: Distortion,
    config: TrackerConfig,
)
    ensures
        ({
            let m = TrackerModel::fresh(distortion, config);
            &&& m.distortion == distortion
            &&& m.config == config
            &&& m.state.mode == SystemMode::Bootstrap
            &&& m.state.velocity is None
            &&& m.state.current_keyframe_idx is None
            &&& m.state.last_keyframe_idx is None
            &&& m.state.lost_since_sec is None
            &&& !m.state.imu_initialized
            &&& m.state.pose_world_to_cam.translation.x.bits == 0
            &&& m.state.pose_world_to_cam.translation.y.bits == 0
            &&& m.state.pose_world_to_cam.translation.z.bits == 0
            &&& m.last_frame_stamp_ns is None
            &&& m.epoch_ns is None
            &&& m.next_frame_idx == 0
            &&& m.world_generation == 0
            &&& m.live_map_points == 0
            &&& !m.pending_map_reset
            &&& m.gyro_prior_unavailable == 0
            &&& m.losses_suppressed == 0
            &&& m.last_loss_log is None
            &&& m.last_keyframe_stamp_ns is None
            &&& m.stats.frames == 0
            &&& m.stats.keypoints == 0
            &&& m.stats.stereo_matches == 0
            &&& m.stats.inliers == 0
            &&& m.stats.consecutive_failures == 0
            &&& m.stats.status is None
            &&& m.stats.mode == SystemMode::Bootstrap
            &&& m.state.velocity_world.x.bits == 0
            &&& m.state.velocity_world.y.bits == 0
            &&& m.state.velocity_world.z.bits == 0
            &&& m.state.last_frame_timestamp_sec.bits == 0
            &&& m.state.imu_init_timestamp_sec is None
            &&& config.inertial is None <==> m.inertial is None
            &&& config.inertial matches Some(cfg) ==> {
                let i = m.inertial->0;
                &&& i.cfg == cfg
                &&& i.bias == cfg.initial_bias
                &&& i.buffer.samples.len() == 0
                &&& i.buffer.drop_marks.len() == 0
                &&& i.buffer.baseline is None
                &&& !i.buffer.pending_drop_mark
                &&& i.buffer.stats.accepted == 0
                &&& i.buffer.stats.out_of_order == 0
                &&& i.buffer.stats.evicted == 0
                &&& i.buffer.stats.drop_reports == 0
                &&& i.buffer.capacity == if cfg.buffer_capacity == 0 {
                    1
                } else {
                    cfg.buffer_capacity as nat
                }
                &&& i.start_kf_idx is None
                &&& i.stats.init_attempts == 0
                &&& i.stats.init_accepted == 0
                &&& i.stats.factors_added == 0
                &&& !i.stats.first_refinement_done
                &&& !i.stats.second_refinement_done
                &&& i.window_start_sec is None
                &&& i.last_window_log is None
                &&& i.stats.refusals() == 0
                &&& !i.dry_run_accepted
                &&& i.last_init_attempt_sec is None
            }
        }),
{
}

/// A reset forgets everything that spoke of the old map: the pose and the motion, the keyframes, the
/// losses and their reports, the counters of the frames, the samples and the initialization. The
/// settings, the numbering, the time base and what the inertial path has counted stay.
pub proof fn a_reset_forgets_the_old_map(m: TrackerModel, keep_calibration: bool)
    requires
        m.world_generation < u64::MAX,
    ensures
        ({
            let n = m.reset(keep_calibration);
            &&& n.world_generation == m.world_generation + 1
            &&& n.state.mode == SystemMode::Bootstrap
            &&& n.state.pose_world_to_cam == RigidPose::identity_spec()
            &&& n.state.velocity is None
            &&& n.state.current_keyframe_idx is None
            &&& n.state.last_keyframe_idx is None
            &&& n.state.lost_since_sec is None
            &&& !n.state.imu_initialized
            &&& n.last_keyframe_stamp_ns is None
            &&& n.last_keyframe_timestamp_sec is None
            &&& n.last_frame_stamp_ns is None
            &&& n.last_loss_log is None
            &&& n.losses_suppressed == 0
            &&& !n.pending_map_reset
            &&& n.stats.frames == 0
            &&& n.stats.consecutive_failures == 0
            &&& n.stats.status is None
            &&& n.config == m.config
            &&& n.distortion == m.distortion
            &&& n.next_frame_idx == m.next_frame_idx
            &&& n.epoch_ns == m.epoch_ns
            &&& n.gyro_prior_unavailable == m.gyro_prior_unavailable
            &&& n.live_map_points == m.live_map_points
            &&& n.live_map_points_key == m.live_map_points_key
            &&& n.inertial is Some <==> m.inertial is Some
            &&& m.inertial matches Some(i) ==> {
                let j = n.inertial->0;
                &&& j.cfg == i.cfg
                &&& j.buffer.samples.len() == 0
                &&& j.buffer.drop_marks.len() == 0
                &&& j.buffer.baseline == i.buffer.baseline
                &&& j.buffer.stats == i.buffer.stats
                &&& keep_calibration ==> j.bias == i.bias
                &&& !keep_calibration ==> j.bias == i.cfg.initial_bias
                &&& j.start_kf_idx is None
                &&& j.window_start_sec is None
                &&& j.last_init_attempt_sec is None
                &&& j.last_window_log is None
                &&& !j.dry_run_accepted
                &&& !j.stats.first_refinement_done
                &&& !j.stats.second_refinement_done
                &&& j.stats.factors_added == i.stats.factors_added
                &&& j.stats.refusals() == i.stats.refusals()
                &&& j.stats.init_attempts == i.stats.init_attempts
                &&& j.stats.init_accepted == i.stats.init_accepted
            }
        }),
{
}

} // verus!
