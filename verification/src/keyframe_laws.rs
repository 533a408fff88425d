//! When a frame becomes a keyframe, and what that makes of the tracker.
use crate::run::{Job, Phase, Report, RunModel};
use crate::state::{SystemMode, SystemState, TrackingStatus};
use crate::track::{reference_share, BaPlan, NewestKeyframe, TrackerModel};
use vstd::prelude::*;

verus! {

/// The neighbours of a new keyframe are the newest of the map's, newest first: the `i`-th is the
/// `i`-th from the end of the list, there are as many as the limit allows, and no keyframe that is
/// left out was inserted after one that is taken.
pub proof fn neighbours_are_the_newest_keyframes(
    m: TrackerModel,
    run: RunModel,
    points: Option<usize>,
    indices: Vec<usize>,
)
    requires
        run.phase is Judging,
    ensures
        ({
            let keyframes = indices@;
            let taken = m.neighbours(keyframes);
            let limit = m.config.max_covisible_keyframes;
            &&& taken.len() <= limit
            &&& taken.len() <= keyframes.len()
            &&& taken.len() == limit || taken.len() == keyframes.len()
            &&& forall|i: int|
                0 <= i < taken.len() ==> #[trigger] taken[i] == keyframes[keyframes.len() - 1 - i]
            &&& taken.len() > 0 ==> taken[0] == keyframes.last()
            &&& forall|k: int|
                keyframes.len() - taken.len() <= k < keyframes.len() ==> taken.contains(
                    #[trigger] keyframes[k],
                )
            &&& m.inserts(run.idx, run.phase->inliers, points) ==> m.advanced(
                run,
                Report::Reference { points, indices },
            ).run.neighbours == taken
        }),
{
    reveal(TrackerModel::after_reference);
    let keyframes = indices@;
    let taken = m.neighbours(keyframes);
    assert forall|k: int| keyframes.len() - taken.len() <= k < keyframes.len() implies taken.contains(
        #[trigger] keyframes[k],
    ) by {
        assert(taken[keyframes.len() - 1 - k] == keyframes[k]);
    }
}

/// A tracked frame that is due goes on to be a keyframe, with the tracker as it was; one that is
/// not closes as tracked, which ends a run of losses.
pub proof fn a_tracked_frame_ends_a_loss(
    m: TrackerModel,
    run: RunModel,
    points: Option<usize>,
    indices: Vec<usize>,
)
    requires
        run.phase is Judging,
    ensures
        ({
            let next = m.advanced(run, Report::Reference { points, indices });
            let n = next.tracker;
            let due = m.inserts(run.idx, run.phase->inliers, points);
            &&& due ==> n == m && next.job == Job::Associate
            &&& !due ==> {
                &&& next.job == Job::Close
                &&& next.run.phase == (Phase::Closing { status: TrackingStatus::Localized })
                &&& n == (TrackerModel { state: n.state, ..m })
                &&& n.state == (SystemState {
                    lost_since_sec: n.state.lost_since_sec,
                    last_frame_timestamp_sec: n.state.last_frame_timestamp_sec,
                    ..m.state
                })
                &&& n.state.lost_since_sec is None
                &&& n.state.last_frame_timestamp_sec == run.timestamp_sec
                &&& n.state.pose_world_to_cam == m.state.pose_world_to_cam
                &&& n.state.velocity == m.state.velocity
                &&& n.state.current_keyframe_idx == m.state.current_keyframe_idx
                &&& n.state.last_keyframe_idx == m.state.last_keyframe_idx
                &&& n.state.mode == m.state.mode
                &&& n.pending_map_reset == m.pending_map_reset
                &&& n.inertial == m.inertial
                &&& n.stats == m.stats
                &&& n.world_generation == m.world_generation
            }
        }),
{
    reveal(TrackerModel::after_reference);
}

/// When a keyframe is due: never without one to track against; at once where none was inserted;
/// never before the smallest gap, counted in frames since the newest keyframe, and always from the
/// largest on; and between the two where the reference has no points, or where the frame sees at
/// least fifteen and fewer than the policy's share of them.
pub proof fn a_keyframe_is_due_by_its_gap_or_by_what_it_sees(
    m: TrackerModel,
    frame_idx: usize,
    inliers: usize,
    points: Option<usize>,
)
    ensures
        ({
            let policy = m.config.keyframe_policy;
            let due = m.inserts(frame_idx, inliers, points);
            let last = m.state.last_keyframe_idx;
            &&& points is None ==> !due
            &&& points is Some && last is None ==> due
            &&& points is Some && last is Some ==> {
                let gap = if frame_idx < last->0 {
                    0
                } else {
                    frame_idx - last->0
                };
                &&& gap < policy.min_frames_between ==> !due
                &&& policy.min_frames_between <= gap && policy.max_frames_between <= gap ==> due
                &&& policy.min_frames_between <= gap < policy.max_frames_between ==> (due <==> (
                points->0 == 0 || (15 <= inliers < reference_share(
                    policy.ref_ratio.bits,
                    points->0,
                ))))
            }
        }),
{
}

/// A frame bootstraps a map if and only if it has the stereo points for one. It is then the newest
/// keyframe and the one tracked against, at the pose the tracker holds, with no motion model and a
/// new initialization window; one with too few leaves the tracker alone and is skipped.
pub proof fn a_frame_with_enough_stereo_points_makes_a_map(
    m: TrackerModel,
    run: RunModel,
    points: usize,
)
    requires
        run.phase is Counting,
    ensures
        ({
            let next = m.advanced(run, Report::StereoPoints(points));
            let n = next.tracker;
            &&& points < m.config.min_bootstrap_stereo_points ==> n == m && next.job == Job::Close
                && next.run.phase == (Phase::Closing { status: TrackingStatus::Skipped })
            &&& points >= m.config.min_bootstrap_stereo_points ==> {
                &&& next.job == Job::BuildMap
                &&& next.run.phase == (Phase::Building { recovering: run.phase->Counting_recovering })
                &&& n == (TrackerModel {
                    state: n.state,
                    last_keyframe_timestamp_sec: n.last_keyframe_timestamp_sec,
                    last_keyframe_stamp_ns: n.last_keyframe_stamp_ns,
                    inertial: n.inertial,
                    ..m
                })
                &&& n.state == (SystemState {
                    current_keyframe_idx: n.state.current_keyframe_idx,
                    last_keyframe_idx: n.state.last_keyframe_idx,
                    velocity: n.state.velocity,
                    mode: n.state.mode,
                    ..m.state
                })
                &&& n.state.mode == SystemMode::Tracking
                &&& n.state.current_keyframe_idx == Some(run.idx)
                &&& n.state.last_keyframe_idx == Some(run.idx)
                &&& n.state.velocity is None
                &&& n.state.pose_world_to_cam == m.state.pose_world_to_cam
                &&& n.state.velocity_world == m.state.velocity_world
                &&& n.state.lost_since_sec == m.state.lost_since_sec
                &&& n.state.last_frame_timestamp_sec == m.state.last_frame_timestamp_sec
                &&& n.last_keyframe_stamp_ns == Some(run.stamp_ns)
                &&& n.last_keyframe_timestamp_sec == Some(run.timestamp_sec)
                &&& n.world_generation == m.world_generation
                &&& n.stats == m.stats
                &&& m.inertial is None ==> n.inertial is None
                &&& m.inertial matches Some(i) ==> {
                    let j = n.inertial->0;
                    &&& n.inertial is Some
                    &&& j.start_kf_idx == Some(run.idx)
                    &&& j.window_start_sec == Some(run.timestamp_sec)
                    &&& j.last_init_attempt_sec is None
                    &&& j.last_window_log is None
                    &&& !j.dry_run_accepted
                    &&& !j.stats.first_refinement_done
                    &&& !j.stats.second_refinement_done
                    &&& j.bias == i.bias
                    &&& j.gravity_world == i.gravity_world
                    &&& j.cfg == i.cfg
                    &&& j.stats.init_attempts == i.stats.init_attempts
                    &&& j.stats.init_accepted == i.stats.init_accepted
                    &&& j.stats.factors_added == i.stats.factors_added
                    &&& j.stats.refusals() == i.stats.refusals()
                    &&& j.buffer == i.buffer.pruned(run.stamp_ns)
                }
            }
        }),
{
    reveal(TrackerModel::after_stereo_points);
}

/// A map that was built closes the frame: as a keyframe at first, and as skipped after a loss,
/// where its pose is extrapolated.
pub proof fn a_built_map_closes_its_frame(m: TrackerModel, run: RunModel)
    requires
        run.phase is Building,
    ensures
        ({
            let next = m.advanced(run, Report::Finished);
            &&& next.tracker == m
            &&& next.job == Job::Close
            &&& run.phase->Building_recovering ==> next.run.phase == (Phase::Closing {
                status: TrackingStatus::Skipped,
            })
            &&& !run.phase->Building_recovering ==> next.run.phase == (Phase::Closing {
                status: TrackingStatus::KeyframeAccepted,
            })
        }),
{
    reveal(TrackerModel::after_finished);
}

/// An inserted keyframe is the newest one and the one tracked against. Its inertial edge runs from
/// the keyframe that was the newest before it; without an inertial path there is none.
pub proof fn an_inserted_keyframe_is_the_newest(m: TrackerModel, run: RunModel)
    requires
        run.phase is Inserting,
        m.runs(run),
    ensures
        ({
            let next = m.advanced(run, Report::Finished);
            let n = next.tracker;
            &&& n == (TrackerModel {
                state: n.state,
                last_keyframe_timestamp_sec: n.last_keyframe_timestamp_sec,
                last_keyframe_stamp_ns: n.last_keyframe_stamp_ns,
                inertial: n.inertial,
                ..m
            })
            &&& n.state == (SystemState {
                current_keyframe_idx: n.state.current_keyframe_idx,
                last_keyframe_idx: n.state.last_keyframe_idx,
                ..m.state
            })
            &&& n.state.current_keyframe_idx == Some(run.idx)
            &&& n.state.last_keyframe_idx == Some(run.idx)
            &&& n.last_keyframe_stamp_ns == Some(run.stamp_ns)
            &&& n.last_keyframe_timestamp_sec == Some(run.timestamp_sec)
            &&& n.state.pose_world_to_cam == m.state.pose_world_to_cam
            &&& n.state.velocity == m.state.velocity
            &&& n.state.mode == m.state.mode
            &&& n.state.lost_since_sec == m.state.lost_since_sec
            &&& n.world_generation == m.world_generation
            &&& n.stats == m.stats
            &&& m.inertial is None ==> next.job == Job::Fuse && next.run.phase is Fusing
                && n.inertial is None
            &&& m.inertial is Some && m.state.last_keyframe_idx is Some && m.last_keyframe_stamp_ns
                is Some ==> {
                &&& next.job == (Job::CountCoverage {
                    from_ns: m.last_keyframe_stamp_ns->0,
                    to_ns: run.stamp_ns,
                })
                &&& next.run.phase == (Phase::EdgeCoverage {
                    prev_idx: m.state.last_keyframe_idx->0,
                    prev_stamp_ns: m.last_keyframe_stamp_ns->0,
                })
                &&& n.inertial == m.inertial
            }
            &&& m.inertial is Some && (m.state.last_keyframe_idx is None
                || m.last_keyframe_stamp_ns is None) ==> next.job == Job::MeasureInit
                && next.run.phase is TimingInit
        }),
{
    reveal(TrackerModel::after_finished);
}

/// How a map is adjusted: not at all where that is off or there are no more than three keyframes;
/// with the inertial edges, the configured extrinsic and the estimated gravity once the inertial
/// path is initialized and may move a pose; and by the images alone otherwise.
pub proof fn a_map_is_adjusted_once_it_is_anchored(m: TrackerModel, run: RunModel, keyframes: usize)
    requires
        run.phase is Fusing,
    ensures
        ({
            let next = m.advanced(run, Report::Keyframes(keyframes));
            let runs = m.config.enable_local_ba && keyframes > 3;
            let inertial = m.inertial is Some && m.state.imu_initialized
                && m.inertial->0.cfg.enable_inertial_ba;
            &&& next.tracker == m
            &&& next.run.phase == (Phase::Adjusting { adjusted: runs })
            &&& !runs ==> next.job == (Job::Adjust { plan: BaPlan::Skip })
            &&& runs && inertial ==> next.job == (Job::Adjust {
                plan: BaPlan::Inertial {
                    imu_t_bc: m.inertial->0.cfg.imu_t_bc,
                    gravity_world: m.inertial->0.gravity_world,
                },
            })
            &&& runs && !inertial ==> next.job == (Job::Adjust { plan: BaPlan::Visual })
        }),
{
    reveal(TrackerModel::after_keyframes);
}

/// The newest keyframe is read back after an adjustment: its pose where the map was adjusted, and,
/// with an inertial path, its velocity and its bias either way.
pub proof fn the_newest_keyframe_is_read_back(
    m: TrackerModel,
    run: RunModel,
    newest: Option<NewestKeyframe>,
)
    requires
        run.phase is Adjusting,
    ensures
        ({
            let next = m.advanced(run, Report::Adjusted(newest));
            let n = next.tracker;
            &&& next.job == Job::Cull
            &&& next.run.phase is Culling
            &&& newest is None ==> n == m
            &&& newest matches Some(kf) ==> {
                &&& n == (TrackerModel { state: n.state, inertial: n.inertial, ..m })
                &&& n.state == (SystemState {
                    pose_world_to_cam: n.state.pose_world_to_cam,
                    velocity_world: n.state.velocity_world,
                    ..m.state
                })
                &&& run.phase->adjusted ==> n.state.pose_world_to_cam == kf.pose_world_to_cam
                &&& !run.phase->adjusted ==> n.state.pose_world_to_cam
                    == m.state.pose_world_to_cam
                &&& m.inertial is None ==> n.inertial is None && n.state.velocity_world
                    == m.state.velocity_world
                &&& m.inertial is Some ==> n.inertial is Some && n.inertial->0.bias == kf.imu_bias
                    && n.state.velocity_world == kf.velocity_world && n.inertial->0.buffer
                    == m.inertial->0.buffer && n.inertial->0.stats == m.inertial->0.stats
                    && n.inertial->0.gravity_world == m.inertial->0.gravity_world
                &&& n.state.velocity == m.state.velocity
                &&& n.state.mode == m.state.mode
                &&& n.state.lost_since_sec == m.state.lost_since_sec
                &&& n.state.current_keyframe_idx == m.state.current_keyframe_idx
                &&& n.world_generation == m.world_generation
                &&& n.stats == m.stats
            }
        }),
{
    reveal(TrackerModel::after_adjusted);
}

/// A culled map closes its frame as a keyframe, which ends a run of losses; a map that has come to
/// its bound is dropped before the next frame, and one that has not is kept.
pub proof fn a_culled_map_closes_its_frame(m: TrackerModel, run: RunModel, keyframes: usize)
    requires
        run.phase is Culling,
    ensures
        ({
            let next = m.advanced(run, Report::Keyframes(keyframes));
            let n = next.tracker;
            &&& next.job == Job::Close
            &&& next.run.phase == (Phase::Closing { status: TrackingStatus::KeyframeAccepted })
            &&& n == (TrackerModel { state: n.state, pending_map_reset: n.pending_map_reset, ..m })
            &&& n.state == (SystemState {
                lost_since_sec: n.state.lost_since_sec,
                last_frame_timestamp_sec: n.state.last_frame_timestamp_sec,
                ..m.state
            })
            &&& n.state.lost_since_sec is None
            &&& n.state.last_frame_timestamp_sec == run.timestamp_sec
            &&& n.pending_map_reset <==> m.pending_map_reset || (m.config.max_keyframes matches Some(
                cap,
            ) && keyframes >= cap)
            &&& n.state.pose_world_to_cam == m.state.pose_world_to_cam
            &&& n.state.velocity == m.state.velocity
            &&& n.state.current_keyframe_idx == m.state.current_keyframe_idx
            &&& n.inertial == m.inertial
            &&& n.stats == m.stats
            &&& n.world_generation == m.world_generation
        }),
{
    reveal(TrackerModel::after_keyframes);
}

/// A keyframe that was associated is given its close stereo points, down to the configured depth,
/// where one is configured and the frame has any; then it grows from its neighbours one after the
/// other, from the first to the last; then it is inserted. The tracker stays as it was.
pub proof fn a_keyframe_grows_from_its_neighbours_in_turn(
    m: TrackerModel,
    run: RunModel,
    stereo: bool,
)
    requires
        run.neighbours.len() <= usize::MAX,
    ensures
        run.phase is Associating ==> {
            let next = m.advanced(run, Report::Associated { stereo });
            let dense = stereo && m.config.stereo_close_depth is Some;
            &&& next.tracker == m
            &&& next.run.neighbours == run.neighbours
            &&& dense ==> next.run.phase is Densifying && next.job == (Job::Densify {
                limit: m.config.stereo_close_depth->0,
            })
            &&& !dense && run.neighbours.len() > 0 ==> next.run.phase == (Phase::Growing { at: 0 })
                && next.job == (Job::Grow { neighbour: run.neighbours[0] })
            &&& !dense && run.neighbours.len() == 0 ==> next.run.phase is Inserting && next.job
                == Job::Insert
        },
        run.phase is Densifying ==> {
            let next = m.advanced(run, Report::Finished);
            &&& next.tracker == m
            &&& run.neighbours.len() > 0 ==> next.run.phase == (Phase::Growing { at: 0 })
                && next.job == (Job::Grow { neighbour: run.neighbours[0] })
            &&& run.neighbours.len() == 0 ==> next.job == Job::Insert
        },
        run.phase is Growing && run.phase->at < run.neighbours.len() ==> {
            let next = m.advanced(run, Report::Finished);
            let then = run.phase->at + 1;
            &&& next.tracker == m
            &&& next.run.neighbours == run.neighbours
            &&& then < run.neighbours.len() ==> next.run.phase == (Phase::Growing {
                at: then as usize,
            }) && next.job == (Job::Grow { neighbour: run.neighbours[then] })
            &&& then >= run.neighbours.len() ==> next.run.phase is Inserting && next.job
                == Job::Insert
        },
{
    reveal(TrackerModel::after_associated);
    reveal(TrackerModel::after_finished);
}

} // verus!
