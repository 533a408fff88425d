//! How a loss begins, is measured, and ends: in a place found again, or in a map given up.
use crate::frame::FrameArrays;
use crate::geometry::RigidPose;
use crate::ieee::Double;
use crate::run::{Found, Job, Phase, Report, RunModel};
use crate::state::{SystemMode, SystemState, TrackingStatus};
use crate::track::{TrackerModel, TrackerStats};
use vstd::prelude::*;

verus! {

/// A run of losses keeps its beginning: a frame whose estimate is rejected while one is going on
/// leaves it as it is, and one that is rejected otherwise begins one at its own time. The frame
/// coasts at the predicted pose with the motion model kept.
pub proof fn a_run_of_losses_keeps_its_beginning(
    m: TrackerModel,
    run: RunModel,
    candidate: RigidPose,
    keyframes: usize,
)
    requires
        run.phase is Estimating,
    ensures
        ({
            let next = m.advanced(run, Report::Rejected { candidate, keyframes });
            let n = next.tracker;
            &&& m.state.lost_since_sec matches Some(t) ==> n.state.lost_since_sec == Some(t)
            &&& m.state.lost_since_sec is None ==> n.state.lost_since_sec == Some(
                run.timestamp_sec,
            )
            &&& next.job matches Job::MeasureLoss { lost_since_sec } ==> Some(lost_since_sec)
                == n.state.lost_since_sec
            &&& n.state.pose_world_to_cam == candidate
            &&& n.state.velocity == m.state.velocity
            &&& n.stats.inliers == 0
            &&& n.state.mode == m.state.mode
            &&& n.state.current_keyframe_idx == m.state.current_keyframe_idx
            &&& n.state.last_keyframe_idx == m.state.last_keyframe_idx
            &&& n.state.last_frame_timestamp_sec == m.state.last_frame_timestamp_sec
            &&& n.inertial == m.inertial
            &&& n.world_generation == m.world_generation
            &&& n.last_loss_log == m.last_loss_log
            &&& n.losses_suppressed == m.losses_suppressed
            &&& n.config == m.config
            &&& n == (TrackerModel { state: n.state, stats: n.stats, ..m })
            &&& n.state == (SystemState {
                pose_world_to_cam: n.state.pose_world_to_cam,
                lost_since_sec: n.state.lost_since_sec,
                ..m.state
            })
            &&& n.stats == (TrackerStats { inliers: n.stats.inliers, ..m.stats })
            &&& n == m.coasted(candidate).losing(run.timestamp_sec)
            &&& n.state.lost_since_sec == Some(m.lost_since(run.timestamp_sec))
            &&& next.run.keyframes == keyframes
        }),
{
    reveal(TrackerModel::after_rejected);
}

/// A frame that is rejected is looked for in the map if and only if the map has more keyframes than
/// the grace asks for and the tracker relocalizes; otherwise its loss is measured at once.
pub proof fn only_an_established_map_is_searched(
    m: TrackerModel,
    run: RunModel,
    candidate: RigidPose,
    keyframes: usize,
)
    requires
        run.phase is Estimating,
    ensures
        ({
            let next = m.advanced(run, Report::Rejected { candidate, keyframes });
            let worth_it = keyframes > m.config.tracking_loss_recovery.min_keyframes_for_grace
                && m.config.relocalization is Some;
            &&& worth_it ==> next.job == Job::RankKeyframes && next.run.phase is Ranking
            &&& !worth_it ==> next.job is MeasureLoss && next.run.phase is TimingLoss
        }),
{
    reveal(TrackerModel::after_rejected);
}

/// From one frame to the next a run of losses keeps its beginning as well: waiting, closing the
/// frame and admitting the next leave it alone, and a loss is measured from it.
pub proof fn a_loss_is_measured_from_its_beginning(
    m: TrackerModel,
    run: RunModel,
    since: Double,
    lost_for: Double,
    since_log: Double,
    found: Option<Found>,
    squared: Vec<Double>,
    descriptors: usize,
    keyframes: usize,
    active_points: usize,
    frame: FrameArrays,
    stamp_ns: u64,
)
    requires
        m.state.lost_since_sec == Some(since),
    ensures
        run.phase is TimingLoss && !m.gives_up(run.keyframes, lost_for) ==> m.advanced(
            run,
            Report::LossElapsed { lost_for, since_log },
        ).tracker.state.lost_since_sec == Some(since),
        run.phase is Closing ==> m.advanced(
            run,
            Report::Totals { keyframes, active_points },
        ).tracker.state.lost_since_sec == Some(since),
        run.phase is Ranking ==> {
            let next = m.advanced(run, Report::Distances { squared, descriptors });
            &&& next.tracker.state.lost_since_sec == Some(since)
            &&& next.job matches Job::MeasureLoss { lost_since_sec } ==> lost_since_sec == since
        },
        run.phase is Matching && (found is None || found->0.inliers
            < m.config.relocalization->0.min_inliers) ==> {
            let next = m.advanced(run, Report::Matched(found));
            &&& next.tracker.state.lost_since_sec == Some(since)
            &&& next.job matches Job::MeasureLoss { lost_since_sec } ==> lost_since_sec == since
        },
        !m.pending_map_reset ==> m.admitted(frame, stamp_ns).state.lost_since_sec == Some(since),
{
    reveal(TrackerModel::after_loss_elapsed);
    reveal(TrackerModel::after_totals);
    reveal(TrackerModel::after_distances);
    reveal(TrackerModel::after_matched);
}

/// A lost frame, as it is worked through to its end.
pub struct LostFrame {
    /// What it carries.
    pub arrays: FrameArrays,
    /// Its stamp.
    pub stamp_ns: u64,
    /// Its time.
    pub timestamp_sec: Double,
    /// Its predicted pose.
    pub candidate: RigidPose,
    /// Keyframes in the map.
    pub keyframes: usize,
    /// How long the loss has gone on.
    pub lost_for: Double,
    /// Since a loss was last reported.
    pub since_log: Double,
    /// Live points of the map.
    pub active_points: usize,
}

/// The tracker after a lost frame that is waited out, from its admission to its end.
#[verifier::opaque]
pub open spec fn after_lost_frame(m: TrackerModel, f: LostFrame) -> TrackerModel {
    let admitted = m.admitted(f.arrays, f.stamp_ns);
    let run = RunModel {
        idx: m.next_frame_idx,
        stamp_ns: f.stamp_ns,
        timestamp_sec: f.timestamp_sec,
        phase: Phase::Estimating,
        keyframes: 0,
        samples: Seq::empty(),
        neighbours: Seq::empty(),
        candidates: Seq::empty(),
    };
    let missed = admitted.advanced(
        run,
        Report::Rejected { candidate: f.candidate, keyframes: f.keyframes },
    );
    let timed = missed.tracker.advanced(
        RunModel { phase: Phase::TimingLoss, ..missed.run },
        Report::LossElapsed { lost_for: f.lost_for, since_log: f.since_log },
    );
    timed.tracker.advanced(
        RunModel { phase: Phase::Closing { status: TrackingStatus::Skipped }, ..timed.run },
        Report::Totals { keyframes: f.keyframes, active_points: f.active_points },
    ).tracker
}

/// The tracker after a number of lost frames.
pub open spec fn after_lost_frames(m: TrackerModel, frames: Seq<LostFrame>) -> TrackerModel
    decreases frames.len(),
{
    if frames.len() == 0 {
        m
    } else {
        after_lost_frame(after_lost_frames(m, frames.drop_last()), frames.last())
    }
}

/// A lost frame that is waited out begins a run of losses at its own time where none goes on, and
/// keeps one that does; the world and the settings stay.
pub proof fn a_lost_frame_keeps_or_begins_a_loss(m: TrackerModel, f: LostFrame)
    requires
        !m.pending_map_reset,
        !m.gives_up(f.keyframes, f.lost_for),
    ensures
        ({
            let n = after_lost_frame(m, f);
            &&& m.state.lost_since_sec is Some ==> n.state.lost_since_sec
                == m.state.lost_since_sec
            &&& m.state.lost_since_sec is None ==> n.state.lost_since_sec == Some(f.timestamp_sec)
            &&& n.world_generation == m.world_generation
            &&& !n.pending_map_reset
            &&& n.config == m.config
        }),
{
    reveal(after_lost_frame);
    let admitted = m.admitted(f.arrays, f.stamp_ns);
    let run = RunModel {
        idx: m.next_frame_idx,
        stamp_ns: f.stamp_ns,
        timestamp_sec: f.timestamp_sec,
        phase: Phase::Estimating,
        keyframes: 0,
        samples: Seq::empty(),
        neighbours: Seq::empty(),
        candidates: Seq::empty(),
    };
    let missed = admitted.advanced(
        run,
        Report::Rejected { candidate: f.candidate, keyframes: f.keyframes },
    );
    let since = missed.tracker.state.lost_since_sec;
    assert(missed.run.keyframes == f.keyframes && missed.tracker.config == m.config
        && !missed.tracker.pending_map_reset && missed.tracker.world_generation
        == m.world_generation && since == Some(m.lost_since(f.timestamp_sec))) by {
        reveal(TrackerModel::after_rejected);
    }
    let waiting = RunModel { phase: Phase::TimingLoss, ..missed.run };
    let timed = missed.tracker.advanced(
        waiting,
        Report::LossElapsed { lost_for: f.lost_for, since_log: f.since_log },
    );
    assert(!missed.tracker.gives_up(waiting.keyframes, f.lost_for));
    assert(timed.tracker.config == m.config && !timed.tracker.pending_map_reset
        && timed.tracker.world_generation == m.world_generation
        && timed.tracker.state.lost_since_sec == since) by {
        reveal(TrackerModel::after_loss_elapsed);
    }
    reveal(TrackerModel::after_totals);
}

/// Over any number of rejected frames with no measured pose between them, waited out in one map,
/// the loss goes back to the first one's time.
pub proof fn a_loss_goes_back_to_its_first_frame(m: TrackerModel, frames: Seq<LostFrame>)
    requires
        m.state.lost_since_sec is None,
        !m.pending_map_reset,
        frames.len() > 0,
        forall|i: int|
            0 <= i < frames.len() ==> !m.gives_up(
                (#[trigger] frames[i]).keyframes,
                frames[i].lost_for,
            ),
    ensures
        after_lost_frames(m, frames).state.lost_since_sec == Some(frames[0].timestamp_sec),
        after_lost_frames(m, frames).world_generation == m.world_generation,
        !after_lost_frames(m, frames).pending_map_reset,
        after_lost_frames(m, frames).config == m.config,
    decreases frames.len(),
{
    let front = frames.drop_last();
    let before = after_lost_frames(m, front);
    let last = frames[frames.len() - 1];
    assert(frames.last() == last);
    if front.len() > 0 {
        assert forall|i: int| 0 <= i < front.len() implies !m.gives_up(
            (#[trigger] front[i]).keyframes,
            front[i].lost_for,
        ) by {
            assert(front[i] == frames[i]);
        }
        a_loss_goes_back_to_its_first_frame(m, front);
        assert(front[0] == frames[0]);
    }
    assert(!before.gives_up(last.keyframes, last.lost_for));
    a_lost_frame_keeps_or_begins_a_loss(before, last);
    assert(after_lost_frames(m, frames) == after_lost_frame(before, last));
}

/// A map is given up if and only if it has no more keyframes than the grace asks for, or the loss
/// has gone on as long as both the grace period and, where the tracker relocalizes, its patience
/// allow. The loss is over then, in one new world; otherwise the frame is skipped in the old one.
pub proof fn a_map_is_given_up_once_patience_has_run_out(
    m: TrackerModel,
    run: RunModel,
    lost_for: Double,
    since_log: Double,
)
    requires
        run.phase is TimingLoss,
        m.world_generation < u64::MAX,
        !m.config.tracking_loss_recovery.grace_period_sec.nan(),
        m.config.relocalization matches Some(r) ==> !r.patience.nan(),
    ensures
        ({
            let next = m.advanced(run, Report::LossElapsed { lost_for, since_log });
            let n = next.tracker;
            let policy = m.config.tracking_loss_recovery;
            let over = run.keyframes <= policy.min_keyframes_for_grace || (
            policy.grace_period_sec.le_spec(lost_for) && (m.config.relocalization matches Some(r)
                ==> r.patience.le_spec(lost_for)));
            &&& over ==> {
                &&& next.job is GiveUp
                &&& next.job->drop_map == m.config.reset_map_on_loss
                &&& next.run.phase == (Phase::Counting { recovering: true })
                &&& n.world_generation == m.world_generation + 1
                &&& n.state.lost_since_sec is None
                &&& n.state.mode == SystemMode::Bootstrap
                &&& n.state.velocity is None
                &&& n.state.current_keyframe_idx is None
                &&& n.state.last_keyframe_idx is None
                &&& !n.state.imu_initialized
                &&& n.state.imu_init_timestamp_sec is None
                &&& n.state.velocity_world.x.bits == 0
                &&& n.state.velocity_world.y.bits == 0
                &&& n.state.velocity_world.z.bits == 0
                &&& !m.config.reset_map_on_loss ==> n.state.pose_world_to_cam
                    == m.state.pose_world_to_cam && n.state.last_frame_timestamp_sec
                    == m.state.last_frame_timestamp_sec && n.inertial == m.inertial && n.stats
                    == m.stats && n.pending_map_reset == m.pending_map_reset
                &&& m.config.reset_map_on_loss ==> n.state.pose_world_to_cam
                    == RigidPose::identity_spec() && n.stats.frames == 0 && !n.pending_map_reset
            }
            &&& !over ==> {
                &&& next.job == Job::Close
                &&& next.run.phase == (Phase::Closing { status: TrackingStatus::Skipped })
                &&& n.world_generation == m.world_generation
                &&& n.state.lost_since_sec == m.state.lost_since_sec
                &&& n == (TrackerModel { state: n.state, ..m })
                &&& n.state == (SystemState {
                    last_frame_timestamp_sec: n.state.last_frame_timestamp_sec,
                    ..m.state
                })
                &&& n.state.last_frame_timestamp_sec == run.timestamp_sec
                &&& n.state.pose_world_to_cam == m.state.pose_world_to_cam
                &&& n.state.velocity == m.state.velocity
                &&& n.state.mode == m.state.mode
                &&& n.state.current_keyframe_idx == m.state.current_keyframe_idx
                &&& n.inertial == m.inertial
                &&& n.last_loss_log == m.last_loss_log
                &&& n.losses_suppressed == m.losses_suppressed
            }
        }),
{
    reveal(TrackerModel::after_loss_elapsed);
}

/// A map that is given up is reported when no loss of this world was, when the map's standing has
/// changed since, or five seconds after the last report; the report tells how many went unreported.
pub proof fn a_loss_is_reported_when_due(
    m: TrackerModel,
    run: RunModel,
    lost_for: Double,
    since_log: Double,
)
    requires
        run.phase is TimingLoss,
        m.gives_up(run.keyframes, lost_for),
        !m.config.reset_map_on_loss,
        m.losses_suppressed < u64::MAX,
    ensures
        ({
            let next = m.advanced(run, Report::LossElapsed { lost_for, since_log });
            let n = next.tracker;
            let established = run.keyframes
                > m.config.tracking_loss_recovery.min_keyframes_for_grace;
            let due = m.last_loss_log is None || m.last_loss_log->0.verdict != established || (
            Double { bits: 0x4014_0000_0000_0000 }).le_spec(since_log);
            &&& due ==> {
                &&& next.job->report == Some(m.losses_suppressed)
                &&& n.losses_suppressed == 0
                &&& n.last_loss_log is Some
                &&& n.last_loss_log->0.at == run.timestamp_sec
                &&& n.last_loss_log->0.verdict == established
            }
            &&& !due ==> {
                &&& next.job->report is None
                &&& n.losses_suppressed == m.losses_suppressed + 1
                &&& n.last_loss_log == m.last_loss_log
            }
        }),
{
    reveal(TrackerModel::after_loss_elapsed);
}

/// Candidates are tried one after the other, from the first; a frame without descriptors has none,
/// and one without candidates is measured as lost.
pub proof fn candidates_are_tried_in_turn(
    m: TrackerModel,
    run: RunModel,
    squared: Vec<Double>,
    descriptors: usize,
)
    requires
        run.phase is Ranking,
        m.config.relocalization is Some,
    ensures
        ({
            let next = m.advanced(run, Report::Distances { squared, descriptors });
            let c = next.run.candidates;
            &&& next.tracker == m
            &&& descriptors == 0 ==> c.len() == 0
            &&& descriptors > 0 ==> c == crate::association::nearest_positions(
                squared@,
                m.config.relocalization->0.max_candidates,
            )
            &&& c.len() > 0 ==> next.job == (Job::Match { candidate: c[0] }) && next.run.phase == (
            Phase::Matching { tried: 0 })
            &&& c.len() == 0 ==> next.job is MeasureLoss && next.run.phase is TimingLoss
        }),
{
    reveal(TrackerModel::after_distances);
}

/// A candidate places a lost frame if and only if enough matches agree with the pose it gives. The
/// frame is then tracked at that pose against that keyframe, in the same world and with no motion
/// model, and the loss is over; otherwise the next candidate is tried, with the tracker as it was.
pub proof fn a_frame_is_found_where_enough_matches_agree(
    m: TrackerModel,
    run: RunModel,
    found: Option<Found>,
)
    requires
        run.phase is Matching,
        run.candidates.len() <= usize::MAX,
        m.runs(run),
    ensures
        ({
            let next = m.advanced(run, Report::Matched(found));
            let n = next.tracker;
            let placed = found is Some && found->0.inliers
                >= m.config.relocalization->0.min_inliers;
            let then = run.phase->tried + 1;
            &&& placed ==> {
                &&& next.job == Job::Close
                &&& next.run.phase == (Phase::Closing { status: TrackingStatus::Localized })
                &&& n == (TrackerModel { state: n.state, ..m })
                &&& n.state == (SystemState {
                    pose_world_to_cam: n.state.pose_world_to_cam,
                    velocity: n.state.velocity,
                    current_keyframe_idx: n.state.current_keyframe_idx,
                    lost_since_sec: n.state.lost_since_sec,
                    last_frame_timestamp_sec: n.state.last_frame_timestamp_sec,
                    ..m.state
                })
                &&& n.state.pose_world_to_cam == found->0.pose
                &&& n.state.current_keyframe_idx == Some(found->0.keyframe_idx)
                &&& n.state.last_keyframe_idx == m.state.last_keyframe_idx
                &&& n.state.velocity is None
                &&& n.state.lost_since_sec is None
                &&& n.state.last_frame_timestamp_sec == run.timestamp_sec
                &&& n.state.mode == m.state.mode
                &&& n.state.imu_initialized == m.state.imu_initialized
                &&& n.world_generation == m.world_generation
                &&& n.inertial == m.inertial
                &&& n.stats == m.stats
                &&& n.pending_map_reset == m.pending_map_reset
            }
            &&& !placed ==> n == m && next.run.candidates == run.candidates
            &&& !placed && then < run.candidates.len() ==> next.job == (Job::Match {
                candidate: run.candidates[then],
            }) && next.run.phase == (Phase::Matching { tried: then as usize })
            &&& !placed && then >= run.candidates.len() ==> next.job is MeasureLoss
        }),
{
    reveal(TrackerModel::after_matched);
}

} // verus!
