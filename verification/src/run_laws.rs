//! What holds of every frame on its way through the tracker.
use crate::geometry::RigidPose;
use crate::ieee::Double;
use crate::run::{Found, Job, Phase, Report, RunModel, Step};
use crate::state::TrackingStatus;
use crate::track::{FrameStart, NewestKeyframe, SolvedInit, TrackStatus, TrackerModel};
use vstd::prelude::*;

verus! {

impl Phase {
    /// Whether a keyframe is being given its points, before it is inserted.
    pub open spec fn preparing(self) -> bool {
        ||| self is Associating
        ||| self is Densifying
        ||| self is Growing
    }

    /// Whether a keyframe is being inserted.
    pub open spec fn inserting(self) -> bool {
        ||| self.preparing()
        ||| self is Inserting
        ||| self.inertial()
        ||| self is Fusing
        ||| self is Adjusting
        ||| self is Culling
    }

    /// How many kinds of phase can still follow.
    pub open spec fn rank(self) -> nat {
        match self {
            Phase::Done => 0,
            Phase::Closing { .. } => 1,
            Phase::Culling => 2,
            Phase::Adjusting { .. } => 3,
            Phase::Fusing => 4,
            Phase::Solving { .. } => 5,
            Phase::Describing { .. } => 6,
            Phase::CheckingReadiness { .. } => 7,
            Phase::TimingInit => 8,
            Phase::AddingFactor => 9,
            Phase::Integrating { .. } => 10,
            Phase::EdgeCoverage { .. } => 11,
            Phase::Inserting => 12,
            Phase::Growing { .. } => 13,
            Phase::Densifying => 14,
            Phase::Associating => 15,
            Phase::Judging { .. } => 16,
            Phase::Building { .. } => 2,
            Phase::Counting { .. } => 3,
            Phase::TimingLoss => 4,
            Phase::Matching { .. } => 5,
            Phase::Ranking => 6,
            Phase::Estimating => 17,
            Phase::GyroCoverage => 18,
        }
    }
}

/// Whether a run is closer to its end than another: fewer kinds of phase can follow, or fewer
/// candidates are left to be tried or neighbours to be grown from.
pub open spec fn closer(next: RunModel, run: RunModel) -> bool {
    ||| next.phase.rank() < run.phase.rank()
    ||| {
        &&& run.phase is Matching
        &&& next.phase is Matching
        &&& next.candidates == run.candidates
        &&& next.candidates.len() - next.phase->Matching_tried < run.candidates.len()
            - run.phase->Matching_tried
    }
    ||| {
        &&& run.phase is Growing
        &&& next.phase is Growing
        &&& next.neighbours == run.neighbours
        &&& next.neighbours.len() - next.phase->Growing_at < run.neighbours.len()
            - run.phase->Growing_at
    }
}

/// What the laws below say of one step.
spec fn orderly(m: TrackerModel, run: RunModel, next: Step, moved: bool) -> bool {
    &&& run.candidates.len() <= usize::MAX && run.neighbours.len() <= usize::MAX ==> closer(
        next.run,
        run,
    )
    &&& m.world_generation < u64::MAX ==> next.tracker.world_generation == m.world_generation
        + if moved {
        1int
    } else {
        0int
    }
    &&& run.phase.given_up() ==> next.run.phase.given_up() || next.job == Job::Done(
        TrackStatus::Untracked,
    )
    &&& run.phase.inserting() ==> next.run.phase.inserting() || next.run.phase == (Phase::Closing {
        status: TrackingStatus::KeyframeAccepted,
    })
    &&& next.job is Done ==> run.phase is Closing && next.job == Job::Done(
        m.outcome(run, run.phase->Closing_status),
    )
    &&& next.job is GiveUp ==> run.phase is TimingLoss
    &&& next.run.phase is Associating ==> run.phase is Judging
    &&& next.run.phase is Densifying ==> run.phase is Associating
    &&& next.run.phase is Growing || next.run.phase is Inserting ==> run.phase.preparing()
    &&& next.run.phase.inserting() && !next.run.phase.preparing() && !(next.run.phase is Inserting)
        ==> run.phase.inserting() && !run.phase.preparing()
    &&& run.phase.preparing() ==> next.run.neighbours == run.neighbours && next.tracker == m
    &&& next.run.idx == run.idx
    &&& next.run.stamp_ns == run.stamp_ns
    &&& next.run.timestamp_sec == run.timestamp_sec
    &&& next.job is Done ==> next.tracker.state.pose_world_to_cam == m.state.pose_world_to_cam
}

proof fn lemma_finished(m: TrackerModel, run: RunModel)
    requires
        m.runs(run),
        run.phase.expects(Report::Finished),
    ensures
        ({
            let next = m.after_finished(run);
            orderly(m, run, next, false)
        }),
{
    reveal(TrackerModel::after_finished);
}

proof fn lemma_stereo_points(m: TrackerModel, run: RunModel, n: usize)
    requires
        m.runs(run),
        run.phase is Counting,
    ensures
        ({
            let next = m.after_stereo_points(run, n);
            orderly(m, run, next, false)
        }),
{
    reveal(TrackerModel::after_stereo_points);
}

proof fn lemma_coverage(m: TrackerModel, run: RunModel, n: usize)
    requires
        m.runs(run),
        run.phase is GyroCoverage || run.phase is EdgeCoverage,
    ensures
        ({
            let next = m.after_coverage(run, n);
            orderly(m, run, next, false)
        }),
{
    reveal(TrackerModel::after_coverage);
}

proof fn lemma_estimated(m: TrackerModel, run: RunModel, pose: RigidPose, velocity: RigidPose, inliers: usize)
    requires
        m.runs(run),
        run.phase is Estimating,
    ensures
        ({
            let next = m.after_estimated(run, pose, velocity, inliers);
            orderly(m, run, next, false)
        }),
{
    reveal(TrackerModel::after_estimated);
}

proof fn lemma_rejected(m: TrackerModel, run: RunModel, candidate: RigidPose, keyframes: usize)
    requires
        m.runs(run),
        run.phase is Estimating,
    ensures
        ({
            let next = m.after_rejected(run, candidate, keyframes);
            orderly(m, run, next, false)
        }),
{
    reveal(TrackerModel::after_rejected);
}

proof fn lemma_reference(m: TrackerModel, run: RunModel, points: Option<usize>, indices: Seq<usize>)
    requires
        m.runs(run),
        run.phase is Judging,
    ensures
        ({
            let next = m.after_reference(run, points, indices);
            orderly(m, run, next, false)
        }),
{
    reveal(TrackerModel::after_reference);
}

proof fn lemma_associated(m: TrackerModel, run: RunModel, stereo: bool)
    requires
        m.runs(run),
        run.phase is Associating,
    ensures
        ({
            let next = m.after_associated(run, stereo);
            orderly(m, run, next, false)
        }),
{
    reveal(TrackerModel::after_associated);
}

proof fn lemma_integrated(m: TrackerModel, run: RunModel, dt: Double)
    requires
        m.runs(run),
        run.phase is Integrating,
    ensures
        ({
            let next = m.after_integrated(run, dt);
            orderly(m, run, next, false)
        }),
{
    reveal(TrackerModel::after_integrated);
}

proof fn lemma_init_elapsed(m: TrackerModel, run: RunModel, since_attempt: Double, since_window: Double)
    requires
        m.runs(run),
        run.phase is TimingInit,
    ensures
        ({
            let next = m.after_init_elapsed(run, since_attempt, since_window);
            orderly(m, run, next, false)
        }),
{
    reveal(TrackerModel::after_init_elapsed);
}

proof fn lemma_ready(m: TrackerModel, run: RunModel, ready: bool, since_log: Double)
    requires
        m.runs(run),
        run.phase is CheckingReadiness,
    ensures
        ({
            let next = m.after_ready(run, ready, since_log);
            orderly(m, run, next, false)
        }),
{
    reveal(TrackerModel::after_ready);
}

proof fn lemma_solved(m: TrackerModel, run: RunModel, solved: Option<SolvedInit>)
    requires
        m.runs(run),
        run.phase is Solving,
    ensures
        ({
            let next = m.after_solved(run, solved);
            orderly(m, run, next, solved is Some && m.inertial->0.cfg.enable_inertial_ba)
        }),
{
    reveal(TrackerModel::after_solved);
}

proof fn lemma_keyframes(m: TrackerModel, run: RunModel, n: usize)
    requires
        m.runs(run),
        run.phase is Fusing || run.phase is Culling,
    ensures
        ({
            let next = m.after_keyframes(run, n);
            orderly(m, run, next, false)
        }),
{
    reveal(TrackerModel::after_keyframes);
}

proof fn lemma_adjusted(m: TrackerModel, run: RunModel, newest: Option<NewestKeyframe>)
    requires
        m.runs(run),
        run.phase is Adjusting,
    ensures
        ({
            let next = m.after_adjusted(run, newest);
            orderly(m, run, next, false)
        }),
{
    reveal(TrackerModel::after_adjusted);
}

proof fn lemma_distances(m: TrackerModel, run: RunModel, squared: Seq<Double>, descriptors: usize)
    requires
        m.runs(run),
        run.phase is Ranking,
    ensures
        ({
            let next = m.after_distances(run, squared, descriptors);
            orderly(m, run, next, false)
        }),
{
    reveal(TrackerModel::after_distances);
}

proof fn lemma_matched(m: TrackerModel, run: RunModel, found: Option<Found>)
    requires
        m.runs(run),
        run.phase is Matching,
    ensures
        ({
            let next = m.after_matched(run, found);
            orderly(m, run, next, false)
        }),
{
    reveal(TrackerModel::after_matched);
}

proof fn lemma_loss_elapsed(m: TrackerModel, run: RunModel, lost_for: Double, since_log: Double)
    requires
        m.runs(run),
        run.phase is TimingLoss,
    ensures
        ({
            let next = m.after_loss_elapsed(run, lost_for, since_log);
            orderly(m, run, next, next.job is GiveUp)
        }),
{
    reveal(TrackerModel::after_loss_elapsed);
}

proof fn lemma_totals(m: TrackerModel, run: RunModel, keyframes: usize, active_points: usize)
    requires
        m.runs(run),
        run.phase is Closing,
    ensures
        ({
            let next = m.after_totals(run, keyframes, active_points);
            orderly(m, run, next, false)
        }),
{
    reveal(TrackerModel::after_totals);
}

/// Whether a step changes the world: the map is given up, or a solve is applied.
pub open spec fn world_moves(m: TrackerModel, report: Report, next: Step) -> bool {
    match report {
        Report::Solved(solved) => solved is Some && m.inertial->0.cfg.enable_inertial_ba,
        Report::LossElapsed { .. } => next.job is GiveUp,
        _ => false,
    }
}

proof fn lemma_step(m: TrackerModel, run: RunModel, report: Report)
    requires
        m.runs(run),
        run.phase.expects(report),
    ensures
        orderly(m, run, m.advanced(run, report), world_moves(m, report, m.advanced(run, report))),
{
    match report {
        Report::Finished => {
            lemma_finished(m, run);
        },
        Report::StereoPoints(n) => {
            lemma_stereo_points(m, run, n);
        },
        Report::Coverage(n) => {
            lemma_coverage(m, run, n);
        },
        Report::Estimated { pose, velocity, inliers } => {
            lemma_estimated(m, run, pose, velocity, inliers);
        },
        Report::Rejected { candidate, keyframes } => {
            lemma_rejected(m, run, candidate, keyframes);
        },
        Report::Reference { points, indices } => {
            lemma_reference(m, run, points, indices@);
        },
        Report::Associated { stereo } => {
            lemma_associated(m, run, stereo);
        },
        Report::Integrated(dt) => {
            lemma_integrated(m, run, dt);
        },
        Report::InitElapsed { since_attempt, since_window } => {
            lemma_init_elapsed(m, run, since_attempt, since_window);
        },
        Report::Ready { ready, since_log } => {
            lemma_ready(m, run, ready, since_log);
        },
        Report::Solved(solved) => {
            lemma_solved(m, run, solved);
        },
        Report::Keyframes(n) => {
            lemma_keyframes(m, run, n);
        },
        Report::Adjusted(newest) => {
            lemma_adjusted(m, run, newest);
        },
        Report::Distances { squared, descriptors } => {
            lemma_distances(m, run, squared@, descriptors);
        },
        Report::Matched(found) => {
            lemma_matched(m, run, found);
        },
        Report::LossElapsed { lost_for, since_log } => {
            lemma_loss_elapsed(m, run, lost_for, since_log);
        },
        Report::Totals { keyframes, active_points } => {
            lemma_totals(m, run, keyframes, active_points);
        },
    }
}

/// A pose that was extrapolated is never published as one that was measured: once a frame's map is
/// given up, whatever is reported on it, the frame ends untracked, even where a new map was built
/// on it.
pub proof fn an_extrapolated_pose_is_never_published(m: TrackerModel, run: RunModel, report: Report)
    requires
        m.runs(run),
        run.phase.given_up(),
        run.phase.expects(report),
    ensures
        ({
            let next = m.advanced(run, report);
            next.run.phase.given_up() || next.job == Job::Done(TrackStatus::Untracked)
        }),
{
    lemma_step(m, run, report);
}

/// A run is of one frame from its start to its end: no step changes the frame's number, its stamp
/// or its time.
pub proof fn a_run_keeps_to_its_frame(
    m: TrackerModel,
    run: RunModel,
    report: Report,
    start: FrameStart,
    timestamp_sec: Double,
    stamp_ns: u64,
)
    requires
        m.runs(run),
        run.phase.expects(report),
    ensures
        ({
            let first = m.started(start, timestamp_sec, stamp_ns).run;
            let next = m.advanced(run, report).run;
            &&& first.idx == start.idx
            &&& first.stamp_ns == stamp_ns
            &&& first.timestamp_sec == timestamp_sec
            &&& next.idx == run.idx
            &&& next.stamp_ns == run.stamp_ns
            &&& next.timestamp_sec == run.timestamp_sec
        }),
{
    lemma_step(m, run, report);
}

/// Only a frame that closes with a measured pose is published, and it is published under its own
/// stamp at the pose the tracker holds, and goes on to hold.
pub proof fn a_published_pose_is_the_trackers(m: TrackerModel, run: RunModel, report: Report)
    requires
        m.runs(run),
        run.phase.expects(report),
    ensures
        m.advanced(run, report).job matches Job::Done(TrackStatus::Localized(p)) ==> {
            &&& run.phase is Closing
            &&& run.phase->Closing_status != TrackingStatus::Skipped
            &&& p.pose_world_to_cam == m.state.pose_world_to_cam
            &&& p.pose_world_to_cam == m.advanced(run, report).tracker.state.pose_world_to_cam
            &&& p.stamp == run.stamp_ns
            &&& p.keyframe == (run.phase->Closing_status == TrackingStatus::KeyframeAccepted)
        },
{
    lemma_step(m, run, report);
}

/// A keyframe that is being inserted is inserted: every report leads on to the next piece of the
/// insertion or closes the frame as one with a keyframe.
pub proof fn an_insertion_is_carried_through(m: TrackerModel, run: RunModel, report: Report)
    requires
        m.runs(run),
        run.phase.inserting(),
        run.phase.expects(report),
    ensures
        ({
            let next = m.advanced(run, report).run.phase;
            next.inserting() || next == (Phase::Closing {
                status: TrackingStatus::KeyframeAccepted,
            })
        }),
{
    lemma_step(m, run, report);
}

/// A new keyframe is prepared in one order: it is associated first; where its close stereo points
/// are asked for and it has any, they are added next; only then does it grow, from each neighbour
/// once and in turn, the first one first; and only then is it inserted. Nothing of what comes after
/// the insertion starts before it, and the tracker and the neighbours stay what they were.
pub proof fn a_keyframe_is_densified_before_it_grows(m: TrackerModel, run: RunModel, report: Report)
    requires
        m.runs(run),
        run.neighbours.len() <= usize::MAX,
        run.phase.expects(report),
    ensures
        ({
            let next = m.advanced(run, report);
            let to = next.run.phase;
            let ready = run.phase is Densifying || (run.phase is Associating && !m.densifies(
                report->Associated_stereo,
            ));
            &&& to is Associating ==> run.phase is Judging
            &&& to is Densifying <==> run.phase is Associating && m.densifies(
                report->Associated_stereo,
            )
            &&& to is Densifying ==> next.job == (Job::Densify {
                limit: m.config.stereo_close_depth->0,
            })
            &&& to is Growing ==> {
                &&& if run.phase is Growing {
                    to->Growing_at == run.phase->Growing_at + 1
                } else {
                    ready && to->Growing_at == 0
                }
                &&& next.job == (Job::Grow { neighbour: run.neighbours[to->Growing_at as int] })
            }
            &&& to is Inserting <==> if run.phase is Growing {
                run.phase->Growing_at + 1 == run.neighbours.len()
            } else {
                ready && run.neighbours.len() == 0
            }
            &&& to.inserting() && !to.preparing() && !(to is Inserting) ==> run.phase.inserting()
                && !run.phase.preparing()
            &&& run.phase.preparing() ==> next.tracker == m && next.run.neighbours
                == run.neighbours
        }),
{
    lemma_step(m, run, report);
    reveal(TrackerModel::after_associated);
    reveal(TrackerModel::after_finished);
}

/// A map is given up only on a frame that no candidate placed: the loss is timed once the last one
/// was tried.
pub proof fn a_lost_frame_is_looked_for_first(m: TrackerModel, run: RunModel, found: Option<Found>)
    requires
        run.phase is Matching,
        m.runs(run),
        m.advanced(run, Report::Matched(found)).run.phase is TimingLoss,
    ensures
        run.phase->Matching_tried + 1 == run.candidates.len(),
        found matches Some(f) ==> f.inliers < m.config.relocalization->0.min_inliers,
{
    reveal(TrackerModel::after_matched);
}

/// Every report brings a frame closer to its end.
pub proof fn a_frame_comes_to_its_end(m: TrackerModel, run: RunModel, report: Report)
    requires
        m.runs(run),
        run.candidates.len() <= usize::MAX,
        run.neighbours.len() <= usize::MAX,
        run.phase.expects(report),
    ensures
        closer(m.advanced(run, report).run, run),
{
    lemma_step(m, run, report);
}

/// Within a frame the world changes only where the map is given up or an inertial solve is applied,
/// and by one.
pub proof fn the_world_changes_only_where_it_is_said(m: TrackerModel, run: RunModel, report: Report)
    requires
        m.runs(run),
        m.world_generation < u64::MAX,
        run.phase.expects(report),
    ensures
        ({
            let next = m.advanced(run, report);
            next.tracker.world_generation == m.world_generation + if world_moves(m, report, next) {
                1int
            } else {
                0int
            }
        }),
{
    lemma_step(m, run, report);
}

/// A frame that only coasts leaves the motion model alone, so that the next one coasts on.
pub proof fn a_rejected_estimate_keeps_the_motion_model(
    m: TrackerModel,
    run: RunModel,
    candidate: RigidPose,
    keyframes: usize,
)
    requires
        run.phase is Estimating,
    ensures
        ({
            let next = m.advanced(run, Report::Rejected { candidate, keyframes }).tracker;
            &&& next.state.pose_world_to_cam == candidate
            &&& next.state.velocity == m.state.velocity
            &&& next.stats.inliers == 0
        }),
{
    reveal(TrackerModel::after_rejected);
}

} // verus!
