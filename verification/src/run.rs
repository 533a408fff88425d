//! One frame, from its admission to its pose: which piece of work comes next, and what the tracker
//! makes of its result.
//!
//! The work itself (matching, solving, moving the map) is done by a driver. A driver starts a
//! [`FrameRun`], does the [`Job`] it is handed, reports on it, and goes on until the job is
//! [`Job::Done`]. The order of the jobs is the tracker's:
//!
//! * a frame without a map bootstraps one;
//! * any other has its pose estimated. Where that succeeds, a frame that is due becomes a keyframe:
//!   associated, given its close stereo points, grown from each neighbour in turn, then inserted,
//!   then given its inertial edge, then fused, then adjusted, read back, and the map culled. The
//!   stereo points come after associating, so that no keypoint that is associated gets one, and
//!   before growing, so that growing sees them as taken. Fusing comes before adjusting, so that the
//!   adjustment sees what fusing found;
//! * where it fails, the frame is looked for in the map, and only a frame that is not found there
//!   may have the map given up.
use crate::association::accepts_relocalization;
use crate::geometry::RigidPose;
use crate::ieee::Double;
use crate::imu::RawImuSample;
use crate::state::{log_due, InitStage, TrackingStatus};
use crate::track::{
    BaPlan, FrameStart, InitStep, Loss, LossOutcome, NewestKeyframe, SolvedInit, TrackStatus,
    Tracker, TrackerModel, LOSS_LOG_RETRY_BITS,
};
use vstd::prelude::*;

verus! {

/// A piece of work for a driver, with what it is to report.
#[derive(Clone, Copy, Debug, PartialEq, Eq, Structural)]
pub enum Job {
    /// Count the keypoints of the frame that have stereo depth: [`Report::StereoPoints`].
    CountStereo,
    /// Insert the frame as a keyframe at the tracker's pose, with its stereo points as map points:
    /// [`Report::Finished`].
    BuildMap,
    /// Count the samples that the nominal rate and the coverage ratio ask for between two stamps:
    /// [`Report::Coverage`].
    CountCoverage {
        /// The earlier stamp.
        from_ns: u64,
        /// The later stamp.
        to_ns: u64,
    },
    /// Predict the frame's pose, turned by the run's samples where there are any, and estimate it
    /// against the map: [`Report::Estimated`] or [`Report::Rejected`].
    EstimatePose,
    /// Drop the correspondences that do not reproject, count what was visible and found, and
    /// describe the map: [`Report::Reference`].
    CountVisible,
    /// Make a keyframe of the frame, and associate its correspondences: [`Report::Associated`].
    Associate,
    /// Add the new keyframe's stereo points that are close and not associated:
    /// [`Report::Finished`].
    Densify {
        /// The depth up to which a point is close, in metres.
        limit: Double,
    },
    /// Triangulate between a neighbour and the new keyframe what neither has associated:
    /// [`Report::Finished`].
    Grow {
        /// The neighbour.
        neighbour: usize,
    },
    /// Have the new keyframe in the map, with everything it was given: [`Report::Finished`].
    Insert,
    /// Integrate the run's samples from the previous keyframe on: [`Report::Integrated`].
    Integrate {
        /// The previous keyframe.
        prev_idx: usize,
        /// Its stamp.
        prev_stamp_ns: u64,
    },
    /// Add what was integrated to the map as an edge: [`Report::Finished`].
    AddFactor {
        /// The previous keyframe.
        prev_idx: usize,
    },
    /// Measure the seconds since initialization was last tried and since its window began:
    /// [`Report::InitElapsed`].
    MeasureInit,
    /// See whether the initialization window is ready, and measure the seconds since it was last
    /// reported on: [`Report::Ready`].
    CheckReadiness {
        /// First keyframe of the window.
        start_kf_idx: usize,
    },
    /// Report on the initialization window: [`Report::Finished`].
    DescribeWindow {
        /// First keyframe of the window.
        start_kf_idx: usize,
        /// Whether it is ready.
        ready: bool,
    },
    /// Solve the initialization, and turn the map if that is to be applied: [`Report::Solved`].
    Solve {
        /// First keyframe of the window.
        start_kf_idx: usize,
        /// Which pass.
        stage: InitStage,
        /// Whether an accepted solve moves the map.
        apply: bool,
    },
    /// Give the new map points their scale, and fuse the new keyframe's points into the run's
    /// neighbours: [`Report::Keyframes`].
    Fuse,
    /// Adjust the map, and read the newest keyframe: [`Report::Adjusted`].
    Adjust {
        /// How.
        plan: BaPlan,
    },
    /// Cull the map: [`Report::Keyframes`].
    Cull,
    /// Measure how far each keyframe is from the tracker, squared: [`Report::Distances`].
    RankKeyframes,
    /// Match the frame against the keyframe at a position, and solve for its pose:
    /// [`Report::Matched`].
    Match {
        /// The position.
        candidate: usize,
    },
    /// Measure the seconds since the loss began and since one was last reported:
    /// [`Report::LossElapsed`].
    MeasureLoss {
        /// When it began.
        lost_since_sec: Double,
    },
    /// Drop the map if that is asked for, report the loss if it is to be reported, and count the
    /// keypoints of the frame that have stereo depth: [`Report::StereoPoints`].
    GiveUp {
        /// Whether the map is dropped.
        drop_map: bool,
        /// How many losses went unreported before this one, if it is to be reported.
        report: Option<u64>,
    },
    /// Count the map's keyframes and live points: [`Report::Totals`].
    Close,
    /// Nothing: the frame is done.
    Done(TrackStatus),
}

/// A frame found in the map again.
#[derive(Clone, Copy, Debug, PartialEq, Eq, Structural)]
pub struct Found {
    /// Solved pose.
    pub pose: RigidPose,
    /// Matches that agree with it.
    pub inliers: usize,
    /// The keyframe it was matched against.
    pub keyframe_idx: usize,
}

/// What a driver reports on a job.
#[derive(Debug)]
pub enum Report {
    /// The job is finished.
    Finished,
    /// Keypoints with stereo depth.
    StereoPoints(usize),
    /// Samples asked for.
    Coverage(usize),
    /// A pose estimate was accepted.
    Estimated {
        /// The pose.
        pose: RigidPose,
        /// The motion since the last frame.
        velocity: RigidPose,
        /// Correspondences that agree with it.
        inliers: usize,
    },
    /// None was.
    Rejected {
        /// The predicted pose.
        candidate: RigidPose,
        /// Keyframes in the map.
        keyframes: usize,
    },
    /// What the map holds.
    Reference {
        /// How many map points the keyframe tracked against is associated with, if there is one.
        points: Option<usize>,
        /// The keyframes' indices, oldest first.
        indices: Vec<usize>,
    },
    /// The keyframe's correspondences are associated.
    Associated {
        /// Whether the frame has stereo depths at all.
        stereo: bool,
    },
    /// The time an integrated edge spans, in seconds.
    Integrated(Double),
    /// Seconds since initialization was tried, and since its window began.
    InitElapsed {
        /// Since it was last tried; any number if it never was.
        since_attempt: Double,
        /// Since the window began; any number if none did.
        since_window: Double,
    },
    /// Whether a window is ready.
    Ready {
        /// Whether it is.
        ready: bool,
        /// Seconds since it was last reported on; any number if it never was.
        since_log: Double,
    },
    /// What was solved, if it was accepted.
    Solved(Option<SolvedInit>),
    /// Keyframes in the map.
    Keyframes(usize),
    /// The newest keyframe.
    Adjusted(Option<NewestKeyframe>),
    /// How far the keyframes are.
    Distances {
        /// Squared distance of each.
        squared: Vec<Double>,
        /// Descriptors of the frame.
        descriptors: usize,
    },
    /// The frame as one keyframe places it, if it does.
    Matched(Option<Found>),
    /// Seconds since a loss began, and since one was last reported.
    LossElapsed {
        /// Since it began.
        lost_for: Double,
        /// Since one was reported; any number if none was.
        since_log: Double,
    },
    /// Keyframes and live points of the map.
    Totals {
        /// Keyframes.
        keyframes: usize,
        /// Live points.
        active_points: usize,
    },
}

/// How far a frame has come: the report that is waited for.
#[derive(Clone, Copy, Debug, PartialEq, Eq, Structural)]
pub enum Phase {
    /// The count of stereo points, to bootstrap from; after a loss or at first.
    Counting {
        /// Whether after a loss.
        recovering: bool,
    },
    /// The bootstrap keyframe.
    Building {
        /// Whether after a loss.
        recovering: bool,
    },
    /// The coverage of the time since the last frame.
    GyroCoverage,
    /// The pose estimate.
    Estimating,
    /// What the map holds, to decide on a keyframe.
    Judging {
        /// Correspondences that agree with the estimate.
        inliers: usize,
    },
    /// The associated keyframe.
    Associating,
    /// Its close stereo points.
    Densifying,
    /// What it grew from a neighbour.
    Growing {
        /// Which of the run's neighbours.
        at: usize,
    },
    /// The inserted keyframe.
    Inserting,
    /// The coverage of the time since the previous keyframe.
    EdgeCoverage {
        /// The previous keyframe.
        prev_idx: usize,
        /// Its stamp.
        prev_stamp_ns: u64,
    },
    /// The integrated edge.
    Integrating {
        /// The previous keyframe.
        prev_idx: usize,
    },
    /// The edge in the map.
    AddingFactor,
    /// The times of the initialization.
    TimingInit,
    /// Its readiness.
    CheckingReadiness {
        /// First keyframe of the window.
        start_kf_idx: usize,
    },
    /// The report on its window.
    Describing {
        /// First keyframe of the window.
        start_kf_idx: usize,
        /// Whether it is solved next.
        ready: bool,
    },
    /// Its solution.
    Solving {
        /// Which pass.
        stage: InitStage,
    },
    /// The fused map.
    Fusing,
    /// The adjusted map.
    Adjusting {
        /// Whether it was to be adjusted at all.
        adjusted: bool,
    },
    /// The culled map.
    Culling,
    /// The distances of the keyframes.
    Ranking,
    /// The match against a candidate.
    Matching {
        /// Which of the run's candidates.
        tried: usize,
    },
    /// The times of the loss.
    TimingLoss,
    /// The totals, to close with.
    Closing {
        /// What the frame came to.
        status: TrackingStatus,
    },
    /// Nothing.
    Done,
}

/// One frame on its way through the tracker.
#[derive(Debug)]
pub struct FrameRun {
    /// The frame's index.
    pub idx: usize,
    /// Its stamp in nanoseconds.
    pub stamp_ns: u64,
    /// Its time in seconds.
    pub timestamp_sec: Double,
    /// How far it has come.
    pub phase: Phase,
    /// Keyframes in the map when it was lost.
    pub keyframes: usize,
    /// Samples to predict its rotation from, or to integrate.
    pub samples: Vec<RawImuSample>,
    /// Keyframes it grows from and fuses into.
    pub neighbours: Vec<usize>,
    /// Keyframes to look for it in, as positions.
    pub candidates: Vec<usize>,
}

/// The mathematical content of a [`FrameRun`].
#[verifier::ext_equal]
pub struct RunModel {
    /// The frame's index.
    pub idx: usize,
    /// Its stamp.
    pub stamp_ns: u64,
    /// Its time.
    pub timestamp_sec: Double,
    /// How far it has come.
    pub phase: Phase,
    /// Keyframes in the map when it was lost.
    pub keyframes: usize,
    /// Samples to predict its rotation from, or to integrate.
    pub samples: Seq<RawImuSample>,
    /// Keyframes it grows from and fuses into.
    pub neighbours: Seq<usize>,
    /// Keyframes to look for it in.
    pub candidates: Seq<usize>,
}

impl View for FrameRun {
    type V = RunModel;

    open spec fn view(&self) -> RunModel {
        RunModel {
            idx: self.idx,
            stamp_ns: self.stamp_ns,
            timestamp_sec: self.timestamp_sec,
            phase: self.phase,
            keyframes: self.keyframes,
            samples: self.samples@,
            neighbours: self.neighbours@,
            candidates: self.candidates@,
        }
    }
}

/// A tracker and a run after a report, with the job that comes next.
#[verifier::ext_equal]
pub struct Step {
    /// The tracker.
    pub tracker: TrackerModel,
    /// The run.
    pub run: RunModel,
    /// What comes next.
    pub job: Job,
}

impl Phase {
    /// Whether a report is the one that is waited for.
    pub open spec fn expects(self, report: Report) -> bool {
        match self {
            Phase::Counting { .. } => report is StereoPoints,
            Phase::Building { .. } => report is Finished,
            Phase::GyroCoverage => report is Coverage,
            Phase::Estimating => report is Estimated || report is Rejected,
            Phase::Judging { .. } => report is Reference,
            Phase::Associating => report is Associated,
            Phase::Densifying => report is Finished,
            Phase::Growing { .. } => report is Finished,
            Phase::Inserting => report is Finished,
            Phase::EdgeCoverage { .. } => report is Coverage,
            Phase::Integrating { .. } => report is Integrated,
            Phase::AddingFactor => report is Finished,
            Phase::TimingInit => report is InitElapsed,
            Phase::CheckingReadiness { .. } => report is Ready,
            Phase::Describing { .. } => report is Finished,
            Phase::Solving { .. } => report is Solved,
            Phase::Fusing => report is Keyframes,
            Phase::Adjusting { .. } => report is Adjusted,
            Phase::Culling => report is Keyframes,
            Phase::Ranking => report is Distances,
            Phase::Matching { .. } => report is Matched,
            Phase::TimingLoss => report is LossElapsed,
            Phase::Closing { .. } => report is Totals,
            Phase::Done => false,
        }
    }

    /// Whether a phase belongs to the inertial path.
    pub open spec fn inertial(self) -> bool {
        ||| self is EdgeCoverage
        ||| self is Integrating
        ||| self is AddingFactor
        ||| self is TimingInit
        ||| self is CheckingReadiness
        ||| self is Describing
        ||| self is Solving
    }

    /// Whether the frame's pose is an extrapolation with nothing measured left to come.
    pub open spec fn given_up(self) -> bool {
        match self {
            Phase::Counting { recovering } => recovering,
            Phase::Building { recovering } => recovering,
            Phase::Closing { status } => status == TrackingStatus::Skipped,
            _ => false,
        }
    }
}

impl TrackerModel {
    /// Whether a run can be one of this tracker's.
    pub open spec fn runs(self, run: RunModel) -> bool {
        &&& run.phase.inertial() ==> self.inertial is Some
        &&& run.phase is Ranking || run.phase is Matching ==> self.config.relocalization is Some
        &&& run.phase matches Phase::Matching { tried } ==> tried < run.candidates.len()
        &&& run.phase matches Phase::Growing { at } ==> at < run.neighbours.len()
    }

    /// Whether every counter has room for one more.
    pub open spec fn can_step(self) -> bool {
        &&& self.can_count_edge()
        &&& self.gyro_prior_unavailable < u64::MAX
        &&& self.losses_suppressed < u64::MAX
        &&& self.world_generation < u64::MAX
    }

    /// The tracker and a run that goes on to a phase.
    pub open spec fn then_wait(self, run: RunModel, phase: Phase, job: Job) -> Step {
        Step { tracker: self, run: RunModel { phase, ..run }, job }
    }

    /// A frame that came to something.
    pub open spec fn then_close(self, run: RunModel, status: TrackingStatus) -> Step {
        self.then_wait(run, Phase::Closing { status }, Job::Close)
    }

    /// A run at its start.
    pub open spec fn started(self, start: FrameStart, timestamp_sec: Double, stamp_ns: u64) -> Step {
        let run = RunModel {
            idx: start.idx,
            stamp_ns,
            timestamp_sec,
            phase: Phase::Estimating,
            keyframes: 0,
            samples: Seq::empty(),
            neighbours: Seq::empty(),
            candidates: Seq::empty(),
        };
        if start.bootstrap {
            self.then_wait(run, Phase::Counting { recovering: false }, Job::CountStereo)
        } else if self.last_frame_stamp_ns is Some && self.inertial is Some {
            self.then_wait(
                run,
                Phase::GyroCoverage,
                Job::CountCoverage { from_ns: self.last_frame_stamp_ns->0, to_ns: stamp_ns },
            )
        } else {
            self.then_wait(run, Phase::Estimating, Job::EstimatePose)
        }
    }

    /// After the stereo points were counted: enough of them make a map.
    pub open spec fn counted(self, run: RunModel, recovering: bool, points: usize) -> Step {
        if points < self.config.min_bootstrap_stereo_points {
            self.then_close(run, TrackingStatus::Skipped)
        } else {
            self.bootstrapped(run.idx, run.timestamp_sec, run.stamp_ns).then_wait(
                run,
                Phase::Building { recovering },
                Job::BuildMap,
            )
        }
    }

    /// After a map was built: measured at first, extrapolated after a loss.
    pub open spec fn map_built(self, run: RunModel, recovering: bool) -> Step {
        self.then_close(
            run,
            if recovering {
                TrackingStatus::Skipped
            } else {
                TrackingStatus::KeyframeAccepted
            },
        )
    }

    /// After the coverage since the last frame was counted.
    pub open spec fn gyro_covered(self, run: RunModel, coverage_count: usize) -> Step {
        self.gyro_asked(run.stamp_ns, coverage_count).then_wait(
            RunModel {
                samples: match self.gyro_samples(run.stamp_ns, coverage_count) {
                    Some(w) => w,
                    None => Seq::empty(),
                },
                ..run
            },
            Phase::Estimating,
            Job::EstimatePose,
        )
    }

    /// After the map was looked at: a keyframe, or a frame that was only tracked.
    pub open spec fn judged(
        self,
        run: RunModel,
        inliers: usize,
        points: Option<usize>,
        keyframes: Seq<usize>,
    ) -> Step {
        self.resolved(run, self.inserts(run.idx, inliers, points), keyframes)
    }

    /// After it was decided whether a tracked frame becomes a keyframe.
    pub open spec fn resolved(self, run: RunModel, due: bool, keyframes: Seq<usize>) -> Step {
        if due {
            self.then_wait(
                RunModel { neighbours: self.neighbours(keyframes), ..run },
                Phase::Associating,
                Job::Associate,
            )
        } else {
            self.concluded(false, keyframes.len() as usize, run.timestamp_sec).then_close(
                run,
                TrackingStatus::Localized,
            )
        }
    }

    /// Whether a new keyframe is given its close stereo points: where they are asked for, and the
    /// frame has any.
    pub open spec fn densifies(self, stereo: bool) -> bool {
        self.config.stereo_close_depth is Some && stereo
    }

    /// After a keyframe was associated: its close stereo points, and then its growth.
    pub open spec fn associated(self, run: RunModel, stereo: bool) -> Step {
        if self.densifies(stereo) {
            self.then_wait(
                run,
                Phase::Densifying,
                Job::Densify { limit: self.config.stereo_close_depth->0 },
            )
        } else {
            self.then_grow(run, 0)
        }
    }

    /// With the neighbours before a position grown from.
    pub open spec fn then_grow(self, run: RunModel, at: int) -> Step {
        if at < run.neighbours.len() {
            self.then_wait(
                run,
                Phase::Growing { at: at as usize },
                Job::Grow { neighbour: run.neighbours[at] },
            )
        } else {
            self.then_wait(run, Phase::Inserting, Job::Insert)
        }
    }

    /// After a keyframe was inserted: its edge, where there is an inertial path and a keyframe for
    /// it to start from.
    pub open spec fn inserted(self, run: RunModel) -> Step {
        let m = self.committed(run.idx, run.timestamp_sec, run.stamp_ns);
        if self.inertial is None {
            m.then_wait(run, Phase::Fusing, Job::Fuse)
        } else {
            match self.edge_start() {
                Some((prev_idx, prev_stamp_ns)) => m.then_wait(
                    run,
                    Phase::EdgeCoverage { prev_idx, prev_stamp_ns },
                    Job::CountCoverage { from_ns: prev_stamp_ns, to_ns: run.stamp_ns },
                ),
                None => m.edge_closed(run),
            }
        }
    }

    /// With the edge dealt with: nothing before this keyframe can be asked for again.
    pub open spec fn edge_closed(self, run: RunModel) -> Step {
        self.pruned(run.stamp_ns).then_wait(run, Phase::TimingInit, Job::MeasureInit)
    }

    /// After the coverage of an edge was counted.
    pub open spec fn edge_covered(
        self,
        run: RunModel,
        prev_idx: usize,
        prev_stamp_ns: u64,
        coverage_count: usize,
    ) -> Step {
        match self.edge_interval(prev_stamp_ns, run.stamp_ns, coverage_count) {
            Ok(w) => self.then_wait(
                RunModel { samples: w, ..run },
                Phase::Integrating { prev_idx },
                Job::Integrate { prev_idx, prev_stamp_ns },
            ),
            Err(e) => self.refused(e).edge_closed(run),
        }
    }

    /// After an edge was integrated.
    pub open spec fn edge_measured(self, run: RunModel, prev_idx: usize, dt: Double) -> Step {
        let m = self.integrated(dt);
        if Double::zero_spec().lt_spec(dt) {
            m.then_wait(run, Phase::AddingFactor, Job::AddFactor { prev_idx })
        } else {
            m.edge_closed(run)
        }
    }

    /// After the initialization was timed.
    pub open spec fn init_timed(self, run: RunModel, since_attempt: Double, since_window: Double)
        -> Step {
        match self.init_step(since_attempt, since_window) {
            InitStep::Idle => self.then_wait(run, Phase::Fusing, Job::Fuse),
            InitStep::CheckReadiness { start_kf_idx } => self.then_wait(
                run,
                Phase::CheckingReadiness { start_kf_idx },
                Job::CheckReadiness { start_kf_idx },
            ),
            InitStep::Refine { start_kf_idx, stage } => self.attempted().then_solve(
                run,
                start_kf_idx,
                stage,
            ),
        }
    }

    /// With a solve to be done.
    pub open spec fn then_solve(self, run: RunModel, start_kf_idx: usize, stage: InitStage) -> Step {
        self.then_wait(
            run,
            Phase::Solving { stage },
            Job::Solve {
                start_kf_idx,
                stage,
                apply: self.inertial is Some && self.inertial->0.cfg.enable_inertial_ba,
            },
        )
    }

    /// With the window looked at.
    pub open spec fn looked(self, run: RunModel, start_kf_idx: usize, ready: bool) -> Step {
        if ready {
            self.then_solve(run, start_kf_idx, InitStage::Initial)
        } else {
            self.then_wait(run, Phase::Fusing, Job::Fuse)
        }
    }

    /// After a window's readiness was seen.
    pub open spec fn readiness_known(
        self,
        run: RunModel,
        start_kf_idx: usize,
        ready: bool,
        since_log: Double,
    ) -> Step {
        let i = self.inertial->0;
        let m = self.readiness_seen(ready, run.timestamp_sec, since_log);
        if log_due(i.last_window_log, since_log, ready, i.cfg.init_retry) {
            m.then_wait(
                run,
                Phase::Describing { start_kf_idx, ready },
                Job::DescribeWindow { start_kf_idx, ready },
            )
        } else {
            m.looked(run, start_kf_idx, ready)
        }
    }

    /// After the map was fused.
    pub open spec fn fused(self, run: RunModel, keyframes: usize) -> Step {
        let plan = self.ba_plan(keyframes);
        self.then_wait(run, Phase::Adjusting { adjusted: plan != BaPlan::Skip }, Job::Adjust { plan })
    }

    /// After a pose estimate was rejected: the frame coasts, and is looked for in a map that is
    /// worth it.
    pub open spec fn missed(self, run: RunModel, candidate: RigidPose, keyframes: usize) -> Step {
        let m = self.coasted(candidate).losing(run.timestamp_sec);
        let run = RunModel { keyframes, ..run };
        if self.map_established(keyframes) && self.config.relocalization is Some {
            m.then_wait(run, Phase::Ranking, Job::RankKeyframes)
        } else {
            m.then_time_loss(run)
        }
    }

    /// With the frame not found.
    pub open spec fn then_time_loss(self, run: RunModel) -> Step {
        self.then_wait(
            run,
            Phase::TimingLoss,
            Job::MeasureLoss { lost_since_sec: self.lost_since(run.timestamp_sec) },
        )
    }

    /// With the candidates before a position tried.
    pub open spec fn then_match(self, run: RunModel, tried: int) -> Step {
        if tried < run.candidates.len() {
            self.then_wait(
                run,
                Phase::Matching { tried: tried as usize },
                Job::Match { candidate: run.candidates[tried] },
            )
        } else {
            self.then_time_loss(run)
        }
    }

    /// After the keyframes were ranked.
    pub open spec fn ranked(self, run: RunModel, squared: Seq<Double>, descriptors: usize) -> Step {
        self.then_match(
            RunModel {
                candidates: if descriptors > 0 {
                    self.candidates(squared)
                } else {
                    Seq::empty()
                },
                ..run
            },
            0,
        )
    }

    /// After a candidate was tried.
    pub open spec fn matched(self, run: RunModel, tried: usize, found: Option<Found>) -> Step {
        if found is Some && found->0.inliers >= self.config.relocalization->0.min_inliers {
            self.found(found->0.pose, found->0.keyframe_idx, run.timestamp_sec).then_close(
                run,
                TrackingStatus::Localized,
            )
        } else {
            self.then_match(run, tried + 1)
        }
    }

    /// After a loss was timed: wait, or give the map up and bootstrap a new one.
    pub open spec fn loss_timed(self, run: RunModel, lost_for: Double, since_log: Double) -> Step {
        let m = self.lost(run.timestamp_sec, lost_for, since_log, run.keyframes);
        if self.gives_up(run.keyframes, lost_for) {
            m.then_wait(
                run,
                Phase::Counting { recovering: true },
                Job::GiveUp {
                    drop_map: self.config.reset_map_on_loss,
                    report: if log_due(
                        self.last_loss_log,
                        since_log,
                        self.map_established(run.keyframes),
                        Double { bits: LOSS_LOG_RETRY_BITS },
                    ) {
                        Some(self.losses_suppressed)
                    } else {
                        None
                    },
                },
            )
        } else {
            m.then_close(run, TrackingStatus::Skipped)
        }
    }

    /// What a closed frame is to whoever asked for it.
    pub open spec fn outcome(self, run: RunModel, status: TrackingStatus) -> TrackStatus {
        if status == TrackingStatus::Skipped {
            TrackStatus::Untracked
        } else {
            TrackStatus::Localized(
                crate::track::TrackedPose {
                    stamp: run.stamp_ns,
                    pose_world_to_cam: self.state.pose_world_to_cam,
                    keyframe: status == TrackingStatus::KeyframeAccepted,
                },
            )
        }
    }

    /// After a job was finished: a map was built, a keyframe given its stereo points, grown or
    /// inserted, a window reported on, or an edge added.
    #[verifier::opaque]
    pub open spec fn after_finished(self, run: RunModel) -> Step {
        match run.phase {
            Phase::Building { recovering } => self.map_built(run, recovering),
            Phase::Densifying => self.then_grow(run, 0),
            Phase::Growing { at } => self.then_grow(run, at + 1),
            Phase::Inserting => self.inserted(run),
            Phase::Describing { start_kf_idx, ready } => self.looked(run, start_kf_idx, ready),
            _ => self.edge_closed(run),
        }
    }

    /// After the stereo points were counted.
    #[verifier::opaque]
    pub open spec fn after_stereo_points(self, run: RunModel, points: usize) -> Step {
        self.counted(run, run.phase->Counting_recovering, points)
    }

    /// After a coverage was counted.
    #[verifier::opaque]
    pub open spec fn after_coverage(self, run: RunModel, coverage_count: usize) -> Step {
        match run.phase {
            Phase::EdgeCoverage { prev_idx, prev_stamp_ns } => self.edge_covered(
                run,
                prev_idx,
                prev_stamp_ns,
                coverage_count,
            ),
            _ => self.gyro_covered(run, coverage_count),
        }
    }

    /// After a pose estimate was accepted.
    #[verifier::opaque]
    pub open spec fn after_estimated(
        self,
        run: RunModel,
        pose: RigidPose,
        velocity: RigidPose,
        inliers: usize,
    ) -> Step {
        self.estimated(pose, velocity, inliers).then_wait(
            run,
            Phase::Judging { inliers },
            Job::CountVisible,
        )
    }

    /// After none was.
    #[verifier::opaque]
    pub open spec fn after_rejected(self, run: RunModel, candidate: RigidPose, keyframes: usize)
        -> Step {
        self.missed(run, candidate, keyframes)
    }

    /// After the map was looked at.
    #[verifier::opaque]
    pub open spec fn after_reference(
        self,
        run: RunModel,
        points: Option<usize>,
        indices: Seq<usize>,
    ) -> Step {
        self.judged(run, run.phase->Judging_inliers, points, indices)
    }

    /// After a keyframe was associated.
    #[verifier::opaque]
    pub open spec fn after_associated(self, run: RunModel, stereo: bool) -> Step {
        self.associated(run, stereo)
    }

    /// After an edge was integrated.
    #[verifier::opaque]
    pub open spec fn after_integrated(self, run: RunModel, dt: Double) -> Step {
        self.edge_measured(run, run.phase->Integrating_prev_idx, dt)
    }

    /// After the initialization was timed.
    #[verifier::opaque]
    pub open spec fn after_init_elapsed(
        self,
        run: RunModel,
        since_attempt: Double,
        since_window: Double,
    ) -> Step {
        self.init_timed(run, since_attempt, since_window)
    }

    /// After a window's readiness was seen.
    #[verifier::opaque]
    pub open spec fn after_ready(self, run: RunModel, ready: bool, since_log: Double) -> Step {
        self.readiness_known(run, run.phase->CheckingReadiness_start_kf_idx, ready, since_log)
    }

    /// After a solve.
    #[verifier::opaque]
    pub open spec fn after_solved(self, run: RunModel, solved: Option<SolvedInit>) -> Step {
        self.init_concluded(run.phase->Solving_stage, solved, run.timestamp_sec).then_wait(
            run,
            Phase::Fusing,
            Job::Fuse,
        )
    }

    /// After the map was fused, or culled.
    #[verifier::opaque]
    pub open spec fn after_keyframes(self, run: RunModel, keyframes: usize) -> Step {
        match run.phase {
            Phase::Fusing => self.fused(run, keyframes),
            _ => self.concluded(true, keyframes, run.timestamp_sec).then_close(
                run,
                TrackingStatus::KeyframeAccepted,
            ),
        }
    }

    /// After the map was adjusted.
    #[verifier::opaque]
    pub open spec fn after_adjusted(self, run: RunModel, newest: Option<NewestKeyframe>) -> Step {
        self.synced(newest, run.phase->Adjusting_adjusted).then_wait(run, Phase::Culling, Job::Cull)
    }

    /// After the keyframes were ranked.
    #[verifier::opaque]
    pub open spec fn after_distances(self, run: RunModel, squared: Seq<Double>, descriptors: usize)
        -> Step {
        self.ranked(run, squared, descriptors)
    }

    /// After a candidate was tried.
    #[verifier::opaque]
    pub open spec fn after_matched(self, run: RunModel, found: Option<Found>) -> Step {
        self.matched(run, run.phase->Matching_tried, found)
    }

    /// After a loss was timed.
    #[verifier::opaque]
    pub open spec fn after_loss_elapsed(self, run: RunModel, lost_for: Double, since_log: Double)
        -> Step {
        self.loss_timed(run, lost_for, since_log)
    }

    /// After the totals were counted.
    #[verifier::opaque]
    pub open spec fn after_totals(self, run: RunModel, keyframes: usize, active_points: usize)
        -> Step {
        let status = run.phase->Closing_status;
        self.finished(status, run.stamp_ns, keyframes, active_points).then_wait(
            run,
            Phase::Done,
            Job::Done(self.outcome(run, status)),
        )
    }

    /// After the report that was waited for.
    pub open spec fn advanced(self, run: RunModel, report: Report) -> Step {
        match report {
            Report::Finished => self.after_finished(run),
            Report::StereoPoints(n) => self.after_stereo_points(run, n),
            Report::Coverage(n) => self.after_coverage(run, n),
            Report::Estimated { pose, velocity, inliers } => self.after_estimated(
                run,
                pose,
                velocity,
                inliers,
            ),
            Report::Rejected { candidate, keyframes } => self.after_rejected(
                run,
                candidate,
                keyframes,
            ),
            Report::Reference { points, indices } => self.after_reference(run, points, indices@),
            Report::Associated { stereo } => self.after_associated(run, stereo),
            Report::Integrated(dt) => self.after_integrated(run, dt),
            Report::InitElapsed { since_attempt, since_window } => self.after_init_elapsed(
                run,
                since_attempt,
                since_window,
            ),
            Report::Ready { ready, since_log } => self.after_ready(run, ready, since_log),
            Report::Solved(solved) => self.after_solved(run, solved),
            Report::Keyframes(n) => self.after_keyframes(run, n),
            Report::Adjusted(newest) => self.after_adjusted(run, newest),
            Report::Distances { squared, descriptors } => self.after_distances(
                run,
                squared@,
                descriptors,
            ),
            Report::Matched(found) => self.after_matched(run, found),
            Report::LossElapsed { lost_for, since_log } => self.after_loss_elapsed(
                run,
                lost_for,
                since_log,
            ),
            Report::Totals { keyframes, active_points } => self.after_totals(
                run,
                keyframes,
                active_points,
            ),
        }
    }
}

/// Whether a tracker, a run and a job are what a step says.
pub open spec fn took(step: Step, tracker: Tracker, run: FrameRun, job: Job) -> bool {
    tracker@ == step.tracker && run@ == step.run && job == step.job
}

impl Tracker {
    /// Starts on a frame that was admitted, at its time in seconds.
    pub fn start_run(&self, start: &FrameStart, timestamp_sec: Double, stamp_ns: u64) -> (r: (
        FrameRun,
        Job,
    ))
        ensures
            took(self@.started(*start, timestamp_sec, stamp_ns), *self, r.0, r.1),
            self@.runs(r.0@),
    {
        let mut run = FrameRun {
            idx: start.idx,
            stamp_ns,
            timestamp_sec,
            phase: Phase::Estimating,
            keyframes: 0,
            samples: Vec::new(),
            neighbours: Vec::new(),
            candidates: Vec::new(),
        };
        if start.bootstrap {
            run.phase = Phase::Counting { recovering: false };
            return (run, Job::CountStereo);
        }
        match self.last_frame_stamp_ns {
            Some(from_ns) => {
                if self.inertial.is_some() {
                    run.phase = Phase::GyroCoverage;
                    return (run, Job::CountCoverage { from_ns, to_ns: stamp_ns });
                }
            },
            None => {},
        }
        (run, Job::EstimatePose)
    }

    /// Takes the report on a run's job in, and gives the next one.
    pub fn advance(&mut self, run: &mut FrameRun, report: Report) -> (job: Job)
        requires
            old(self)@.wf(),
            old(self)@.can_step(),
            old(self)@.runs(old(run)@),
            old(run).phase.expects(report),
        ensures
            final(self)@.wf(),
            final(self)@.runs(final(run)@),
            took(old(self)@.advanced(old(run)@, report), *final(self), *final(run), job),
    {
        match report {
            Report::Finished => self.on_finished(run),
            Report::StereoPoints(n) => self.on_stereo_points(run, n),
            Report::Coverage(n) => self.on_coverage(run, n),
            Report::Estimated { pose, velocity, inliers } => {
                reveal(TrackerModel::after_estimated);
                self.accept_estimate(pose, velocity, inliers);
                run.phase = Phase::Judging { inliers };
                Job::CountVisible
            },
            Report::Rejected { candidate, keyframes } => self.on_rejected(run, candidate, keyframes),
            Report::Reference { points, indices } => self.on_reference(run, points, &indices),
            Report::Associated { stereo } => self.on_associated(run, stereo),
            Report::Integrated(dt) => self.on_integrated(run, dt),
            Report::InitElapsed { since_attempt, since_window } => self.on_init_elapsed(
                run,
                since_attempt,
                since_window,
            ),
            Report::Ready { ready, since_log } => self.on_ready(run, ready, since_log),
            Report::Solved(solved) => self.on_solved(run, solved),
            Report::Keyframes(n) => self.on_keyframes(run, n),
            Report::Adjusted(newest) => self.on_adjusted(run, newest),
            Report::Distances { squared, descriptors } => self.on_distances(
                run,
                &squared,
                descriptors,
            ),
            Report::Matched(found) => self.on_matched(run, found),
            Report::LossElapsed { lost_for, since_log } => self.on_loss_elapsed(
                run,
                lost_for,
                since_log,
            ),
            Report::Totals { keyframes, active_points } => self.on_totals(
                run,
                keyframes,
                active_points,
            ),
        }
    }

    fn on_finished(&mut self, run: &mut FrameRun) -> (job: Job)
        requires
            old(self)@.wf(),
            old(self)@.can_step(),
            old(self)@.runs(old(run)@),
            old(run).phase.expects(Report::Finished),
        ensures
            final(self)@.wf(),
            final(self)@.runs(final(run)@),
            took(old(self)@.after_finished(old(run)@), *final(self), *final(run), job),
    {
        reveal(TrackerModel::after_finished);
        match run.phase {
            Phase::Building { recovering } => {
                let status = if recovering {
                    TrackingStatus::Skipped
                } else {
                    TrackingStatus::KeyframeAccepted
                };
                run.phase = Phase::Closing { status };
                Job::Close
            },
            Phase::Densifying => self.grow(run, 0),
            Phase::Growing { at } => {
                let all: usize = run.neighbours.len();
                assert(at < all);
                self.grow(run, at + 1)
            },
            Phase::Inserting => self.on_inserted(run),
            Phase::Describing { start_kf_idx, ready } => self.after_look(run, start_kf_idx, ready),
            _ => self.close_edge(run),
        }
    }

    fn on_stereo_points(&mut self, run: &mut FrameRun, points: usize) -> (job: Job)
        requires
            old(self)@.wf(),
            old(self)@.can_step(),
            old(self)@.runs(old(run)@),
            old(run).phase is Counting,
        ensures
            final(self)@.wf(),
            final(self)@.runs(final(run)@),
            took(old(self)@.after_stereo_points(old(run)@, points), *final(self), *final(run), job),
    {
        reveal(TrackerModel::after_stereo_points);
        let recovering = match run.phase {
            Phase::Counting { recovering } => recovering,
            _ => false,
        };
        match self.bootstrap_stereo(points, run.idx, run.timestamp_sec, run.stamp_ns) {
            TrackingStatus::Skipped => {
                run.phase = Phase::Closing { status: TrackingStatus::Skipped };
                Job::Close
            },
            _ => {
                run.phase = Phase::Building { recovering };
                Job::BuildMap
            },
        }
    }

    fn on_coverage(&mut self, run: &mut FrameRun, coverage_count: usize) -> (job: Job)
        requires
            old(self)@.wf(),
            old(self)@.can_step(),
            old(self)@.runs(old(run)@),
            old(run).phase.expects(Report::Coverage(coverage_count)),
        ensures
            final(self)@.wf(),
            final(self)@.runs(final(run)@),
            took(old(self)@.after_coverage(old(run)@, coverage_count), *final(self), *final(run), job),
    {
        reveal(TrackerModel::after_coverage);
        match run.phase {
            Phase::EdgeCoverage { prev_idx, prev_stamp_ns } => {
                match self.edge_window(prev_stamp_ns, run.stamp_ns, coverage_count) {
                    Some(samples) => {
                        run.samples = samples;
                        run.phase = Phase::Integrating { prev_idx };
                        Job::Integrate { prev_idx, prev_stamp_ns }
                    },
                    None => self.close_edge(run),
                }
            },
            _ => {
                run.samples = match self.gyro_window(run.stamp_ns, coverage_count) {
                    Some(samples) => samples,
                    None => Vec::new(),
                };
                run.phase = Phase::Estimating;
                Job::EstimatePose
            },
        }
    }

    fn on_reference(&mut self, run: &mut FrameRun, points: Option<usize>, keyframes: &Vec<usize>) -> (job: Job)
        requires
            old(self)@.wf(),
            old(self)@.can_step(),
            old(self)@.runs(old(run)@),
            old(run).phase is Judging,
        ensures
            final(self)@.wf(),
            final(self)@.runs(final(run)@),
            took(old(self)@.after_reference(old(run)@, points, keyframes@), *final(self), *final(run), job),
    {
        reveal(TrackerModel::after_reference);
        let inliers: usize = match run.phase {
            Phase::Judging { inliers } => inliers,
            _ => 0,
        };
        let due = self.keyframe_due(run.idx, inliers, points);
        self.resolve(run, due, keyframes)
    }

    /// Goes on with a frame that was tracked: to the insertion of a keyframe where one is due, and
    /// to the frame's end otherwise.
    pub fn resolve(&mut self, run: &mut FrameRun, due: bool, keyframes: &Vec<usize>) -> (job: Job)
        requires
            old(self)@.wf(),
            old(self)@.can_step(),
            old(self)@.runs(old(run)@),
            old(run).phase is Judging,
        ensures
            final(self)@.wf(),
            final(self)@.runs(final(run)@),
            took(old(self)@.resolved(old(run)@, due, keyframes@), *final(self), *final(run), job),
    {
        if due {
            run.neighbours = self.covisible_neighbours(keyframes);
            run.phase = Phase::Associating;
            return Job::Associate;
        }
        let status = self.conclude_tracked(false, keyframes.len(), run.timestamp_sec);
        run.phase = Phase::Closing { status };
        Job::Close
    }

    fn on_associated(&mut self, run: &mut FrameRun, stereo: bool) -> (job: Job)
        requires
            old(self)@.wf(),
            old(run).phase is Associating,
        ensures
            final(self)@.wf(),
            final(self)@.runs(final(run)@),
            took(old(self)@.after_associated(old(run)@, stereo), *final(self), *final(run), job),
    {
        reveal(TrackerModel::after_associated);
        match self.config.stereo_close_depth {
            Some(limit) => {
                if stereo {
                    run.phase = Phase::Densifying;
                    return Job::Densify { limit };
                }
            },
            None => {},
        }
        self.grow(run, 0)
    }

    fn grow(&self, run: &mut FrameRun, at: usize) -> (job: Job)
        ensures
            self@.runs(final(run)@),
            took(self@.then_grow(old(run)@, at as int), *self, *final(run), job),
    {
        if at < run.neighbours.len() {
            let neighbour: usize = run.neighbours[at];
            run.phase = Phase::Growing { at };
            Job::Grow { neighbour }
        } else {
            run.phase = Phase::Inserting;
            Job::Insert
        }
    }

    fn on_inserted(&mut self, run: &mut FrameRun) -> (job: Job)
        requires
            old(self)@.wf(),
            old(self)@.can_step(),
            old(self)@.runs(old(run)@),
            old(run).phase is Inserting,
        ensures
            final(self)@.wf(),
            final(self)@.runs(final(run)@),
            took(old(self)@.inserted(old(run)@), *final(self), *final(run), job),
    {
        let prev = self.previous_edge();
        self.commit_keyframe(run.idx, run.timestamp_sec, run.stamp_ns);
        if self.inertial.is_none() {
            run.phase = Phase::Fusing;
            return Job::Fuse;
        }
        match prev {
            Some((prev_idx, prev_stamp_ns)) => {
                run.phase = Phase::EdgeCoverage { prev_idx, prev_stamp_ns };
                Job::CountCoverage { from_ns: prev_stamp_ns, to_ns: run.stamp_ns }
            },
            None => self.close_edge(run),
        }
    }

    fn close_edge(&mut self, run: &mut FrameRun) -> (job: Job)
        requires
            old(self)@.wf(),
            old(self).inertial is Some,
        ensures
            final(self)@.wf(),
            final(self)@.runs(final(run)@),
            took(old(self)@.edge_closed(old(run)@), *final(self), *final(run), job),
    {
        self.prune_samples(run.stamp_ns);
        run.phase = Phase::TimingInit;
        Job::MeasureInit
    }

    fn on_integrated(&mut self, run: &mut FrameRun, dt: Double) -> (job: Job)
        requires
            old(self)@.wf(),
            old(self)@.can_step(),
            old(self)@.runs(old(run)@),
            old(run).phase is Integrating,
        ensures
            final(self)@.wf(),
            final(self)@.runs(final(run)@),
            took(old(self)@.after_integrated(old(run)@, dt), *final(self), *final(run), job),
    {
        reveal(TrackerModel::after_integrated);
        let prev_idx: usize = match run.phase {
            Phase::Integrating { prev_idx } => prev_idx,
            _ => 0,
        };
        if self.edge_integrated(dt) {
            run.phase = Phase::AddingFactor;
            Job::AddFactor { prev_idx }
        } else {
            self.close_edge(run)
        }
    }

    fn on_init_elapsed(&mut self, run: &mut FrameRun, since_attempt: Double, since_window: Double) -> (job: Job)
        requires
            old(self)@.wf(),
            old(self)@.can_step(),
            old(self)@.runs(old(run)@),
            old(run).phase is TimingInit,
        ensures
            final(self)@.wf(),
            final(self)@.runs(final(run)@),
            took(old(self)@.after_init_elapsed(old(run)@, since_attempt, since_window), *final(self), *final(run), job),
    {
        reveal(TrackerModel::after_init_elapsed);
        match self.run_inertial_init(since_attempt, since_window) {
            InitStep::Idle => {
                run.phase = Phase::Fusing;
                Job::Fuse
            },
            InitStep::CheckReadiness { start_kf_idx } => {
                run.phase = Phase::CheckingReadiness { start_kf_idx };
                Job::CheckReadiness { start_kf_idx }
            },
            InitStep::Refine { start_kf_idx, stage } => {
                run.phase = Phase::Solving { stage };
                Job::Solve { start_kf_idx, stage, apply: self.applies_inertial_init() }
            },
        }
    }

    fn after_look(&self, run: &mut FrameRun, start_kf_idx: usize, ready: bool) -> (job: Job)
        requires
            self.inertial is Some,
        ensures
            self@.runs(final(run)@),
            took(self@.looked(old(run)@, start_kf_idx, ready), *self, *final(run), job),
    {
        if ready {
            let stage = InitStage::Initial;
            run.phase = Phase::Solving { stage };
            Job::Solve { start_kf_idx, stage, apply: self.applies_inertial_init() }
        } else {
            run.phase = Phase::Fusing;
            Job::Fuse
        }
    }

    fn on_ready(&mut self, run: &mut FrameRun, ready: bool, since_log: Double) -> (job: Job)
        requires
            old(self)@.wf(),
            old(self)@.can_step(),
            old(self)@.runs(old(run)@),
            old(run).phase is CheckingReadiness,
        ensures
            final(self)@.wf(),
            final(self)@.runs(final(run)@),
            took(old(self)@.after_ready(old(run)@, ready, since_log), *final(self), *final(run), job),
    {
        reveal(TrackerModel::after_ready);
        let start_kf_idx: usize = match run.phase {
            Phase::CheckingReadiness { start_kf_idx } => start_kf_idx,
            _ => 0,
        };
        let look = self.init_readiness(ready, run.timestamp_sec, since_log);
        if look.report {
            run.phase = Phase::Describing { start_kf_idx, ready };
            Job::DescribeWindow { start_kf_idx, ready }
        } else {
            self.after_look(run, start_kf_idx, look.solve)
        }
    }

    fn on_solved(&mut self, run: &mut FrameRun, solved: Option<SolvedInit>) -> (job: Job)
        requires
            old(self)@.wf(),
            old(self)@.can_step(),
            old(self)@.runs(old(run)@),
            old(run).phase is Solving,
        ensures
            final(self)@.wf(),
            final(self)@.runs(final(run)@),
            took(old(self)@.after_solved(old(run)@, solved), *final(self), *final(run), job),
    {
        reveal(TrackerModel::after_solved);
        match run.phase {
            Phase::Solving { stage } => {
                self.accept_inertial_init(stage, solved, run.timestamp_sec);
            },
            _ => {},
        }
        run.phase = Phase::Fusing;
        Job::Fuse
    }

    fn on_keyframes(&mut self, run: &mut FrameRun, keyframes: usize) -> (job: Job)
        requires
            old(self)@.wf(),
            old(self)@.can_step(),
            old(self)@.runs(old(run)@),
            old(run).phase.expects(Report::Keyframes(keyframes)),
        ensures
            final(self)@.wf(),
            final(self)@.runs(final(run)@),
            took(old(self)@.after_keyframes(old(run)@, keyframes), *final(self), *final(run), job),
    {
        reveal(TrackerModel::after_keyframes);
        match run.phase {
            Phase::Fusing => {
                let plan = self.local_ba_plan(keyframes);
                run.phase = Phase::Adjusting { adjusted: plan != BaPlan::Skip };
                Job::Adjust { plan }
            },
            _ => {
                let status = self.conclude_tracked(true, keyframes, run.timestamp_sec);
                run.phase = Phase::Closing { status };
                Job::Close
            },
        }
    }

    fn on_adjusted(&mut self, run: &mut FrameRun, newest: Option<NewestKeyframe>) -> (job: Job)
        requires
            old(self)@.wf(),
            old(self)@.can_step(),
            old(self)@.runs(old(run)@),
            old(run).phase is Adjusting,
        ensures
            final(self)@.wf(),
            final(self)@.runs(final(run)@),
            took(old(self)@.after_adjusted(old(run)@, newest), *final(self), *final(run), job),
    {
        reveal(TrackerModel::after_adjusted);
        match run.phase {
            Phase::Adjusting { adjusted } => {
                self.sync_newest_keyframe(newest, adjusted);
            },
            _ => {},
        }
        run.phase = Phase::Culling;
        Job::Cull
    }

    fn on_rejected(&mut self, run: &mut FrameRun, candidate: RigidPose, keyframes: usize) -> (job: Job)
        requires
            old(self)@.wf(),
            old(self)@.can_step(),
            old(self)@.runs(old(run)@),
            old(run).phase is Estimating,
        ensures
            final(self)@.wf(),
            final(self)@.runs(final(run)@),
            took(old(self)@.after_rejected(old(run)@, candidate, keyframes), *final(self), *final(run), job),
    {
        reveal(TrackerModel::after_rejected);
        self.reject_estimate(candidate);
        let loss = self.begin_loss(run.timestamp_sec, keyframes);
        run.keyframes = keyframes;
        if loss.map_established && self.config.relocalization.is_some() {
            run.phase = Phase::Ranking;
            Job::RankKeyframes
        } else {
            self.time_loss(run)
        }
    }

    fn time_loss(&self, run: &mut FrameRun) -> (job: Job)
        ensures
            self@.runs(final(run)@),
            took(self@.then_time_loss(old(run)@), *self, *final(run), job),
    {
        let lost_since_sec = match self.state.lost_since_sec {
            Some(t) => t,
            None => run.timestamp_sec,
        };
        run.phase = Phase::TimingLoss;
        Job::MeasureLoss { lost_since_sec }
    }

    fn try_candidate(&self, run: &mut FrameRun, tried: usize) -> (job: Job)
        requires
            self.config.relocalization is Some,
        ensures
            self@.runs(final(run)@),
            took(self@.then_match(old(run)@, tried as int), *self, *final(run), job),
    {
        if tried < run.candidates.len() {
            let candidate: usize = run.candidates[tried];
            run.phase = Phase::Matching { tried };
            Job::Match { candidate }
        } else {
            self.time_loss(run)
        }
    }

    fn on_distances(&mut self, run: &mut FrameRun, squared: &Vec<Double>, descriptors: usize) -> (job: Job)
        requires
            old(self)@.wf(),
            old(self)@.can_step(),
            old(self)@.runs(old(run)@),
            old(run).phase is Ranking,
        ensures
            final(self)@.wf(),
            final(self)@.runs(final(run)@),
            took(old(self)@.after_distances(old(run)@, squared@, descriptors), *final(self), *final(run), job),
    {
        reveal(TrackerModel::after_distances);
        let loss = Loss { lost_since_sec: run.timestamp_sec, map_established: true };
        run.candidates = self.relocalization_candidates(&loss, squared, descriptors);
        self.try_candidate(run, 0)
    }

    fn on_matched(&mut self, run: &mut FrameRun, found: Option<Found>) -> (job: Job)
        requires
            old(self)@.wf(),
            old(self)@.can_step(),
            old(self)@.runs(old(run)@),
            old(run).phase is Matching,
        ensures
            final(self)@.wf(),
            final(self)@.runs(final(run)@),
            took(old(self)@.after_matched(old(run)@, found), *final(self), *final(run), job),
    {
        reveal(TrackerModel::after_matched);
        let tried: usize = match run.phase {
            Phase::Matching { tried } => tried,
            _ => 0,
        };
        match (found, &self.config.relocalization) {
            (Some(f), Some(config)) => {
                if accepts_relocalization(config, f.inliers) {
                    let status = self.relocalized(f.pose, f.keyframe_idx, run.timestamp_sec);
                    run.phase = Phase::Closing { status };
                    return Job::Close;
                }
            },
            _ => {},
        }
        assert(run.candidates.len() <= usize::MAX);
        self.try_candidate(run, tried + 1)
    }

    fn on_loss_elapsed(&mut self, run: &mut FrameRun, lost_for: Double, since_log: Double) -> (job: Job)
        requires
            old(self)@.wf(),
            old(self)@.can_step(),
            old(self)@.runs(old(run)@),
            old(run).phase is TimingLoss,
        ensures
            final(self)@.wf(),
            final(self)@.runs(final(run)@),
            took(old(self)@.after_loss_elapsed(old(run)@, lost_for, since_log), *final(self), *final(run), job),
    {
        reveal(TrackerModel::after_loss_elapsed);
        match self.not_relocalized(run.timestamp_sec, lost_for, since_log, run.keyframes) {
            LossOutcome::Wait => {
                run.phase = Phase::Closing { status: TrackingStatus::Skipped };
                Job::Close
            },
            LossOutcome::GiveUp { drop_map, report } => {
                run.phase = Phase::Counting { recovering: true };
                Job::GiveUp { drop_map, report }
            },
        }
    }

    fn on_totals(&mut self, run: &mut FrameRun, keyframes: usize, active_points: usize) -> (job: Job)
        requires
            old(self)@.wf(),
            old(self)@.can_step(),
            old(self)@.runs(old(run)@),
            old(run).phase is Closing,
        ensures
            final(self)@.wf(),
            final(self)@.runs(final(run)@),
            took(old(self)@.after_totals(old(run)@, keyframes, active_points), *final(self), *final(run), job),
    {
        reveal(TrackerModel::after_totals);
        let status = match run.phase {
            Phase::Closing { status } => status,
            _ => TrackingStatus::Skipped,
        };
        let outcome = self.finish_frame(status, run.stamp_ns, keyframes, active_points);
        run.phase = Phase::Done;
        Job::Done(outcome)
    }
}

} // verus!
