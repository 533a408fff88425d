//! The tracker: the decisions of one frame after another, apart from the geometry.
//!
//! A frame is driven through in steps. The caller does the floating-point work between two steps
//! (extracting features, solving for a pose, adjusting the map) and hands each result to the next
//! step, which says what is to be done with it:
//!
//! * [`Tracker::process_frame`] admits the frame, and says whether the map is to be dropped first
//!   and whether the frame bootstraps or is tracked;
//! * [`Tracker::bootstrap_stereo`] makes the first keyframe of a map;
//! * [`Tracker::gyro_window`], [`Tracker::accept_estimate`] and [`Tracker::reject_estimate`] take
//!   the pose estimate in, [`Tracker::keyframe_due`] to [`Tracker::sync_newest_keyframe`] a new
//!   keyframe, [`Tracker::conclude_tracked`] the frame that was tracked;
//! * [`Tracker::begin_loss`], [`Tracker::relocalized`] and [`Tracker::not_relocalized`] deal with a
//!   frame that was not;
//! * [`Tracker::finish_frame`] closes the frame.
use crate::association::{nearest_candidates, RelocConfig};
use crate::error::VioError;
use crate::frame::{
    camera_fault, camera_usable, count_positive, names_frame_fault, validate_camera,
    validate_frame_arrays, Distortion, FrameArrays,
};
use crate::geometry::{RigidPose, Vec3};
use crate::ieee::Double;
use crate::imu::{since_epoch_ns, ImuWindowError, RawImuSample};
use crate::inertial::{ImuBias, InertialConfig, InertialStats};
use crate::state::{
    log_due, should_log_throttled, InertialModel, InertialState, InitStage, LogMark, SystemMode,
    SystemState, TrackingStatus,
};
use vstd::prelude::*;

verus! {

/// Fewest stereo points that make a bootstrap frame worth keeping, by default.
pub const DEFAULT_MIN_BOOTSTRAP_STEREO_POINTS: usize = 50;

/// How many keyframes a new one grows from and fuses into, by default.
pub const DEFAULT_MAX_COVISIBLE_KEYFRAMES: usize = 10;

/// Local bundle adjustment needs more keyframes than this.
pub const BA_ACTIVE_KEYFRAMES: usize = 3;

/// The pattern of `5.0` seconds: how often a loss is reported while it lasts.
pub const LOSS_LOG_RETRY_BITS: u64 = 0x4014_0000_0000_0000;

/// The pattern of `5.0` seconds: when the first refinement of the initialization is due.
pub const REFINE_1_AFTER_BITS: u64 = 0x4014_0000_0000_0000;

/// The pattern of `15.0` seconds: when the second refinement is due.
pub const REFINE_2_AFTER_BITS: u64 = 0x402e_0000_0000_0000;

/// The pattern of `50.0` seconds: when refinement is over.
pub const REFINE_UNTIL_BITS: u64 = 0x4049_0000_0000_0000;

/// How often keyframes are inserted.
#[derive(Clone, Copy, Debug, PartialEq, Eq, Structural)]
pub struct KeyframePolicy {
    /// Fewest frames between two keyframes.
    pub min_frames_between: usize,
    /// Most frames between two keyframes.
    pub max_frames_between: usize,
    /// The share of the reference keyframe's points that a frame has to see not to be weak.
    pub ref_ratio: Double,
}

/// The pattern of `0.6`, the default share of the reference keyframe's points.
pub const DEFAULT_REF_RATIO_BITS: u64 = 0x3fe3_3333_3333_3333;

impl KeyframePolicy {
    /// The default: between three and eight frames, at six tenths of the reference's points.
    pub open spec fn standard() -> KeyframePolicy {
        KeyframePolicy {
            min_frames_between: 3,
            max_frames_between: 8,
            ref_ratio: Double { bits: DEFAULT_REF_RATIO_BITS },
        }
    }
}

impl Default for KeyframePolicy {
    fn default() -> (r: KeyframePolicy)
        ensures
            r == KeyframePolicy::standard(),
    {
        let (min_frames_between, max_frames_between, ratio_bits) = default_policy();
        KeyframePolicy {
            min_frames_between,
            max_frames_between,
            ref_ratio: Double { bits: ratio_bits },
        }
    }
}

/// `kornia_slam::KeyframePolicy::default`: three frames at least, eight at most, and a ratio of
/// 0.6, by its bit pattern.
#[verifier::external_body]
fn default_policy() -> (r: (usize, usize, u64))
    ensures
        r == (3usize, 8usize, DEFAULT_REF_RATIO_BITS),
{
    let policy = kornia_slam::KeyframePolicy::default();
    (policy.min_frames_between, policy.max_frames_between, policy.ref_ratio.to_bits())
}

/// Fewest inliers that can make a keyframe for weakness of the reference.
pub const WEAK_MIN_INLIERS: usize = 15;

/// A bound on the map points of one keyframe, far above any memory.
pub const MAX_REFERENCE_POINTS: u64 = 0x4_0000_0000_0000;

/// Whether a keyframe is due: at once where there is none, never before the minimum gap, always
/// from the maximum gap on, and between the two when the reference keyframe has no points or the
/// frame still sees fewer than a `share` of them, provided it sees enough to go by.
pub open spec fn keyframe_due(
    policy: KeyframePolicy,
    curr_idx: usize,
    last_keyframe_idx: Option<usize>,
    inliers: usize,
    reference_points: usize,
    share: int,
) -> bool {
    match last_keyframe_idx {
        None => true,
        Some(last) => {
            let gap = if curr_idx >= last {
                curr_idx - last
            } else {
                0
            };
            gap >= policy.min_frames_between && (gap >= policy.max_frames_between
                || reference_points == 0 || (inliers >= WEAK_MIN_INLIERS && inliers < share))
        },
    }
}

/// How many of a keyframe's points a ratio, given by its bit pattern, asks a frame to see, as the
/// policy reckons it: the product in binary64, truncated.
pub uninterp spec fn reference_share(ratio_bits: u64, reference_points: usize) -> usize;

/// `kornia_slam::KeyframePolicy::should_insert`. What the ratio comes to for a count of points is
/// left to [`reference_share`], but for the default ratio: below the bound given, the product in
/// binary64, truncated, is the whole part of three fifths of the count. The ratio is handed over
/// by its pattern, which `bincode` reads as the eight bytes of the number.
#[verifier::external_body]
fn policy_should_insert(
    policy: &KeyframePolicy,
    curr_idx: usize,
    last_keyframe_idx: Option<usize>,
    inliers: usize,
    reference_points: usize,
) -> (r: bool)
    ensures
        r == keyframe_due(
            *policy,
            curr_idx,
            last_keyframe_idx,
            inliers,
            reference_points,
            reference_share(policy.ref_ratio.bits, reference_points) as int,
        ),
        policy.ref_ratio.bits == DEFAULT_REF_RATIO_BITS && reference_points < MAX_REFERENCE_POINTS
            ==> r == keyframe_due(
            *policy,
            curr_idx,
            last_keyframe_idx,
            inliers,
            reference_points,
            reference_points * 3 / 5,
        ),
{
    let pattern = policy.ref_ratio.bits.to_le_bytes();
    let (ref_ratio, _) = bincode::decode_from_slice(&pattern, bincode::config::standard())
        .unwrap_or_default();
    let outside = kornia_slam::KeyframePolicy {
        min_frames_between: policy.min_frames_between,
        max_frames_between: policy.max_frames_between,
        ref_ratio,
    };
    outside.should_insert(curr_idx, last_keyframe_idx, inliers, reference_points)
}

/// How long a loss is waited out before the map is given up.
#[derive(Clone, Copy, Debug, PartialEq, Eq, Structural)]
pub struct LossPolicy {
    /// A map of no more keyframes than this is given up at once.
    pub min_keyframes_for_grace: usize,
    /// How long any other is kept without a relocalizer, in seconds.
    pub grace_period_sec: Double,
}

/// The pattern of `0.5` seconds, the default grace period.
pub const DEFAULT_GRACE_BITS: u64 = 0x3fe0_0000_0000_0000;

impl LossPolicy {
    /// The default: half a second, for a map of more than ten keyframes.
    pub open spec fn standard() -> LossPolicy {
        LossPolicy {
            min_keyframes_for_grace: 10,
            grace_period_sec: Double { bits: DEFAULT_GRACE_BITS },
        }
    }
}

impl Default for LossPolicy {
    fn default() -> (r: LossPolicy)
        ensures
            r == LossPolicy::standard(),
    {
        let (min_keyframes_for_grace, grace_bits) = default_loss_policy();
        LossPolicy { min_keyframes_for_grace, grace_period_sec: Double { bits: grace_bits } }
    }
}

/// `kornia_slam::tracking::TrackingLossRecoveryPolicy::default`: ten keyframes, and the grace
/// period of 0.5 seconds that its `grace_period_sec` gives a tracker whose inertial path does not
/// vouch for it, by its bit pattern.
#[verifier::external_body]
fn default_loss_policy() -> (r: (usize, u64))
    ensures
        r == (10usize, DEFAULT_GRACE_BITS),
{
    let policy = kornia_slam::tracking::TrackingLossRecoveryPolicy::default();
    (policy.min_keyframes_for_grace, policy.grace_period_sec(false).to_bits())
}

/// Tracker settings.
#[derive(Clone, Copy, Debug, PartialEq, Eq, Structural)]
pub struct TrackerConfig {
    /// Stereo baseline, in metres.
    pub baseline: Double,
    /// How often keyframes are inserted.
    pub keyframe_policy: KeyframePolicy,
    /// How long a loss is waited out.
    pub tracking_loss_recovery: LossPolicy,
    /// Whether the map is adjusted after an insertion.
    pub enable_local_ba: bool,
    /// The depth up to which stereo points are added to the map, in metres.
    pub stereo_close_depth: Option<Double>,
    /// Fewest stereo points of a bootstrap frame.
    pub min_bootstrap_stereo_points: usize,
    /// How to match a lost frame against the map; `None` does not.
    pub relocalization: Option<RelocConfig>,
    /// Whether a map that is given up is dropped.
    pub reset_map_on_loss: bool,
    /// The map is dropped once it has this many keyframes.
    pub max_keyframes: Option<usize>,
    /// How many keyframes a new one grows from and fuses into.
    pub max_covisible_keyframes: usize,
    /// The inertial path; `None` is stereo only.
    pub inertial: Option<InertialConfig>,
}

impl TrackerConfig {
    /// The settings for a rig with the given baseline and near depth, everything else at its
    /// default: stereo only, relocalizing, keeping the map across losses, with no bound on it.
    pub open spec fn standard(baseline: Double, close_depth: Double) -> TrackerConfig {
        TrackerConfig {
            baseline,
            keyframe_policy: KeyframePolicy::standard(),
            tracking_loss_recovery: LossPolicy::standard(),
            enable_local_ba: true,
            stereo_close_depth: Some(close_depth),
            min_bootstrap_stereo_points: DEFAULT_MIN_BOOTSTRAP_STEREO_POINTS,
            relocalization: Some(RelocConfig::standard()),
            reset_map_on_loss: false,
            max_keyframes: None,
            max_covisible_keyframes: DEFAULT_MAX_COVISIBLE_KEYFRAMES,
            inertial: None,
        }
    }

    /// The default settings for a rig with the given baseline and near depth.
    pub fn new(baseline: Double, close_depth: Double) -> (r: TrackerConfig)
        ensures
            r == TrackerConfig::standard(baseline, close_depth),
    {
        TrackerConfig {
            baseline,
            keyframe_policy: KeyframePolicy::default(),
            tracking_loss_recovery: LossPolicy::default(),
            enable_local_ba: true,
            stereo_close_depth: Some(close_depth),
            min_bootstrap_stereo_points: DEFAULT_MIN_BOOTSTRAP_STEREO_POINTS,
            relocalization: Some(RelocConfig::default()),
            reset_map_on_loss: false,
            max_keyframes: None,
            max_covisible_keyframes: DEFAULT_MAX_COVISIBLE_KEYFRAMES,
            inertial: None,
        }
    }
}

/// What a frame came to.
#[derive(Clone, Copy, Debug, PartialEq, Eq, Structural)]
pub enum TrackStatus {
    /// The pose was measured.
    Localized(TrackedPose),
    /// It was not; the pose is extrapolated.
    Untracked,
}

/// A measured pose.
#[derive(Clone, Copy, Debug, PartialEq, Eq, Structural)]
pub struct TrackedPose {
    /// Capture time, in nanoseconds.
    pub stamp: u64,
    /// World-to-camera pose.
    pub pose_world_to_cam: RigidPose,
    /// Whether the frame was made a keyframe.
    pub keyframe: bool,
}

impl TrackedPose {
    /// Where the camera is, given its centre: the transform a viewer wants.
    pub fn cam_in_world(&self, centre: Vec3) -> (r: RigidPose)
        ensures
            r == crate::pose::placed(self.pose_world_to_cam, centre),
    {
        crate::pose::cam_in_world(&self.pose_world_to_cam, centre)
    }
}

/// Counters of the tracker.
#[derive(Clone, Copy, Debug, PartialEq, Eq, Structural)]
pub struct TrackerStats {
    /// Frames admitted since the last reset.
    pub frames: u64,
    /// Keypoints in the last frame.
    pub keypoints: usize,
    /// Keypoints of it with a stereo depth.
    pub stereo_matches: usize,
    /// Inliers of its pose.
    pub inliers: usize,
    /// Live map points.
    pub map_points: usize,
    /// Keyframes in the map.
    pub keyframes: usize,
    /// What became of the last frame.
    pub status: Option<TrackingStatus>,
    /// Stage after it.
    pub mode: SystemMode,
    /// Frames in a row that were not tracked.
    pub consecutive_failures: u32,
}

impl TrackerStats {
    /// Everything at zero.
    pub open spec fn zero() -> TrackerStats {
        TrackerStats {
            frames: 0,
            keypoints: 0,
            stereo_matches: 0,
            inliers: 0,
            map_points: 0,
            keyframes: 0,
            status: None,
            mode: SystemMode::Bootstrap,
            consecutive_failures: 0,
        }
    }
}

impl Default for TrackerStats {
    fn default() -> (r: TrackerStats)
        ensures
            r == TrackerStats::zero(),
    {
        TrackerStats {
            frames: 0,
            keypoints: 0,
            stereo_matches: 0,
            inliers: 0,
            map_points: 0,
            keyframes: 0,
            status: None,
            mode: SystemMode::Bootstrap,
            consecutive_failures: 0,
        }
    }
}

/// The mathematical content of a [`Tracker`].
#[verifier::ext_equal]
pub struct TrackerModel {
    /// Lens distortion of the camera.
    pub distortion: Distortion,
    /// Settings.
    pub config: TrackerConfig,
    /// Where the tracker stands.
    pub state: SystemState,
    /// Stamp of the last frame.
    pub last_frame_stamp_ns: Option<u64>,
    /// Frames whose gyroscope prior could not be had.
    pub gyro_prior_unavailable: u64,
    /// Whether the map is to be dropped before the next frame.
    pub pending_map_reset: bool,
    /// Index of the next frame.
    pub next_frame_idx: usize,
    /// Stamp of the first frame.
    pub epoch_ns: Option<u64>,
    /// Time of the newest keyframe.
    pub last_keyframe_timestamp_sec: Option<Double>,
    /// Stamp of the newest keyframe.
    pub last_keyframe_stamp_ns: Option<u64>,
    /// The inertial path.
    pub inertial: Option<InertialModel>,
    /// Counters.
    pub stats: TrackerStats,
    /// The last loss reported.
    pub last_loss_log: Option<LogMark>,
    /// Losses not reported since.
    pub losses_suppressed: u64,
    /// How many tracker worlds there have been before this one.
    pub world_generation: u64,
    /// Live map points when last counted.
    pub live_map_points: usize,
    /// The keyframe count and generation they were counted at.
    pub live_map_points_key: (usize, u64),
}

/// Stereo tracker state, from one frame to the next.
#[derive(Debug)]
pub struct Tracker {
    /// Lens distortion of the camera.
    pub distortion: Distortion,
    /// Settings.
    pub config: TrackerConfig,
    /// Where the tracker stands.
    pub state: SystemState,
    /// Stamp of the last frame, in nanoseconds.
    pub last_frame_stamp_ns: Option<u64>,
    /// Frames whose gyroscope prior could not be had.
    pub gyro_prior_unavailable: u64,
    /// Whether the map is to be dropped before the next frame.
    pub pending_map_reset: bool,
    /// Index of the next frame.
    pub next_frame_idx: usize,
    /// Stamp of the first frame, in nanoseconds.
    pub epoch_ns: Option<u64>,
    /// Time of the newest keyframe, in seconds.
    pub last_keyframe_timestamp_sec: Option<Double>,
    /// Stamp of the newest keyframe, in nanoseconds.
    pub last_keyframe_stamp_ns: Option<u64>,
    /// The inertial path.
    pub inertial: Option<InertialState>,
    /// Counters.
    pub stats: TrackerStats,
    /// The last loss reported.
    pub last_loss_log: Option<LogMark>,
    /// Losses not reported since.
    pub losses_suppressed: u64,
    /// How many tracker worlds there have been before this one.
    pub world_generation: u64,
    /// Live map points when last counted.
    pub live_map_points: usize,
    /// The keyframe count and generation they were counted at.
    pub live_map_points_key: (usize, u64),
}

impl View for Tracker {
    type V = TrackerModel;

    open spec fn view(&self) -> TrackerModel {
        TrackerModel {
            distortion: self.distortion,
            config: self.config,
            state: self.state,
            last_frame_stamp_ns: self.last_frame_stamp_ns,
            gyro_prior_unavailable: self.gyro_prior_unavailable,
            pending_map_reset: self.pending_map_reset,
            next_frame_idx: self.next_frame_idx,
            epoch_ns: self.epoch_ns,
            last_keyframe_timestamp_sec: self.last_keyframe_timestamp_sec,
            last_keyframe_stamp_ns: self.last_keyframe_stamp_ns,
            inertial: match self.inertial {
                Some(i) => Some(i@),
                None => None,
            },
            stats: self.stats,
            last_loss_log: self.last_loss_log,
            losses_suppressed: self.losses_suppressed,
            world_generation: self.world_generation,
            live_map_points: self.live_map_points,
            live_map_points_key: self.live_map_points_key,
        }
    }
}

/// How an admitted frame is to be processed.
#[derive(Clone, Copy, Debug, PartialEq, Eq, Structural)]
pub struct FrameStart {
    /// The frame's index.
    pub idx: usize,
    /// Nanoseconds since the first frame.
    pub since_epoch_ns: u64,
    /// Whether the map is to be dropped first.
    pub drop_map: bool,
    /// Whether the frame bootstraps a map; otherwise it is tracked against the one there is.
    pub bootstrap: bool,
}

/// What a lost frame is to be tried with.
#[derive(Clone, Copy, Debug, PartialEq, Eq, Structural)]
pub struct Loss {
    /// When the present run of failures began, in seconds.
    pub lost_since_sec: Double,
    /// Whether the map is worth waiting for.
    pub map_established: bool,
}

/// What becomes of a frame that could not be relocalized.
#[derive(Clone, Copy, Debug, PartialEq, Eq, Structural)]
pub enum LossOutcome {
    /// The map is kept; the frame is skipped.
    Wait,
    /// The map is given up, and the frame is to bootstrap a new one. Whatever comes of that, the
    /// frame is skipped: its pose is extrapolated.
    GiveUp {
        /// Whether the map is dropped.
        drop_map: bool,
        /// How many losses went unreported before this one, if it is to be reported.
        report: Option<u64>,
    },
}

/// What the inertial initializer is to do after a keyframe.
#[derive(Clone, Copy, Debug, PartialEq, Eq, Structural)]
pub enum InitStep {
    /// Nothing.
    Idle,
    /// See whether the window that starts at this keyframe is ready.
    CheckReadiness {
        /// First keyframe of the window.
        start_kf_idx: usize,
    },
    /// Solve again over the window that starts at this keyframe.
    Refine {
        /// First keyframe of the window.
        start_kf_idx: usize,
        /// Which refinement.
        stage: InitStage,
    },
}

/// What is to be done about a window's readiness.
#[derive(Clone, Copy, Debug, PartialEq, Eq, Structural)]
pub struct Readiness {
    /// Whether to report on the window.
    pub report: bool,
    /// Whether to solve.
    pub solve: bool,
}

/// The pose and velocity of a tracker whose map was turned onto gravity.
#[derive(Clone, Copy, Debug, PartialEq, Eq, Structural)]
pub struct AlignedState {
    /// World-to-camera pose.
    pub pose_world_to_cam: RigidPose,
    /// Metric velocity in the world.
    pub velocity_world: Vec3,
}

/// A solved inertial initialization.
#[derive(Clone, Copy, Debug, PartialEq, Eq, Structural)]
pub struct SolvedInit {
    /// Estimated biases.
    pub bias: ImuBias,
    /// Gravity in the world it is applied to.
    pub gravity_world: Vec3,
    /// Where the tracker is in that world, if the window places it.
    pub aligned: Option<AlignedState>,
}

/// How the map is to be adjusted.
#[derive(Clone, Copy, Debug, PartialEq, Eq, Structural)]
pub enum BaPlan {
    /// Not at all.
    Skip,
    /// From what is seen alone.
    Visual,
    /// With the inertial factors.
    Inertial {
        /// Camera-to-sensor extrinsic.
        imu_t_bc: RigidPose,
        /// Estimated gravity.
        gravity_world: Vec3,
    },
}

/// The newest keyframe as the map has it.
#[derive(Clone, Copy, Debug, PartialEq, Eq, Structural)]
pub struct NewestKeyframe {
    /// World-to-camera pose.
    pub pose_world_to_cam: RigidPose,
    /// Biases.
    pub imu_bias: ImuBias,
    /// Metric velocity in the world.
    pub velocity_world: Vec3,
}

/// The inertial counters with one more interval refused.
pub open spec fn with_refusal(stats: InertialStats, error: ImuWindowError) -> InertialStats {
    match error {
        ImuWindowError::DroppedSamples { .. } => InertialStats {
            refused_dropped: (stats.refused_dropped + 1) as u64,
            ..stats
        },
        ImuWindowError::Gap { .. } => InertialStats {
            refused_gap: (stats.refused_gap + 1) as u64,
            ..stats
        },
        ImuWindowError::TooFewSamples { .. } => InertialStats {
            refused_too_few: (stats.refused_too_few + 1) as u64,
            ..stats
        },
        ImuWindowError::NoSamples { .. } => InertialStats {
            refused_no_samples: (stats.refused_no_samples + 1) as u64,
            ..stats
        },
        ImuWindowError::NonPositiveInterval { .. } => InertialStats {
            refused_bad_interval: (stats.refused_bad_interval + 1) as u64,
            ..stats
        },
    }
}

impl TrackerModel {
    /// The representation invariant: the sample ring's.
    pub open spec fn wf(self) -> bool {
        self.inertial matches Some(i) ==> i.buffer.wf()
    }

    /// A tracker before any frame.
    pub open spec fn fresh(distortion: Distortion, config: TrackerConfig) -> TrackerModel {
        TrackerModel {
            distortion,
            config,
            state: SystemState::fresh(),
            last_frame_stamp_ns: None,
            gyro_prior_unavailable: 0,
            pending_map_reset: false,
            next_frame_idx: 0,
            epoch_ns: None,
            last_keyframe_timestamp_sec: None,
            last_keyframe_stamp_ns: None,
            inertial: match config.inertial {
                Some(cfg) => Some(InertialModel::fresh(cfg)),
                None => None,
            },
            stats: TrackerStats::zero(),
            last_loss_log: None,
            losses_suppressed: 0,
            world_generation: 0,
            live_map_points: 0,
            live_map_points_key: (0, 0),
        }
    }

    /// A new tracker world: everything that spoke of the old map is gone, and the generation tells
    /// the two apart. Frame indices and the time base go on.
    pub open spec fn reset(self, keep_calibration: bool) -> TrackerModel {
        TrackerModel {
            state: SystemState::fresh(),
            last_keyframe_timestamp_sec: None,
            last_keyframe_stamp_ns: None,
            inertial: match self.inertial {
                Some(i) => Some(i.reset(keep_calibration)),
                None => None,
            },
            stats: TrackerStats::zero(),
            last_loss_log: None,
            losses_suppressed: 0,
            pending_map_reset: false,
            last_frame_stamp_ns: None,
            world_generation: (self.world_generation + 1) as u64,
            ..self
        }
    }

    /// The tracker after a pending drop of the map.
    pub open spec fn settled(self) -> TrackerModel {
        if self.pending_map_reset {
            self.reset(true)
        } else {
            self
        }
    }

    /// The stamp times are counted from, once a frame at `stamp_ns` is admitted.
    pub open spec fn epoch(self, stamp_ns: u64) -> u64 {
        match self.epoch_ns {
            Some(e) => e,
            None => stamp_ns,
        }
    }

    /// The tracker with a frame admitted.
    pub open spec fn admitted(self, frame: FrameArrays, stamp_ns: u64) -> TrackerModel {
        let m = self.settled();
        TrackerModel {
            next_frame_idx: (m.next_frame_idx + 1) as usize,
            epoch_ns: Some(m.epoch(stamp_ns)),
            state: SystemState {
                mode: if m.state.mode == SystemMode::ImuInit {
                    SystemMode::Bootstrap
                } else {
                    m.state.mode
                },
                ..m.state
            },
            stats: TrackerStats {
                frames: (m.stats.frames + 1) as u64,
                keypoints: frame.keypoints_xy@.len() as usize,
                stereo_matches: frame.stereo_matches() as usize,
                inliers: 0,
                ..m.stats
            },
            ..m
        }
    }

    /// The tracker with a bootstrap keyframe.
    pub open spec fn bootstrapped(self, frame_idx: usize, timestamp_sec: Double, stamp_ns: u64)
        -> TrackerModel {
        TrackerModel {
            state: SystemState {
                current_keyframe_idx: Some(frame_idx),
                last_keyframe_idx: Some(frame_idx),
                velocity: None,
                mode: SystemMode::Tracking,
                ..self.state
            },
            last_keyframe_timestamp_sec: Some(timestamp_sec),
            last_keyframe_stamp_ns: Some(stamp_ns),
            inertial: match self.inertial {
                Some(i) => Some(i.armed(frame_idx, timestamp_sec, stamp_ns)),
                None => None,
            },
            ..self
        }
    }

    /// Where an inertial edge to the next keyframe starts: the newest keyframe's index and stamp.
    pub open spec fn edge_start(self) -> Option<(usize, u64)> {
        match (self.state.last_keyframe_idx, self.last_keyframe_stamp_ns) {
            (Some(idx), Some(stamp)) => Some((idx, stamp)),
            _ => None,
        }
    }

    /// The tracker with a frame made its newest keyframe, and the one tracked against.
    pub open spec fn committed(self, frame_idx: usize, timestamp_sec: Double, stamp_ns: u64)
        -> TrackerModel {
        TrackerModel {
            state: SystemState {
                current_keyframe_idx: Some(frame_idx),
                last_keyframe_idx: Some(frame_idx),
                ..self.state
            },
            last_keyframe_timestamp_sec: Some(timestamp_sec),
            last_keyframe_stamp_ns: Some(stamp_ns),
            ..self
        }
    }

    /// Whether an insertion into a map of this many keyframes reaches the bound on it.
    pub open spec fn reaches_bound(self, inserted: bool, keyframes: usize) -> bool {
        inserted && self.config.max_keyframes is Some && keyframes >= self.config.max_keyframes->0
    }

    /// The tracker with the bound on the map looked at.
    pub open spec fn bounded(self, inserted: bool, keyframes: usize) -> TrackerModel {
        TrackerModel {
            pending_map_reset: self.pending_map_reset || self.reaches_bound(inserted, keyframes),
            ..self
        }
    }

    /// The tracker after a frame whose pose was measured.
    pub open spec fn concluded(self, inserted: bool, keyframes: usize, timestamp_sec: Double)
        -> TrackerModel {
        let m = self.bounded(inserted, keyframes);
        TrackerModel {
            state: SystemState {
                lost_since_sec: None,
                last_frame_timestamp_sec: timestamp_sec,
                ..m.state
            },
            ..m
        }
    }

    /// The tracker with a frame found again in its map.
    pub open spec fn found(self, pose: RigidPose, keyframe_idx: usize, timestamp_sec: Double)
        -> TrackerModel {
        TrackerModel {
            state: SystemState {
                pose_world_to_cam: pose,
                velocity: None,
                current_keyframe_idx: Some(keyframe_idx),
                lost_since_sec: None,
                last_frame_timestamp_sec: timestamp_sec,
                ..self.state
            },
            ..self
        }
    }

    /// The tracker after a lost frame that was not found again: waiting, or with its map given up.
    pub open spec fn lost(
        self,
        timestamp_sec: Double,
        lost_for: Double,
        since_log: Double,
        keyframes: usize,
    ) -> TrackerModel {
        if self.gives_up(keyframes, lost_for) {
            self.loss_noted(timestamp_sec, since_log, self.map_established(keyframes)).given_up()
        } else {
            TrackerModel {
                state: SystemState { last_frame_timestamp_sec: timestamp_sec, ..self.state },
                ..self
            }
        }
    }

    /// What the ring answers for the interval since the last frame, if there is one to ask.
    pub open spec fn gyro_interval(self, stamp_ns: u64, coverage_count: usize) -> Option<
        Result<Seq<RawImuSample>, ImuWindowError>,
    > {
        match (self.last_frame_stamp_ns, self.inertial) {
            (Some(t0), Some(i)) => Some(i.buffer.window(t0, stamp_ns, i.cfg.gates, coverage_count)),
            _ => None,
        }
    }

    /// The samples to predict the camera's rotation from, where the ring covers the interval with
    /// two or more.
    pub open spec fn gyro_samples(self, stamp_ns: u64, coverage_count: usize) -> Option<
        Seq<RawImuSample>,
    > {
        match self.gyro_interval(stamp_ns, coverage_count) {
            Some(Ok(w)) => if w.len() >= 2 {
                Some(w)
            } else {
                None
            },
            _ => None,
        }
    }

    /// The tracker after they were asked for: a prior that could not be had is counted.
    pub open spec fn gyro_asked(self, stamp_ns: u64, coverage_count: usize) -> TrackerModel {
        if self.gyro_interval(stamp_ns, coverage_count) is Some && self.gyro_samples(
            stamp_ns,
            coverage_count,
        ) is None {
            TrackerModel {
                gyro_prior_unavailable: (self.gyro_prior_unavailable + 1) as u64,
                ..self
            }
        } else {
            self
        }
    }

    /// The tracker with a pose estimate and the motion since the last frame.
    pub open spec fn estimated(self, pose: RigidPose, velocity: RigidPose, inliers: usize)
        -> TrackerModel {
        TrackerModel {
            state: SystemState { pose_world_to_cam: pose, velocity: Some(velocity), ..self.state },
            stats: TrackerStats { inliers, ..self.stats },
            ..self
        }
    }

    /// The tracker at the predicted pose.
    pub open spec fn coasted(self, candidate: RigidPose) -> TrackerModel {
        TrackerModel {
            state: SystemState { pose_world_to_cam: candidate, ..self.state },
            stats: TrackerStats { inliers: 0, ..self.stats },
            ..self
        }
    }

    /// When the run of losses that a loss at this time belongs to began.
    pub open spec fn lost_since(self, timestamp_sec: Double) -> Double {
        match self.state.lost_since_sec {
            Some(t) => t,
            None => timestamp_sec,
        }
    }

    /// The tracker with a run of losses begun, or going on.
    pub open spec fn losing(self, timestamp_sec: Double) -> TrackerModel {
        TrackerModel {
            state: SystemState {
                lost_since_sec: Some(self.lost_since(timestamp_sec)),
                ..self.state
            },
            ..self
        }
    }

    /// Whether a tracked frame becomes a keyframe. Without a keyframe to track against it does not.
    pub open spec fn inserts(self, frame_idx: usize, inliers: usize, reference_points: Option<usize>)
        -> bool {
        reference_points is Some && keyframe_due(
            self.config.keyframe_policy,
            frame_idx,
            self.state.last_keyframe_idx,
            inliers,
            reference_points->0,
            reference_share(
                self.config.keyframe_policy.ref_ratio.bits,
                reference_points->0,
            ) as int,
        )
    }

    /// The keyframes a new one grows from and fuses into: the newest ones, newest first.
    pub open spec fn neighbours(self, keyframes: Seq<usize>) -> Seq<usize> {
        Seq::new(
            if keyframes.len() <= self.config.max_covisible_keyframes {
                keyframes.len()
            } else {
                self.config.max_covisible_keyframes as nat
            },
            |i: int| keyframes[keyframes.len() - 1 - i],
        )
    }

    /// The keyframes to match a lost frame against, as positions in the list of their distances,
    /// nearest first.
    pub open spec fn candidates(self, distances_sq: Seq<Double>) -> Seq<usize> {
        crate::association::nearest_positions(distances_sq, self.config.relocalization->0.max_candidates)
    }

    /// Whether a map of this many keyframes is worth waiting for.
    pub open spec fn map_established(self, keyframes: usize) -> bool {
        keyframes > self.config.tracking_loss_recovery.min_keyframes_for_grace
    }

    /// How long an established map is waited for: the grace period, or a relocalizer's patience if
    /// that is longer.
    pub open spec fn give_up_after(self) -> Double {
        let grace = self.config.tracking_loss_recovery.grace_period_sec;
        match self.config.relocalization {
            Some(r) => grace.max_spec(r.patience),
            None => grace,
        }
    }

    /// Whether a loss of this duration ends in giving the map up.
    pub open spec fn gives_up(self, keyframes: usize, lost_for: Double) -> bool {
        !self.map_established(keyframes) || self.give_up_after().le_spec(lost_for)
    }

    /// The tracker with a loss reported, or left unreported.
    pub open spec fn loss_noted(self, timestamp_sec: Double, since_log: Double, established: bool)
        -> TrackerModel {
        if log_due(
            self.last_loss_log,
            since_log,
            established,
            Double { bits: LOSS_LOG_RETRY_BITS },
        ) {
            TrackerModel {
                last_loss_log: Some(LogMark { at: timestamp_sec, verdict: established }),
                losses_suppressed: 0,
                ..self
            }
        } else {
            TrackerModel { losses_suppressed: (self.losses_suppressed + 1) as u64, ..self }
        }
    }

    /// The tracker with its map given up: dropped, in a new world that keeps the calibration, or
    /// left as it is, in a new world that starts from the extrapolated pose.
    pub open spec fn given_up(self) -> TrackerModel {
        if self.config.reset_map_on_loss {
            self.reset(true)
        } else {
            TrackerModel {
                state: self.state.restarted(),
                world_generation: (self.world_generation + 1) as u64,
                ..self
            }
        }
    }

    /// What the inertial initializer is to do, given the seconds since the last attempt and since
    /// the window began.
    pub open spec fn init_step(self, since_attempt: Double, since_window: Double) -> InitStep {
        match self.inertial {
            None => InitStep::Idle,
            Some(i) => match i.start_kf_idx {
                None => InitStep::Idle,
                Some(start_kf_idx) => if !self.state.imu_initialized {
                    if i.dry_run_accepted || (i.last_init_attempt_sec is Some
                        && since_attempt.lt_spec(i.cfg.init_retry)) {
                        InitStep::Idle
                    } else {
                        InitStep::CheckReadiness { start_kf_idx }
                    }
                } else if i.window_start_sec is None || (Double {
                    bits: REFINE_UNTIL_BITS,
                }).le_spec(since_window) {
                    InitStep::Idle
                } else if !i.stats.first_refinement_done && (Double {
                    bits: REFINE_1_AFTER_BITS,
                }).lt_spec(since_window) {
                    InitStep::Refine { start_kf_idx, stage: InitStage::Refine1 }
                } else if i.stats.first_refinement_done && !i.stats.second_refinement_done && (
                Double { bits: REFINE_2_AFTER_BITS }).lt_spec(since_window) {
                    InitStep::Refine { start_kf_idx, stage: InitStage::Refine2 }
                } else {
                    InitStep::Idle
                },
            },
        }
    }

    /// The tracker with the inertial path replaced.
    pub open spec fn with_inertial(self, i: InertialModel) -> TrackerModel {
        TrackerModel { inertial: Some(i), ..self }
    }

    /// The tracker after an accepted solve: applied where the inertial path may move a pose, only
    /// counted where it may not.
    pub open spec fn init_accepted(self, solved: SolvedInit, now_sec: Double) -> TrackerModel {
        let i = self.inertial->0;
        let counted = InertialStats {
            init_accepted: (i.stats.init_accepted + 1) as u64,
            ..i.stats
        };
        if i.cfg.enable_inertial_ba {
            TrackerModel {
                state: SystemState {
                    pose_world_to_cam: match solved.aligned {
                        Some(a) => a.pose_world_to_cam,
                        None => self.state.pose_world_to_cam,
                    },
                    velocity_world: match solved.aligned {
                        Some(a) => a.velocity_world,
                        None => self.state.velocity_world,
                    },
                    velocity: None,
                    imu_initialized: true,
                    imu_init_timestamp_sec: Some(now_sec),
                    ..self.state
                },
                world_generation: (self.world_generation + 1) as u64,
                inertial: Some(
                    InertialModel {
                        bias: solved.bias,
                        gravity_world: solved.gravity_world,
                        stats: counted,
                        ..i
                    },
                ),
                ..self
            }
        } else {
            self.with_inertial(InertialModel { dry_run_accepted: true, stats: counted, ..i })
        }
    }

    /// The tracker with a pass of the initializer marked as done; the first one has no mark.
    pub open spec fn stage_done(self, stage: InitStage) -> TrackerModel {
        let i = self.inertial->0;
        match stage {
            InitStage::Initial => self,
            InitStage::Refine1 => self.with_inertial(
                InertialModel {
                    stats: InertialStats { first_refinement_done: true, ..i.stats },
                    ..i
                },
            ),
            InitStage::Refine2 => self.with_inertial(
                InertialModel {
                    stats: InertialStats { second_refinement_done: true, ..i.stats },
                    ..i
                },
            ),
        }
    }

    /// The tracker with a frame closed.
    pub open spec fn finished(
        self,
        status: TrackingStatus,
        stamp_ns: u64,
        keyframes: usize,
        active_points: usize,
    ) -> TrackerModel {
        let fresh_count = self.live_map_points_key != (keyframes, self.world_generation);
        TrackerModel {
            last_frame_stamp_ns: Some(stamp_ns),
            stats: TrackerStats {
                status: Some(status),
                mode: self.state.mode,
                consecutive_failures: if status != TrackingStatus::Skipped {
                    0
                } else if self.stats.consecutive_failures == u32::MAX {
                    u32::MAX
                } else {
                    (self.stats.consecutive_failures + 1) as u32
                },
                ..self.stats
            },
            live_map_points: if fresh_count {
                active_points
            } else {
                self.live_map_points
            },
            live_map_points_key: (keyframes, self.world_generation),
            ..self
        }
    }
}

impl Tracker {
    /// A tracker for a camera. A camera or baseline that is not usable is refused frame by frame.
    pub fn new(distortion: Distortion, config: TrackerConfig) -> (r: Tracker)
        ensures
            r@ == TrackerModel::fresh(distortion, config),
            r@.wf(),
    {
        Tracker {
            distortion,
            config,
            state: SystemState::new(),
            last_frame_stamp_ns: None,
            gyro_prior_unavailable: 0,
            pending_map_reset: false,
            next_frame_idx: 0,
            epoch_ns: None,
            last_keyframe_timestamp_sec: None,
            last_keyframe_stamp_ns: None,
            inertial: match config.inertial {
                Some(cfg) => Some(InertialState::new(cfg)),
                None => None,
            },
            stats: TrackerStats::default(),
            last_loss_log: None,
            losses_suppressed: 0,
            world_generation: 0,
            live_map_points: 0,
            live_map_points_key: (0, 0),
        }
    }

    /// Admits a stereo pair for feature extraction: the camera must be usable, and the two images
    /// of one size.
    pub fn process_stereo(&self, left_w: usize, left_h: usize, right_w: usize, right_h: usize) -> (r:
        Result<(), VioError>)
        ensures
            r is Ok <==> camera_usable(self.distortion, self.config.baseline) && left_w == right_w
                && left_h == right_h,
            r matches Err(e) ==> e == if !camera_usable(self.distortion, self.config.baseline) {
                camera_fault(self.distortion, self.config.baseline)
            } else {
                VioError::StereoSizeMismatch { left_w, left_h, right_w, right_h }
            },
    {
        match validate_camera(&self.distortion, self.config.baseline) {
            Ok(()) => {},
            Err(e) => {
                return Err(e);
            },
        }
        if left_w != right_w || left_h != right_h {
            return Err(VioError::StereoSizeMismatch { left_w, left_h, right_w, right_h });
        }
        Ok(())
    }

    /// Admits a frame: checks the camera and the frame, drops the map if that is pending, and
    /// numbers the frame.
    pub fn process_frame(&mut self, frame: &FrameArrays, stamp_ns: u64) -> (r: Result<
        FrameStart,
        VioError,
    >)
        requires
            old(self)@.wf(),
            old(self).next_frame_idx < usize::MAX,
            old(self).stats.frames < u64::MAX,
            old(self).world_generation < u64::MAX,
        ensures
            final(self)@.wf(),
            r is Ok <==> camera_usable(old(self).distortion, old(self).config.baseline)
                && frame.parallel() && frame.all_finite(),
            r matches Err(e) ==> final(self)@ == old(self)@ && if !camera_usable(
                old(self).distortion,
                old(self).config.baseline,
            ) {
                e == camera_fault(old(self).distortion, old(self).config.baseline)
            } else {
                names_frame_fault(*frame, e)
            },
            r matches Ok(s) ==> {
                &&& final(self)@ == old(self)@.admitted(*frame, stamp_ns)
                &&& s.idx == old(self).next_frame_idx
                &&& s.since_epoch_ns == if stamp_ns >= old(self)@.epoch(stamp_ns) {
                    stamp_ns - old(self)@.epoch(stamp_ns)
                } else {
                    0
                }
                &&& s.drop_map == old(self).pending_map_reset
                &&& s.bootstrap == (final(self)@.state.mode == SystemMode::Bootstrap)
            },
    {
        match validate_camera(&self.distortion, self.config.baseline) {
            Ok(()) => {},
            Err(e) => {
                return Err(e);
            },
        }
        match validate_frame_arrays(frame) {
            Ok(()) => {},
            Err(e) => {
                return Err(e);
            },
        }
        let drop_map = self.apply_pending_map_reset();
        let idx: usize = self.next_frame_idx;
        self.next_frame_idx += 1;
        let epoch: u64 = match self.epoch_ns {
            Some(e) => e,
            None => stamp_ns,
        };
        self.epoch_ns = Some(epoch);
        self.stats.frames += 1;
        self.stats.keypoints = frame.keypoints_xy.len();
        self.stats.stereo_matches = count_positive(&frame.depth);
        self.stats.inliers = 0;
        if self.state.mode == SystemMode::ImuInit {
            self.state.mode = SystemMode::Bootstrap;
        }
        Ok(
            FrameStart {
                idx,
                since_epoch_ns: since_epoch_ns(stamp_ns, epoch),
                drop_map,
                bootstrap: self.state.mode == SystemMode::Bootstrap,
            },
        )
    }

    /// Drops the map if the bound on it was reached. Returns whether it was.
    pub fn apply_pending_map_reset(&mut self) -> (dropped: bool)
        requires
            old(self)@.wf(),
            old(self).world_generation < u64::MAX,
        ensures
            dropped == old(self).pending_map_reset,
            final(self)@ == old(self)@.settled(),
            final(self)@.wf(),
    {
        if !self.pending_map_reset {
            return false;
        }
        self.reset_keeping_calibration();
        true
    }

    /// Arms the bound on the map: an insertion that reaches the cap has the map dropped before the
    /// next frame.
    pub fn arm_map_bound(&mut self, inserted: bool, keyframes: usize)
        ensures
            final(self)@ == old(self)@.bounded(inserted, keyframes),
    {
        match self.config.max_keyframes {
            Some(cap) => {
                if inserted && keyframes >= cap {
                    self.pending_map_reset = true;
                }
            },
            None => {},
        }
    }

    /// Starts over in a new world, as a consumer asked: the estimated biases go too.
    pub fn reset(&mut self)
        requires
            old(self)@.wf(),
            old(self).world_generation < u64::MAX,
        ensures
            final(self)@ == old(self)@.reset(false),
            final(self)@.wf(),
    {
        self.reset_inner(false);
    }

    /// Starts over in a new world because the map had to go: the biases belong to the sensor and
    /// stay.
    pub fn reset_keeping_calibration(&mut self)
        requires
            old(self)@.wf(),
            old(self).world_generation < u64::MAX,
        ensures
            final(self)@ == old(self)@.reset(true),
            final(self)@.wf(),
    {
        self.reset_inner(true);
    }

    fn reset_inner(&mut self, keep_calibration: bool)
        requires
            old(self)@.wf(),
            old(self).world_generation < u64::MAX,
        ensures
            final(self)@ == old(self)@.reset(keep_calibration),
            final(self)@.wf(),
    {
        self.state = SystemState::new();
        self.last_keyframe_timestamp_sec = None;
        self.last_keyframe_stamp_ns = None;
        match &mut self.inertial {
            Some(inert) => {
                inert.reset(keep_calibration);
            },
            None => {},
        }
        self.stats = TrackerStats::default();
        self.last_loss_log = None;
        self.losses_suppressed = 0;
        self.pending_map_reset = false;
        self.last_frame_stamp_ns = None;
        self.world_generation += 1;
    }

    /// Makes a map from one stereo frame, where enough of it has depth. The frame's pose is the
    /// one the tracker holds.
    pub fn bootstrap_stereo(
        &mut self,
        stereo_points: usize,
        frame_idx: usize,
        timestamp_sec: Double,
        stamp_ns: u64,
    ) -> (r: TrackingStatus)
        requires
            old(self)@.wf(),
        ensures
            final(self)@.wf(),
            stereo_points < old(self).config.min_bootstrap_stereo_points ==> r
                == TrackingStatus::Skipped && final(self)@ == old(self)@,
            stereo_points >= old(self).config.min_bootstrap_stereo_points ==> r
                == TrackingStatus::KeyframeAccepted && final(self)@ == old(self)@.bootstrapped(
                frame_idx,
                timestamp_sec,
                stamp_ns,
            ),
    {
        if stereo_points < self.config.min_bootstrap_stereo_points {
            return TrackingStatus::Skipped;
        }
        self.state.current_keyframe_idx = Some(frame_idx);
        self.state.last_keyframe_idx = Some(frame_idx);
        self.state.velocity = None;
        self.state.mode = SystemMode::Tracking;
        self.last_keyframe_timestamp_sec = Some(timestamp_sec);
        self.last_keyframe_stamp_ns = Some(stamp_ns);
        match &mut self.inertial {
            Some(inert) => {
                inert.arm_window(frame_idx, timestamp_sec, stamp_ns);
            },
            None => {},
        }
        TrackingStatus::KeyframeAccepted
    }

    /// The samples to predict the camera's rotation since the last frame from, where the ring
    /// covers that interval with two or more; otherwise the prior counts as unavailable. Without an
    /// inertial path, or before the second frame, there is nothing to count.
    pub fn gyro_window(&mut self, stamp_ns: u64, coverage_count: usize) -> (r: Option<
        Vec<RawImuSample>,
    >)
        requires
            old(self)@.wf(),
            old(self).gyro_prior_unavailable < u64::MAX,
        ensures
            final(self)@.wf(),
            final(self)@ == old(self)@.gyro_asked(stamp_ns, coverage_count),
            match r {
                Some(v) => old(self)@.gyro_samples(stamp_ns, coverage_count) == Some(v@),
                None => old(self)@.gyro_samples(stamp_ns, coverage_count) is None,
            },
    {
        let t0: u64 = match self.last_frame_stamp_ns {
            Some(t0) => t0,
            None => {
                return None;
            },
        };
        let window = match &self.inertial {
            Some(inert) => inert.buffer.window(t0, stamp_ns, &inert.cfg.gates, coverage_count),
            None => {
                return None;
            },
        };
        match window {
            Ok(v) => {
                if v.len() >= 2 {
                    return Some(v);
                }
            },
            Err(_) => {},
        }
        self.gyro_prior_unavailable += 1;
        None
    }

    /// Takes an accepted pose estimate in, with the motion since the last frame.
    pub fn accept_estimate(&mut self, pose: RigidPose, velocity: RigidPose, inliers: usize)
        ensures
            final(self)@ == old(self)@.estimated(pose, velocity, inliers),
    {
        self.state.pose_world_to_cam = pose;
        self.state.velocity = Some(velocity);
        self.stats.inliers = inliers;
    }

    /// Falls back on the predicted pose where no estimate was accepted.
    pub fn reject_estimate(&mut self, candidate: RigidPose)
        ensures
            final(self)@ == old(self)@.coasted(candidate),
    {
        self.state.pose_world_to_cam = candidate;
        self.stats.inliers = 0;
    }

    /// Whether a tracked frame becomes a keyframe. `reference_points` is how many map points the
    /// keyframe tracked against is associated with, if the map holds it.
    pub fn keyframe_due(
        &self,
        frame_idx: usize,
        inliers: usize,
        reference_points: Option<usize>,
    ) -> (r: bool)
        ensures
            r == self@.inserts(frame_idx, inliers, reference_points),
            self@.config.keyframe_policy.ref_ratio.bits == DEFAULT_REF_RATIO_BITS
                && reference_points is Some && reference_points->0 < MAX_REFERENCE_POINTS ==> r
                == keyframe_due(
                self@.config.keyframe_policy,
                frame_idx,
                self@.state.last_keyframe_idx,
                inliers,
                reference_points->0,
                reference_points->0 * 3 / 5,
            ),
    {
        match reference_points {
            Some(n) => policy_should_insert(
                &self.config.keyframe_policy,
                frame_idx,
                self.state.last_keyframe_idx,
                inliers,
                n,
            ),
            None => false,
        }
    }

    /// The newest keyframe's index and stamp, where an inertial edge to the next one starts.
    pub fn previous_edge(&self) -> (r: Option<(usize, u64)>)
        ensures
            r == self@.edge_start(),
    {
        match self.state.last_keyframe_idx {
            Some(idx) => match self.last_keyframe_stamp_ns {
                Some(stamp) => Some((idx, stamp)),
                None => None,
            },
            None => None,
        }
    }

    /// The keyframes a new one grows from and fuses into: the newest ones, newest first.
    pub fn covisible_neighbours(&self, keyframes: &Vec<usize>) -> (r: Vec<usize>)
        ensures
            r@ == self@.neighbours(keyframes@),
    {
        let mut r: Vec<usize> = Vec::new();
        let mut i: usize = 0;
        while i < keyframes.len() && i < self.config.max_covisible_keyframes
            invariant
                i <= keyframes@.len(),
                i <= self.config.max_covisible_keyframes,
                r@.len() == i,
                forall|k: int|
                    0 <= k < i ==> #[trigger] r@[k] == keyframes@[keyframes@.len() - 1 - k],
            decreases keyframes@.len() - i,
        {
            r.push(keyframes[keyframes.len() - 1 - i]);
            i += 1;
        }
        assert(r@ =~= self@.neighbours(keyframes@));
        r
    }

    /// Makes a frame the newest keyframe, and the one tracked against.
    pub fn commit_keyframe(&mut self, frame_idx: usize, timestamp_sec: Double, stamp_ns: u64)
        ensures
            final(self)@ == old(self)@.committed(frame_idx, timestamp_sec, stamp_ns),
    {
        self.last_keyframe_timestamp_sec = Some(timestamp_sec);
        self.last_keyframe_stamp_ns = Some(stamp_ns);
        self.state.current_keyframe_idx = Some(frame_idx);
        self.state.last_keyframe_idx = Some(frame_idx);
    }

    /// Closes a frame whose pose was measured.
    pub fn conclude_tracked(&mut self, inserted: bool, keyframes: usize, timestamp_sec: Double) -> (r:
        TrackingStatus)
        ensures
            r == if inserted {
                TrackingStatus::KeyframeAccepted
            } else {
                TrackingStatus::Localized
            },
            final(self)@ == old(self)@.concluded(inserted, keyframes, timestamp_sec),
    {
        self.arm_map_bound(inserted, keyframes);
        self.state.lost_since_sec = None;
        self.state.last_frame_timestamp_sec = timestamp_sec;
        if inserted {
            TrackingStatus::KeyframeAccepted
        } else {
            TrackingStatus::Localized
        }
    }

    /// Notes that a frame was lost: a run of losses begins with its first frame.
    pub fn begin_loss(&mut self, timestamp_sec: Double, keyframes: usize) -> (r: Loss)
        ensures
            r.lost_since_sec == old(self)@.lost_since(timestamp_sec),
            r.map_established == old(self)@.map_established(keyframes),
            final(self)@ == old(self)@.losing(timestamp_sec),
    {
        let since = match self.state.lost_since_sec {
            Some(t) => t,
            None => timestamp_sec,
        };
        self.state.lost_since_sec = Some(since);
        Loss {
            lost_since_sec: since,
            map_established: keyframes
                > self.config.tracking_loss_recovery.min_keyframes_for_grace,
        }
    }

    /// The keyframes to match a lost frame against, as positions in the list their squared
    /// distances from the extrapolated position are given in, nearest first. None where the tracker
    /// does not relocalize, the map is too young, or the frame has nothing to match.
    pub fn relocalization_candidates(
        &self,
        loss: &Loss,
        distances_sq: &Vec<Double>,
        frame_descriptors: usize,
    ) -> (r: Vec<usize>)
        ensures
            r@ == if loss.map_established && self.config.relocalization is Some
                && frame_descriptors > 0 {
                self@.candidates(distances_sq@)
            } else {
                Seq::empty()
            },
    {
        match self.config.relocalization {
            Some(config) => {
                if loss.map_established && frame_descriptors > 0 {
                    nearest_candidates(distances_sq, config.max_candidates)
                } else {
                    Vec::new()
                }
            },
            None => Vec::new(),
        }
    }

    /// Takes a relocalization in: the loss is over, in the same world.
    pub fn relocalized(&mut self, pose: RigidPose, keyframe_idx: usize, timestamp_sec: Double) -> (r:
        TrackingStatus)
        ensures
            r == TrackingStatus::Localized,
            final(self)@ == old(self)@.found(pose, keyframe_idx, timestamp_sec),
    {
        self.state.pose_world_to_cam = pose;
        self.state.velocity = None;
        self.state.current_keyframe_idx = Some(keyframe_idx);
        self.state.lost_since_sec = None;
        self.state.last_frame_timestamp_sec = timestamp_sec;
        TrackingStatus::Localized
    }

    /// Decides on a lost frame that was not relocalized: wait, or give the map up. `lost_for` and
    /// `since_log` are the seconds since the loss began and since one was last reported.
    pub fn not_relocalized(
        &mut self,
        timestamp_sec: Double,
        lost_for: Double,
        since_log: Double,
        keyframes: usize,
    ) -> (r: LossOutcome)
        requires
            old(self)@.wf(),
            old(self).world_generation < u64::MAX,
            old(self).losses_suppressed < u64::MAX,
        ensures
            final(self)@.wf(),
            final(self)@ == old(self)@.lost(timestamp_sec, lost_for, since_log, keyframes),
            r == if old(self)@.gives_up(keyframes, lost_for) {
                LossOutcome::GiveUp {
                    drop_map: old(self).config.reset_map_on_loss,
                    report: if log_due(
                        old(self).last_loss_log,
                        since_log,
                        old(self)@.map_established(keyframes),
                        Double { bits: LOSS_LOG_RETRY_BITS },
                    ) {
                        Some(old(self).losses_suppressed)
                    } else {
                        None
                    },
                }
            } else {
                LossOutcome::Wait
            },
    {
        let established = keyframes > self.config.tracking_loss_recovery.min_keyframes_for_grace;
        let grace = self.config.tracking_loss_recovery.grace_period_sec;
        let give_up_sec = match self.config.relocalization {
            Some(r) => grace.max(r.patience),
            None => grace,
        };
        if established && !give_up_sec.le(lost_for) {
            self.state.last_frame_timestamp_sec = timestamp_sec;
            return LossOutcome::Wait;
        }
        let report = if should_log_throttled(
            self.last_loss_log,
            since_log,
            established,
            Double { bits: LOSS_LOG_RETRY_BITS },
        ) {
            let suppressed: u64 = self.losses_suppressed;
            self.last_loss_log = Some(LogMark { at: timestamp_sec, verdict: established });
            self.losses_suppressed = 0;
            Some(suppressed)
        } else {
            self.losses_suppressed += 1;
            None
        };
        let drop_map = self.config.reset_map_on_loss;
        if drop_map {
            self.reset_keeping_calibration();
        } else {
            self.state.reset();
            self.world_generation += 1;
        }
        LossOutcome::GiveUp { drop_map, report }
    }

    /// Closes a frame: counts it, recounts the live map points if the map may have changed, and
    /// says what the frame came to.
    pub fn finish_frame(
        &mut self,
        status: TrackingStatus,
        stamp_ns: u64,
        keyframes: usize,
        active_points: usize,
    ) -> (r: TrackStatus)
        ensures
            final(self)@ == old(self)@.finished(status, stamp_ns, keyframes, active_points),
            r == if status == TrackingStatus::Skipped {
                TrackStatus::Untracked
            } else {
                TrackStatus::Localized(
                    TrackedPose {
                        stamp: stamp_ns,
                        pose_world_to_cam: old(self).state.pose_world_to_cam,
                        keyframe: status == TrackingStatus::KeyframeAccepted,
                    },
                )
            },
    {
        self.last_frame_stamp_ns = Some(stamp_ns);
        self.stats.status = Some(status);
        self.stats.mode = self.state.mode;
        if self.live_map_points_key.0 != keyframes || self.live_map_points_key.1
            != self.world_generation {
            self.live_map_points = active_points;
            self.live_map_points_key = (keyframes, self.world_generation);
        }
        if status == TrackingStatus::Skipped {
            if self.stats.consecutive_failures < u32::MAX {
                self.stats.consecutive_failures += 1;
            }
            TrackStatus::Untracked
        } else {
            self.stats.consecutive_failures = 0;
            TrackStatus::Localized(
                TrackedPose {
                    stamp: stamp_ns,
                    pose_world_to_cam: self.state.pose_world_to_cam,
                    keyframe: status == TrackingStatus::KeyframeAccepted,
                },
            )
        }
    }

    /// Counters, with what the map holds now.
    pub fn stats(&self, map_points: usize, keyframes: usize) -> (r: TrackerStats)
        ensures
            r == (TrackerStats { map_points, keyframes, ..self.stats }),
    {
        TrackerStats { map_points, keyframes, ..self.stats }
    }

    /// Frames whose gyroscope prior could not be had.
    pub fn gyro_prior_unavailable(&self) -> (r: u64)
        ensures
            r == self.gyro_prior_unavailable,
    {
        self.gyro_prior_unavailable
    }

    /// The pose the tracker holds, measured or extrapolated.
    pub fn last_pose(&self) -> (r: RigidPose)
        ensures
            r == self.state.pose_world_to_cam,
    {
        self.state.pose_world_to_cam
    }

    /// The stage the tracker is in.
    pub fn mode(&self) -> (r: SystemMode)
        ensures
            r == self.state.mode,
    {
        self.state.mode
    }

    /// Which tracker world poses belong to.
    pub fn world_generation(&self) -> (r: u64)
        ensures
            r == self.world_generation,
    {
        self.world_generation
    }

    /// Live map points, as of the last change of the map's keyframes.
    pub fn live_map_points(&self) -> (r: usize)
        ensures
            r == self.live_map_points,
    {
        self.live_map_points
    }
}

} // verus!
