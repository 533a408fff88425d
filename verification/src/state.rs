//! The tracker's state apart from the map: what stage it is in, where it believes it is, and how
//! far the inertial path has come.
use crate::geometry::{RigidPose, Vec3};
use crate::ieee::{Double, SIGN64};
use crate::imu::{ImuBuffer, ImuBufferModel};
use crate::inertial::{ImuBias, InertialConfig, InertialStats};
use vstd::prelude::*;

verus! {

/// Which stage the system is in.
#[derive(Clone, Copy, Debug, PartialEq, Eq, Structural)]
pub enum SystemMode {
    /// No map yet: the next good stereo frame makes one.
    Bootstrap,
    /// A monocular stage, which this tracker never enters by itself.
    ImuInit,
    /// Tracking against the map.
    Tracking,
}

/// What became of a frame.
#[derive(Clone, Copy, Debug, PartialEq, Eq, Structural)]
pub enum TrackingStatus {
    /// Its pose was measured.
    Localized,
    /// Processed but not tracked.
    Skipped,
    /// Its pose was measured, and it was made a keyframe.
    KeyframeAccepted,
}

/// Where the tracker stands.
#[derive(Clone, Copy, Debug, PartialEq, Eq, Structural)]
pub struct SystemState {
    /// World-to-camera pose.
    pub pose_world_to_cam: RigidPose,
    /// Motion between the last two frames.
    pub velocity: Option<RigidPose>,
    /// Metric velocity in the world; of use once the inertial path is initialized.
    pub velocity_world: Vec3,
    /// Time of the last processed frame, in seconds.
    pub last_frame_timestamp_sec: Double,
    /// Whether inertial initialization has been applied.
    pub imu_initialized: bool,
    /// When it was applied, in seconds.
    pub imu_init_timestamp_sec: Option<Double>,
    /// Keyframe tracked against.
    pub current_keyframe_idx: Option<usize>,
    /// Newest keyframe.
    pub last_keyframe_idx: Option<usize>,
    /// When the present run of failures began, in seconds.
    pub lost_since_sec: Option<Double>,
    /// Stage.
    pub mode: SystemMode,
}

impl SystemState {
    /// The state before any frame.
    pub open spec fn fresh() -> SystemState {
        SystemState {
            pose_world_to_cam: RigidPose::identity_spec(),
            velocity: None,
            velocity_world: Vec3::zero_spec(),
            last_frame_timestamp_sec: Double::zero_spec(),
            imu_initialized: false,
            imu_init_timestamp_sec: None,
            current_keyframe_idx: None,
            last_keyframe_idx: None,
            lost_since_sec: None,
            mode: SystemMode::Bootstrap,
        }
    }

    /// Back to bootstrap, keeping the pose and the time of the last frame.
    pub open spec fn restarted(self) -> SystemState {
        SystemState {
            velocity: None,
            velocity_world: Vec3::zero_spec(),
            imu_initialized: false,
            imu_init_timestamp_sec: None,
            current_keyframe_idx: None,
            last_keyframe_idx: None,
            lost_since_sec: None,
            mode: SystemMode::Bootstrap,
            ..self
        }
    }

    /// The state before any frame.
    pub fn new() -> (r: SystemState)
        ensures
            r == SystemState::fresh(),
    {
        SystemState {
            pose_world_to_cam: RigidPose::identity(),
            velocity: None,
            velocity_world: Vec3::zero(),
            last_frame_timestamp_sec: Double { bits: 0 },
            imu_initialized: false,
            imu_init_timestamp_sec: None,
            current_keyframe_idx: None,
            last_keyframe_idx: None,
            lost_since_sec: None,
            mode: SystemMode::Bootstrap,
        }
    }

    /// Goes back to bootstrap, keeping the pose.
    pub fn reset(&mut self)
        ensures
            *final(self) == old(self).restarted(),
    {
        self.mode = SystemMode::Bootstrap;
        self.current_keyframe_idx = None;
        self.last_keyframe_idx = None;
        self.velocity = None;
        self.lost_since_sec = None;
        self.imu_initialized = false;
        self.imu_init_timestamp_sec = None;
        self.velocity_world = Vec3::zero();
    }
}

/// When a throttled line was last written, and what it said.
#[derive(Clone, Copy, Debug, PartialEq, Eq, Structural)]
pub struct LogMark {
    /// When, in seconds.
    pub at: Double,
    /// The verdict it reported.
    pub verdict: bool,
}

/// Whether a throttled line is due: the first one, any change of the verdict, and otherwise once
/// the retry interval has passed.
pub open spec fn log_due(
    last: Option<LogMark>,
    elapsed: Double,
    verdict: bool,
    retry: Double,
) -> bool {
    match last {
        None => true,
        Some(mark) => mark.verdict != verdict || retry.le_spec(elapsed),
    }
}

/// Whether a throttled line is due. `elapsed` is the time since the last one, in seconds.
pub fn should_log_throttled(
    last: Option<LogMark>,
    elapsed: Double,
    verdict: bool,
    retry: Double,
) -> (r: bool)
    ensures
        r == log_due(last, elapsed, verdict, retry),
{
    match last {
        None => true,
        Some(mark) => mark.verdict != verdict || retry.le(elapsed),
    }
}

/// A pass of the inertial initializer.
#[derive(Clone, Copy, Debug, PartialEq, Eq, Structural)]
pub enum InitStage {
    /// The first solve.
    Initial,
    /// The first refinement.
    Refine1,
    /// The second refinement.
    Refine2,
}

impl InitStage {
    /// The stage's label.
    pub fn as_str(self) -> (r: &'static str)
        ensures
            r == match self {
                InitStage::Initial => "initial",
                InitStage::Refine1 => "refine_1",
                InitStage::Refine2 => "refine_2",
            },
    {
        match self {
            InitStage::Initial => "initial",
            InitStage::Refine1 => "refine_1",
            InitStage::Refine2 => "refine_2",
        }
    }
}

/// The pattern of the standard gravity the estimator works with, 9.81 m/s^2.
pub const GRAVITY_BITS: u64 = 0x4023_9eb8_51eb_851f;

/// `kornia_sensors::imu::GRAVITY_MAGNITUDE`, by its bit pattern: it is 9.81.
#[verifier::external_body]
fn gravity_magnitude() -> (r: u64)
    ensures
        r == GRAVITY_BITS,
{
    kornia_sensors::imu::GRAVITY_MAGNITUDE.to_bits()
}

/// Gravity before it is estimated: straight down the world's third axis.
pub open spec fn initial_gravity() -> Vec3 {
    Vec3 {
        x: Double::zero_spec(),
        y: Double::zero_spec(),
        z: Double { bits: (GRAVITY_BITS + SIGN64) as u64 },
    }
}

fn nominal_gravity() -> (r: Vec3)
    ensures
        r == initial_gravity(),
{
    let magnitude: u64 = gravity_magnitude();
    Vec3 { x: Double { bits: 0 }, y: Double { bits: 0 }, z: Double { bits: magnitude + SIGN64 } }
}

/// The mathematical content of an [`InertialState`].
#[verifier::ext_equal]
pub struct InertialModel {
    /// Configuration.
    pub cfg: InertialConfig,
    /// Sample ring.
    pub buffer: ImuBufferModel,
    /// Bias the next edge is integrated with.
    pub bias: ImuBias,
    /// Estimated gravity.
    pub gravity_world: Vec3,
    /// First keyframe of the initialization window.
    pub start_kf_idx: Option<usize>,
    /// When that window began.
    pub window_start_sec: Option<Double>,
    /// When initialization was last attempted.
    pub last_init_attempt_sec: Option<Double>,
    /// The last line written about the window.
    pub last_window_log: Option<LogMark>,
    /// Whether a solve was accepted without being applied.
    pub dry_run_accepted: bool,
    /// Counters.
    pub stats: InertialStats,
}

impl InertialModel {
    /// The inertial path of a configuration before any sample.
    pub open spec fn fresh(cfg: InertialConfig) -> InertialModel {
        InertialModel {
            cfg,
            buffer: ImuBufferModel::empty(cfg.buffer_capacity),
            bias: cfg.initial_bias,
            gravity_world: initial_gravity(),
            start_kf_idx: None,
            window_start_sec: None,
            last_init_attempt_sec: None,
            last_window_log: None,
            dry_run_accepted: false,
            stats: InertialStats::zero(),
        }
    }

    /// The inertial path after the map is dropped: nothing of the old window is left, the counters
    /// are, and the bias is where the sensor, not the map, keeps it.
    pub open spec fn reset(self, keep_bias: bool) -> InertialModel {
        InertialModel {
            buffer: self.buffer.cleared(),
            bias: if keep_bias {
                self.bias
            } else {
                self.cfg.initial_bias
            },
            gravity_world: initial_gravity(),
            start_kf_idx: None,
            window_start_sec: None,
            last_init_attempt_sec: None,
            last_window_log: None,
            dry_run_accepted: false,
            stats: InertialStats {
                first_refinement_done: false,
                second_refinement_done: false,
                ..self.stats
            },
            ..self
        }
    }

    /// The inertial path with its initialization window opened at a keyframe.
    pub open spec fn armed(self, kf_idx: usize, timestamp_sec: Double, stamp_ns: u64)
        -> InertialModel {
        InertialModel {
            buffer: self.buffer.pruned(stamp_ns),
            start_kf_idx: Some(kf_idx),
            window_start_sec: Some(timestamp_sec),
            last_init_attempt_sec: None,
            last_window_log: None,
            dry_run_accepted: false,
            stats: InertialStats {
                first_refinement_done: false,
                second_refinement_done: false,
                ..self.stats
            },
            ..self
        }
    }
}

/// How far the inertial path has come.
#[derive(Debug)]
pub struct InertialState {
    /// Configuration.
    pub cfg: InertialConfig,
    /// Sample ring.
    pub buffer: ImuBuffer,
    /// Bias the next edge is integrated with.
    pub bias: ImuBias,
    /// Estimated gravity.
    pub gravity_world: Vec3,
    /// First keyframe of the initialization window.
    pub start_kf_idx: Option<usize>,
    /// When that window began, in seconds.
    pub window_start_sec: Option<Double>,
    /// When initialization was last attempted, in seconds.
    pub last_init_attempt_sec: Option<Double>,
    /// The last line written about the window.
    pub last_window_log: Option<LogMark>,
    /// Whether a solve was accepted without being applied.
    pub dry_run_accepted: bool,
    /// Counters; the occupancy and what the map retains are not kept here.
    pub stats: InertialStats,
}

impl View for InertialState {
    type V = InertialModel;

    open spec fn view(&self) -> InertialModel {
        InertialModel {
            cfg: self.cfg,
            buffer: self.buffer@,
            bias: self.bias,
            gravity_world: self.gravity_world,
            start_kf_idx: self.start_kf_idx,
            window_start_sec: self.window_start_sec,
            last_init_attempt_sec: self.last_init_attempt_sec,
            last_window_log: self.last_window_log,
            dry_run_accepted: self.dry_run_accepted,
            stats: self.stats,
        }
    }
}

impl InertialState {
    /// The inertial path of a configuration, with an empty ring.
    pub fn new(cfg: InertialConfig) -> (r: InertialState)
        ensures
            r@ == InertialModel::fresh(cfg),
            r@.buffer.wf(),
    {
        InertialState {
            cfg,
            buffer: ImuBuffer::with_capacity(cfg.buffer_capacity),
            bias: cfg.initial_bias,
            gravity_world: nominal_gravity(),
            start_kf_idx: None,
            window_start_sec: None,
            last_init_attempt_sec: None,
            last_window_log: None,
            dry_run_accepted: false,
            stats: InertialStats::default(),
        }
    }

    /// Forgets the window and the samples, and the bias too unless it is kept.
    pub fn reset(&mut self, keep_bias: bool)
        requires
            old(self)@.buffer.wf(),
        ensures
            final(self)@ == old(self)@.reset(keep_bias),
            final(self)@.buffer.wf(),
    {
        self.buffer.clear();
        if !keep_bias {
            self.bias = self.cfg.initial_bias;
        }
        self.gravity_world = nominal_gravity();
        self.start_kf_idx = None;
        self.window_start_sec = None;
        self.last_init_attempt_sec = None;
        self.last_window_log = None;
        self.dry_run_accepted = false;
        self.stats.first_refinement_done = false;
        self.stats.second_refinement_done = false;
    }

    /// Opens the initialization window at a keyframe. What came before it can belong to no edge.
    pub fn arm_window(&mut self, kf_idx: usize, timestamp_sec: Double, stamp_ns: u64)
        requires
            old(self)@.buffer.wf(),
        ensures
            final(self)@ == old(self)@.armed(kf_idx, timestamp_sec, stamp_ns),
            final(self)@.buffer.wf(),
    {
        self.start_kf_idx = Some(kf_idx);
        self.window_start_sec = Some(timestamp_sec);
        self.last_init_attempt_sec = None;
        self.dry_run_accepted = false;
        self.last_window_log = None;
        self.stats.first_refinement_done = false;
        self.stats.second_refinement_done = false;
        self.buffer.prune_before(stamp_ns);
    }
}

} // verus!
