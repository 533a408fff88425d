//! The task itself: it checks each stereo message, builds the tracker from the first, applies
//! requested resets and waiting samples at the frame boundary, and publishes what comes out.
use crate::config::OnTrackingLoss;
use crate::error::VioError;
use crate::frame::{Distortion, GrayImage};
use crate::geometry::{RigidPose, Vec3};
use crate::ieee::Double;
use crate::imu::newest;
use crate::imu_channel::{Drained, ImuQueue, ImuQueueModel};
use crate::inertial::{InertialConfig, InertialStats, RotationResidual};
use crate::payload::{Landmark, RectifiedStereo, StereoPair, Tov, VioPose, VioStatus};
use crate::pose::placed;
use crate::reset::ResetEpoch;
use crate::stats::{has_rank, Durations, TrackerTiming, MAX_SAMPLES};
use crate::task::{landmarks_upto, snapshot_map_points, SnapshotPoint, VioSettings};
use crate::task_error::{Eye, TaskError};
use crate::track::{TrackStatus, Tracker, TrackerConfig, TrackerModel};
use vstd::prelude::*;

verus! {

/// What the task publishes for a message.
#[derive(Debug)]
pub struct VioOutput {
    /// Time of validity.
    pub tov: Tov,
    /// The pose; nothing where the frame could not be placed.
    pub payload: Option<VioPose>,
}

/// The numbers a tracker is built from besides the settings: those that have to be computed.
#[derive(Clone, Copy, Debug)]
pub struct RigNumbers {
    /// The depth up to which stereo points are added, in metres.
    pub close_depth: Double,
    /// The residual of the extrinsic rotation, where there is an inertial block.
    pub rotation: RotationResidual,
    /// The widest tolerated gap between samples, in nanoseconds.
    pub max_gap_ns: u64,
}

/// A stereo frame ready for the tracker.
#[derive(Debug)]
pub struct Intake {
    /// Capture time in nanoseconds.
    pub stamp: u64,
    /// Left image.
    pub left: GrayImage,
    /// Right image.
    pub right: GrayImage,
}

/// What a message came to.
#[derive(Debug)]
pub struct Taken {
    /// Why waiting samples were rejected, the first time that happens. No reason to stop: the
    /// tracker goes on without them.
    pub imu_rejected: Option<VioError>,
    /// A frame for the tracker, nothing for a message without one, or why there is none.
    pub frame: Result<Option<Intake>, TaskError>,
}

/// How many of a population were timed, and three of its percentiles in milliseconds.
#[derive(Clone, Copy, Debug, PartialEq, Eq, Structural)]
pub struct TimingReport {
    /// Samples kept.
    pub n: usize,
    /// Median.
    pub p50: Option<Double>,
    /// 99th percentile.
    pub p99: Option<Double>,
    /// Largest.
    pub max: Option<Double>,
}

/// The ranks three percentiles are read at.
#[derive(Clone, Copy, Debug, PartialEq, Eq, Structural)]
pub struct Ranks {
    /// Of the median.
    pub p50: usize,
    /// Of the 99th percentile.
    pub p99: usize,
    /// Of the largest.
    pub max: usize,
}

/// What the task has to say when it stops.
#[derive(Clone, Copy, Debug, PartialEq, Eq, Structural)]
pub struct StopReport {
    /// Frames tracked.
    pub tracked_frames: u64,
    /// Frames not tracked.
    pub untracked_frames: u64,
    /// Keyframe poses published with a snapshot.
    pub landmark_snapshots: u64,
    /// Keyframe poses published without one.
    pub landmark_pool_exhausted: u64,
    /// Cost of frames without a keyframe.
    pub tracking: TimingReport,
    /// Cost of frames with one.
    pub keyframe: TimingReport,
    /// Frames that inserted a keyframe.
    pub keyframe_frames: u64,
    /// All frames.
    pub total_frames: u64,
    /// Frames whose gyroscope prior could not be had, if any.
    pub gyro_prior_unavailable: Option<u64>,
    /// What the inertial path did.
    pub inertial: Option<InertialStats>,
}

/// Tracks a stereo stream into a pose per frame.
#[derive(Debug)]
pub struct StereoVio {
    /// Settings.
    pub settings: VioSettings,
    /// The tracker, built on the first frame.
    pub tracker: Option<Tracker>,
    /// The first frame's calibration.
    pub calib: RectifiedStereo,
    /// The first frame's eye width.
    pub eye_width: u32,
    /// The first frame's eye height.
    pub eye_height: u32,
    /// Frames tracked.
    pub tracked_frames: u64,
    /// Frames not tracked.
    pub untracked_frames: u64,
    /// The reset epoch applied.
    pub reset_epoch: u64,
    /// Whether rejected samples were reported.
    pub imu_push_warned: bool,
    /// Cost of frames.
    pub timing: TrackerTiming,
    /// Keyframe poses published with a snapshot.
    pub landmark_snapshots: u64,
    /// Keyframe poses published without one.
    pub landmark_pool_exhausted: u64,
}

/// The mathematical content of a [`StereoVio`].
#[verifier::ext_equal]
pub struct VioModel {
    /// Settings.
    pub settings: VioSettings,
    /// The tracker, built on the first frame.
    pub tracker: Option<TrackerModel>,
    /// The first frame's calibration.
    pub calib: RectifiedStereo,
    /// The first frame's eye width.
    pub eye_width: u32,
    /// The first frame's eye height.
    pub eye_height: u32,
    /// Frames tracked.
    pub tracked_frames: u64,
    /// Frames not tracked.
    pub untracked_frames: u64,
    /// The reset epoch applied.
    pub reset_epoch: u64,
    /// Whether rejected samples were reported.
    pub imu_push_warned: bool,
    /// Cost of the newest frames without a keyframe.
    pub tracking: Seq<Double>,
    /// Cost of the newest frames with one.
    pub keyframe: Seq<Double>,
    /// How many had none.
    pub tracking_n: u64,
    /// How many had one.
    pub keyframe_n: u64,
    /// Keyframe poses published with a snapshot.
    pub landmark_snapshots: u64,
    /// Keyframe poses published without one.
    pub landmark_pool_exhausted: u64,
}

impl View for StereoVio {
    type V = VioModel;

    open spec fn view(&self) -> VioModel {
        VioModel {
            settings: self.settings,
            tracker: match self.tracker {
                Some(t) => Some(t@),
                None => None,
            },
            calib: self.calib,
            eye_width: self.eye_width,
            eye_height: self.eye_height,
            tracked_frames: self.tracked_frames,
            untracked_frames: self.untracked_frames,
            reset_epoch: self.reset_epoch,
            imu_push_warned: self.imu_push_warned,
            tracking: self.timing.tracking@,
            keyframe: self.timing.keyframe@,
            tracking_n: self.timing.tracking_n,
            keyframe_n: self.timing.keyframe_n,
            landmark_snapshots: self.landmark_snapshots,
            landmark_pool_exhausted: self.landmark_pool_exhausted,
        }
    }
}

/// Distortion of a rectified camera.
pub open spec fn rectified() -> Distortion {
    let zero = Double::zero_spec();
    Distortion { k1: zero, k2: zero, p1: zero, p2: zero }
}

/// The tracker settings for a rig, given its inertial configuration.
pub open spec fn rig_config(
    settings: VioSettings,
    baseline: Double,
    rig: RigNumbers,
    inertial: Option<InertialConfig>,
) -> TrackerConfig {
    TrackerConfig {
        reset_map_on_loss: settings.on_tracking_loss == OnTrackingLoss::ResetMap,
        max_keyframes: settings.max_keyframes,
        max_covisible_keyframes: match settings.max_covisible_keyframes {
            Some(n) => n,
            None => crate::track::DEFAULT_MAX_COVISIBLE_KEYFRAMES,
        },
        inertial,
        ..TrackerConfig::standard(baseline, rig.close_depth)
    }
}

impl VioModel {
    /// The representation invariant: the tracker's, the timing's, and an eye size that this machine
    /// can address.
    pub open spec fn wf(self) -> bool {
        &&& self.tracker matches Some(t) ==> t.wf()
        &&& self.tracking.len() <= MAX_SAMPLES
        &&& self.keyframe.len() <= MAX_SAMPLES
        &&& self.eye_width * self.eye_height <= usize::MAX
    }

    /// A task before any message.
    pub open spec fn fresh(settings: VioSettings, epoch: u64) -> VioModel {
        VioModel {
            settings,
            tracker: None,
            calib: RectifiedStereo::zero(),
            eye_width: 0,
            eye_height: 0,
            tracked_frames: 0,
            untracked_frames: 0,
            reset_epoch: epoch,
            imu_push_warned: false,
            tracking: Seq::empty(),
            keyframe: Seq::empty(),
            tracking_n: 0,
            keyframe_n: 0,
            landmark_snapshots: 0,
            landmark_pool_exhausted: 0,
        }
    }

    /// Whether a message can be counted: by the tracker, with the samples waiting for it, and as
    /// one more world.
    pub open spec fn can_take(self, queue: ImuQueueModel) -> bool {
        &&& queue.wf()
        &&& queue.dropped() <= u64::MAX
        &&& self.tracker matches Some(t) ==> t.can_count(queue.samples.len()) && t.world_generation
            < u64::MAX
    }

    /// Why a message is refused before anything is made of it, if it is: it needs a time, a valid
    /// pair, and, once there is a tracker, the calibration that one was built from.
    pub open spec fn refusal(self, tov: Tov, pair: StereoPair) -> Option<TaskError> {
        if tov.stamp_spec() is None {
            Some(TaskError::Untimed { seq: pair.left.seq })
        } else if pair.fault() is Some {
            Some(TaskError::Pair(pair.fault()->0))
        } else if self.tracker is Some && !pair.calib.matches_spec(self.calib) {
            Some(TaskError::CalibrationChanged { seq: pair.left.seq })
        } else {
            None
        }
    }

    /// The task with a first frame's geometry noted.
    pub open spec fn with_geometry(self, pair: StereoPair) -> VioModel {
        VioModel {
            calib: pair.calib,
            eye_width: pair.left.format.width,
            eye_height: pair.left.format.height,
            ..self
        }
    }

    /// The inertial configuration of the tracker to build: none without an inertial block, and the
    /// block's own fault where it has one.
    pub open spec fn inertial_config(self, rig: RigNumbers) -> Result<
        Option<InertialConfig>,
        VioError,
    > {
        match self.settings.inertial {
            None => Ok(None),
            Some(ron) => match ron.config(rig.rotation, rig.max_gap_ns) {
                Ok(c) => Ok(Some(c)),
                Err(e) => Err(e),
            },
        }
    }

    /// The task with a tracker: the one it has, or one built from this frame.
    pub open spec fn built(self, pair: StereoPair, rig: RigNumbers) -> VioModel {
        if self.tracker is Some {
            self
        } else {
            VioModel {
                tracker: match self.inertial_config(rig) {
                    Ok(c) => Some(
                        TrackerModel::fresh(
                            rectified(),
                            rig_config(self.settings, pair.calib.baseline, rig, c),
                        ),
                    ),
                    Err(_) => None,
                },
                ..self.with_geometry(pair)
            }
        }
    }

    /// The task with a requested reset applied.
    pub open spec fn reset_to(self, epoch: u64) -> VioModel {
        VioModel {
            tracker: if epoch != self.reset_epoch {
                Some(self.tracker->0.reset(false))
            } else {
                self.tracker
            },
            reset_epoch: epoch,
            ..self
        }
    }

    /// Whether the tracker is handed the waiting samples.
    pub open spec fn offers(self, queue: ImuQueueModel) -> bool {
        self.settings.inertial is Some && queue.samples.len() > 0
    }

    /// Why the tracker rejects them, if it does.
    pub open spec fn rejection(self, queue: ImuQueueModel) -> Option<VioError> {
        if !self.offers(queue) {
            None
        } else if self.tracker->0.inertial is None {
            Some(VioError::InertialDisabled)
        } else if queue.aligned {
            Some(VioError::InertialSamplesAligned)
        } else {
            None
        }
    }

    /// The task with the waiting samples handed on, or their rejection noted.
    pub open spec fn sampled(self, queue: ImuQueueModel) -> VioModel {
        if !self.offers(queue) {
            self
        } else if self.rejection(queue) is Some {
            VioModel { imu_push_warned: true, ..self }
        } else {
            VioModel {
                tracker: Some(self.tracker->0.fed(queue.samples, queue.dropped() as u64)),
                ..self
            }
        }
    }

    /// The queue once the task has looked at it.
    pub open spec fn drained(self, queue: ImuQueueModel) -> ImuQueueModel {
        if self.settings.inertial is Some {
            queue.drained()
        } else {
            queue
        }
    }

    /// How the eyes of a valid pair disagree with the first frame's, if they do: in size, even
    /// where they hold as many bytes.
    pub open spec fn misshapen(self, pair: StereoPair) -> Option<TaskError> {
        let got = pair.left.format.width * pair.left.format.height;
        let want = self.eye_width * self.eye_height;
        if pair.left.format.width == self.eye_width && pair.left.format.height == self.eye_height {
            None
        } else {
            Some(
                TaskError::FrameShape {
                    seq: pair.left.seq,
                    eye: Eye::Left,
                    got: got as usize,
                    want: want as usize,
                    width: self.eye_width,
                    height: self.eye_height,
                },
            )
        }
    }

    /// Whether two images are the eyes of a pair, in the first frame's size.
    pub open spec fn are_eyes(self, pair: StereoPair, left: GrayImage, right: GrayImage) -> bool {
        let n = self.eye_width * self.eye_height;
        &&& left.wf() && right.wf()
        &&& left.width == self.eye_width && left.height == self.eye_height
        &&& right.width == self.eye_width && right.height == self.eye_height
        &&& left.data@ == pair.left.data@.take(n)
        &&& right.data@ == pair.right.data@.take(n)
    }

    /// Whether every counter has room for one more frame.
    pub open spec fn can_publish(self) -> bool {
        &&& self.tracked_frames < u64::MAX
        &&& self.untracked_frames < u64::MAX
        &&& self.tracking_n < u64::MAX
        &&& self.keyframe_n < u64::MAX
        &&& self.landmark_snapshots < u64::MAX
        &&& self.landmark_pool_exhausted < u64::MAX
    }

    /// The task with a frame's cost recorded.
    pub open spec fn timed(self, ms: Double, keyframe: bool) -> VioModel {
        if keyframe {
            VioModel {
                keyframe: newest(self.keyframe.push(ms), MAX_SAMPLES as nat),
                keyframe_n: (self.keyframe_n + 1) as u64,
                ..self
            }
        } else {
            VioModel {
                tracking: newest(self.tracking.push(ms), MAX_SAMPLES as nat),
                tracking_n: (self.tracking_n + 1) as u64,
                ..self
            }
        }
    }

    /// The task with a frame published.
    pub open spec fn published(self, status: TrackStatus, ms: Double, buffer_free: bool) -> VioModel {
        match status {
            TrackStatus::Localized(p) => {
                let m = VioModel {
                    tracked_frames: (self.tracked_frames + 1) as u64,
                    ..self.timed(ms, p.keyframe)
                };
                if !p.keyframe {
                    m
                } else if buffer_free {
                    VioModel { landmark_snapshots: (self.landmark_snapshots + 1) as u64, ..m }
                } else {
                    VioModel {
                        landmark_pool_exhausted: (self.landmark_pool_exhausted + 1) as u64,
                        ..m
                    }
                }
            },
            TrackStatus::Untracked => VioModel {
                untracked_frames: (self.untracked_frames + 1) as u64,
                ..self.timed(ms, false)
            },
        }
    }
}

/// Whether a pose payload says what a tracked frame came to: where the camera is, in which world,
/// and, for a keyframe whose snapshot found a buffer, the map's points.
pub open spec fn is_payload(
    pose: VioPose,
    placed_at: RigidPose,
    keyframe: bool,
    tracker: TrackerModel,
    buffer_free: bool,
    points: Seq<SnapshotPoint>,
) -> bool {
    &&& pose.cam_in_world == placed_at
    &&& pose.status.keyframe == keyframe
    &&& pose.status.reset_epoch == tracker.world_generation
    &&& pose.status.landmarks == if tracker.live_map_points <= u32::MAX {
        tracker.live_map_points as u32
    } else {
        u32::MAX
    }
    &&& pose.map_points is Some <==> keyframe && buffer_free
    &&& pose.map_points matches Some(v) ==> v@ == landmarks_upto(points, points.len() as int)
}

/// Whether an output is an honest answer to a message: it carries the message's time, and a pose if
/// and only if the tracker measured this frame. `status` is what the tracker made of it, if it was
/// asked.
pub open spec fn is_answer(out: VioOutput, tov: Tov, status: Option<TrackStatus>) -> bool {
    &&& out.tov == tov
    &&& out.payload is Some <==> status is Some && status->0 is Localized
}

/// Copies one eye out of a payload into an image of the size the tracker was built for.
pub fn eye(bytes: &[u8], width: u32, height: u32, seq: u64, which: Eye) -> (r: Result<
    GrayImage,
    TaskError,
>)
    requires
        width * height <= usize::MAX,
    ensures
        r is Ok <==> bytes@.len() == width * height,
        r matches Ok(i) ==> i.wf() && i.width == width && i.height == height && i.data@ == bytes@,
        r matches Err(e) ==> e == (TaskError::FrameShape {
            seq,
            eye: which,
            got: bytes@.len() as usize,
            want: (width * height) as usize,
            width,
            height,
        }),
{
    assert(width * height <= u32::MAX * u32::MAX) by (nonlinear_arith)
        requires
            width <= u32::MAX,
            height <= u32::MAX,
    ;
    let want: usize = (width as u64 * height as u64) as usize;
    if bytes.len() != want {
        return Err(
            TaskError::FrameShape { seq, eye: which, got: bytes.len(), want, width, height },
        );
    }
    let mut data: Vec<u8> = Vec::new();
    data.extend_from_slice(bytes);
    assert(data@ =~= bytes@);
    Ok(GrayImage { width: width as usize, height: height as usize, data })
}

impl StereoVio {
    /// A task with the given settings that has seen no frame. A reset requested before that is not
    /// pending: a fresh tracker is what it would lead to.
    pub fn new(settings: VioSettings, epoch: &ResetEpoch) -> (r: StereoVio)
        ensures
            r@ == VioModel::fresh(settings, epoch@),
            r@.wf(),
    {
        let r = StereoVio {
            settings,
            tracker: None,
            calib: RectifiedStereo::default(),
            eye_width: 0,
            eye_height: 0,
            tracked_frames: 0,
            untracked_frames: 0,
            reset_epoch: epoch.requested(),
            imu_push_warned: false,
            timing: TrackerTiming::new(),
            landmark_snapshots: 0,
            landmark_pool_exhausted: 0,
        };
        assert(r.eye_width * r.eye_height == 0) by (nonlinear_arith)
            requires
                r.eye_width == 0,
        ;
        r
    }

    /// Takes a message in, up to the frame the tracker is to process. The output has the message's
    /// time and no pose from then on, whatever comes of it.
    ///
    /// The first valid pair builds the tracker; a reset requested since the last frame is applied
    /// before this one; and the waiting samples go in before it, since a keyframe may close on
    /// them.
    pub fn process(
        &mut self,
        tov: Tov,
        pair: Option<&StereoPair>,
        epoch: &ResetEpoch,
        queue: &mut ImuQueue,
        rig: &RigNumbers,
        out: &mut VioOutput,
    ) -> (r: Taken)
        requires
            old(self)@.wf(),
            old(self)@.can_take(old(queue)@),
            pair matches Some(p) ==> p.addressable(),
        ensures
            final(self)@.wf(),
            is_answer(*final(out), tov, None),
            match pair {
                None => {
                    &&& r.frame == Ok::<Option<Intake>, TaskError>(None)
                    &&& r.imu_rejected is None
                    &&& final(self)@ == old(self)@
                    &&& final(queue)@ == old(queue)@
                },
                Some(p) => {
                    let before = old(self)@;
                    let waiting = old(queue)@;
                    let built = before.built(*p, *rig);
                    let ready = built.reset_to(epoch@);
                    if before.refusal(tov, *p) is Some {
                        &&& r.frame == Err::<Option<Intake>, TaskError>(before.refusal(tov, *p)->0)
                        &&& r.imu_rejected is None
                        &&& final(self)@ == before
                        &&& final(queue)@ == waiting
                    } else if built.tracker is None {
                        &&& r.frame == Err::<Option<Intake>, TaskError>(
                            TaskError::Vio(before.inertial_config(*rig)->Err_0),
                        )
                        &&& r.imu_rejected is None
                        &&& final(self)@ == built
                        &&& final(queue)@ == waiting
                    } else {
                        &&& final(self)@ == ready.sampled(waiting)
                        &&& final(queue)@ == ready.drained(waiting)
                        &&& r.imu_rejected == if ready.imu_push_warned {
                            None
                        } else {
                            ready.rejection(waiting)
                        }
                        &&& match ready.misshapen(*p) {
                            Some(e) => r.frame == Err::<Option<Intake>, TaskError>(e),
                            None => {
                                &&& r.frame is Ok && r.frame->Ok_0 is Some
                                &&& Some(r.frame->Ok_0->0.stamp) == tov.stamp_spec()
                                &&& ready.are_eyes(
                                    *p,
                                    r.frame->Ok_0->0.left,
                                    r.frame->Ok_0->0.right,
                                )
                            },
                        }
                    }
                },
            },
    {
        out.tov = tov;
        out.payload = None;
        let frame = match pair {
            Some(p) => p,
            None => {
                return Taken { imu_rejected: None, frame: Ok(None) };
            },
        };
        let stamp: u64 = match self.check_message(tov, frame) {
            Ok(t) => t,
            Err(e) => {
                return Taken { imu_rejected: None, frame: Err(e) };
            },
        };
        match self.ensure_tracker(frame, rig) {
            Ok(()) => {},
            Err(e) => {
                return Taken { imu_rejected: None, frame: Err(TaskError::Vio(e)) };
            },
        }
        self.apply_requested_reset(epoch);
        let imu_rejected = self.feed_samples(queue);
        match self.take_eyes(frame) {
            Ok((left, right)) => Taken {
                imu_rejected,
                frame: Ok(Some(Intake { stamp, left, right })),
            },
            Err(e) => Taken { imu_rejected, frame: Err(e) },
        }
    }

    fn check_message(&self, tov: Tov, frame: &StereoPair) -> (r: Result<u64, TaskError>)
        requires
            frame.addressable(),
        ensures
            match r {
                Ok(t) => self@.refusal(tov, *frame) is None && tov.stamp_spec() == Some(t),
                Err(e) => self@.refusal(tov, *frame) == Some(e),
            },
    {
        let seq: u64 = frame.left.seq;
        let stamp: u64 = match tov.stamp() {
            Some(t) => t,
            None => {
                return Err(TaskError::Untimed { seq });
            },
        };
        match frame.validate() {
            Ok(()) => {},
            Err(e) => {
                return Err(TaskError::Pair(e));
            },
        }
        if self.tracker.is_some() && !frame.calib.matches(&self.calib) {
            return Err(TaskError::CalibrationChanged { seq });
        }
        Ok(stamp)
    }

    fn ensure_tracker(&mut self, pair: &StereoPair, rig: &RigNumbers) -> (r: Result<(), VioError>)
        requires
            old(self)@.wf(),
            pair.fault() is None,
            pair.addressable(),
        ensures
            final(self)@.wf(),
            final(self)@ == old(self)@.built(*pair, *rig),
            r is Ok <==> final(self)@.tracker is Some,
            r matches Err(e) ==> old(self)@.inertial_config(*rig) == Err::<
                Option<InertialConfig>,
                VioError,
            >(e),
    {
        if self.tracker.is_some() {
            return Ok(());
        }
        let c = pair.calib;
        self.calib = c;
        self.eye_width = pair.left.format.width;
        self.eye_height = pair.left.format.height;
        proof {
            crate::payload::a_valid_pair_has_whole_eyes(*pair);
        }
        let zero = Double { bits: 0 };
        let distortion = Distortion { k1: zero, k2: zero, p1: zero, p2: zero };
        let mut config = TrackerConfig::new(c.baseline, rig.close_depth);
        config.reset_map_on_loss = match self.settings.on_tracking_loss {
            OnTrackingLoss::ResetMap => true,
            OnTrackingLoss::KeepMap => false,
        };
        config.max_keyframes = self.settings.max_keyframes;
        match self.settings.max_covisible_keyframes {
            Some(n) => {
                config.max_covisible_keyframes = n;
            },
            None => {},
        }
        match &self.settings.inertial {
            Some(ron) => {
                match ron.to_config(&rig.rotation, rig.max_gap_ns) {
                    Ok(inertial) => {
                        config.inertial = Some(inertial);
                    },
                    Err(e) => {
                        return Err(e);
                    },
                }
            },
            None => {},
        }
        self.tracker = Some(Tracker::new(distortion, config));
        Ok(())
    }

    fn apply_requested_reset(&mut self, epoch: &ResetEpoch)
        requires
            old(self)@.wf(),
            old(self).tracker is Some,
            old(self)@.tracker->0.world_generation < u64::MAX,
        ensures
            final(self)@.wf(),
            final(self)@ == old(self)@.reset_to(epoch@),
    {
        let requested: u64 = epoch.requested();
        if requested != self.reset_epoch {
            match &mut self.tracker {
                Some(t) => {
                    t.reset();
                },
                None => {},
            }
            self.reset_epoch = requested;
        }
    }

    fn feed_samples(&mut self, queue: &mut ImuQueue) -> (r: Option<VioError>)
        requires
            old(self)@.wf(),
            old(self).tracker is Some,
            old(self)@.tracker->0.can_count(old(queue)@.samples.len()),
            old(queue)@.dropped() <= u64::MAX,
        ensures
            final(self)@.wf(),
            final(self)@ == old(self)@.sampled(old(queue)@),
            final(queue)@ == old(self)@.drained(old(queue)@),
            r == if old(self)@.imu_push_warned {
                None
            } else {
                old(self)@.rejection(old(queue)@)
            },
    {
        if self.settings.inertial.is_none() {
            return None;
        }
        let waiting: Drained = queue.drain();
        if waiting.samples.len() == 0 {
            return None;
        }
        proof {
            crate::track_inertial::lemma_count_leaves_room(
                self@.tracker->0,
                waiting.samples@,
                waiting.dropped,
                waiting.aligned,
            );
        }
        let pushed = match &mut self.tracker {
            Some(t) => t.push_raw_imu(waiting.samples.as_slice(), waiting.dropped, waiting.aligned),
            None => Ok(0),
        };
        match pushed {
            Ok(_) => None,
            Err(e) => {
                if self.imu_push_warned {
                    None
                } else {
                    self.imu_push_warned = true;
                    Some(e)
                }
            },
        }
    }

    fn take_eyes(&self, pair: &StereoPair) -> (r: Result<(GrayImage, GrayImage), TaskError>)
        requires
            self@.wf(),
            pair.fault() is None,
        ensures
            match r {
                Ok(eyes) => self@.misshapen(*pair) is None && self@.are_eyes(*pair, eyes.0, eyes.1),
                Err(e) => self@.misshapen(*pair) == Some(e),
            },
    {
        proof {
            crate::payload::a_valid_pair_has_whole_eyes(*pair);
        }
        let (left_bytes, right_bytes) = pair.with_eyes();
        let seq: u64 = pair.left.seq;
        if pair.left.format.width != self.eye_width || pair.left.format.height != self.eye_height {
            return Err(
                TaskError::FrameShape {
                    seq,
                    eye: Eye::Left,
                    got: left_bytes.len(),
                    want: (self.eye_width as u64 * self.eye_height as u64) as usize,
                    width: self.eye_width,
                    height: self.eye_height,
                },
            );
        }
        let left = match eye(left_bytes, self.eye_width, self.eye_height, seq, Eye::Left) {
            Ok(i) => i,
            Err(e) => {
                return Err(e);
            },
        };
        match eye(right_bytes, self.eye_width, self.eye_height, seq, Eye::Right) {
            Ok(right) => Ok((left, right)),
            Err(e) => Err(e),
        }
    }

    /// Publishes what the tracker made of a frame that took `ms` milliseconds. A pose is published
    /// as the camera in the world, with its centre given; only one that inserted a keyframe carries
    /// a snapshot of the map, where a buffer for it is free. Gives back whether to warn that none
    /// was: once.
    pub fn publish(
        &mut self,
        status: TrackStatus,
        centre: Vec3,
        ms: Double,
        buffer: Option<Vec<Landmark>>,
        points: &Vec<SnapshotPoint>,
        out: &mut VioOutput,
    ) -> (warn: bool)
        requires
            old(self)@.wf(),
            old(self)@.can_publish(),
            old(self).tracker is Some,
        ensures
            final(self)@.wf(),
            final(self)@ == old(self)@.published(status, ms, buffer is Some),
            is_answer(*final(out), old(out).tov, Some(status)),
            match status {
                TrackStatus::Untracked => !warn,
                TrackStatus::Localized(p) => {
                    &&& is_payload(
                        final(out).payload->0,
                        placed(p.pose_world_to_cam, centre),
                        p.keyframe,
                        old(self)@.tracker->0,
                        buffer is Some,
                        points@,
                    )
                    &&& warn == (p.keyframe && buffer is None && old(self).landmark_pool_exhausted
                        == 0)
                },
            },
    {
        match status {
            TrackStatus::Untracked => {
                self.untracked_frames += 1;
                self.timing.push(ms, false);
                out.payload = None;
                false
            },
            TrackStatus::Localized(pose) => {
                self.tracked_frames += 1;
                self.timing.push(ms, pose.keyframe);
                let mut warn = false;
                let mut map_points = None;
                if pose.keyframe {
                    map_points = snapshot_map_points(buffer, points);
                    if map_points.is_some() {
                        self.landmark_snapshots += 1;
                    } else {
                        warn = self.landmark_pool_exhausted == 0;
                        self.landmark_pool_exhausted += 1;
                    }
                }
                let (reset_epoch, live): (u64, usize) = match &self.tracker {
                    Some(t) => (t.world_generation(), t.live_map_points()),
                    None => (0, 0),
                };
                let landmarks: u32 = if live <= u32::MAX as usize {
                    live as u32
                } else {
                    u32::MAX
                };
                out.payload = Some(
                    VioPose {
                        cam_in_world: pose.cam_in_world(centre),
                        status: VioStatus { keyframe: pose.keyframe, reset_epoch, landmarks },
                        map_points,
                    },
                );
                warn
            },
        }
    }

    /// Sums the run up. The gyroscope prior is mentioned only where it failed: it falls back in
    /// silence, so one that never applied looks like one that works.
    pub fn stop(
        &self,
        tracking_ranks: &Ranks,
        keyframe_ranks: &Ranks,
        retained_factors: usize,
        retained_samples: usize,
    ) -> (r: StopReport)
        requires
            self@.tracking_n + self@.keyframe_n <= u64::MAX,
        ensures
            r.tracked_frames == self.tracked_frames,
            r.untracked_frames == self.untracked_frames,
            r.landmark_snapshots == self.landmark_snapshots,
            r.landmark_pool_exhausted == self.landmark_pool_exhausted,
            reports(r.tracking, self@.tracking, *tracking_ranks),
            reports(r.keyframe, self@.keyframe, *keyframe_ranks),
            r.keyframe_frames == self@.keyframe_n,
            r.total_frames == self@.tracking_n + self@.keyframe_n,
            r.gyro_prior_unavailable == match self@.tracker {
                Some(t) => if t.gyro_prior_unavailable > 0 {
                    Some(t.gyro_prior_unavailable)
                } else {
                    None
                },
                None => None,
            },
            r.inertial == match self@.tracker {
                Some(t) => t.inertial_report(retained_factors, retained_samples),
                None => None,
            },
    {
        let gyro_prior_unavailable = match &self.tracker {
            Some(t) => {
                let n: u64 = t.gyro_prior_unavailable();
                if n > 0 {
                    Some(n)
                } else {
                    None
                }
            },
            None => None,
        };
        let inertial = match &self.tracker {
            Some(t) => t.inertial_stats(retained_factors, retained_samples),
            None => None,
        };
        StopReport {
            tracked_frames: self.tracked_frames,
            untracked_frames: self.untracked_frames,
            landmark_snapshots: self.landmark_snapshots,
            landmark_pool_exhausted: self.landmark_pool_exhausted,
            tracking: timing_report(&self.timing.tracking, tracking_ranks),
            keyframe: timing_report(&self.timing.keyframe, keyframe_ranks),
            keyframe_frames: self.timing.keyframe_frames(),
            total_frames: self.timing.total_frames(),
            gyro_prior_unavailable,
            inertial,
        }
    }
}

/// Whether a percentile is the sample of its rank, and absent where there is no sample at all: an
/// empty population is not one that costs nothing.
pub open spec fn is_percentile(p: Option<Double>, samples: Seq<Double>, rank: usize) -> bool {
    match p {
        Some(x) => samples.len() > 0 && has_rank(samples, rank, x),
        None => samples.len() == 0,
    }
}

/// Whether a report describes a population.
pub open spec fn reports(r: TimingReport, samples: Seq<Double>, ranks: Ranks) -> bool {
    &&& r.n == samples.len()
    &&& is_percentile(r.p50, samples, ranks.p50)
    &&& is_percentile(r.p99, samples, ranks.p99)
    &&& is_percentile(r.max, samples, ranks.max)
}

fn timing_report(d: &Durations, ranks: &Ranks) -> (r: TimingReport)
    ensures
        reports(r, d@, *ranks),
{
    TimingReport {
        n: d.len(),
        p50: d.pct(ranks.p50),
        p99: d.pct(ranks.p99),
        max: d.pct(ranks.max),
    }
}

} // verus!
