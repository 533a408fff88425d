//! What a message makes of the task, and the task of a message.
use crate::config::InertialRon;
use crate::frame::GrayImage;
use crate::geometry::{RigidPose, Vec3};
use crate::ieee::Double;
use crate::imu_channel::ImuQueueModel;
use crate::inertial::{first_unusable, ImuCalib, RotationResidual};
use crate::order::{ordering, total_keys_spec};
use crate::payload::{
    unpacked, unpacked_all, ImuSample, PairFault, RectifiedStereo, StereoPair, TimeRange, Tov, VioPose,
    GRAY8,
};
use crate::pose::placed;
use crate::stereo_vio::{
    is_answer, is_payload, reports, Ranks, RigNumbers, TimingReport, VioModel, VioOutput,
};
use crate::task::{SnapshotPoint, VioSettings};
use crate::task_error::{Eye, TaskError};
use crate::track::{TrackStatus, TrackedPose, TrackerModel};
use vstd::prelude::*;

verus! {

/// A message is refused for want of a time, for a fault of its pair, and, once there is a tracker,
/// for a calibration other than the one that was built from; for the first of these that holds,
/// under the left eye's number, and for nothing else.
pub proof fn a_message_is_refused_for_the_first_thing_wrong(m: VioModel, tov: Tov, pair: StereoPair)
    ensures
        ({
            let r = m.refusal(tov, pair);
            let changed = m.tracker is Some && !pair.calib.matches_spec(m.calib);
            &&& r is None <==> !(tov is Absent) && pair.fault() is None && !changed
            &&& tov is Absent ==> r == Some(TaskError::Untimed { seq: pair.left.seq })
            &&& !(tov is Absent) && pair.fault() is Some ==> r == Some(
                TaskError::Pair(pair.fault()->0),
            )
            &&& !(tov is Absent) && pair.fault() is None && changed ==> r == Some(
                TaskError::CalibrationChanged { seq: pair.left.seq },
            )
        }),
{
}

/// A message is processed under its instant, or under the earlier end of its range.
pub proof fn a_range_is_stamped_at_its_start(t: u64, start: u64, end: u64)
    ensures
        Tov::Absent.stamp_spec() is None,
        Tov::Time(t).stamp_spec() == Some(t),
        Tov::Range(TimeRange { start, end }).stamp_spec() == Some(start),
{
}

/// Two calibrations match if and only if all five numbers are equal, as numbers.
pub proof fn calibrations_match_in_every_number(a: RectifiedStereo, b: RectifiedStereo)
    requires
        a.fx.finite() && a.fy.finite() && a.cx.finite() && a.cy.finite() && a.baseline.finite(),
        b.fx.finite() && b.fy.finite() && b.cx.finite() && b.cy.finite() && b.baseline.finite(),
    ensures
        a.matches_spec(b) <==> a.fx.exact() == b.fx.exact() && a.fy.exact() == b.fy.exact()
            && a.cx.exact() == b.cx.exact() && a.cy.exact() == b.cy.exact() && a.baseline.exact()
            == b.baseline.exact(),
        a.matches_spec(a),
        a.matches_spec(b) == b.matches_spec(a),
{
    crate::ieee::double_order_is_numeric(a.fx, b.fx);
    crate::ieee::double_order_is_numeric(a.fy, b.fy);
    crate::ieee::double_order_is_numeric(a.cx, b.cx);
    crate::ieee::double_order_is_numeric(a.cy, b.cy);
    crate::ieee::double_order_is_numeric(a.baseline, b.baseline);
}

/// A calibration with a number that is none matches no other, nor itself.
pub proof fn a_calibration_without_a_number_matches_none(a: RectifiedStereo, b: RectifiedStereo)
    requires
        a.fx.nan() || a.fy.nan() || a.cx.nan() || a.cy.nan() || a.baseline.nan(),
    ensures
        !a.matches_spec(b),
        !b.matches_spec(a),
{
}

/// A pair is valid if and only if its eyes are of one size with pixels in it, both are tightly
/// packed 8-bit grayscale, and both hold every row.
pub proof fn a_pair_is_valid_when_both_eyes_are(pair: StereoPair)
    ensures
        pair.fault() is None <==> {
            let l = pair.left;
            let r = pair.right;
            &&& l.format.width == r.format.width
            &&& l.format.height == r.format.height
            &&& l.format.width > 0
            &&& l.format.height > 0
            &&& l.format.pixel_format@ == GRAY8@
            &&& r.format.pixel_format@ == GRAY8@
            &&& l.format.stride == l.format.width
            &&& r.format.stride == r.format.width
            &&& l.data@.len() >= l.format.stride * l.format.height
            &&& r.data@.len() >= r.format.stride * r.format.height
        },
{
}

/// A fault of a pair says what is wrong, with the numbers of the eye that it names.
pub proof fn a_fault_names_its_eye(pair: StereoPair)
    requires
        pair.addressable(),
        pair.left.data@.len() <= usize::MAX,
        pair.right.data@.len() <= usize::MAX,
    ensures
        ({
            let l = pair.left;
            let r = pair.right;
            pair.fault() matches Some(f) ==> match f {
                PairFault::SizeMismatch { left_width, left_height, right_width, right_height } => {
                    &&& left_width == l.format.width && left_height == l.format.height
                    &&& right_width == r.format.width && right_height == r.format.height
                    &&& left_width != right_width || left_height != right_height
                },
                PairFault::Empty => l.format.width == 0 || l.format.height == 0,
                PairFault::PixelFormat { eye, pixel_format } => {
                    let e = if eye is Left {
                        l
                    } else {
                        r
                    };
                    pixel_format == e.format.pixel_format && pixel_format@
                        != GRAY8@
                },
                PairFault::Stride { eye, stride, width } => {
                    let e = if eye is Left {
                        l
                    } else {
                        r
                    };
                    stride == e.format.stride && width == e.format.width && stride != width
                },
                PairFault::ShortBuffer { eye, have, want } => {
                    let e = if eye is Left {
                        l
                    } else {
                        r
                    };
                    have == e.data@.len() && want == e.format.stride * e.format.height && have
                        < want
                },
            }
        }),
{
}

/// A first frame builds the tracker, from its own calibration and size and the task's settings; a
/// task that has one keeps it, with everything it was built from. A block with a fault builds none.
pub proof fn a_first_frame_builds_the_tracker(m: VioModel, pair: StereoPair, rig: RigNumbers)
    ensures
        ({
            let n = m.built(pair, rig);
            &&& m.tracker is Some ==> n == m
            &&& m.tracker is None ==> {
                &&& n.calib == pair.calib
                &&& n.eye_width == pair.left.format.width
                &&& n.eye_height == pair.left.format.height
                &&& n.tracker is None <==> m.inertial_config(rig) is Err
                &&& n == (VioModel {
                    tracker: n.tracker,
                    calib: n.calib,
                    eye_width: n.eye_width,
                    eye_height: n.eye_height,
                    ..m
                })
                &&& n.settings == m.settings
                &&& n.reset_epoch == m.reset_epoch
                &&& n.tracked_frames == m.tracked_frames
                &&& n.untracked_frames == m.untracked_frames
                &&& n.tracker matches Some(t) ==> {
                    let c = t.config;
                    let s = m.settings;
                    &&& c.baseline == pair.calib.baseline
                    &&& c.stereo_close_depth == Some(rig.close_depth)
                    &&& c.reset_map_on_loss <==> s.on_tracking_loss is ResetMap
                    &&& c.max_keyframes == s.max_keyframes
                    &&& s.max_covisible_keyframes matches Some(k) ==> c.max_covisible_keyframes
                        == k
                    &&& s.max_covisible_keyframes is None ==> c.max_covisible_keyframes == 10
                    &&& c.inertial is Some <==> s.inertial is Some
                    &&& c.enable_local_ba
                    &&& c.relocalization is Some
                    &&& c.relocalization->0.max_candidates == 12
                    &&& c.relocalization->0.max_hamming == 60
                    &&& c.relocalization->0.min_matches == 20
                    &&& c.relocalization->0.min_inliers == 30
                    &&& c.relocalization->0.patience.bits == 0x4008_0000_0000_0000
                    &&& c.relocalization->0.prior_reproj_threshold_px.bits
                        == 0x4069_0000_0000_0000
                    &&& c.min_bootstrap_stereo_points == 50
                    &&& c.keyframe_policy.min_frames_between == 3
                    &&& c.keyframe_policy.max_frames_between == 8
                    &&& c.keyframe_policy.ref_ratio.bits == 0x3fe3_3333_3333_3333
                    &&& c.tracking_loss_recovery.min_keyframes_for_grace == 10
                    &&& c.tracking_loss_recovery.grace_period_sec.bits == 0x3fe0_0000_0000_0000
                    &&& t.distortion.k1.bits == 0 && t.distortion.k2.bits == 0
                    &&& t.distortion.p1.bits == 0 && t.distortion.p2.bits == 0
                    &&& t.world_generation == 0
                    &&& t.next_frame_idx == 0
                    &&& t.inertial is Some <==> s.inertial is Some
                    &&& s.inertial matches Some(ron) ==> {
                        let i = c.inertial->0;
                        &&& ron.is_extrinsic(i.imu_t_bc)
                        &&& i.calib.gyro_noise == ron.gyro_noise
                        &&& i.calib.accel_noise == ron.accel_noise
                        &&& i.calib.gyro_bias_noise == ron.gyro_bias_noise
                        &&& i.calib.accel_bias_noise == ron.accel_bias_noise
                        &&& i.gates.nominal_rate == ron.rate_hz
                        &&& i.gates.max_gap_ns == rig.max_gap_ns
                        &&& i.enable_inertial_ba == ron.enable_inertial_ba
                    }
                }
            }
        }),
{
    if m.settings.inertial is Some {
        let ron = m.settings.inertial->0;
        an_extrinsic_is_read_row_by_row(ron);
    }
}

/// The extrinsic of a block is read row by row, with its lever arm.
pub proof fn an_extrinsic_is_read_row_by_row(ron: InertialRon)
    ensures
        ron.is_extrinsic(ron.extrinsic_spec()),
        ron.extrinsic_spec().rotation.x_axis.x == ron.t_bc_rotation@[0],
        ron.extrinsic_spec().rotation.y_axis.x == ron.t_bc_rotation@[1],
        ron.extrinsic_spec().rotation.z_axis.x == ron.t_bc_rotation@[2],
        ron.extrinsic_spec().rotation.x_axis.y == ron.t_bc_rotation@[3],
        ron.extrinsic_spec().rotation.y_axis.y == ron.t_bc_rotation@[4],
        ron.extrinsic_spec().rotation.z_axis.y == ron.t_bc_rotation@[5],
        ron.extrinsic_spec().rotation.x_axis.z == ron.t_bc_rotation@[6],
        ron.extrinsic_spec().rotation.y_axis.z == ron.t_bc_rotation@[7],
        ron.extrinsic_spec().rotation.z_axis.z == ron.t_bc_rotation@[8],
        ron.extrinsic_spec().translation.x == ron.t_bc_translation@[0],
        ron.extrinsic_spec().translation.y == ron.t_bc_translation@[1],
        ron.extrinsic_spec().translation.z == ron.t_bc_translation@[2],
{
    let m = ron.extrinsic_spec().rotation;
    assert(m.entry(0, 0) == m.x_axis.x && m.entry(1, 0) == m.x_axis.y && m.entry(2, 0)
        == m.x_axis.z);
    assert(m.entry(0, 1) == m.y_axis.x && m.entry(1, 1) == m.y_axis.y && m.entry(2, 1)
        == m.y_axis.z);
    assert(m.entry(0, 2) == m.z_axis.x && m.entry(1, 2) == m.z_axis.y && m.entry(2, 2)
        == m.z_axis.z);
}

/// A block is accepted if and only if its rotation is one, its lever arm is finite, and its
/// densities and rate are positive finite numbers. A refusal names the quantity that is not, with
/// its value, or the rotation's errors.
pub proof fn a_block_is_accepted_when_every_quantity_is(
    ron: InertialRon,
    rotation: RotationResidual,
    max_gap_ns: u64,
)
    ensures
        ({
            let r = ron.config(rotation, max_gap_ns);
            let t = ron.t_bc_translation@;
            &&& r is Ok <==> {
                &&& rotation.rigid()
                &&& t[0].finite() && t[1].finite() && t[2].finite()
                &&& ron.gyro_noise.positive_finite()
                &&& ron.accel_noise.positive_finite()
                &&& ron.gyro_bias_noise.positive_finite()
                &&& ron.accel_bias_noise.positive_finite()
                &&& ron.rate_hz.positive_finite()
            }
            &&& r is Err && !rotation.rigid() ==> r->Err_0 is InertialExtrinsicNotRigid
                && r->Err_0->orthonormality_error == rotation.orthonormality_error()
                && r->Err_0->determinant == rotation.determinant
            &&& r is Err && rotation.rigid() ==> r->Err_0 is InertialParamInvalid
        }),
{
}

/// The first quantity that cannot be used is named with its own value: the lever arm by its axis,
/// then the densities, then the rate.
pub proof fn an_unusable_quantity_is_named(pose: RigidPose, calib: ImuCalib, rate: Double)
    ensures
        first_unusable(pose, calib, rate) matches Some(f) ==> {
            ||| f.0 == "imu_t_bc.translation.x" && f.1 == pose.translation.x && !f.1.finite()
            ||| f.0 == "imu_t_bc.translation.y" && f.1 == pose.translation.y && !f.1.finite()
            ||| f.0 == "imu_t_bc.translation.z" && f.1 == pose.translation.z && !f.1.finite()
            ||| f.0 == "gyro_noise" && f.1 == calib.gyro_noise && !f.1.positive_finite()
            ||| f.0 == "accel_noise" && f.1 == calib.accel_noise && !f.1.positive_finite()
            ||| f.0 == "gyro_bias_noise" && f.1 == calib.gyro_bias_noise
                && !f.1.positive_finite()
            ||| f.0 == "accel_bias_noise" && f.1 == calib.accel_bias_noise
                && !f.1.positive_finite()
            ||| f.0 == "nominal_rate_hz" && f.1 == rate && !f.1.positive_finite()
        },
{
}

/// A configuration has the numbers that were measured, and starts without a bias; the thresholds
/// are ten keyframes and one second of motion to start from and five seconds between attempts.
pub proof fn a_configuration_has_what_was_measured(
    ron: InertialRon,
    rotation: RotationResidual,
    max_gap_ns: u64,
)
    requires
        ron.config(rotation, max_gap_ns) is Ok,
    ensures
        ({
            let c = ron.config(rotation, max_gap_ns)->Ok_0;
            &&& c.initial_bias.gyro.x.bits == 0 && c.initial_bias.gyro.y.bits == 0
                && c.initial_bias.gyro.z.bits == 0
            &&& c.initial_bias.accel.x.bits == 0 && c.initial_bias.accel.y.bits == 0
                && c.initial_bias.accel.z.bits == 0
            &&& c.gates.min_samples == 4
            &&& c.init.min_keyframes == 10
            &&& c.init.min_time_sec.bits == 0x3ff0_0000_0000_0000
            &&& c.init_retry.bits == 0x4014_0000_0000_0000
            &&& c.init.min_motion.bits == 0x3fa9_9999_9999_999a
            &&& c.gates.min_coverage_ratio.bits == 0x3fec_cccc_cccc_cccd
            &&& c.buffer_capacity == 2048
        }),
{
}

/// A requested reset that was not seen yet starts the tracker over, once; one that was leaves it
/// alone. Either way the request counts as seen, and nothing else of the task changes.
pub proof fn a_request_starts_the_tracker_over(m: VioModel, epoch: u64)
    requires
        m.tracker is Some,
        m.tracker->0.world_generation < u64::MAX,
    ensures
        ({
            let n = m.reset_to(epoch);
            let t = m.tracker->0;
            let u = n.tracker->0;
            &&& n.tracker is Some
            &&& n.reset_epoch == epoch
            &&& epoch == m.reset_epoch ==> n == m
            &&& epoch != m.reset_epoch ==> {
                &&& u.world_generation == t.world_generation + 1
                &&& u.state.mode is Bootstrap
                &&& u.state.velocity is None
                &&& u.state.current_keyframe_idx is None
                &&& u.state.pose_world_to_cam == RigidPose::identity_spec()
                &&& u.config == t.config
                &&& u.next_frame_idx == t.next_frame_idx
                &&& u.epoch_ns == t.epoch_ns
                &&& u.stats.frames == 0
            }
            &&& n == (VioModel { tracker: n.tracker, reset_epoch: n.reset_epoch, ..m })
            &&& n.settings == m.settings
            &&& n.calib == m.calib
            &&& n.eye_width == m.eye_width && n.eye_height == m.eye_height
            &&& n.tracked_frames == m.tracked_frames
            &&& n.untracked_frames == m.untracked_frames
            &&& n.imu_push_warned == m.imu_push_warned
        }),
{
}

/// Waiting samples are handed to the tracker where the settings have an inertial block and some
/// wait. They are rejected if the tracker has no inertial path, or if any came in camera axes; the
/// tracker then stays as it was.
pub proof fn waiting_samples_are_handed_on_or_rejected(m: VioModel, queue: ImuQueueModel)
    requires
        m.tracker is Some,
    ensures
        ({
            let n = m.sampled(queue);
            let t = m.tracker->0;
            let some = m.settings.inertial is Some && queue.samples.len() > 0;
            &&& !some ==> n == m && m.rejection(queue) is None
            &&& some && t.inertial is None ==> m.rejection(queue) == Some(
                crate::error::VioError::InertialDisabled,
            )
            &&& some && t.inertial is Some && queue.aligned ==> m.rejection(queue) == Some(
                crate::error::VioError::InertialSamplesAligned,
            )
            &&& some && t.inertial is Some && !queue.aligned ==> m.rejection(queue) is None
            &&& m.rejection(queue) is Some ==> n.imu_push_warned && n.tracker == m.tracker
            &&& m.rejection(queue) is None ==> n.imu_push_warned == m.imu_push_warned
            &&& some && m.rejection(queue) is None ==> {
                &&& n.tracker is Some
                &&& n.tracker->0.inertial is Some
                &&& n.tracker->0.inertial->0.buffer == t.inertial->0.buffer.pushed(
                    queue.samples,
                    queue.dropped() as u64,
                )
                &&& n.tracker->0.inertial->0.bias == t.inertial->0.bias
                &&& n.tracker->0.state == t.state
                &&& n.tracker->0.stats == t.stats
                &&& n.tracker->0.world_generation == t.world_generation
            }
            &&& n == (VioModel { tracker: n.tracker, imu_push_warned: n.imu_push_warned, ..m })
            &&& n.settings == m.settings
            &&& n.calib == m.calib
            &&& n.reset_epoch == m.reset_epoch
            &&& n.tracked_frames == m.tracked_frames
            &&& m.settings.inertial is Some ==> m.drained(queue).samples.len() == 0
            &&& m.settings.inertial is None ==> m.drained(queue) == queue
        }),
{
}

/// A frame is counted once, as tracked or as untracked, and timed once, among the keyframes if it is
/// one. A keyframe is counted by whether its snapshot found a buffer; other frames have none.
pub proof fn a_frame_is_counted_and_timed_once(
    m: VioModel,
    status: TrackStatus,
    ms: Double,
    buffer_free: bool,
)
    requires
        m.can_publish(),
        m.wf(),
    ensures
        ({
            let n = m.published(status, ms, buffer_free);
            let tracked_now = status is Localized;
            let keyframe = status is Localized && status->Localized_0.keyframe;
            let one = |b: bool| if b { 1int } else { 0int };
            &&& n.tracked_frames == m.tracked_frames + one(tracked_now)
            &&& n.untracked_frames == m.untracked_frames + one(!tracked_now)
            &&& n.keyframe_n == m.keyframe_n + one(keyframe)
            &&& n.tracking_n == m.tracking_n + one(!keyframe)
            &&& n.landmark_snapshots == m.landmark_snapshots + one(keyframe && buffer_free)
            &&& n.landmark_pool_exhausted == m.landmark_pool_exhausted + one(
                keyframe && !buffer_free,
            )
            &&& keyframe ==> n.keyframe.len() > 0 && n.keyframe.last() == ms && n.tracking
                == m.tracking
            &&& !keyframe ==> n.tracking.len() > 0 && n.tracking.last() == ms && n.keyframe
                == m.keyframe
            &&& n.tracker == m.tracker
            &&& n.settings == m.settings
            &&& n.calib == m.calib
            &&& n.reset_epoch == m.reset_epoch
            &&& n.imu_push_warned == m.imu_push_warned
        }),
{
}

/// A published pose places the camera: its centre as translation and the rotation turned round,
/// with the tracker's world and its count of live points, cut off at the largest that fits. A
/// snapshot comes with a keyframe that found a buffer, and only with one.
pub proof fn a_published_pose_places_the_camera(
    pose: VioPose,
    p: TrackedPose,
    centre: Vec3,
    tracker: TrackerModel,
    buffer_free: bool,
    points: Seq<SnapshotPoint>,
)
    requires
        is_payload(
            pose,
            placed(p.pose_world_to_cam, centre),
            p.keyframe,
            tracker,
            buffer_free,
            points,
        ),
    ensures
        pose.cam_in_world.translation == centre,
        pose.cam_in_world.rotation.x_axis.x == p.pose_world_to_cam.rotation.x_axis.x,
        pose.cam_in_world.rotation.x_axis.y == p.pose_world_to_cam.rotation.y_axis.x,
        pose.cam_in_world.rotation.x_axis.z == p.pose_world_to_cam.rotation.z_axis.x,
        pose.cam_in_world.rotation.y_axis.x == p.pose_world_to_cam.rotation.x_axis.y,
        pose.cam_in_world.rotation.y_axis.y == p.pose_world_to_cam.rotation.y_axis.y,
        pose.cam_in_world.rotation.y_axis.z == p.pose_world_to_cam.rotation.z_axis.y,
        pose.cam_in_world.rotation.z_axis.x == p.pose_world_to_cam.rotation.x_axis.z,
        pose.cam_in_world.rotation.z_axis.y == p.pose_world_to_cam.rotation.y_axis.z,
        pose.cam_in_world.rotation.z_axis.z == p.pose_world_to_cam.rotation.z_axis.z,
        pose.status.keyframe == p.keyframe,
        pose.status.reset_epoch == tracker.world_generation,
        tracker.live_map_points <= u32::MAX ==> pose.status.landmarks == tracker.live_map_points,
        tracker.live_map_points > u32::MAX ==> pose.status.landmarks == u32::MAX,
        pose.map_points is Some <==> p.keyframe && buffer_free,
        pose.map_points matches Some(v) ==> v@.len() <= points.len(),
        pose.map_points matches Some(v) ==> forall|k: int|
            0 <= k < points.len() && (#[trigger] points[k]).index <= u32::MAX ==> exists|i: int|
                0 <= i < v@.len() && (#[trigger] v@[i]).index == points[k].index && v@[i].x
                    == points[k].x && v@[i].y == points[k].y && v@[i].z == points[k].z,
{
    if pose.map_points is Some {
        crate::task::lemma_no_more_landmarks_than_points(points, points.len() as int);
        let v = pose.map_points->0@;
        assert forall|k: int|
            0 <= k < points.len() && (#[trigger] points[k]).index <= u32::MAX implies exists|
            i: int,
        |
            0 <= i < v.len() && (#[trigger] v[i]).index == points[k].index && v[i].x
                == points[k].x && v[i].y == points[k].y && v[i].z == points[k].z by {
            crate::task::a_point_that_fits_is_shown(points, points.len() as int, k);
        }
    }
}

/// A frame's eyes have to have the first frame's size; one that does not is refused with both sizes.
pub proof fn eyes_keep_the_first_frames_size(m: VioModel, pair: StereoPair)
    requires
        pair.left.format.width * pair.left.format.height <= usize::MAX,
        m.wf(),
    ensures
        ({
            let f = pair.left.format;
            let r = m.misshapen(pair);
            &&& r is None <==> f.width == m.eye_width && f.height == m.eye_height
            &&& r matches Some(e) ==> {
                &&& e is FrameShape
                &&& e->FrameShape_seq == pair.left.seq
                &&& e->FrameShape_eye == Eye::Left
                &&& e->FrameShape_got == f.width * f.height
                &&& e->FrameShape_want == m.eye_width * m.eye_height
                &&& e->FrameShape_width == m.eye_width
                &&& e->FrameShape_height == m.eye_height
            }
        }),
{
}

/// A sample is unpacked with its own time and its own numbers, each axis to its axis: as exact in
/// the tracker's width as it was in the payload's.
pub proof fn a_sample_keeps_its_time_and_axes(samples: Seq<ImuSample>, i: int)
    requires
        0 <= i < samples.len(),
    ensures
        ({
            let r = unpacked_all(samples)[i];
            let s = samples[i];
            &&& unpacked_all(samples).len() == samples.len()
            &&& r == unpacked(s)
            &&& r.stamp_ns == s.tov
            &&& r.gyro.x == s.imu.gyro_x.widen_spec()
            &&& r.gyro.y == s.imu.gyro_y.widen_spec()
            &&& r.gyro.z == s.imu.gyro_z.widen_spec()
            &&& r.accel.x == s.imu.accel_x.widen_spec()
            &&& r.accel.y == s.imu.accel_y.widen_spec()
            &&& r.accel.z == s.imu.accel_z.widen_spec()
        }),
{
}

/// An answer has its message's time, and a pose if and only if the tracker placed the frame.
pub proof fn an_answer_has_its_messages_time(out: VioOutput, tov: Tov, status: Option<TrackStatus>)
    requires
        is_answer(out, tov, status),
    ensures
        out.tov == tov,
        status is None ==> out.payload is None,
        status == Some(TrackStatus::Untracked) ==> out.payload is None,
        status is Some && status->0 is Localized ==> out.payload is Some,
{
}

/// The eyes of a pair are its buffers up to the last pixel, each eye its own, in the first frame's
/// size.
pub proof fn each_eye_is_its_own_buffer(
    m: VioModel,
    pair: StereoPair,
    left: GrayImage,
    right: GrayImage,
    i: int,
)
    requires
        m.are_eyes(pair, left, right),
        0 <= i < m.eye_width * m.eye_height,
        pair.left.data@.len() >= m.eye_width * m.eye_height,
        pair.right.data@.len() >= m.eye_width * m.eye_height,
    ensures
        left.data@.len() == m.eye_width * m.eye_height,
        right.data@.len() == m.eye_width * m.eye_height,
        left.data@[i] == pair.left.data@[i],
        right.data@[i] == pair.right.data@[i],
        left.width == m.eye_width && left.height == m.eye_height,
        right.width == m.eye_width && right.height == m.eye_height,
{
}

/// A report on a population has its size and three of its samples, each the one its rank counts up
/// to; an empty population has none.
pub proof fn a_report_reads_the_samples_of_its_ranks(
    r: TimingReport,
    samples: Seq<Double>,
    ranks: Ranks,
)
    requires
        reports(r, samples, ranks),
        samples.len() <= usize::MAX,
    ensures
        r.n == samples.len(),
        samples.len() == 0 ==> r.p50 is None && r.p99 is None && r.max is None,
        samples.len() > 0 ==> r.p50 is Some && r.p99 is Some && r.max is Some,
        ({
            let order = ordering(total_keys_spec(samples));
            &&& 1 <= ranks.p50 <= samples.len() ==> r.p50 == Some(
                samples[order[ranks.p50 - 1] as int],
            )
            &&& 1 <= ranks.p99 <= samples.len() ==> r.p99 == Some(
                samples[order[ranks.p99 - 1] as int],
            )
            &&& 1 <= ranks.max <= samples.len() ==> r.max == Some(
                samples[order[ranks.max - 1] as int],
            )
        }),
{
    if 1 <= ranks.p50 <= samples.len() {
        crate::ring_laws::a_rank_counts_from_the_smallest(samples, ranks.p50, r.p50->0);
    }
    if 1 <= ranks.p99 <= samples.len() {
        crate::ring_laws::a_rank_counts_from_the_smallest(samples, ranks.p99, r.p99->0);
    }
    if 1 <= ranks.max <= samples.len() {
        crate::ring_laws::a_rank_counts_from_the_smallest(samples, ranks.max, r.max->0);
    }
}

/// A task begins with its settings, no tracker and nothing counted; a reset requested before that is
/// not pending.
pub proof fn a_task_begins_with_nothing_counted(settings: VioSettings, epoch: u64)
    ensures
        ({
            let m = VioModel::fresh(settings, epoch);
            &&& m.settings == settings
            &&& m.tracker is None
            &&& m.reset_epoch == epoch
            &&& m.tracked_frames == 0
            &&& m.untracked_frames == 0
            &&& !m.imu_push_warned
            &&& m.tracking.len() == 0
            &&& m.keyframe.len() == 0
            &&& m.tracking_n == 0
            &&& m.keyframe_n == 0
            &&& m.landmark_snapshots == 0
            &&& m.landmark_pool_exhausted == 0
        }),
{
}

} // verus!
