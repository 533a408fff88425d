use cufx_vio::association::{newest_live_map_points, MapPointRecord};
use cufx_vio::error::VioError;
use cufx_vio::frame::{
    build_u8_pyramid, keypoint_color, sample_keypoint_colors, validate_camera,
    validate_frame_arrays, Distortion, FrameArrays, GrayImage, LevelSize, Pixel,
};
use cufx_vio::geometry::{Mat3, RigidPose, Vec3};
use cufx_vio::ieee::{Double, Single};
use cufx_vio::imu::{ImuGates, RawImuSample};
use cufx_vio::inertial::{ImuBias, ImuCalib, InertialConfig, RotationResidual};
use cufx_vio::payload::{unpack_sample, ImuPayload, ImuSample};
use cufx_vio::run::{FrameRun, Job, Phase, Report};
use cufx_vio::state::{
    should_log_throttled, InitStage, LogMark, SystemMode, TrackingStatus,
};
use cufx_vio::track_inertial::in_init_window;
use cufx_vio::track::{
    AlignedState, BaPlan, KeyframePolicy, LossOutcome, LossPolicy, NewestKeyframe, SolvedInit,
    TrackedPose, Tracker, TrackerConfig,
};

const EPOCH_NS: u64 = 1_757_000_000_000_000_000;
const IMU_PERIOD_NS: u64 = 5_000_000;
/// Standard gravity, as the sensor crate has it.
const GRAVITY: f64 = kornia_sensors::imu::GRAVITY_MAGNITUDE;

fn double(x: f64) -> Double {
    Double::from_bits(x.to_bits())
}

fn single(x: f32) -> Single {
    Single::from_bits(x.to_bits())
}

fn vec3(x: f64, y: f64, z: f64) -> Vec3 {
    Vec3 {
        x: double(x),
        y: double(y),
        z: double(z),
    }
}

fn rectified_camera() -> Distortion {
    Distortion {
        k1: double(0.0),
        k2: double(0.0),
        p1: double(0.0),
        p2: double(0.0),
    }
}

fn config() -> TrackerConfig {
    TrackerConfig::new(double(0.075), double(35.0 * 0.075))
}

fn inertial_config() -> InertialConfig {
    // 90 degrees about z. Asymmetric under transpose.
    let rotation = Mat3 {
        x_axis: vec3(0.0, 1.0, 0.0),
        y_axis: vec3(-1.0, 0.0, 0.0),
        z_axis: vec3(0.0, 0.0, 1.0),
    };
    let zero = vec3(0.0, 0.0, 0.0);
    InertialConfig::new(
        RigidPose {
            rotation,
            translation: vec3(0.01, -0.02, 0.03),
        },
        &RotationResidual {
            residual: Mat3 {
                x_axis: zero,
                y_axis: zero,
                z_axis: zero,
            },
            determinant: double(1.0),
            determinant_error: double(0.0),
        },
        ImuCalib {
            gyro_noise: double(1.6968e-4),
            accel_noise: double(2.0e-3),
            gyro_bias_noise: double(1.9393e-5),
            accel_bias_noise: double(3.0e-3),
        },
        ImuGates::new(double(200.0), 15_000_000),
    )
    .expect("a proper rotation and positive densities")
}

fn tracker_with_inertial() -> Tracker {
    tracker_with_inertial_ba(true)
}

fn tracker_with_inertial_ba(enable_inertial_ba: bool) -> Tracker {
    let mut config = config();
    let mut inertial = inertial_config();
    inertial.enable_inertial_ba = enable_inertial_ba;
    config.inertial = Some(inertial);
    let mut tracker = Tracker::new(rectified_camera(), config);
    // Normally set by the first frame; set here because these tests never feed one.
    tracker.epoch_ns = Some(EPOCH_NS);
    tracker
}

fn imu_samples(from_ns: u64, n: usize) -> Vec<RawImuSample> {
    (0..n)
        .map(|i| RawImuSample {
            stamp_ns: from_ns + i as u64 * IMU_PERIOD_NS,
            gyro: vec3(0.0, 0.0, 0.05),
            accel: vec3(0.0, 9.81, 0.0),
        })
        .collect()
}

fn measured_bias() -> ImuBias {
    ImuBias {
        gyro: vec3(0.0026, -0.0011, 0.0009),
        accel: vec3(0.01, -0.02, 0.03),
    }
}

fn seconds(stamp_ns: u64) -> f64 {
    stamp_ns.saturating_sub(EPOCH_NS) as f64 * 1e-9
}

/// What came of the inertial half of an insertion.
#[derive(Default)]
struct Edge {
    factors: Vec<(usize, usize, usize)>,
    looks: usize,
    solves: usize,
}

/// Inserts a keyframe, doing the inertial jobs: the window is never ready.
fn insert(tracker: &mut Tracker, prev: Option<(usize, u64)>, idx: usize, stamp_ns: u64) -> Edge {
    tracker.state.last_keyframe_idx = prev.map(|p| p.0);
    tracker.last_keyframe_stamp_ns = prev.map(|p| p.1);
    let mut run = FrameRun {
        idx,
        stamp_ns,
        timestamp_sec: double(seconds(stamp_ns)),
        phase: Phase::Inserting,
        keyframes: 0,
        samples: Vec::new(),
        neighbours: Vec::new(),
        candidates: Vec::new(),
    };
    let mut edge = Edge::default();
    let mut job = tracker.advance(&mut run, Report::Finished);
    while job != Job::Fuse {
        let report = match job {
            Job::CountCoverage { from_ns, to_ns } => {
                Report::Coverage(((to_ns - from_ns) as f64 * 1e-9 * 200.0 * 0.9).ceil() as usize)
            }
            Job::Integrate { prev_stamp_ns, .. } => {
                Report::Integrated(double(seconds(stamp_ns) - seconds(prev_stamp_ns)))
            }
            Job::AddFactor { prev_idx } => {
                edge.factors.push((prev_idx, run.idx, run.samples.len()));
                Report::Finished
            }
            Job::MeasureInit => {
                let i = tracker.inertial.as_ref().unwrap();
                let since = |t: Option<Double>| {
                    double(seconds(stamp_ns) - t.map_or(0.0, |t| f64::from_bits(t.bits)))
                };
                Report::InitElapsed {
                    since_attempt: since(i.last_init_attempt_sec),
                    since_window: since(i.window_start_sec),
                }
            }
            Job::CheckReadiness { .. } => {
                edge.looks += 1;
                Report::Ready {
                    ready: false,
                    since_log: double(0.0),
                }
            }
            Job::DescribeWindow { .. } => Report::Finished,
            Job::Solve { .. } => {
                edge.solves += 1;
                Report::Solved(None)
            }
            other => panic!("{other:?}"),
        };
        job = tracker.advance(&mut run, report);
    }
    edge
}

#[test]
fn test_rejects_a_distorted_camera() {
    let camera = Distortion {
        k1: double(-0.12),
        ..rectified_camera()
    };
    let err = validate_camera(&camera, double(0.075)).unwrap_err();
    assert!(matches!(err, VioError::DistortedCamera { .. }), "{err:?}");
}

#[test]
fn test_rejects_a_non_positive_baseline() {
    let err = validate_camera(&rectified_camera(), double(0.0)).unwrap_err();
    assert!(matches!(err, VioError::InvalidBaseline { .. }), "{err:?}");
}

#[test]
fn the_near_depth_is_the_one_given() {
    assert_eq!(config().stereo_close_depth, Some(double(35.0 * 0.075)));
    assert_eq!(config().baseline, double(0.075));
}

#[test]
fn a_loss_is_waited_out_as_the_slam_crate_has_it() {
    let policy = LossPolicy::default();
    assert_eq!(policy.min_keyframes_for_grace, 10);
    assert_eq!(policy.grace_period_sec, double(0.5));
    assert_eq!(config().tracking_loss_recovery, policy);
}

#[test]
fn a_pyramid_has_the_levels_asked_for() {
    let img = GrayImage {
        width: 640,
        height: 400,
        data: vec![7u8; 640 * 400],
    };
    let sizes = vec![
        LevelSize {
            width: 533,
            height: 333,
        },
        LevelSize {
            width: 444,
            height: 278,
        },
        LevelSize {
            width: 1,
            height: 3,
        },
    ];
    let pyramid = build_u8_pyramid(&img, &sizes).unwrap();
    assert_eq!(
        pyramid.iter().map(|l| (l.width, l.height)).collect::<Vec<_>>(),
        [(640, 400), (533, 333), (444, 278), (1, 3)]
    );
    for level in &pyramid {
        assert_eq!(level.data.len(), level.width * level.height);
        assert!(level.data.iter().all(|&p| p == 7), "a flat image stays flat");
    }
}

#[test]
fn a_level_is_resampled_and_a_sliver_is_refused() {
    let img = GrayImage {
        width: 4,
        height: 2,
        data: vec![0, 0, 200, 200, 0, 0, 200, 200],
    };
    let half = vec![LevelSize {
        width: 2,
        height: 1,
    }];
    let pyr = build_u8_pyramid(&img, &half).unwrap();
    assert_eq!(pyr[0].data, img.data);
    assert_eq!(pyr[1].data.len(), 2);
    assert!(pyr[1].data[0] < pyr[1].data[1]);

    let sliver = GrayImage {
        width: 1,
        height: 4,
        data: vec![1; 4],
    };
    let err = build_u8_pyramid(&sliver, &half).unwrap_err();
    assert!(matches!(err, VioError::Image(_)), "{err:?}");
    assert_eq!(build_u8_pyramid(&sliver, &Vec::new()).unwrap().len(), 1);
}

#[test]
fn test_colors_are_clamped_not_wrapped() {
    let img = GrayImage {
        width: 4,
        height: 4,
        data: vec![9u8; 16],
    };
    let at = |x: f32, y: f32| Pixel {
        x: single(x),
        y: single(y),
    };
    // Out of range on both sides; must clamp rather than index out of bounds.
    let colors =
        sample_keypoint_colors(&img, &vec![at(-5.0, -5.0), at(99.0, 99.0), at(1.0, 1.0)]);
    assert_eq!(colors, vec![[9; 3]; 3]);
}

#[test]
fn colors_are_read_at_the_truncated_pixel() {
    let img = GrayImage {
        width: 3,
        height: 2,
        data: vec![10, 11, 12, 20, 21, 22],
    };
    let at = |x: f32, y: f32| Pixel {
        x: single(x),
        y: single(y),
    };
    let colors = sample_keypoint_colors(&img, &vec![at(1.9, 0.2), at(2.0, 1.0), at(f32::NAN, 7.5)]);
    assert_eq!(colors, vec![[11; 3], [22; 3], [20; 3]]);
}

#[test]
fn a_keypoint_without_a_color_is_grey() {
    let colors = vec![[1, 2, 3], [4, 5, 6]];
    assert_eq!(keypoint_color(&colors, 1), [4, 5, 6]);
    assert_eq!(keypoint_color(&colors, 2), [128, 128, 128]);
}

#[test]
fn test_newest_live_map_points_windows_the_tail_and_skips_culled() {
    let at = |i: usize| vec3(i as f64, -(i as f64), 0.5 * i as f64);
    let mut map: Vec<MapPointRecord> = (0..10)
        .map(|i| MapPointRecord {
            position: at(i),
            culled: false,
        })
        .collect();
    map[2].culled = true;
    map[7].culled = true;

    let got = newest_live_map_points(&map, 5);
    let want: Vec<_> = [5usize, 6, 8, 9].into_iter().map(|i| (i, at(i))).collect();
    assert_eq!(got, want);

    // A cap past the map's size is the whole live map.
    assert_eq!(newest_live_map_points(&map, 100).len(), 8);
    assert_eq!(newest_live_map_points(&map, 0).len(), 0);
}

#[test]
fn test_the_map_bound_drops_the_map_and_bumps_the_generation() {
    let mut tracker = tracker_with_inertial();
    tracker.config.max_keyframes = Some(4);
    let gen_before = tracker.world_generation();

    // Not armed: the bound must never fire on its own.
    assert!(!tracker.apply_pending_map_reset(), "unarmed reset fired");
    assert_eq!(tracker.world_generation(), gen_before);

    tracker.pending_map_reset = true;
    assert!(tracker.apply_pending_map_reset(), "map survived the bound");
    assert_eq!(
        tracker.world_generation(),
        gen_before + 1,
        "a dropped map MUST bump the generation"
    );
    // One-shot: the flag is consumed, so the next frame does not reset again.
    assert!(!tracker.pending_map_reset);
}

#[test]
fn test_the_bound_arms_only_on_an_insertion_that_reaches_the_cap() {
    let cases = [
        // (cap, keyframes, inserted, should_arm)
        (Some(4), 4, true, true),
        (Some(4), 5, true, true),
        (Some(4), 3, true, false),
        // Not an insertion: the map did not grow, so nothing can have crossed.
        (Some(4), 9, false, false),
        // Opt-in. `None` is every graph without the key, and must never arm.
        (None, 50, true, false),
    ];
    for (cap, kfs, inserted, want) in cases {
        let mut tracker = tracker_with_inertial();
        tracker.config.max_keyframes = cap;
        tracker.arm_map_bound(inserted, kfs);
        assert_eq!(
            tracker.pending_map_reset, want,
            "cap={cap:?} keyframes={kfs} inserted={inserted}"
        );
    }
}

#[test]
fn test_a_tracking_loss_map_drop_keeps_the_imu_bias() {
    let measured = measured_bias();
    let mut tracker = tracker_with_inertial();
    tracker.config.reset_map_on_loss = true;
    tracker.inertial.as_mut().unwrap().bias = measured;

    // The loss path a live graph takes: a young map is given up at once.
    let outcome = tracker.not_relocalized(double(1.0), double(0.0), double(0.0), 0);
    assert!(matches!(outcome, LossOutcome::GiveUp { drop_map: true, .. }));
    assert_eq!(
        tracker.inertial.as_ref().unwrap().bias.gyro,
        measured.gyro,
        "a tracking-loss drop re-estimated the bias from zero"
    );

    // And the requested reset remains the one path that DOES start it over.
    tracker.inertial.as_mut().unwrap().bias = measured;
    let initial = tracker.inertial.as_ref().unwrap().cfg.initial_bias;
    tracker.reset();
    assert_eq!(
        tracker.inertial.as_ref().unwrap().bias.gyro,
        initial.gyro,
        "a requested reset must still start the bias over"
    );
}

#[test]
fn test_a_map_bound_reset_keeps_the_imu_bias_and_a_requested_reset_does_not() {
    let measured = measured_bias();
    let mut tracker = tracker_with_inertial();
    tracker.inertial.as_mut().unwrap().bias = measured;
    tracker.reset_keeping_calibration();
    let kept = tracker.inertial.as_ref().unwrap().bias;
    assert_eq!(kept.gyro, measured.gyro, "map-bound reset lost the gyro bias");
    assert_eq!(kept.accel, measured.accel, "map-bound reset lost the accel bias");

    let mut tracker = tracker_with_inertial();
    tracker.inertial.as_mut().unwrap().bias = measured;
    let initial = tracker.inertial.as_ref().unwrap().cfg.initial_bias;
    tracker.reset();
    assert_eq!(
        tracker.inertial.as_ref().unwrap().bias.gyro,
        initial.gyro,
        "a requested reset must start the bias over"
    );

    // Neither carries `gravity_world`: the bootstrap after a reset defines a new world.
    let mut tracker = tracker_with_inertial();
    tracker.inertial.as_mut().unwrap().gravity_world = vec3(0.2, 8.9, -4.0);
    tracker.reset_keeping_calibration();
    let z = f64::from_bits(tracker.inertial.as_ref().unwrap().gravity_world.z.bits);
    assert!(
        (z + GRAVITY).abs() < 1e-9,
        "gravity_world must not survive a reset: it is world-frame"
    );
}

#[test]
fn test_a_reset_disarms_the_pending_bound() {
    let mut tracker = tracker_with_inertial();
    tracker.config.max_keyframes = Some(2);
    tracker.arm_map_bound(true, 3);
    assert!(tracker.pending_map_reset);

    tracker.reset();
    assert!(!tracker.pending_map_reset, "reset left the bound armed");
    let gen_after_reset = tracker.world_generation();
    tracker.apply_pending_map_reset();
    assert_eq!(
        tracker.world_generation(),
        gen_after_reset,
        "a disarmed bound must not bump the generation again"
    );
}

#[test]
fn test_the_inertial_path_is_off_unless_an_extrinsic_is_configured() {
    assert!(
        config().inertial.is_none(),
        "the default config must never carry a guessed extrinsic"
    );
    let mut tracker = Tracker::new(rectified_camera(), config());
    assert!(tracker.inertial_stats(0, 0).is_none());

    let err = tracker
        .push_raw_imu(&imu_samples(EPOCH_NS, 10), 0, false)
        .unwrap_err();
    assert!(matches!(err, VioError::InertialDisabled), "{err:?}");
}

#[test]
fn test_a_disabled_tracker_adds_no_factor_and_keeps_local_ba_visual() {
    let mut tracker = Tracker::new(rectified_camera(), config());
    tracker.epoch_ns = Some(EPOCH_NS);
    let edge = insert(
        &mut tracker,
        Some((0, EPOCH_NS + 1_000_000_000)),
        1,
        EPOCH_NS + 1_500_000_000,
    );
    assert!(edge.factors.is_empty());
    assert_eq!(tracker.local_ba_plan(10), BaPlan::Visual);
}

#[test]
fn test_already_aligned_samples_are_refused_rather_than_rotated_twice() {
    let mut tracker = tracker_with_inertial();
    let err = tracker
        .push_raw_imu(&imu_samples(EPOCH_NS, 10), 0, true)
        .unwrap_err();
    assert!(matches!(err, VioError::InertialSamplesAligned), "{err:?}");
    // And nothing was buffered, so a later interval cannot half-succeed on them.
    assert_eq!(tracker.inertial_stats(0, 0).unwrap().buffer.accepted, 0);
}

#[test]
fn test_push_imu_accepts_payload_samples() {
    let mut tracker = tracker_with_inertial();
    let sample = |ns: u64| ImuSample {
        tov: ns,
        imu: ImuPayload {
            accel_z: single(9.81),
            gyro_x: single(0.1),
            ..ImuPayload::default()
        },
    };
    let payload: Vec<ImuSample> = (0..3u64)
        .map(|i| sample(EPOCH_NS + i * IMU_PERIOD_NS))
        .collect();
    assert_eq!(tracker.push_imu(&payload, 0, false).expect("inertial on"), 3);
    let raw = unpack_sample(&sample(EPOCH_NS));
    assert_eq!(raw.stamp_ns, EPOCH_NS);
    let (accel, gyro) = (f64::from_bits(raw.accel.z.bits), f64::from_bits(raw.gyro.x.bits));
    assert!((accel - f64::from(9.81f32)).abs() < 1e-12, "{raw:?}");
    assert!((gyro - f64::from(0.1f32)).abs() < 1e-12, "{raw:?}");
}

#[test]
fn test_an_imu_edge_spans_exactly_the_two_keyframe_stamps() {
    let mut tracker = tracker_with_inertial();
    let t0_ns = EPOCH_NS + 1_000_000_000;
    let t1_ns = EPOCH_NS + 1_600_000_000;
    // 1.0 s through 1.995 s, so the interval is fully covered at both ends.
    tracker
        .push_raw_imu(&imu_samples(t0_ns, 200), 0, false)
        .expect("inertial path is on");

    let edge = insert(&mut tracker, Some((7, t0_ns)), 11, t1_ns);
    // Both indices are frame indices, and the samples are those at 1.000, 1.005 ... 1.600.
    assert_eq!(edge.factors, [(7, 11, 121)]);
    // Not initialized yet, so the adjustment stays visual.
    assert_eq!(tracker.local_ba_plan(10), BaPlan::Visual);

    let stats = tracker.inertial_stats(1, 121).unwrap();
    assert_eq!(stats.factors_added, 1);
    assert_eq!((stats.retained_factors, stats.retained_samples), (1, 121));
    // Pruned to the keyframe stamp: 1.600 s through 1.995 s inclusive.
    assert_eq!(stats.buffer.buffered, 80);
}

#[test]
fn test_an_interval_with_reported_drops_is_refused_not_shortened() {
    let mut tracker = tracker_with_inertial();
    let t0_ns = EPOCH_NS + 1_000_000_000;
    let t1_ns = EPOCH_NS + 1_600_000_000;
    tracker
        .push_raw_imu(&imu_samples(t0_ns, 100), 0, false)
        .unwrap();
    tracker
        .push_raw_imu(&imu_samples(t0_ns + 100 * IMU_PERIOD_NS, 100), 12, false)
        .unwrap();

    let edge = insert(&mut tracker, Some((7, t0_ns)), 11, t1_ns);
    assert!(
        edge.factors.is_empty(),
        "a holed interval must produce NO factor, not a short one"
    );
    assert_eq!(tracker.local_ba_plan(10), BaPlan::Visual);
    let stats = tracker.inertial_stats(0, 0).unwrap();
    assert_eq!(stats.refused_dropped, 1);
    assert_eq!(stats.factors_added, 0);
    // Still pruned: the refusal must not let the buffer grow without bound.
    assert_eq!(stats.buffer.buffered, 80);
}

#[test]
fn test_an_under_covered_interval_is_refused() {
    let mut tracker = tracker_with_inertial();
    let t0_ns = EPOCH_NS + 1_000_000_000;
    let t1_ns = EPOCH_NS + 1_600_000_000;
    let thinned: Vec<RawImuSample> = imu_samples(t0_ns, 200).into_iter().step_by(2).collect();
    tracker.push_raw_imu(&thinned, 0, false).unwrap();

    let edge = insert(&mut tracker, Some((7, t0_ns)), 11, t1_ns);
    assert!(edge.factors.is_empty());
    assert_eq!(tracker.inertial_stats(0, 0).unwrap().refused_too_few, 1);
}

#[test]
fn test_the_very_first_keyframe_has_no_edge_and_that_is_not_a_refusal() {
    let mut tracker = tracker_with_inertial();
    tracker
        .push_raw_imu(&imu_samples(EPOCH_NS, 200), 0, false)
        .unwrap();
    insert(&mut tracker, None, 0, EPOCH_NS + 500_000_000);
    let stats = tracker.inertial_stats(0, 0).unwrap();
    assert_eq!(stats.factors_added, 0);
    assert_eq!(stats.refused_total(), 0);
}

fn accepted_init() -> SolvedInit {
    SolvedInit {
        bias: ImuBias {
            gyro: vec3(0.01, -0.02, 0.03),
            accel: vec3(0.1, 0.2, -0.1),
        },
        gravity_world: vec3(0.0, GRAVITY, 0.0),
        aligned: Some(AlignedState {
            pose_world_to_cam: RigidPose {
                rotation: Mat3::identity(),
                translation: vec3(1.0, 2.0, 3.0),
            },
            velocity_world: vec3(0.1, 0.0, 0.0),
        }),
    }
}

#[test]
fn test_with_inertial_ba_off_an_accepted_initialization_is_counted_but_never_applied() {
    let mut tracker = tracker_with_inertial_ba(false);
    tracker.state.pose_world_to_cam.translation = vec3(-0.5, 0.25, -2.0);
    tracker
        .inertial
        .as_mut()
        .unwrap()
        .arm_window(3, double(0.0), EPOCH_NS);
    let pose_before = tracker.state.pose_world_to_cam;
    assert!(!tracker.applies_inertial_init());

    tracker.accept_inertial_init(InitStage::Initial, Some(accepted_init()), double(2.5));

    // Bit for bit, not approximately equal.
    assert_eq!(tracker.state.pose_world_to_cam, pose_before);
    assert_eq!(
        tracker.world_generation(),
        0,
        "reset_epoch would have gone on the wire"
    );
    assert!(!tracker.state.imu_initialized);
    assert!(tracker.state.imu_init_timestamp_sec.is_none());
    let inert = tracker.inertial.as_ref().unwrap();
    assert_eq!(inert.bias, inert.cfg.initial_bias);
    let zero_down = inert.gravity_world;
    assert_eq!(f64::from_bits(zero_down.x.bits), 0.0);
    assert_eq!(f64::from_bits(zero_down.y.bits), 0.0);
    assert_eq!(f64::from_bits(zero_down.z.bits), -GRAVITY);
    // ...but the acceptance is observable, which is the point of running dry at all.
    assert_eq!(inert.stats.init_accepted, 1);
    assert!(inert.dry_run_accepted);
    // And local BA stays on the visual path.
    insert(&mut tracker, None, 4, EPOCH_NS + 3_000_000_000);
    assert_eq!(tracker.local_ba_plan(10), BaPlan::Visual);
}

#[test]
fn test_with_inertial_ba_on_an_accepted_initialization_rotates_the_map() {
    let mut tracker = tracker_with_inertial_ba(true);
    tracker
        .inertial
        .as_mut()
        .unwrap()
        .arm_window(3, double(0.0), EPOCH_NS);
    let pose_before = tracker.state.pose_world_to_cam;
    assert!(tracker.applies_inertial_init());

    tracker.accept_inertial_init(InitStage::Initial, Some(accepted_init()), double(2.5));

    assert_ne!(tracker.state.pose_world_to_cam, pose_before);
    assert_eq!(tracker.world_generation(), 1);
    assert!(tracker.state.imu_initialized);
    assert_eq!(tracker.state.imu_init_timestamp_sec, Some(double(2.5)));
    let inert = tracker.inertial.as_ref().unwrap();
    assert_eq!(inert.bias, accepted_init().bias);
    assert_eq!(inert.gravity_world, vec3(0.0, GRAVITY, 0.0));
    assert_eq!(inert.stats.init_accepted, 1);
    assert!(!inert.dry_run_accepted);
    assert!(matches!(tracker.local_ba_plan(10), BaPlan::Inertial { .. }));
    assert_eq!(tracker.local_ba_plan(3), BaPlan::Skip, "the gauge is not anchored yet");
}

#[test]
fn test_a_dry_acceptance_stops_the_initializer_from_re_solving() {
    let mut tracker = tracker_with_inertial_ba(false);
    const N: usize = 10;
    const STEP_NS: u64 = 250_000_000;
    let stamp = |i: usize| EPOCH_NS + 1_000_000_000 + i as u64 * STEP_NS;
    let n_samples = (N as u64 * STEP_NS / IMU_PERIOD_NS) as usize + 10;
    tracker
        .push_raw_imu(&imu_samples(stamp(0), n_samples), 0, false)
        .unwrap();
    tracker
        .inertial
        .as_mut()
        .unwrap()
        .arm_window(0, double(1.0), stamp(0));
    // Simulate the acceptance that already happened for this window.
    tracker.inertial.as_mut().unwrap().dry_run_accepted = true;

    for i in 1..N {
        let edge = insert(&mut tracker, Some((i - 1, stamp(i - 1))), i, stamp(i));
        assert_eq!(edge.looks, 0, "the latch is looked at before the window");
        assert_eq!(edge.solves, 0);
    }

    let inert = tracker.inertial.as_mut().unwrap();
    assert_eq!(inert.stats.factors_added, N as u64 - 1);
    assert_eq!(
        inert.stats.init_attempts, 0,
        "the ladder re-solved after a dry acceptance"
    );
    // The latch belongs to the window: re-arming (a re-bootstrap) clears it.
    inert.arm_window(0, double(1.0), stamp(0));
    assert!(!inert.dry_run_accepted);
    let edge = insert(&mut tracker, None, N, stamp(N));
    assert_eq!(edge.looks, 1);
}

#[test]
fn test_a_reset_drops_the_buffer_and_the_initialization_window() {
    let mut tracker = tracker_with_inertial();
    tracker
        .push_raw_imu(&imu_samples(EPOCH_NS, 200), 0, false)
        .unwrap();
    let inert = tracker.inertial.as_mut().unwrap();
    inert.arm_window(3, double(0.0), EPOCH_NS);
    inert.last_window_log = Some(LogMark {
        at: double(0.0),
        verdict: false,
    });
    assert!(inert.start_kf_idx.is_some());

    tracker.reset();
    let inert = tracker.inertial.as_ref().unwrap();
    assert!(inert.start_kf_idx.is_none());
    assert!(inert.last_window_log.is_none());
    assert_eq!(inert.buffer.stats().buffered, 0);
    assert!(tracker.last_keyframe_stamp_ns.is_none());
}

fn times(m: &Mat3, v: [f64; 3]) -> [f64; 3] {
    let col = |c: &Vec3| [c.x, c.y, c.z].map(|d| f64::from_bits(d.bits));
    let (x, y, z) = (col(&m.x_axis), col(&m.y_axis), col(&m.z_axis));
    [0, 1, 2].map(|r| x[r] * v[0] + y[r] * v[1] + z[r] * v[2])
}

#[test]
fn test_pose_convention_is_world_to_cam() {
    // 90 deg yaw about y, column-major: a camera whose centre is at world (2, 0, 3).
    let r_wc = Mat3 {
        x_axis: vec3(0.0, 0.0, -1.0),
        y_axis: vec3(0.0, 1.0, 0.0),
        z_axis: vec3(1.0, 0.0, 0.0),
    };
    let centre = [2.0, 0.0, 3.0];
    let t = times(&r_wc, centre).map(|x| -x);
    let tracked_pose = TrackedPose {
        stamp: 0,
        pose_world_to_cam: RigidPose {
            rotation: r_wc,
            translation: vec3(t[0], t[1], t[2]),
        },
        keyframe: false,
    };
    let at = times(&r_wc.transpose(), t).map(|x| -x);
    let back = tracked_pose.cam_in_world(vec3(at[0], at[1], at[2]));
    let got = [back.translation.x, back.translation.y, back.translation.z]
        .map(|d| f64::from_bits(d.bits));
    assert_eq!(got, centre);
    // Turning the translation round without turning it back is another place altogether.
    let off: f64 = (0..3).map(|i| (-t[i] - centre[i]).powi(2)).sum();
    assert!(off.sqrt() > 1.0, "pick a pose where the two differ");
    // And the rotation half round-trips: R_cw * R_wc = I.
    for e in [[1.0, 0.0, 0.0], [0.0, 1.0, 0.0], [0.0, 0.0, 1.0]] {
        assert_eq!(times(&back.rotation, times(&r_wc, e)), e);
    }
}

#[test]
fn test_cam_in_world_inverts_and_keeps_row_major_order() {
    // world-to-camera rotation: yaw -90 deg about Z (columns listed).
    let r_wc = Mat3 {
        x_axis: vec3(0.0, -1.0, 0.0),
        y_axis: vec3(1.0, 0.0, 0.0),
        z_axis: vec3(0.0, 0.0, 1.0),
    };
    let t_wc = times(&r_wc, [1.0, 2.0, 3.0]).map(|x| -x);
    let centre = times(&r_wc.transpose(), t_wc).map(|x| -x);
    let pose = RigidPose {
        rotation: r_wc,
        translation: vec3(t_wc[0], t_wc[1], t_wc[2]),
    };
    let m = cufx_vio::pose::cam_in_world(&pose, vec3(centre[0], centre[1], centre[2])).to_matrix();
    let want = [
        [0.0, -1.0, 0.0, 1.0],
        [1.0, 0.0, 0.0, 2.0],
        [0.0, 0.0, 1.0, 3.0],
        [0.0, 0.0, 0.0, 1.0],
    ];
    for (r, (got, want)) in m.iter().zip(want).enumerate() {
        for c in 0..4 {
            let got = f64::from_bits(got[c].bits);
            assert!((got - want[c]).abs() < 1e-12, "[{r}][{c}]: {got}");
        }
    }
}

#[test]
fn test_the_init_window_line_is_throttled_but_never_loses_the_transition() {
    const RETRY: f64 = 5.0;
    let due = |last: Option<(f64, bool)>, now_sec: f64, ready: bool| {
        let mark = last.map(|(at, verdict)| LogMark {
            at: double(at),
            verdict,
        });
        let elapsed = now_sec - last.map_or(0.0, |(at, _)| at);
        should_log_throttled(mark, double(elapsed), ready, double(RETRY))
    };

    // First sighting always speaks.
    assert!(due(None, 100.0, false));

    // Same verdict inside the interval stays quiet; at the interval it speaks again.
    assert!(!due(Some((100.0, false)), 100.5, false));
    assert!(!due(Some((100.0, false)), 104.9, false));
    assert!(due(Some((100.0, false)), 105.0, false));

    // A FLIPPED verdict speaks immediately, however recently we spoke.
    assert!(due(Some((100.0, false)), 100.01, true));
    assert!(due(Some((100.0, true)), 100.01, false));
}

#[test]
fn test_the_loss_throttle_interval_is_positive() {
    assert!(f64::from_bits(cufx_vio::track::LOSS_LOG_RETRY_BITS) > 0.0);
}

#[test]
fn test_a_reset_clears_the_loss_throttle_and_its_tally() {
    let mut tracker = tracker_with_inertial();
    tracker.last_loss_log = Some(LogMark {
        at: double(10.0),
        verdict: true,
    });
    tracker.losses_suppressed = 17;

    tracker.reset();

    assert!(tracker.last_loss_log.is_none());
    assert_eq!(tracker.losses_suppressed, 0);
}

#[test]
fn test_re_arming_the_window_clears_the_line_throttle() {
    let mut tracker = tracker_with_inertial();
    let inert = tracker.inertial.as_mut().unwrap();
    inert.arm_window(3, double(0.0), EPOCH_NS);
    inert.last_window_log = Some(LogMark {
        at: double(10.0),
        verdict: false,
    });

    inert.arm_window(7, double(1.0), EPOCH_NS);
    assert!(inert.last_window_log.is_none());
}

#[test]
fn frames_with_crooked_arrays_or_values_are_refused() {
    let good = || FrameArrays {
        keypoints_xy: vec![
            Pixel {
                x: single(1.0),
                y: single(2.0),
            };
            2
        ],
        u_right: vec![single(-1.0), single(0.5)],
        depth: vec![single(-1.0), single(3.0)],
        n_colors: 2,
        n_descriptors: 2,
        n_octaves: 2,
        n_orientations: 2,
    };
    assert!(validate_frame_arrays(&good()).is_ok());
    let mut short = good();
    short.n_octaves = 1;
    assert!(matches!(
        validate_frame_arrays(&short),
        Err(VioError::FrameArraysNotParallel {
            n_keypoints: 2,
            n_octaves: 1,
            ..
        })
    ));
    let mut deep = good();
    deep.depth[1] = single(f32::NAN);
    assert!(matches!(
        validate_frame_arrays(&deep),
        Err(VioError::NonFiniteFrameValue {
            field: "depth",
            index: 1,
            ..
        })
    ));

    let mut tracker = Tracker::new(rectified_camera(), config());
    assert!(tracker.process_frame(&deep, 1_000).is_err());
    assert_eq!(tracker.next_frame_idx, 0, "a refused frame takes no number");
    let start = tracker.process_frame(&good(), 1_000).expect("frame");
    assert_eq!((start.idx, start.since_epoch_ns), (0, 0));
    assert!(start.bootstrap);
    assert_eq!(tracker.stats(0, 0).stereo_matches, 1);
    let start = tracker.process_frame(&good(), 3_500).expect("frame");
    assert_eq!((start.idx, start.since_epoch_ns), (1, 2_500));

    assert!(matches!(
        tracker.process_stereo(4, 4, 4, 5),
        Err(VioError::StereoSizeMismatch { .. })
    ));
    assert!(tracker.process_stereo(4, 4, 4, 4).is_ok());
}

#[test]
fn a_keyframe_is_due_by_the_ratio_the_policy_asks_for() {
    assert_eq!(KeyframePolicy::default().ref_ratio, double(0.6));
    for (ratio, last_due) in [(0.9, 89), (0.6, 59), (0.25, 24)] {
        let mut settings = config();
        settings.keyframe_policy.ref_ratio = double(ratio);
        let mut tracker = Tracker::new(rectified_camera(), settings);
        tracker.bootstrap_stereo(50, 0, double(0.0), EPOCH_NS);
        assert!(tracker.keyframe_due(3, last_due, Some(100)), "{ratio}");
        assert!(!tracker.keyframe_due(3, last_due + 1, Some(100)), "{ratio}");
        assert!(!tracker.keyframe_due(3, 14, Some(100)), "too few to go by");
        assert!(tracker.keyframe_due(3, 100, Some(0)), "nothing left to see");
        assert!(tracker.keyframe_due(8, 100, Some(100)));
    }
    let mut settings = config();
    settings.keyframe_policy.ref_ratio = double(f64::NAN);
    let mut tracker = Tracker::new(rectified_camera(), settings);
    tracker.bootstrap_stereo(50, 0, double(0.0), EPOCH_NS);
    assert!(!tracker.keyframe_due(3, 20, Some(100)), "no number asks for nothing");
}

#[test]
fn a_keyframe_is_due_by_interval_or_by_attrition() {
    let mut tracker = Tracker::new(rectified_camera(), config());
    assert_eq!(tracker.mode(), SystemMode::Bootstrap);
    assert_eq!(
        tracker.bootstrap_stereo(49, 0, double(0.0), EPOCH_NS),
        TrackingStatus::Skipped
    );
    assert_eq!(
        tracker.bootstrap_stereo(50, 0, double(0.0), EPOCH_NS),
        TrackingStatus::KeyframeAccepted
    );
    assert_eq!(tracker.mode(), SystemMode::Tracking);
    assert_eq!(tracker.previous_edge(), Some((0, EPOCH_NS)));
    assert!(!tracker.keyframe_due(8, 100, None), "nothing to track against");
    assert!(!tracker.keyframe_due(2, 1, Some(100)), "too soon after the last one");
    assert!(tracker.keyframe_due(3, 59, Some(100)));
    assert!(!tracker.keyframe_due(3, 60, Some(100)));
    assert!(tracker.keyframe_due(8, 100, Some(100)), "long enough ago");
}

#[test]
fn the_newest_keyframe_is_read_back() {
    let mut tracker = tracker_with_inertial();
    let newest = NewestKeyframe {
        pose_world_to_cam: RigidPose {
            rotation: Mat3::identity(),
            translation: vec3(9.0, 8.0, 7.0),
        },
        imu_bias: measured_bias(),
        velocity_world: vec3(0.5, 0.0, 0.0),
    };
    tracker.sync_newest_keyframe(Some(newest), false);
    assert_eq!(tracker.last_pose(), RigidPose::identity(), "nothing was adjusted");
    assert_eq!(tracker.inertial.as_ref().unwrap().bias, measured_bias());
    tracker.sync_newest_keyframe(Some(newest), true);
    assert_eq!(tracker.last_pose(), newest.pose_world_to_cam);
    assert_eq!(tracker.state.velocity_world, newest.velocity_world);
}

#[test]
fn an_edge_that_spans_no_time_is_no_factor() {
    let mut tracker = tracker_with_inertial();
    for dt in [0.0, -1.0, f64::NAN] {
        assert!(!tracker.edge_integrated(double(dt)));
    }
    assert!(tracker.edge_integrated(double(0.1)));
    let stats = tracker.inertial_stats(1, 2).unwrap();
    assert_eq!((stats.refused_zero_dt, stats.factors_added), (3, 1));
    assert_eq!(stats.refused_total(), 3);
}

#[test]
fn an_init_window_holds_what_lies_at_or_past_its_start() {
    // Edges named by their later keyframe: one before the window, one into its first keyframe.
    let edges = vec![2, 3, 5, 4];
    assert_eq!(in_init_window(&edges, 3), [1, 2, 3]);
    assert_eq!(in_init_window(&edges, 6), Vec::<usize>::new());
}
