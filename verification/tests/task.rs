use cufx_vio::config::{ConfigError, InertialRon};
use cufx_vio::error::VioError;
use cufx_vio::geometry::{Mat3, RigidPose, Vec3};
use cufx_vio::ieee::{Double, Single};
use cufx_vio::imu_channel::ImuQueue;
use cufx_vio::inertial::RotationResidual;
use cufx_vio::payload::{
    ImuPayload, ImuSample, Landmark, RectifiedStereo, StereoPair, TimeRange, Tov, VioPose,
};
use cufx_vio::reset::ResetEpoch;
use cufx_vio::stereo_vio::{eye, Ranks, RigNumbers, StereoVio, Taken, VioOutput};
use cufx_vio::task::{
    read_settings, snapshot_map_points, Raw, RawConfig, SnapshotPoint, VioSettings,
    DEFAULT_LANDMARK_BUFFERS, MAX_LANDMARK_BUFFERS,
};
use cufx_vio::task_error::{Eye, TaskError};
use cufx_vio::track::{TrackStatus, TrackedPose};

const W: u32 = 320;
const H: u32 = 240;

fn double(x: f64) -> Double {
    Double::from_bits(x.to_bits())
}

fn single(x: f32) -> Single {
    Single::from_bits(x.to_bits())
}

fn empty_config() -> RawConfig {
    RawConfig {
        keys: None,
        inertial: Raw::Absent,
        landmark_buffers: Raw::Absent,
        on_tracking_loss: Raw::Absent,
        max_keyframes: Raw::Absent,
        orb_keypoints: Raw::Absent,
        search_radius_px: Raw::Absent,
        max_covisible_keyframes: Raw::Absent,
        pnp_lm_iterations: Raw::Absent,
    }
}

fn settings() -> VioSettings {
    read_settings(&empty_config(), &mut ImuQueue::new()).expect("an empty config is valid")
}

fn rig() -> RigNumbers {
    let zero = Vec3::zero();
    RigNumbers {
        close_depth: double(3.5),
        rotation: RotationResidual {
            residual: Mat3 {
                x_axis: zero,
                y_axis: zero,
                z_axis: zero,
            },
            determinant: double(1.0),
            determinant_error: double(0.0),
        },
        max_gap_ns: 15_000_000,
    }
}

fn pair() -> StereoPair {
    let texture = |x: u32, y: u32| {
        let h = (x.wrapping_mul(73_856_093) ^ y.wrapping_mul(19_349_663))
            .wrapping_mul(2_654_435_761);
        (h >> 24) as u8
    };
    let eye = |shift: u32| {
        (0..H)
            .flat_map(|y| (0..W).map(move |x| texture(x + shift, y)))
            .collect::<Vec<u8>>()
    };
    let calib = RectifiedStereo {
        fx: double(300.0),
        fy: double(300.0),
        cx: double(160.0),
        cy: double(120.0),
        baseline: double(0.1),
    };
    StereoPair::new(W, H, eye(8), eye(0), calib).expect("valid pair")
}

struct Bench {
    task: StereoVio,
    queue: ImuQueue,
    epoch: ResetEpoch,
    out: VioOutput,
}

impl Bench {
    fn new(settings: VioSettings) -> Bench {
        let epoch = ResetEpoch::new();
        Bench {
            task: StereoVio::new(settings, &epoch),
            queue: ImuQueue::new(),
            epoch,
            out: VioOutput {
                tov: Tov::Absent,
                payload: None,
            },
        }
    }

    fn process(&mut self, tov: Tov, pair: Option<&StereoPair>) -> Taken {
        self.task
            .process(tov, pair, &self.epoch, &mut self.queue, &rig(), &mut self.out)
    }
}

#[test]
fn test_output_tov_is_the_input_tov() {
    let mut b = Bench::new(settings());
    for tov in [
        Tov::Time(1_000_000),
        Tov::Range(TimeRange {
            start: 2_000_000,
            end: 2_000_500,
        }),
    ] {
        let taken = b.process(tov, Some(&pair()));
        let intake = taken.frame.expect("a valid frame").expect("a frame");
        assert_eq!(
            intake.stamp,
            if tov == Tov::Time(1_000_000) {
                1_000_000
            } else {
                2_000_000
            }
        );
        assert_eq!(intake.left.data, pair().left.data);
        assert_eq!(intake.right.data, pair().right.data);
        assert_eq!(b.out.tov, tov, "the pose must carry the frame's time of validity");
    }
}

#[test]
fn test_an_untimed_frame_is_refused_but_still_propagates_its_tov() {
    let mut b = Bench::new(settings());
    b.out.payload = Some(VioPose::default());
    b.out.tov = Tov::Time(5);
    let taken = b.process(Tov::Absent, Some(&pair()));
    assert!(
        matches!(taken.frame, Err(TaskError::Untimed { seq: 0 })),
        "the tracker needs a capture time per frame"
    );
    assert_eq!(b.out.tov, Tov::Absent, "no stale tov may survive a refused frame");
    assert!(b.out.payload.is_none(), "no stale pose may survive a refused frame");
}

#[test]
fn test_an_empty_input_clears_the_output() {
    let mut b = Bench::new(settings());
    b.out.payload = Some(VioPose::default());
    let taken = b.process(Tov::Time(7), None);
    assert!(taken.frame.expect("no payload is not an error").is_none());
    assert!(b.out.payload.is_none());
    assert_eq!(b.out.tov, Tov::Time(7));
}

#[test]
fn test_a_reset_request_on_the_bus_is_applied_at_the_next_frame() {
    let mut b = Bench::new(settings());
    b.process(Tov::Time(1), Some(&pair())).frame.expect("frame");
    b.epoch.request();
    assert_eq!(b.task.reset_epoch, 0, "applied only at a frame boundary");
    b.process(Tov::Time(2), Some(&pair())).frame.expect("frame");
    assert_eq!(b.task.reset_epoch, 1);
    assert_eq!(b.task.tracker.as_ref().unwrap().world_generation(), 1);
    b.process(Tov::Time(3), Some(&pair())).frame.expect("frame");
    assert_eq!(b.task.tracker.as_ref().unwrap().world_generation(), 1, "applied once");
}

#[test]
fn test_a_mid_stream_calibration_change_is_refused() {
    let mut b = Bench::new(settings());
    b.process(Tov::Time(1), Some(&pair())).frame.expect("frame");
    let mut changed = pair();
    changed.calib.baseline = double(0.12);
    let taken = b.process(Tov::Time(2), Some(&changed));
    assert!(
        matches!(taken.frame, Err(TaskError::CalibrationChanged { .. })),
        "the tracker keeps the first frame's camera model"
    );
    b.process(Tov::Time(3), Some(&pair()))
        .frame
        .expect("the first calibration is still accepted");
}

#[test]
fn test_an_exhausted_landmark_pool_yields_no_snapshot_until_a_buffer_returns() {
    let point = |index, x, y, z| SnapshotPoint {
        index,
        x: single(x),
        y: single(y),
        z: single(z),
    };
    let mut pool = vec![vec![Landmark::default(); 4]];
    let held = snapshot_map_points(pool.pop(), &vec![point(3, 1.0, 2.0, 3.0)])
        .expect("one free buffer");
    assert!(
        snapshot_map_points(pool.pop(), &Vec::new()).is_none(),
        "the only buffer is still checked out"
    );
    pool.push(held);
    let again = snapshot_map_points(pool.pop(), &vec![point(9, 4.0, 5.0, 6.0)])
        .expect("the buffer came back");
    assert_eq!(
        again,
        vec![Landmark {
            x: single(4.0),
            y: single(5.0),
            z: single(6.0),
            index: 9,
        }],
        "a recycled buffer holds only the new snapshot, not the previous fill"
    );
}

#[test]
fn an_index_past_32_bits_is_left_out_of_a_snapshot() {
    let zero = single(0.0);
    let points = vec![
        SnapshotPoint {
            index: u32::MAX as usize,
            x: zero,
            y: zero,
            z: zero,
        },
        SnapshotPoint {
            index: u32::MAX as usize + 1,
            x: zero,
            y: zero,
            z: zero,
        },
    ];
    let got = snapshot_map_points(Some(Vec::new()), &points).expect("a buffer");
    assert_eq!(got.len(), 1);
    assert_eq!(got[0].index, u32::MAX);
}

fn with_landmark_buffers(n: u32) -> Result<VioSettings, ConfigError> {
    let raw = RawConfig {
        keys: Some(vec!["landmark_buffers".to_string()]),
        landmark_buffers: Raw::Value(n),
        ..empty_config()
    };
    read_settings(&raw, &mut ImuQueue::new())
}

#[test]
fn test_zero_landmark_buffers_is_refused() {
    assert!(
        matches!(
            with_landmark_buffers(0),
            Err(ConfigError::NotPositive {
                key: "landmark_buffers"
            })
        ),
        "a pool of zero buffers would never snapshot"
    );
}

#[test]
fn test_landmark_buffers_past_the_cap_is_refused() {
    let cap = MAX_LANDMARK_BUFFERS as u32;
    assert!(with_landmark_buffers(cap).is_ok(), "the cap itself is accepted");
    assert!(
        matches!(
            with_landmark_buffers(cap + 1),
            Err(ConfigError::TooManyLandmarkBuffers { got: 257 })
        ),
        "every buffer is allocated up front, so the count is bounded"
    );
    assert_eq!(settings().landmark_buffers, DEFAULT_LANDMARK_BUFFERS);
}

fn ron() -> InertialRon {
    InertialRon {
        t_bc_rotation: [1.0, 0.0, 0.0, 0.0, 1.0, 0.0, 0.0, 0.0, 1.0].map(double),
        t_bc_translation: [0.0; 3].map(double),
        gyro_noise: double(1.6e-4),
        accel_noise: double(2.0e-3),
        gyro_bias_noise: double(1.9e-5),
        accel_bias_noise: double(3.0e-3),
        rate_hz: double(200.0),
        enable_inertial_ba: false,
    }
}

fn inertial_settings(ron: InertialRon, queue: &mut ImuQueue) -> VioSettings {
    let raw = RawConfig {
        inertial: Raw::Value(ron),
        ..empty_config()
    };
    read_settings(&raw, queue).expect("a block is looked into on the first frame")
}

#[test]
fn test_only_an_inertial_config_arms_the_imu_queue() {
    let mut imu = ImuQueue::new();
    read_settings(&empty_config(), &mut imu).expect("valid");
    assert!(!imu.is_armed(), "a stereo-only task must leave the producer inert");
    inertial_settings(ron(), &mut imu);
    assert!(imu.is_armed());
}

#[test]
fn settings_are_read_key_by_key() {
    let mut imu = ImuQueue::new();
    let raw = RawConfig {
        on_tracking_loss: Raw::Value("reset_map".to_string()),
        max_keyframes: Raw::Value(40),
        orb_keypoints: Raw::Value(900),
        search_radius_px: Raw::Value(double(8.0)),
        max_covisible_keyframes: Raw::Value(4),
        pnp_lm_iterations: Raw::Value(12),
        ..empty_config()
    };
    let s = read_settings(&raw, &mut imu).expect("valid");
    assert_eq!(s.max_keyframes, Some(40));
    assert_eq!(s.orb_keypoints, Some(900));
    assert_eq!(s.search_radius_px, Some(double(8.0)));
    assert_eq!(s.pnp_lm_iterations, Some(12));

    let mut b = Bench::new(s);
    b.process(Tov::Time(1), Some(&pair())).frame.expect("frame");
    let config = b.task.tracker.as_ref().unwrap().config;
    assert!(config.reset_map_on_loss);
    assert_eq!(config.max_keyframes, Some(40));
    assert_eq!(config.max_covisible_keyframes, 4);
    assert_eq!(config.baseline, double(0.1));

    for (raw, key) in [
        (
            RawConfig {
                inertial: Raw::Unreadable,
                ..empty_config()
            },
            "inertial",
        ),
        (
            RawConfig {
                on_tracking_loss: Raw::Value("ResetMap".to_string()),
                ..empty_config()
            },
            "on_tracking_loss",
        ),
        (
            RawConfig {
                pnp_lm_iterations: Raw::Unreadable,
                ..empty_config()
            },
            "pnp_lm_iterations",
        ),
    ] {
        match read_settings(&raw, &mut imu) {
            Err(ConfigError::Unreadable { key: got }) => assert_eq!(got, key),
            _ => panic!("{key} was accepted"),
        }
    }
    let typo = RawConfig {
        keys: Some(vec![
            "zoom".to_string(),
            "max_keyframes".to_string(),
            "max_keyframe".to_string(),
        ]),
        ..empty_config()
    };
    match read_settings(&typo, &mut imu) {
        Err(ConfigError::UnknownKeys { unknown, task, .. }) => {
            assert_eq!(unknown, ["max_keyframe", "zoom"]);
            assert_eq!(task, "cu_kornia_vio::StereoVio");
        }
        _ => panic!("a typo was accepted"),
    }
}

fn samples(from_ns: u64, n: u64) -> Vec<ImuSample> {
    (0..n)
        .map(|i| ImuSample {
            tov: from_ns + i,
            imu: ImuPayload::default(),
        })
        .collect()
}

#[test]
fn waiting_samples_reach_the_tracker_before_the_frame() {
    let mut queue = ImuQueue::new();
    let mut b = Bench::new(inertial_settings(ron(), &mut queue));
    b.queue = queue;
    b.queue.push(&samples(10, 5), 0, false);
    let taken = b.process(Tov::Time(100), Some(&pair()));
    assert!(taken.imu_rejected.is_none());
    taken.frame.expect("frame");
    let stats = b.task.tracker.as_ref().unwrap().inertial_stats(0, 0).unwrap();
    assert_eq!(stats.buffer.accepted, 5);
    assert!(b.queue.drain().samples.is_empty());

    // Samples in the camera's frame are rejected, and only the first rejection is told.
    b.queue.push(&samples(200, 5), 0, true);
    let taken = b.process(Tov::Time(300), Some(&pair()));
    assert!(matches!(taken.imu_rejected, Some(VioError::InertialSamplesAligned)));
    taken.frame.expect("the frame goes on without them");
    b.queue.push(&samples(400, 5), 0, true);
    let taken = b.process(Tov::Time(500), Some(&pair()));
    assert!(taken.imu_rejected.is_none());
    let stats = b.task.tracker.as_ref().unwrap().inertial_stats(0, 0).unwrap();
    assert_eq!(stats.buffer.accepted, 5);
}

#[test]
fn a_malformed_block_is_refused_on_every_frame() {
    let mut queue = ImuQueue::new();
    let mut bad = ron();
    bad.accel_noise = double(f64::NAN);
    let mut b = Bench::new(inertial_settings(bad, &mut queue));
    for t in 1..3 {
        match b.process(Tov::Time(t), Some(&pair())).frame {
            Err(TaskError::Vio(VioError::InertialParamInvalid { field, .. })) => {
                assert_eq!(field, "accel_noise")
            }
            _ => panic!("a density that is no number was accepted"),
        }
        assert!(b.task.tracker.is_none());
    }
}

#[test]
fn another_size_is_refused_for_the_left_eye_first() {
    let mut b = Bench::new(settings());
    b.process(Tov::Time(1), Some(&pair())).frame.expect("frame");
    let small = StereoPair::new(2, 1, vec![1, 2], vec![3, 4], pair().calib).expect("valid");
    match b.process(Tov::Time(2), Some(&small)).frame {
        Err(TaskError::FrameShape {
            eye,
            got,
            want,
            width,
            height,
            ..
        }) => {
            assert_eq!(eye, Eye::Left);
            assert_eq!((got, want), (2, 320 * 240));
            assert_eq!((width, height), (W, H));
        }
        _ => panic!("another size was accepted"),
    }
    assert!(matches!(
        eye(&[1, 2, 3], 2, 1, 9, Eye::Right),
        Err(TaskError::FrameShape {
            seq: 9,
            eye: Eye::Right,
            got: 3,
            want: 2,
            ..
        })
    ));
    let mut broken = pair();
    broken.right.data.pop();
    assert!(matches!(
        b.process(Tov::Time(3), Some(&broken)).frame,
        Err(TaskError::Pair(_))
    ));
}

#[test]
fn a_turned_frame_of_as_many_bytes_is_refused() {
    let mut b = Bench::new(settings());
    let first = pair();
    b.process(Tov::Time(1), Some(&first)).frame.expect("frame");
    let turned = StereoPair::new(
        H,
        W,
        first.left.data.clone(),
        first.right.data.clone(),
        pair().calib,
    )
    .expect("valid");
    assert!(matches!(
        b.process(Tov::Time(2), Some(&turned)).frame,
        Err(TaskError::FrameShape {
            eye: Eye::Left,
            got: 76_800,
            want: 76_800,
            width: W,
            height: H,
            ..
        })
    ));
    assert!(b.process(Tov::Time(3), Some(&first)).frame.is_ok());
}

fn pose(keyframe: bool) -> TrackStatus {
    TrackStatus::Localized(TrackedPose {
        stamp: 1,
        pose_world_to_cam: RigidPose {
            rotation: Mat3 {
                x_axis: Vec3 {
                    x: double(0.0),
                    y: double(-1.0),
                    z: double(0.0),
                },
                y_axis: Vec3 {
                    x: double(1.0),
                    y: double(0.0),
                    z: double(0.0),
                },
                z_axis: Vec3 {
                    x: double(0.0),
                    y: double(0.0),
                    z: double(1.0),
                },
            },
            translation: Vec3::zero(),
        },
        keyframe,
    })
}

#[test]
fn only_keyframe_poses_carry_a_snapshot() {
    let mut b = Bench::new(settings());
    b.process(Tov::Time(1), Some(&pair())).frame.expect("frame");
    let t = b.task.tracker.as_mut().unwrap();
    t.world_generation = 6;
    t.live_map_points = 9;
    let centre = Vec3 {
        x: double(1.0),
        y: double(2.0),
        z: double(3.0),
    };
    let points = vec![SnapshotPoint {
        index: 5,
        x: single(1.0),
        y: single(2.0),
        z: single(3.0),
    }];
    let ms = double(4.0);

    let warn = b.task.publish(pose(true), centre, ms, Some(Vec::new()), &points, &mut b.out);
    assert!(!warn);
    let got = b.out.payload.take().expect("a pose");
    assert_eq!(got.map_points.expect("a snapshot").len(), 1);
    assert!(got.status.keyframe);
    assert_eq!((got.status.reset_epoch, got.status.landmarks), (6, 9));
    assert_eq!(got.cam_in_world.translation, centre);
    let m = got.cam_in_world.to_matrix();
    assert_eq!(f64::from_bits(m[0][1].bits), -1.0, "the rotation is turned round");

    let warn = b.task.publish(pose(false), centre, ms, Some(Vec::new()), &points, &mut b.out);
    assert!(!warn);
    assert!(b.out.payload.take().expect("a pose").map_points.is_none());

    for first in [true, false] {
        let warn = b.task.publish(pose(true), centre, ms, None, &points, &mut b.out);
        assert_eq!(warn, first, "warned of once");
        assert!(b.out.payload.take().expect("the pose is not dropped").map_points.is_none());
    }
    b.task.publish(TrackStatus::Untracked, centre, ms, None, &points, &mut b.out);
    assert!(b.out.payload.is_none());

    let ranks = Ranks {
        p50: 1,
        p99: 3,
        max: 3,
    };
    let report = b.task.stop(&ranks, &ranks, 0, 0);
    assert_eq!((report.tracked_frames, report.untracked_frames), (4, 1));
    assert_eq!((report.landmark_snapshots, report.landmark_pool_exhausted), (1, 2));
    assert_eq!((report.keyframe_frames, report.total_frames), (3, 5));
    assert_eq!((report.tracking.n, report.keyframe.n), (2, 3));
    assert_eq!(report.keyframe.max, Some(ms));
    assert_eq!(report.gyro_prior_unavailable, None);
    assert!(report.inertial.is_none());
}
