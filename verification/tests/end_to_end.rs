use cufx_vio::association::{
    close_stereo_points, newest_live_map_points, reject_pnp_outliers, MapPointRecord, PointMatch,
    StereoDepth,
};
use cufx_vio::frame::{
    build_u8_pyramid, keypoint_color, sample_keypoint_colors, FrameArrays, GrayImage, LevelSize,
    Pixel,
};
use cufx_vio::geometry::{Mat3, RigidPose, Vec3};
use cufx_vio::ieee::{Double, Single};
use cufx_vio::imu_channel::ImuQueue;
use cufx_vio::inertial::{ImuBias, RotationResidual};
use cufx_vio::payload::{RectifiedStereo, StereoPair, Tov};
use cufx_vio::reset::ResetEpoch;
use cufx_vio::run::{Job, Report};
use cufx_vio::stereo_vio::{RigNumbers, StereoVio, VioOutput};
use cufx_vio::task::{read_settings, Raw, RawConfig, SnapshotPoint, MAX_LANDMARKS};
use cufx_vio::track::{BaPlan, NewestKeyframe, TrackStatus, Tracker};
use kornia_3d::camera::PinholeCamera;
use kornia_3d::pose::Pose3d;
use kornia_algebra::{Mat3F64, Vec3F64};
use kornia_image::{Image, ImageSize};
use kornia_imgproc::features::OrbDetector;
use kornia_slam::mapping::bundle_adjustment::run_local_ba;
use kornia_slam::mapping::culling::cull_landmarks;
use kornia_slam::mapping::map::{
    Keyframe, LandmarkSeed, ObservationKey, ORB_N_LEVELS, ORB_SCALE_FACTOR,
};
use kornia_slam::stereo::{compute_stereo_matches, unproject_stereo, StereoMatchConfig};
use kornia_slam::tracking::pose_estimation::map_projection::MapProjectionConfig;
use kornia_slam::tracking::MapProjectionEstimator;
use kornia_slam::Frame;

const W: u32 = 320;
const H: u32 = 240;

fn double(x: f64) -> Double {
    Double::from_bits(x.to_bits())
}

fn number(x: Double) -> f64 {
    f64::from_bits(x.bits)
}

fn single(x: f32) -> Single {
    Single::from_bits(x.to_bits())
}

fn vec3(v: Vec3F64) -> Vec3 {
    Vec3 {
        x: double(v.x),
        y: double(v.y),
        z: double(v.z),
    }
}

fn vector(v: Vec3) -> Vec3F64 {
    Vec3F64::new(number(v.x), number(v.y), number(v.z))
}

fn rigid(p: &Pose3d) -> RigidPose {
    RigidPose {
        rotation: Mat3 {
            x_axis: vec3(p.rotation.x_axis()),
            y_axis: vec3(p.rotation.y_axis()),
            z_axis: vec3(p.rotation.z_axis()),
        },
        translation: vec3(p.translation),
    }
}

fn pose3d(p: &RigidPose) -> Pose3d {
    let r = &p.rotation;
    Pose3d::from_rt(
        Mat3F64::from_cols(vector(r.x_axis), vector(r.y_axis), vector(r.z_axis)),
        vector(p.translation),
    )
}

fn image(gray: &GrayImage) -> Image<u8, 1> {
    let size = ImageSize {
        width: gray.width,
        height: gray.height,
    };
    Image::new(size, gray.data.clone()).expect("image")
}

fn pyramid(gray: &GrayImage) -> Vec<Image<u8, 1>> {
    let at = |base: usize, level: usize| {
        let inv_scale = (ORB_SCALE_FACTOR as f32 as f64).powi(-(level as i32));
        ((base as f64 * inv_scale).round_ties_even() as usize).max(1)
    };
    let sizes = (1..ORB_N_LEVELS)
        .map(|level| LevelSize {
            width: at(gray.width, level),
            height: at(gray.height, level),
        })
        .collect();
    let levels = build_u8_pyramid(gray, &sizes).expect("pyramid");
    levels.iter().map(image).collect()
}

fn pixels(keypoints_xy: &[[f32; 2]]) -> Vec<Pixel> {
    keypoints_xy
        .iter()
        .map(|kp| Pixel {
            x: single(kp[0]),
            y: single(kp[1]),
        })
        .collect()
}

/// A map, and what a stereo-only run asks to be done on it, short of growing and fusing.
struct Bench {
    camera: PinholeCamera,
    orb: OrbDetector,
    stereo: StereoMatchConfig,
    estimator: MapProjectionEstimator,
    map: kornia_slam::mapping::Map,
}

impl Bench {
    fn new() -> Bench {
        Bench {
            camera: PinholeCamera {
                fx: 300.0,
                fy: 300.0,
                cx: 160.0,
                cy: 120.0,
                k1: 0.0,
                k2: 0.0,
                p1: 0.0,
                p2: 0.0,
            },
            orb: OrbDetector {
                n_keypoints: 1000,
                downscale: ORB_SCALE_FACTOR as f32,
                n_scales: ORB_N_LEVELS,
                ..OrbDetector::default()
            },
            stereo: StereoMatchConfig::new(0.1, 300.0, ORB_SCALE_FACTOR as f32, ORB_N_LEVELS),
            estimator: MapProjectionEstimator::new(MapProjectionConfig::default()),
            map: kornia_slam::mapping::Map::new(),
        }
    }

    fn frame(&self, left: &GrayImage, right: &GrayImage) -> Frame {
        let features = self.orb.detect_and_extract_u8(&image(left)).expect("orb");
        let right_features = self.orb.detect_and_extract_u8(&image(right)).expect("orb");
        let matches = compute_stereo_matches(
            &pyramid(left),
            &pyramid(right),
            &features,
            &right_features,
            &self.stereo,
        );
        Frame {
            idx: 0,
            keypoint_colors: sample_keypoint_colors(left, &pixels(&features.keypoints_xy)),
            features,
            pose_world_to_cam: Pose3d::IDENTITY,
            image_size: ImageSize {
                width: left.width,
                height: left.height,
            },
            u_right: matches.u_right,
            depth: matches.depth,
            keypoints_undist: Vec::new(),
        }
    }

    fn insert_keyframe(&mut self, tracker: &Tracker, frame: &Frame) {
        let mut frame = frame.clone();
        frame.pose_world_to_cam = pose3d(&tracker.last_pose());
        self.map
            .insert_keyframe(Keyframe::from_frame(frame))
            .expect("a new keyframe");
    }

    fn add_point(&mut self, tracker: &Tracker, frame: &Frame, keypoint: usize, p_cam: &Vec3F64) {
        let seed = LandmarkSeed {
            position: pose3d(&tracker.last_pose()).inverse().transform_point(p_cam),
            color: keypoint_color(&frame.keypoint_colors, keypoint),
            reference: ObservationKey {
                keyframe_idx: frame.idx,
                feature_idx: keypoint,
            },
        };
        self.map.insert_landmark(seed).expect("a free keypoint");
    }

    fn track(&mut self, tracker: &mut Tracker, mut frame: Frame, stamp_ns: u64) -> TrackStatus {
        let arrays = FrameArrays {
            keypoints_xy: pixels(&frame.features.keypoints_xy),
            u_right: frame.u_right.iter().copied().map(single).collect(),
            depth: frame.depth.iter().copied().map(single).collect(),
            n_colors: frame.keypoint_colors.len(),
            n_descriptors: frame.features.descriptors.len(),
            n_octaves: frame.features.octaves.len(),
            n_orientations: frame.features.orientations.len(),
        };
        let start = tracker.process_frame(&arrays, stamp_ns).expect("a usable frame");
        frame.idx = start.idx;
        frame.ensure_undistorted(&self.camera);
        let seconds = start.since_epoch_ns as f64 * 1e-9;
        let (mut run, mut job) = tracker.start_run(&start, double(seconds), stamp_ns);
        let mut matches: Vec<PointMatch> = Vec::new();
        loop {
            let report = match job {
                Job::Done(status) => return status,
                Job::CountStereo => {
                    Report::StereoPoints(unproject_stereo(&frame, &self.camera).len())
                }
                Job::BuildMap => {
                    self.insert_keyframe(tracker, &frame);
                    for (keypoint, p) in unproject_stereo(&frame, &self.camera) {
                        self.add_point(tracker, &frame, keypoint, &p);
                    }
                    Report::Finished
                }
                Job::EstimatePose => {
                    let before = pose3d(&tracker.last_pose());
                    let candidate = match &tracker.state.velocity {
                        Some(v) => pose3d(v).compose(&before),
                        None => before,
                    };
                    let estimate = self.estimator.estimate_pose(
                        &frame,
                        &candidate,
                        &before,
                        &self.map,
                        &self.camera,
                        tracker.state.current_keyframe_idx,
                        1.0,
                        None,
                    );
                    match estimate {
                        Ok(e) => {
                            matches = e
                                .matches
                                .iter()
                                .map(|&(point, keypoint)| PointMatch { point, keypoint })
                                .collect();
                            Report::Estimated {
                                pose: rigid(&e.pose),
                                velocity: rigid(&Pose3d::between(&before, &e.pose)),
                                inliers: e.inliers,
                            }
                        }
                        Err(_) => Report::Rejected {
                            candidate: rigid(&candidate),
                            keyframes: self.map.keyframes().len(),
                        },
                    }
                }
                Job::CountVisible => {
                    let pose = pose3d(&tracker.last_pose());
                    let errors_sq = matches
                        .iter()
                        .map(|m| {
                            let p = &self.map.map_points()[m.point].position;
                            let kp = frame.undistorted_xy(m.keypoint, &self.camera)?;
                            self.camera
                                .reprojection_error_sq_world(&pose, p, kp[0] as f64, kp[1] as f64)
                                .map(double)
                        })
                        .collect();
                    let live = self.map.map_points().iter().map(|p| !p.culled).collect();
                    matches = reject_pnp_outliers(&matches, &errors_sq, &live, double(9.0));
                    Report::Reference {
                        points: tracker
                            .state
                            .current_keyframe_idx
                            .and_then(|idx| self.map.get_keyframe(idx))
                            .map(|kf| kf.num_associated_points()),
                        indices: self.map.keyframes().iter().map(|kf| kf.frame.idx).collect(),
                    }
                }
                Job::Associate => {
                    self.insert_keyframe(tracker, &frame);
                    for m in &matches {
                        let _ = self.map.link_observation(frame.idx, m.keypoint, m.point);
                    }
                    Report::Associated {
                        stereo: frame.is_stereo(),
                    }
                }
                Job::Densify { limit } => {
                    let stereo = unproject_stereo(&frame, &self.camera);
                    let depths = stereo
                        .iter()
                        .map(|(keypoint, p)| StereoDepth {
                            keypoint: *keypoint,
                            depth: double(p.z),
                        })
                        .collect();
                    let taken = self
                        .map
                        .get_keyframe(frame.idx)
                        .expect("just inserted")
                        .map_point_by_desc_idx
                        .clone();
                    for i in close_stereo_points(&depths, &taken, limit) {
                        let (keypoint, p) = &stereo[i];
                        self.add_point(tracker, &frame, *keypoint, p);
                    }
                    Report::Finished
                }
                Job::Grow { .. } | Job::Insert => Report::Finished,
                Job::Fuse => Report::Keyframes(self.map.keyframes().len()),
                Job::Adjust { plan } => {
                    if plan == BaPlan::Visual {
                        let update = run_local_ba(self.map.ba_snapshot(), &self.camera);
                        self.map.apply_ba_update(update).expect("adjusted");
                    }
                    Report::Adjusted(self.map.keyframes().last().map(|kf| NewestKeyframe {
                        pose_world_to_cam: rigid(&kf.frame.pose_world_to_cam),
                        imu_bias: ImuBias::default(),
                        velocity_world: Vec3::zero(),
                    }))
                }
                Job::Cull => {
                    cull_landmarks(&mut self.map);
                    Report::Keyframes(self.map.keyframes().len())
                }
                Job::MeasureLoss { lost_since_sec } => Report::LossElapsed {
                    lost_for: double(seconds - number(lost_since_sec)),
                    since_log: double(0.0),
                },
                Job::GiveUp { drop_map, .. } => {
                    if drop_map {
                        self.map = kornia_slam::mapping::Map::new();
                    }
                    Report::StereoPoints(unproject_stereo(&frame, &self.camera).len())
                }
                Job::Close => Report::Totals {
                    keyframes: self.map.keyframes().len(),
                    active_points: self.map.num_active_map_points(),
                },
                other => panic!("{other:?} is not asked for without an inertial path"),
            };
            job = tracker.advance(&mut run, report);
        }
    }

    fn snapshot_points(&self) -> Vec<SnapshotPoint> {
        let records = self
            .map
            .map_points()
            .iter()
            .map(|p| MapPointRecord {
                position: vec3(p.position),
                culled: p.culled,
            })
            .collect();
        newest_live_map_points(&records, MAX_LANDMARKS)
            .into_iter()
            .map(|(index, p)| SnapshotPoint {
                index,
                x: single(number(p.x) as f32),
                y: single(number(p.y) as f32),
                z: single(number(p.z) as f32),
            })
            .collect()
    }
}

/// A frame the tracker can bootstrap on: cells of two by two pixels, so that there are corners at
/// every level, and three depth bands.
fn trackable_frame(seq: u32) -> StereoPair {
    const BANDS: [u32; 3] = [16, 24, 32];
    let texture = |x: u32, y: u32| {
        let h = (x / 2).wrapping_mul(73_856_093) ^ (y / 2).wrapping_mul(19_349_663);
        (h.wrapping_mul(2_654_435_761) >> 24) as u8
    };
    let (mut left, mut right) = (Vec::new(), Vec::new());
    for y in 0..H {
        let d = BANDS[((y / (H / 3)) as usize).min(2)];
        let shift = seq.wrapping_mul(d / 8);
        for x in 0..W {
            left.push(texture(x.wrapping_add(shift), y));
            right.push(texture(x.wrapping_add(d).wrapping_add(shift), y));
        }
    }
    let calib = RectifiedStereo {
        fx: double(300.0),
        fy: double(300.0),
        cx: double(160.0),
        cy: double(120.0),
        baseline: double(0.1),
    };
    StereoPair::new(W, H, left, right, calib).expect("valid pair")
}

fn task(epoch: &ResetEpoch, queue: &mut ImuQueue) -> StereoVio {
    let raw = RawConfig {
        keys: None,
        inertial: Raw::Absent,
        landmark_buffers: Raw::Absent,
        on_tracking_loss: Raw::Absent,
        max_keyframes: Raw::Absent,
        orb_keypoints: Raw::Absent,
        search_radius_px: Raw::Absent,
        max_covisible_keyframes: Raw::Absent,
        pnp_lm_iterations: Raw::Absent,
    };
    StereoVio::new(read_settings(&raw, queue).expect("an empty config is valid"), epoch)
}

fn rig() -> RigNumbers {
    RigNumbers {
        close_depth: double(3.5),
        rotation: RotationResidual {
            residual: Mat3 {
                x_axis: Vec3::zero(),
                y_axis: Vec3::zero(),
                z_axis: Vec3::zero(),
            },
            determinant: double(1.0),
            determinant_error: double(0.0),
        },
        max_gap_ns: 15_000_000,
    }
}

#[test]
fn test_keyframe_poses_and_only_they_carry_a_map_points_snapshot() {
    let epoch = ResetEpoch::new();
    let mut queue = ImuQueue::new();
    let mut task = task(&epoch, &mut queue);
    let mut bench = Bench::new();
    let (mut saw_snapshot, mut saw_plain_pose) = (false, false);
    for seq in 0..6u32 {
        let mut out = VioOutput {
            tov: Tov::Absent,
            payload: None,
        };
        let tov = Tov::Time(1_000_000 + u64::from(seq) * 66_000_000);
        let pair = trackable_frame(seq);
        let taken = task.process(tov, Some(&pair), &epoch, &mut queue, &rig(), &mut out);
        let intake = taken.frame.expect("frame").expect("a pair");
        let tracker = task.tracker.as_mut().expect("built on the first frame");
        let frame = bench.frame(&intake.left, &intake.right);
        let status = bench.track(tracker, frame, intake.stamp);
        let (centre, points) = match &status {
            TrackStatus::Localized(p) => (
                vec3(pose3d(&p.pose_world_to_cam).inverse().translation),
                bench.snapshot_points(),
            ),
            TrackStatus::Untracked => (Vec3::zero(), Vec::new()),
        };
        task.publish(status, centre, double(1.0), Some(Vec::new()), &points, &mut out);

        let Some(pose) = out.payload else { continue };
        assert_eq!(
            pose.map_points.is_some(),
            pose.status.keyframe,
            "the snapshot cadence is the keyframe cadence"
        );
        let Some(points) = pose.map_points else {
            saw_plain_pose = true;
            // The camera moves an eighth of its baseline per frame, to its right.
            let x = number(pose.cam_in_world.translation.x);
            let want = f64::from(seq) * 0.1 / 8.0;
            assert!((x - want).abs() < 5e-3, "frame {seq}: {x} m, want {want} m");
            continue;
        };
        saw_snapshot = true;
        assert!(!points.is_empty(), "a keyframe of a textured plane has points");
        // A small map, so the newest points are all of them: the snapshot must hold exactly the
        // live points the status counts.
        assert_eq!(points.len(), pose.status.landmarks as usize);
        assert!(
            points.windows(2).all(|w| w[0].index < w[1].index),
            "indices are unique and ascending"
        );
        assert!(
            points
                .iter()
                .all(|p| p.x.is_finite() && p.y.is_finite() && p.z.is_finite()),
            "world positions are finite"
        );
    }
    assert!(saw_snapshot, "the bootstrap frame inserts a keyframe");
    assert!(
        saw_plain_pose,
        "a tracked non-keyframe pose must be exercised too, or the cadence is untested"
    );
    assert_eq!(task.landmark_pool_exhausted, 0);
}
