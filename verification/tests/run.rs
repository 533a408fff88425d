use cufx_vio::frame::{Distortion, FrameArrays, Pixel};
use cufx_vio::geometry::{Mat3, RigidPose, Vec3};
use cufx_vio::ieee::{Double, Single};
use cufx_vio::run::{Found, FrameRun, Job, Report};
use cufx_vio::state::SystemMode;
use cufx_vio::track::{
    BaPlan, FrameStart, NewestKeyframe, TrackStatus, Tracker, TrackerConfig,
};
use cufx_vio::inertial::ImuBias;

fn double(x: f64) -> Double {
    Double::from_bits(x.to_bits())
}

fn at(x: f64) -> RigidPose {
    RigidPose {
        rotation: Mat3::identity(),
        translation: Vec3 {
            x: double(x),
            y: double(0.0),
            z: double(0.0),
        },
    }
}

fn tracker() -> Tracker {
    let zero = double(0.0);
    Tracker::new(
        Distortion {
            k1: zero,
            k2: zero,
            p1: zero,
            p2: zero,
        },
        TrackerConfig::new(double(0.1), double(3.5)),
    )
}

fn arrays() -> FrameArrays {
    let one = Single::from_bits(1.0f32.to_bits());
    FrameArrays {
        keypoints_xy: vec![Pixel { x: one, y: one }],
        u_right: vec![one],
        depth: vec![one],
        n_colors: 1,
        n_descriptors: 1,
        n_octaves: 1,
        n_orientations: 1,
    }
}

fn start(t: &mut Tracker, stamp_ns: u64) -> (FrameStart, FrameRun, Job) {
    let begin = t.process_frame(&arrays(), stamp_ns).expect("frame");
    let (run, job) = t.start_run(&begin, double(begin.since_epoch_ns as f64 * 1e-9), stamp_ns);
    (begin, run, job)
}

fn bootstrap(t: &mut Tracker) {
    let (begin, mut run, job) = start(t, 1_000);
    assert!(begin.bootstrap);
    assert_eq!(job, Job::CountStereo);
    assert_eq!(t.advance(&mut run, Report::StereoPoints(50)), Job::BuildMap);
    assert_eq!(t.advance(&mut run, Report::Finished), Job::Close);
    let job = t.advance(
        &mut run,
        Report::Totals {
            keyframes: 1,
            active_points: 50,
        },
    );
    match job {
        Job::Done(TrackStatus::Localized(p)) => {
            assert!(p.keyframe);
            assert_eq!(p.stamp, 1_000);
            assert_eq!(p.pose_world_to_cam, RigidPose::identity());
        }
        other => panic!("{other:?}"),
    }
    assert_eq!(t.mode(), SystemMode::Tracking);
    assert_eq!(t.live_map_points(), 50);
}

fn close(t: &mut Tracker, run: &mut FrameRun, keyframes: usize) -> TrackStatus {
    match t.advance(
        run,
        Report::Totals {
            keyframes,
            active_points: 7,
        },
    ) {
        Job::Done(status) => status,
        other => panic!("{other:?}"),
    }
}

#[test]
fn a_thin_frame_bootstraps_nothing() {
    let mut t = tracker();
    let (_, mut run, _) = start(&mut t, 1_000);
    assert_eq!(t.advance(&mut run, Report::StereoPoints(49)), Job::Close);
    assert_eq!(close(&mut t, &mut run, 0), TrackStatus::Untracked);
    assert_eq!(t.mode(), SystemMode::Bootstrap);
    assert_eq!(t.stats(0, 0).consecutive_failures, 1);
}

#[test]
fn a_plain_frame_is_published_at_its_estimate() {
    let mut t = tracker();
    bootstrap(&mut t);
    let (begin, mut run, job) = start(&mut t, 2_000);
    assert!(!begin.bootstrap);
    assert_eq!(job, Job::EstimatePose, "no inertial path, no prior to ask for");
    let job = t.advance(
        &mut run,
        Report::Estimated {
            pose: at(1.0),
            velocity: at(0.5),
            inliers: 40,
        },
    );
    assert_eq!(job, Job::CountVisible);
    let job = t.advance(
        &mut run,
        Report::Reference {
            points: Some(50),
            indices: vec![0],
        },
    );
    assert_eq!(job, Job::Close, "too soon for a keyframe");
    match close(&mut t, &mut run, 1) {
        TrackStatus::Localized(p) => {
            assert!(!p.keyframe);
            assert_eq!(p.pose_world_to_cam, at(1.0));
        }
        other => panic!("{other:?}"),
    }
    assert_eq!(t.live_map_points(), 50, "the map did not change, so it is not recounted");
}

#[test]
fn a_frame_that_is_due_is_inserted_and_another_is_closed() {
    for (due, want) in [(true, Job::Associate), (false, Job::Close)] {
        let mut t = tracker();
        bootstrap(&mut t);
        let (_, mut run, _) = start(&mut t, 2_000);
        t.advance(
            &mut run,
            Report::Estimated {
                pose: at(1.0),
                velocity: at(0.5),
                inliers: 40,
            },
        );
        assert_eq!(t.resolve(&mut run, due, &vec![0, 3]), want);
        assert_eq!(run.neighbours.len(), if due { 2 } else { 0 });
        assert_eq!((run.idx, run.stamp_ns), (1, 2_000));
    }
}

#[test]
fn a_keyframe_without_stereo_points_to_add_grows_at_once() {
    for (limit, stereo, neighbours, want) in [
        (None, true, vec![4], Job::Grow { neighbour: 4 }),
        (Some(double(2.0)), false, vec![4], Job::Grow { neighbour: 4 }),
        (Some(double(2.0)), false, vec![], Job::Insert),
        (Some(double(2.0)), true, vec![], Job::Densify { limit: double(2.0) }),
    ] {
        let mut t = tracker();
        t.config.stereo_close_depth = limit;
        bootstrap(&mut t);
        let (_, mut run, _) = start(&mut t, 2_000);
        t.advance(
            &mut run,
            Report::Estimated {
                pose: at(1.0),
                velocity: at(0.5),
                inliers: 40,
            },
        );
        assert_eq!(t.resolve(&mut run, true, &neighbours), Job::Associate);
        assert_eq!(t.advance(&mut run, Report::Associated { stereo }), want);
    }
}

#[test]
fn a_keyframe_goes_through_every_step_in_order() {
    let mut t = tracker();
    t.config.max_keyframes = Some(5);
    bootstrap(&mut t);
    t.next_frame_idx = 8;
    let (_, mut run, _) = start(&mut t, 2_000);
    t.advance(
        &mut run,
        Report::Estimated {
            pose: at(1.0),
            velocity: at(0.5),
            inliers: 40,
        },
    );
    let job = t.advance(
        &mut run,
        Report::Reference {
            points: Some(50),
            indices: vec![0, 3, 5],
        },
    );
    assert_eq!(job, Job::Associate);
    assert_eq!(run.neighbours, [5, 3, 0], "newest first");
    assert_eq!(
        t.advance(&mut run, Report::Associated { stereo: true }),
        Job::Densify { limit: double(3.5) }
    );
    for neighbour in [5, 3, 0] {
        assert_eq!(t.advance(&mut run, Report::Finished), Job::Grow { neighbour });
    }
    assert_eq!(t.advance(&mut run, Report::Finished), Job::Insert);
    assert_eq!(t.previous_edge(), Some((0, 1_000)), "not in the map yet");
    assert_eq!(t.advance(&mut run, Report::Finished), Job::Fuse);
    assert_eq!(t.previous_edge(), Some((8, 2_000)));
    assert_eq!(
        t.advance(&mut run, Report::Keyframes(4)),
        Job::Adjust {
            plan: BaPlan::Visual
        }
    );
    let newest = NewestKeyframe {
        pose_world_to_cam: at(1.25),
        imu_bias: ImuBias::default(),
        velocity_world: Vec3::zero(),
    };
    assert_eq!(t.advance(&mut run, Report::Adjusted(Some(newest))), Job::Cull);
    assert_eq!(t.last_pose(), at(1.25), "the adjustment moved it");
    assert_eq!(t.advance(&mut run, Report::Keyframes(5)), Job::Close);
    assert!(t.pending_map_reset, "the bound was reached");
    match close(&mut t, &mut run, 5) {
        TrackStatus::Localized(p) => assert!(p.keyframe),
        other => panic!("{other:?}"),
    }
    assert_eq!(t.live_map_points(), 7, "the map changed, so it is recounted");

    let before = t.world_generation();
    let (begin, _, job) = start(&mut t, 3_000);
    assert!(begin.drop_map);
    assert_eq!(job, Job::CountStereo, "the next frame starts a new map");
    assert_eq!(t.world_generation(), before + 1);
}

#[test]
fn a_lost_frame_is_found_again_in_the_same_world() {
    let mut t = tracker();
    bootstrap(&mut t);
    let before = t.world_generation();
    let (_, mut run, _) = start(&mut t, 2_000);
    let job = t.advance(
        &mut run,
        Report::Rejected {
            candidate: at(2.0),
            keyframes: 11,
        },
    );
    assert_eq!(job, Job::RankKeyframes);
    assert_eq!(t.last_pose(), at(2.0), "it coasts");
    let job = t.advance(
        &mut run,
        Report::Distances {
            squared: vec![double(9.0), double(1.0)],
            descriptors: 10,
        },
    );
    assert_eq!(job, Job::Match { candidate: 1 });
    let weak = Found {
        pose: at(9.0),
        inliers: 29,
        keyframe_idx: 4,
    };
    assert_eq!(
        t.advance(&mut run, Report::Matched(Some(weak))),
        Job::Match { candidate: 0 }
    );
    let strong = Found {
        pose: at(3.0),
        inliers: 30,
        keyframe_idx: 2,
    };
    assert_eq!(t.advance(&mut run, Report::Matched(Some(strong))), Job::Close);
    match close(&mut t, &mut run, 11) {
        TrackStatus::Localized(p) => {
            assert_eq!(p.pose_world_to_cam, at(3.0));
            assert!(!p.keyframe);
        }
        other => panic!("{other:?}"),
    }
    assert_eq!(t.world_generation(), before);
    assert_eq!(t.state.current_keyframe_idx, Some(2));
    assert_eq!(t.state.lost_since_sec, None);
}

#[test]
fn a_re_bootstrap_is_never_published() {
    let mut t = tracker();
    bootstrap(&mut t);
    let (_, mut run, _) = start(&mut t, 2_000);
    // Three keyframes are not worth waiting for.
    let job = t.advance(
        &mut run,
        Report::Rejected {
            candidate: at(2.0),
            keyframes: 3,
        },
    );
    assert!(matches!(job, Job::MeasureLoss { .. }));
    let job = t.advance(
        &mut run,
        Report::LossElapsed {
            lost_for: double(0.0),
            since_log: double(0.0),
        },
    );
    assert_eq!(
        job,
        Job::GiveUp {
            drop_map: false,
            report: Some(0),
        }
    );
    assert_eq!(t.world_generation(), 1);
    assert_eq!(t.advance(&mut run, Report::StereoPoints(80)), Job::BuildMap);
    assert_eq!(t.last_pose(), at(2.0), "the new map is anchored at the coasted pose");
    assert_eq!(t.advance(&mut run, Report::Finished), Job::Close);
    assert_eq!(close(&mut t, &mut run, 4), TrackStatus::Untracked);
    assert_eq!(t.mode(), SystemMode::Tracking);
}

#[test]
fn an_established_map_is_waited_for() {
    let mut t = tracker();
    bootstrap(&mut t);
    let (_, mut run, _) = start(&mut t, 2_000);
    t.advance(
        &mut run,
        Report::Rejected {
            candidate: at(2.0),
            keyframes: 11,
        },
    );
    // Nothing to match with.
    let job = t.advance(
        &mut run,
        Report::Distances {
            squared: vec![double(1.0)],
            descriptors: 0,
        },
    );
    assert!(matches!(job, Job::MeasureLoss { .. }));
    // Past the grace period, inside the relocalizer's patience.
    let patience = f64::from_bits(t.config.relocalization.unwrap().patience.bits);
    let job = t.advance(
        &mut run,
        Report::LossElapsed {
            lost_for: double(patience - 0.1),
            since_log: double(0.0),
        },
    );
    assert_eq!(job, Job::Close);
    assert_eq!(close(&mut t, &mut run, 11), TrackStatus::Untracked);
    assert_eq!(t.world_generation(), 0);

    let (_, mut run, _) = start(&mut t, 3_000);
    t.advance(
        &mut run,
        Report::Rejected {
            candidate: at(2.5),
            keyframes: 11,
        },
    );
    t.advance(
        &mut run,
        Report::Distances {
            squared: vec![double(1.0)],
            descriptors: 10,
        },
    );
    t.advance(&mut run, Report::Matched(None));
    let job = t.advance(
        &mut run,
        Report::LossElapsed {
            lost_for: double(patience),
            since_log: double(0.0),
        },
    );
    assert!(matches!(job, Job::GiveUp { .. }), "{job:?}");
    assert_eq!(t.world_generation(), 1);
}
