use cufx_vio::geometry::{Mat3, RigidPose, Vec3};
use cufx_vio::ieee::{Double, Single};
use cufx_vio::payload::{
    gray8_format, ImuBatch, ImuBatchFull, ImuPayload, ImuSample, Landmark, PairFault,
    RectifiedStereo, StereoPair, Tov, VioPose, VioStatus,
};
use cufx_vio::task_error::Eye;
use cufx_vio::wire::WireError;

fn double(x: f64) -> Double {
    Double::from_bits(x.to_bits())
}

fn single(x: f32) -> Single {
    Single::from_bits(x.to_bits())
}

fn calib() -> RectifiedStereo {
    RectifiedStereo {
        fx: double(1.0),
        fy: double(2.0),
        cx: double(3.0),
        cy: double(4.0),
        baseline: double(5.0),
    }
}

fn pair() -> StereoPair {
    let mut p = StereoPair::new(
        4,
        2,
        vec![1, 2, 3, 4, 5, 6, 7, 8],
        vec![9, 10, 11, 12, 13, 14, 15, 255],
        calib(),
    )
    .expect("valid pair");
    p.left.seq = 7;
    p.right.seq = 7;
    p.dropped = 3;
    p
}

fn imu(i: f32) -> ImuPayload {
    ImuPayload {
        accel_x: single(i),
        accel_y: single(i + 1.0),
        accel_z: single(i + 2.0),
        gyro_x: single(i + 3.0),
        gyro_y: single(i + 4.0),
        gyro_z: single(i + 5.0),
        temperature: single(i + 6.0 + 273.15),
    }
}

#[test]
fn test_rectified_stereo_golden_bytes() {
    let bytes = calib().encode();
    let golden: &[u8] = &[
        0, 0, 0, 0, 0, 0, 0xf0, 0x3f, // fx = 1.0
        0, 0, 0, 0, 0, 0, 0x00, 0x40, // fy = 2.0
        0, 0, 0, 0, 0, 0, 0x08, 0x40, // cx = 3.0
        0, 0, 0, 0, 0, 0, 0x10, 0x40, // cy = 4.0
        0, 0, 0, 0, 0, 0, 0x14, 0x40, // baseline = 5.0 m
    ];
    assert_eq!(bytes, golden);
    let (back, used) = RectifiedStereo::decode(&bytes).expect("decode");
    assert_eq!(used, bytes.len());
    assert_eq!(back, calib());
}

#[test]
fn test_stereo_pair_golden_bytes() {
    let bytes = pair().encode();
    let golden: &[u8] = &[
        // left: seq, format {width, height, stride, fourcc}, then the buffer
        7, 4, 2, 4, b'G', b'R', b'A', b'Y', 8, 1, 2, 3, 4, 5, 6, 7, 8,
        // right
        7, 4, 2, 4, b'G', b'R', b'A', b'Y', 8, 9, 10, 11, 12, 13, 14, 15, 255,
        // calib
        0, 0, 0, 0, 0, 0, 0xf0, 0x3f,
        0, 0, 0, 0, 0, 0, 0x00, 0x40,
        0, 0, 0, 0, 0, 0, 0x08, 0x40,
        0, 0, 0, 0, 0, 0, 0x10, 0x40,
        0, 0, 0, 0, 0, 0, 0x14, 0x40,
        // dropped
        3,
    ];
    assert_eq!(bytes, golden);

    let (back, used) = StereoPair::decode(&bytes).expect("decode");
    assert_eq!(used, bytes.len(), "trailing bytes");
    assert_eq!(back.left.seq, 7);
    assert_eq!(back.calib, calib());
    assert_eq!(back.dropped, 3);
    assert!(back.validate().is_ok(), "decoded pair is valid");
    let (l, r) = back.with_eyes();
    assert_eq!(l, &[1, 2, 3, 4, 5, 6, 7, 8]);
    assert_eq!(r, &[9, 10, 11, 12, 13, 14, 15, 255]);
}

#[test]
fn test_imu_batch_golden_bytes() {
    let mut batch = ImuBatch::<4>::new();
    batch
        .push(ImuSample {
            tov: 10,
            imu: imu(1.0),
        })
        .expect("fits");
    batch.dropped = 5;
    batch.camera_aligned = true;
    let bytes = batch.encode();
    let golden: &[u8] = &[
        1,                      // len
        10,                     // tov, ns
        0x00, 0x00, 0x80, 0x3f, // accel_x = 1.0 m/s^2
        0x00, 0x00, 0x00, 0x40, // accel_y = 2.0
        0x00, 0x00, 0x40, 0x40, // accel_z = 3.0
        0x00, 0x00, 0x80, 0x40, // gyro_x = 4.0 rad/s
        0x00, 0x00, 0xa0, 0x40, // gyro_y = 5.0
        0x00, 0x00, 0xc0, 0x40, // gyro_z = 6.0
        0x33, 0x13, 0x8c, 0x43, // temperature = 7.0 degC, stored as 280.15 K
        5,                      // dropped
        1,                      // camera_aligned
    ];
    assert_eq!(bytes, golden);
    let (back, used) = ImuBatch::<4>::decode(&bytes).expect("decode");
    assert_eq!(used, bytes.len());
    assert_eq!(back.samples(), batch.samples());
    assert_eq!(back.dropped, batch.dropped);
    assert_eq!(back.camera_aligned, batch.camera_aligned);
}

fn shifted(x: f64, y: f64, z: f64) -> RigidPose {
    RigidPose {
        rotation: Mat3::identity(),
        translation: Vec3 {
            x: double(x),
            y: double(y),
            z: double(z),
        },
    }
}

#[test]
fn test_vio_pose_golden_bytes() {
    let pose = VioPose {
        cam_in_world: shifted(2.0, 3.0, 4.0),
        status: VioStatus {
            keyframe: false,
            reset_epoch: 6,
            landmarks: 9,
        },
        map_points: None,
    };
    let bytes = pose.encode();
    const ONE: [u8; 8] = [0, 0, 0, 0, 0, 0, 0xf0, 0x3f];
    const ZERO: [u8; 8] = [0; 8];
    let row = |a: [u8; 8], b: [u8; 8], c: [u8; 8], d: [u8; 8]| [a, b, c, d].concat();
    let two = 2.0f64.to_le_bytes();
    let three = 3.0f64.to_le_bytes();
    let four = 4.0f64.to_le_bytes();
    let golden = [
        row(ONE, ZERO, ZERO, two),
        row(ZERO, ONE, ZERO, three),
        row(ZERO, ZERO, ONE, four),
        row(ZERO, ZERO, ZERO, ONE),
        // keyframe = false, reset_epoch, landmarks
        vec![0, 6, 9],
        // no map_points snapshot: the Option tag alone
        vec![0],
    ]
    .concat();
    assert_eq!(bytes, golden);

    let (back, used) = VioPose::decode(&bytes).expect("decode");
    assert_eq!(used, bytes.len());
    assert_eq!(back.status, pose.status);
    assert_eq!(back.cam_in_world.to_matrix(), pose.cam_in_world.to_matrix());
    assert!(back.map_points.is_none());
}

#[test]
fn test_vio_pose_with_map_points_golden_bytes() {
    let points = vec![
        Landmark {
            x: single(1.0),
            y: single(2.0),
            z: single(3.0),
            index: 7,
        },
        Landmark {
            x: single(-1.0),
            y: single(0.5),
            z: single(4.0),
            index: 300,
        },
    ];
    let pose = VioPose {
        cam_in_world: VioPose::default().cam_in_world,
        status: VioStatus {
            keyframe: true,
            reset_epoch: 2,
            landmarks: 5,
        },
        map_points: Some(points.clone()),
    };
    let bytes = pose.encode();
    let mut head = vec![0u8; 15 * 8];
    head.extend_from_slice(&1.0f64.to_le_bytes());
    let tail: &[u8] = &[
        1, 2, 5,                // keyframe = true, reset_epoch, landmarks
        1,                      // Some: a snapshot follows
        2,                      // two points
        0x00, 0x00, 0x80, 0x3f, // x = 1.0
        0x00, 0x00, 0x00, 0x40, // y = 2.0
        0x00, 0x00, 0x40, 0x40, // z = 3.0
        7,                      // index, varint
        0x00, 0x00, 0x80, 0xbf, // x = -1.0
        0x00, 0x00, 0x00, 0x3f, // y = 0.5
        0x00, 0x00, 0x80, 0x40, // z = 4.0
        251, 0x2c, 0x01,        // index = 300, varint u16 form
    ];
    assert_eq!(bytes, [head.as_slice(), tail].concat());

    let (back, _) = VioPose::decode(&bytes).expect("decode");
    assert_eq!(back.status, pose.status);
    assert_eq!(
        back.map_points.expect("the snapshot survives the round trip"),
        points
    );
}

#[test]
fn test_landmark_index_is_exact_past_f32_precision() {
    // 2^24 + 1 is the first integer an f32 cannot hold: the reason the index is a u32.
    let lm = Landmark {
        index: (1 << 24) + 1,
        ..Landmark::default()
    };
    assert_eq!(Landmark::decode(&lm.encode()).expect("decode").0, lm);
}

#[test]
fn test_vio_pose_default_carries_no_map_points() {
    assert!(VioPose::default().map_points.is_none());
}

#[test]
fn test_validate_rejects_mismatched_eyes() {
    let mut p = pair();
    p.right.format = gray8_format(2, 4);
    assert!(matches!(
        p.validate(),
        Err(PairFault::SizeMismatch {
            left_width: 4,
            left_height: 2,
            right_width: 2,
            right_height: 4,
        })
    ));
}

#[test]
fn test_validate_rejects_a_short_buffer() {
    let err = StereoPair::new(4, 2, vec![0; 8], vec![0; 7], calib());
    assert!(matches!(
        err,
        Err(PairFault::ShortBuffer {
            eye: Eye::Right,
            have: 7,
            want: 8,
        })
    ));
}

#[test]
fn test_validate_rejects_a_colour_eye() {
    let mut p = pair();
    p.left.format.pixel_format = *b"RGB3";
    assert!(matches!(
        p.validate(),
        Err(PairFault::PixelFormat {
            eye: Eye::Left,
            ..
        })
    ));
}

#[test]
fn test_imu_batch_refuses_overflow_and_reports_its_range() {
    let mut batch = ImuBatch::<2>::new();
    assert_eq!(batch.tov(), Tov::Absent);
    for ns in [30, 10] {
        batch
            .push(ImuSample {
                tov: ns,
                imu: ImuPayload::default(),
            })
            .expect("fits");
    }
    assert_eq!(
        batch.push(ImuSample::default()),
        Err(ImuBatchFull { capacity: 2 })
    );
    let range = batch.tov_range().expect("non-empty");
    assert_eq!(range.start, 10);
    assert_eq!(range.end, 30);
    assert!(matches!(batch.tov(), Tov::Range(_)));
}

#[test]
fn test_imu_batch_decode_refuses_more_than_capacity() {
    let mut big = ImuBatch::<3>::new();
    for _ in 0..3 {
        big.push(ImuSample::default()).expect("fits");
    }
    let bytes = big.encode();
    assert!(matches!(
        ImuBatch::<2>::decode(&bytes),
        Err(WireError::BatchTooLong {
            required: 2,
            found: 3,
        })
    ));
}

#[test]
fn test_imu_units_survive_the_batch() {
    let mut batch = ImuBatch::<1>::new();
    batch
        .push(ImuSample {
            tov: 1,
            imu: imu(1.0),
        })
        .expect("fits");
    let (back, _) = ImuBatch::<1>::decode(&batch.encode()).expect("decode");
    let s = back.samples()[0].imu;
    assert_eq!(f32::from_bits(s.accel_x.bits), 1.0);
    assert_eq!(f32::from_bits(s.gyro_z.bits), 6.0);
}

#[test]
fn an_empty_pair_and_a_padded_eye_are_refused() {
    assert!(matches!(
        StereoPair::new(0, 2, vec![], vec![], calib()),
        Err(PairFault::Empty)
    ));
    let mut p = pair();
    p.right.format.stride = 8;
    assert!(matches!(
        p.validate(),
        Err(PairFault::Stride {
            eye: Eye::Right,
            stride: 8,
            width: 4,
        })
    ));
}

#[test]
fn a_longer_buffer_is_cut_to_its_rows() {
    let p = StereoPair::new(2, 1, vec![1, 2, 3], vec![4, 5], calib()).expect("valid");
    let (l, r) = p.with_eyes();
    assert_eq!(l, &[1, 2]);
    assert_eq!(r, &[4, 5]);
}

#[test]
fn calibrations_match_as_numbers() {
    let mut other = calib();
    assert!(calib().matches(&other));
    other.baseline = double(0.12);
    assert!(!calib().matches(&other));
    let mut zero = RectifiedStereo::default();
    zero.fx = double(-0.0);
    assert!(zero.matches(&RectifiedStereo::default()), "the two zeros are one number");
    zero.fx = double(f64::NAN);
    assert!(!zero.matches(&zero), "a NaN matches nothing");
}

#[test]
fn a_default_measurement_is_at_the_ice_point() {
    let p = ImuPayload::default();
    assert_eq!(f32::from_bits(p.temperature.bits), 273.15);
    assert_eq!(f32::from_bits(p.accel_x.bits), 0.0);
}

#[test]
fn malformed_bytes_are_refused_by_kind() {
    assert!(matches!(RectifiedStereo::decode(&[0; 39]), Err(WireError::Malformed)));
    // A batch of none whose flag is neither 0 nor 1.
    assert!(matches!(
        ImuBatch::<2>::decode(&[0, 0, 2]),
        Err(WireError::InvalidBoolean(2))
    ));
    let mut bytes = VioPose::default().encode();
    let last = bytes.len() - 1;
    bytes[last] = 9;
    assert!(matches!(VioPose::decode(&bytes), Err(WireError::InvalidOption(9))));
    // An integer tagged with a length no integer has.
    assert!(matches!(Landmark::decode(&[0, 0, 0, 0, 0, 0, 0, 0, 0, 0, 0, 0, 255]), Err(WireError::Malformed)));
    // A 64-bit value where a 32-bit one belongs.
    let wide = [0, 0, 0, 0, 0, 0, 0, 0, 0, 0, 0, 0, 253, 1, 0, 0, 0, 1, 0, 0, 0];
    assert!(matches!(Landmark::decode(&wide), Err(WireError::Malformed)));
}

#[test]
fn integers_take_the_shortest_form() {
    for (index, tail) in [
        (250u32, vec![250u8]),
        (251, vec![251, 251, 0]),
        (65_535, vec![251, 255, 255]),
        (65_536, vec![252, 0, 0, 1, 0]),
    ] {
        let bytes = Landmark {
            index,
            ..Landmark::default()
        }
        .encode();
        assert_eq!(&bytes[12..], tail.as_slice());
        assert_eq!(Landmark::decode(&bytes).expect("decode").0.index, index);
    }
    let mut batch = ImuBatch::<1>::new();
    batch.dropped = u64::MAX;
    let bytes = batch.encode();
    assert_eq!(bytes, [0, 253, 255, 255, 255, 255, 255, 255, 255, 255, 0]);
    assert_eq!(ImuBatch::<1>::decode(&bytes).expect("decode").0.dropped, u64::MAX);
}

#[test]
fn the_bottom_row_of_a_pose_is_implied() {
    let mut bytes = VioPose::default().encode();
    bytes[12 * 8] = 1;
    let (back, _) = VioPose::decode(&bytes).expect("decode");
    assert_eq!(back.encode(), VioPose::default().encode());
}
