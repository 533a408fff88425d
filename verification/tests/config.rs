use cufx_vio::config::{
    config_keys, deny_unknown_keys, on_tracking_loss, optional_positive_f64,
    optional_positive_usize, ConfigError, InertialRon, OnTrackingLoss,
};
use cufx_vio::error::VioError;
use cufx_vio::geometry::{Mat3, Vec3};
use cufx_vio::ieee::Double;
use cufx_vio::inertial::RotationResidual;

fn double(x: f64) -> Double {
    Double::from_bits(x.to_bits())
}

fn vec3(v: [f64; 3]) -> Vec3 {
    Vec3 {
        x: double(v[0]),
        y: double(v[1]),
        z: double(v[2]),
    }
}

/// `R^T R - I` and the determinant of a rotation listed row by row.
fn residual(r: [f64; 9]) -> RotationResidual {
    let mut cols = [[0.0; 3]; 3];
    for (i, col) in cols.iter_mut().enumerate() {
        for (j, entry) in col.iter_mut().enumerate() {
            let dot: f64 = (0..3).map(|k| r[3 * k + j] * r[3 * k + i]).sum();
            *entry = dot - if i == j { 1.0 } else { 0.0 };
        }
    }
    let det = r[0] * (r[4] * r[8] - r[5] * r[7]) - r[1] * (r[3] * r[8] - r[5] * r[6])
        + r[2] * (r[3] * r[7] - r[4] * r[6]);
    RotationResidual {
        residual: Mat3 {
            x_axis: vec3(cols[0]),
            y_axis: vec3(cols[1]),
            z_axis: vec3(cols[2]),
        },
        determinant: double(det),
        determinant_error: double(det - 1.0),
    }
}

fn ron(rotation: [f64; 9]) -> InertialRon {
    InertialRon {
        t_bc_rotation: rotation.map(double),
        t_bc_translation: [0.01, -0.02, 0.03].map(double),
        gyro_noise: double(1.6e-4),
        accel_noise: double(2.0e-3),
        gyro_bias_noise: double(1.9e-5),
        accel_bias_noise: double(3.0e-3),
        rate_hz: double(200.0),
        enable_inertial_ba: false,
    }
}

#[test]
fn test_on_tracking_loss_reads_the_snake_case_spelling_only() {
    let parse = |text: &str| on_tracking_loss(Some(text));
    assert_eq!(parse("reset_map").ok(), Some(OnTrackingLoss::ResetMap));
    assert_eq!(parse("keep_map").ok(), Some(OnTrackingLoss::KeepMap));
    assert!(parse("ResetMap").is_err(), "one canonical spelling, no aliases");
    assert!(parse("reset").is_err());
    assert_eq!(on_tracking_loss(None).ok(), Some(OnTrackingLoss::KeepMap));
}

#[test]
fn test_non_positive_or_non_finite_float_key_is_refused() {
    assert_eq!(
        optional_positive_f64(Some(double(8.0)), "r").unwrap(),
        Some(double(8.0))
    );
    assert_eq!(optional_positive_f64(None, "absent").unwrap(), None);

    for bad in [0.0f64, -1.0, f64::NAN, f64::INFINITY] {
        assert!(
            matches!(
                optional_positive_f64(Some(double(bad)), "r"),
                Err(ConfigError::NotPositiveFinite { key: "r", .. })
            ),
            "{bad} was accepted as a positive finite value"
        );
    }
}

#[test]
fn test_rotation_is_read_row_major() {
    // Rows of R_BC: (0,-1,0), (1,0,0), (0,0,1).
    let rotation = [0.0, -1.0, 0.0, 1.0, 0.0, 0.0, 0.0, 0.0, 1.0];
    let cfg = ron(rotation)
        .to_config(&residual(rotation), 15_000_000)
        .expect("a proper rotation");
    // R * (1,0,0) must be the FIRST COLUMN, which the rows above make (0,1,0).
    let mapped = cfg.imu_t_bc.rotation.x_axis;
    assert_eq!(
        mapped,
        vec3([0.0, 1.0, 0.0]),
        "a transposed read would give (0,-1,0)"
    );
    assert_eq!(cfg.imu_t_bc.translation.y, double(-0.02));
}

#[test]
fn test_non_rotation_extrinsic_is_rejected() {
    for rotation in [
        // Scaled by 2: still orthogonal, no longer orthonormal.
        [2.0, 0.0, 0.0, 0.0, 2.0, 0.0, 0.0, 0.0, 2.0],
        // A reflection: det = -1, every row still unit length.
        [1.0, 0.0, 0.0, 0.0, 1.0, 0.0, 0.0, 0.0, -1.0],
    ] {
        let err = ron(rotation)
            .to_config(&residual(rotation), 15_000_000)
            .unwrap_err();
        assert!(
            matches!(err, VioError::InertialExtrinsicNotRigid { .. }),
            "{err:?}"
        );
    }
}

#[test]
fn test_zero_noise_density_is_rejected() {
    let rotation = [1.0, 0.0, 0.0, 0.0, 1.0, 0.0, 0.0, 0.0, 1.0];
    let mut r = ron(rotation);
    r.gyro_noise = double(0.0);
    match r.to_config(&residual(rotation), 15_000_000).unwrap_err() {
        VioError::InertialParamInvalid { field, .. } => assert_eq!(field, "gyro_noise"),
        other => panic!("{other:?}"),
    }
}

#[test]
fn test_typo_is_refused_rather_than_discarded() {
    let given = vec!["orb_keypionts".to_string()];
    match deny_unknown_keys(Some(&given), "task", &config_keys()) {
        Err(ConfigError::UnknownKeys { unknown, task, known }) => {
            assert_eq!(unknown, ["orb_keypionts"], "must name the offender");
            assert!(known.contains(&"orb_keypoints"), "must name the fix");
            assert_eq!(task, "task", "must name the task");
        }
        _ => panic!("an unknown key must be refused"),
    }
}

#[test]
fn test_keys_the_graphs_ship_are_accepted() {
    let known = config_keys();
    let given: Vec<String> = known.iter().map(|k| k.to_string()).collect();
    assert!(deny_unknown_keys(Some(&given), "task", &known).is_ok());
    assert!(deny_unknown_keys(None, "task", &known).is_ok());
}

#[test]
fn unknown_keys_are_listed_in_order() {
    let given: Vec<String> = ["zeta", "max_keyframes", "alpha", "\u{e9}"]
        .iter()
        .map(|k| k.to_string())
        .collect();
    match deny_unknown_keys(Some(&given), "task", &config_keys()) {
        Err(ConfigError::UnknownKeys { unknown, .. }) => {
            assert_eq!(unknown, ["alpha", "zeta", "\u{e9}"])
        }
        _ => panic!("three keys are unknown"),
    }
}

#[test]
fn a_count_of_zero_is_refused() {
    assert_eq!(optional_positive_usize(Some(7), "n").unwrap(), Some(7));
    assert_eq!(optional_positive_usize(None, "n").unwrap(), None);
    assert!(matches!(
        optional_positive_usize(Some(0), "n"),
        Err(ConfigError::NotPositive { key: "n" })
    ));
}

#[test]
fn a_rotation_with_a_nan_is_rejected() {
    let mut rotation = [1.0, 0.0, 0.0, 0.0, 1.0, 0.0, 0.0, 0.0, 1.0];
    rotation[1] = f64::NAN;
    assert!(ron(rotation).to_config(&residual(rotation), 15_000_000).is_err());
}

#[test]
fn a_block_keeps_its_numbers_and_its_flag() {
    let rotation = [1.0, 0.0, 0.0, 0.0, 1.0, 0.0, 0.0, 0.0, 1.0];
    let cfg = ron(rotation).to_config(&residual(rotation), 15_000_000).expect("sound");
    assert!(!cfg.enable_inertial_ba);
    assert_eq!(cfg.calib.accel_bias_noise, double(3.0e-3));
    assert_eq!(cfg.gates.nominal_rate, double(200.0));
    assert_eq!(cfg.gates.max_gap_ns, 15_000_000);
    assert_eq!(cfg.gates.min_coverage_ratio, double(0.9));
    assert_eq!(cfg.gates.min_samples, 4);
    assert_eq!(cfg.init.min_keyframes, 10);
    assert_eq!(cfg.init.min_time_sec, double(1.0));
    assert_eq!(cfg.init.min_motion, double(0.05));
    assert_eq!(cfg.init_retry, double(5.0));

    let mut far = ron(rotation);
    far.t_bc_translation[2] = double(f64::INFINITY);
    match far.to_config(&residual(rotation), 15_000_000).unwrap_err() {
        VioError::InertialParamInvalid { field, .. } => {
            assert_eq!(field, "imu_t_bc.translation.z")
        }
        other => panic!("{other:?}"),
    }
    let mut still = ron(rotation);
    still.rate_hz = double(0.0);
    match still.to_config(&residual(rotation), 15_000_000).unwrap_err() {
        VioError::InertialParamInvalid { field, .. } => assert_eq!(field, "nominal_rate_hz"),
        other => panic!("{other:?}"),
    }
}
