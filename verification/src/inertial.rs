//! The configuration of the inertial path, and what it has done and refused.
use crate::error::VioError;
use crate::geometry::{Mat3, RigidPose, Vec3};
use crate::ieee::Double;
use crate::imu::{ImuBufferStats, ImuGates, DEFAULT_BUFFER_CAPACITY};
use vstd::prelude::*;

verus! {

/// Continuous-time noise densities of an inertial sensor, in the datasheet's convention.
#[derive(Clone, Copy, Debug, PartialEq, Eq, Structural)]
pub struct ImuCalib {
    /// Gyroscope white noise.
    pub gyro_noise: Double,
    /// Accelerometer white noise.
    pub accel_noise: Double,
    /// Gyroscope bias random walk.
    pub gyro_bias_noise: Double,
    /// Accelerometer bias random walk.
    pub accel_bias_noise: Double,
}

/// Sensor biases.
#[derive(Clone, Copy, Debug, PartialEq, Eq, Structural)]
pub struct ImuBias {
    /// Gyroscope bias.
    pub gyro: Vec3,
    /// Accelerometer bias.
    pub accel: Vec3,
}

impl ImuBias {
    /// No bias.
    pub open spec fn zero_spec() -> ImuBias {
        ImuBias { gyro: Vec3::zero_spec(), accel: Vec3::zero_spec() }
    }
}

impl Default for ImuBias {
    fn default() -> (r: ImuBias)
        ensures
            r == ImuBias::zero_spec(),
    {
        ImuBias { gyro: Vec3::zero(), accel: Vec3::zero() }
    }
}

/// Readiness thresholds for the inertial initializer.
#[derive(Clone, Copy, Debug, PartialEq, Eq, Structural)]
pub struct ImuInitConfig {
    /// Keyframes required.
    pub min_keyframes: usize,
    /// Integrated inertial time required, in seconds.
    pub min_time_sec: Double,
    /// Displacement required, in metres.
    pub min_motion: Double,
}

/// The tolerance of both rotation tests, the pattern of `1e-6`.
pub const ROTATION_TOLERANCE_BITS: u64 = 0x3eb0_c6f7_a0b5_ed8d;

/// The pattern of `1.0` second, the integrated time the first initialization waits for.
pub const INIT_MIN_TIME_BITS: u64 = 0x3ff0_0000_0000_0000;

/// The pattern of `0.05` metres, the displacement the first initialization waits for.
pub const INIT_MIN_MOTION_BITS: u64 = 0x3fa9_9999_9999_999a;

/// The keyframes the first initialization waits for.
pub const INIT_MIN_KEYFRAMES: usize = 10;

/// The pattern of `5.0` seconds, the wall time between initialization attempts.
pub const INIT_RETRY_BITS: u64 = 0x4014_0000_0000_0000;

/// What the rotation tests read of a matrix `R`.
#[derive(Clone, Copy, Debug, PartialEq, Eq, Structural)]
pub struct RotationResidual {
    /// `R^T R - I`.
    pub residual: Mat3,
    /// The determinant of `R`.
    pub determinant: Double,
    /// The determinant of `R`, less one.
    pub determinant_error: Double,
}

/// Whether a number is no further than the tolerance from zero; a NaN is not.
pub open spec fn within_tolerance(x: Double) -> bool {
    x.abs_spec().le_spec(Double { bits: ROTATION_TOLERANCE_BITS })
}

impl RotationResidual {
    /// The largest magnitude among the entries of the residual, passing over NaNs.
    pub open spec fn orthonormality_error(self) -> Double {
        let m = self.residual;
        Double::zero_spec().max_spec(m.x_axis.x.abs_spec()).max_spec(m.x_axis.y.abs_spec()).max_spec(
            m.x_axis.z.abs_spec(),
        ).max_spec(m.y_axis.x.abs_spec()).max_spec(m.y_axis.y.abs_spec()).max_spec(
            m.y_axis.z.abs_spec(),
        ).max_spec(m.z_axis.x.abs_spec()).max_spec(m.z_axis.y.abs_spec()).max_spec(
            m.z_axis.z.abs_spec(),
        )
    }

    /// Whether `R` is a proper rotation up to the tolerance: every entry of the residual is near
    /// zero, and the determinant near one.
    pub open spec fn rigid(self) -> bool {
        &&& forall|row: int, column: int|
            0 <= row < 3 && 0 <= column < 3 ==> within_tolerance(
                #[trigger] self.residual.entry(row, column),
            )
        &&& within_tolerance(self.determinant_error)
    }
}

fn near_zero(x: Double) -> (r: bool)
    ensures
        r == within_tolerance(x),
{
    x.abs().le(Double { bits: ROTATION_TOLERANCE_BITS })
}

/// Rejects a matrix that is not a proper rotation.
///
/// The determinant test is the one that matters: a reflection mirrors the body frame, and the
/// whole map would be turned onto a mirrored gravity.
pub fn validate_rotation(test: &RotationResidual) -> (r: Result<(), VioError>)
    ensures
        r is Ok <==> test.rigid(),
        r matches Err(e) ==> e == (VioError::InertialExtrinsicNotRigid {
            orthonormality_error: test.orthonormality_error(),
            determinant: test.determinant,
        }),
{
    let m = &test.residual;
    let columns_near = near_zero(m.x_axis.x) && near_zero(m.x_axis.y) && near_zero(m.x_axis.z)
        && near_zero(m.y_axis.x) && near_zero(m.y_axis.y) && near_zero(m.y_axis.z) && near_zero(
        m.z_axis.x,
    ) && near_zero(m.z_axis.y) && near_zero(m.z_axis.z);
    proof {
        if !columns_near {
            assert(!within_tolerance(m.entry(0, 0)) || !within_tolerance(m.entry(1, 0))
                || !within_tolerance(m.entry(2, 0)) || !within_tolerance(m.entry(0, 1))
                || !within_tolerance(m.entry(1, 1)) || !within_tolerance(m.entry(2, 1))
                || !within_tolerance(m.entry(0, 2)) || !within_tolerance(m.entry(1, 2))
                || !within_tolerance(m.entry(2, 2)));
        }
    }
    if columns_near && near_zero(test.determinant_error) {
        return Ok(());
    }
    let error = Double { bits: 0 }.max(m.x_axis.x.abs()).max(m.x_axis.y.abs()).max(
        m.x_axis.z.abs(),
    ).max(m.y_axis.x.abs()).max(m.y_axis.y.abs()).max(m.y_axis.z.abs()).max(m.z_axis.x.abs()).max(
        m.z_axis.y.abs(),
    ).max(m.z_axis.z.abs());
    Err(
        VioError::InertialExtrinsicNotRigid {
            orthonormality_error: error,
            determinant: test.determinant,
        },
    )
}

/// Everything the inertial path needs and cannot invent.
#[derive(Clone, Copy, Debug, PartialEq, Eq, Structural)]
pub struct InertialConfig {
    /// Camera-to-sensor extrinsic, `X_body = T_BC * X_cam`, from the rectified left camera.
    pub imu_t_bc: RigidPose,
    /// Noise densities.
    pub calib: ImuCalib,
    /// Linearization point for the first edges, before one is estimated.
    pub initial_bias: ImuBias,
    /// Coverage gates.
    pub gates: ImuGates,
    /// Sample-ring capacity.
    pub buffer_capacity: usize,
    /// Readiness thresholds of the initializer.
    pub init: ImuInitConfig,
    /// Minimum time between initialization attempts, in seconds.
    pub init_retry: Double,
    /// Whether the inertial path may move a pose.
    pub enable_inertial_ba: bool,
}

/// The first measured quantity that is not usable, with its name: a lever arm that is not finite,
/// or a density or rate that is not a positive number.
pub open spec fn first_unusable(pose: RigidPose, calib: ImuCalib, nominal_rate: Double) -> Option<
    (&'static str, Double),
> {
    let t = pose.translation;
    if !t.x.finite() {
        Some(("imu_t_bc.translation.x", t.x))
    } else if !t.y.finite() {
        Some(("imu_t_bc.translation.y", t.y))
    } else if !t.z.finite() {
        Some(("imu_t_bc.translation.z", t.z))
    } else if !calib.gyro_noise.positive_finite() {
        Some(("gyro_noise", calib.gyro_noise))
    } else if !calib.accel_noise.positive_finite() {
        Some(("accel_noise", calib.accel_noise))
    } else if !calib.gyro_bias_noise.positive_finite() {
        Some(("gyro_bias_noise", calib.gyro_bias_noise))
    } else if !calib.accel_bias_noise.positive_finite() {
        Some(("accel_bias_noise", calib.accel_bias_noise))
    } else if !nominal_rate.positive_finite() {
        Some(("nominal_rate_hz", nominal_rate))
    } else {
        None
    }
}

impl InertialConfig {
    /// The configuration for a measured extrinsic, calibration and rate, with the default of
    /// everything that is a threshold.
    pub open spec fn with_defaults(
        imu_t_bc: RigidPose,
        calib: ImuCalib,
        gates: ImuGates,
    ) -> InertialConfig {
        InertialConfig {
            imu_t_bc,
            calib,
            initial_bias: ImuBias::zero_spec(),
            gates,
            buffer_capacity: DEFAULT_BUFFER_CAPACITY,
            init: ImuInitConfig {
                min_keyframes: INIT_MIN_KEYFRAMES,
                min_time_sec: Double { bits: INIT_MIN_TIME_BITS },
                min_motion: Double { bits: INIT_MIN_MOTION_BITS },
            },
            init_retry: Double { bits: INIT_RETRY_BITS },
            enable_inertial_ba: true,
        }
    }

    /// Builds a config from the things that must be measured: the extrinsic, with the residual
    /// of its rotation, the noise densities, and the gates of the device's sample rate.
    pub fn new(
        imu_t_bc: RigidPose,
        rotation: &RotationResidual,
        calib: ImuCalib,
        gates: ImuGates,
    ) -> (r: Result<InertialConfig, VioError>)
        ensures
            r is Ok <==> rotation.rigid() && first_unusable(imu_t_bc, calib, gates.nominal_rate)
                is None,
            r matches Ok(c) ==> c == InertialConfig::with_defaults(imu_t_bc, calib, gates),
            r matches Err(e) ==> e == if !rotation.rigid() {
                VioError::InertialExtrinsicNotRigid {
                    orthonormality_error: rotation.orthonormality_error(),
                    determinant: rotation.determinant,
                }
            } else {
                let fault = first_unusable(imu_t_bc, calib, gates.nominal_rate)->0;
                VioError::InertialParamInvalid { field: fault.0, value: fault.1 }
            },
    {
        match validate_rotation(rotation) {
            Ok(()) => {},
            Err(e) => {
                return Err(e);
            },
        }
        let t = imu_t_bc.translation;
        if !t.x.is_finite() {
            return Err(
                VioError::InertialParamInvalid { field: "imu_t_bc.translation.x", value: t.x },
            );
        }
        if !t.y.is_finite() {
            return Err(
                VioError::InertialParamInvalid { field: "imu_t_bc.translation.y", value: t.y },
            );
        }
        if !t.z.is_finite() {
            return Err(
                VioError::InertialParamInvalid { field: "imu_t_bc.translation.z", value: t.z },
            );
        }
        if !calib.gyro_noise.is_positive_finite() {
            return Err(
                VioError::InertialParamInvalid { field: "gyro_noise", value: calib.gyro_noise },
            );
        }
        if !calib.accel_noise.is_positive_finite() {
            return Err(
                VioError::InertialParamInvalid { field: "accel_noise", value: calib.accel_noise },
            );
        }
        if !calib.gyro_bias_noise.is_positive_finite() {
            return Err(
                VioError::InertialParamInvalid {
                    field: "gyro_bias_noise",
                    value: calib.gyro_bias_noise,
                },
            );
        }
        if !calib.accel_bias_noise.is_positive_finite() {
            return Err(
                VioError::InertialParamInvalid {
                    field: "accel_bias_noise",
                    value: calib.accel_bias_noise,
                },
            );
        }
        if !gates.nominal_rate.is_positive_finite() {
            return Err(
                VioError::InertialParamInvalid {
                    field: "nominal_rate_hz",
                    value: gates.nominal_rate,
                },
            );
        }
        Ok(
            InertialConfig {
                imu_t_bc,
                calib,
                initial_bias: ImuBias::default(),
                gates,
                buffer_capacity: DEFAULT_BUFFER_CAPACITY,
                init: ImuInitConfig {
                    min_keyframes: INIT_MIN_KEYFRAMES,
                    min_time_sec: Double { bits: INIT_MIN_TIME_BITS },
                    min_motion: Double { bits: INIT_MIN_MOTION_BITS },
                },
                init_retry: Double { bits: INIT_RETRY_BITS },
                enable_inertial_ba: true,
            },
        )
    }
}

/// What the inertial path has done and refused. A rising refusal rate is the only symptom of an
/// inertial stream that has stopped covering its intervals.
#[derive(Clone, Copy, Debug, PartialEq, Eq, Structural)]
pub struct InertialStats {
    /// Sample-buffer counters.
    pub buffer: ImuBufferStats,
    /// Inertial factors handed to the map.
    pub factors_added: u64,
    /// Intervals refused because the source reported dropped samples.
    pub refused_dropped: u64,
    /// Intervals refused for a gap at a boundary or inside.
    pub refused_gap: u64,
    /// Intervals refused for insufficient sample coverage.
    pub refused_too_few: u64,
    /// Intervals refused because the buffer held nothing in range.
    pub refused_no_samples: u64,
    /// Intervals refused because they do not run forward.
    pub refused_bad_interval: u64,
    /// Intervals whose integration came back spanning no time.
    pub refused_zero_dt: u64,
    /// Attempts to initialize.
    pub init_attempts: u64,
    /// Accepted initializations, the refinement passes among them.
    pub init_accepted: u64,
    /// Whether visual-inertial initialization has succeeded.
    pub initialized: bool,
    /// Whether the first refinement pass has run.
    pub first_refinement_done: bool,
    /// Whether the second refinement pass has run.
    pub second_refinement_done: bool,
    /// Inertial factors the map holds.
    pub retained_factors: usize,
    /// Raw samples retained across those factors.
    pub retained_samples: usize,
}

impl InertialStats {
    /// All counters at zero.
    pub open spec fn zero() -> InertialStats {
        InertialStats {
            buffer: ImuBufferStats::zero(),
            factors_added: 0,
            refused_dropped: 0,
            refused_gap: 0,
            refused_too_few: 0,
            refused_no_samples: 0,
            refused_bad_interval: 0,
            refused_zero_dt: 0,
            init_attempts: 0,
            init_accepted: 0,
            initialized: false,
            first_refinement_done: false,
            second_refinement_done: false,
            retained_factors: 0,
            retained_samples: 0,
        }
    }

    /// The sum of the refusal counters.
    pub open spec fn refusals(self) -> int {
        self.refused_dropped + self.refused_gap + self.refused_too_few + self.refused_no_samples
            + self.refused_bad_interval + self.refused_zero_dt
    }

    /// Every refused interval, whatever the reason.
    pub fn refused_total(&self) -> (r: u64)
        requires
            self.refusals() <= u64::MAX,
        ensures
            r == self.refusals(),
    {
        self.refused_dropped + self.refused_gap + self.refused_too_few + self.refused_no_samples
            + self.refused_bad_interval + self.refused_zero_dt
    }
}

impl Default for InertialStats {
    fn default() -> (r: InertialStats)
        ensures
            r == InertialStats::zero(),
    {
        InertialStats {
            buffer: ImuBufferStats::default(),
            factors_added: 0,
            refused_dropped: 0,
            refused_gap: 0,
            refused_too_few: 0,
            refused_no_samples: 0,
            refused_bad_interval: 0,
            refused_zero_dt: 0,
            init_attempts: 0,
            init_accepted: 0,
            initialized: false,
            first_refinement_done: false,
            second_refinement_done: false,
            retained_factors: 0,
            retained_samples: 0,
        }
    }
}

} // verus!
