//! The task's configuration keys: which there are, and what each may hold.
use crate::error::VioError;
use crate::geometry::{Mat3, RigidPose, Vec3};
use crate::ieee::Double;
use crate::imu::ImuGates;
use crate::inertial::{first_unusable, ImuCalib, InertialConfig, RotationResidual};
use vstd::prelude::*;

verus! {

/// What the tracker does with its map after a sustained tracking loss.
#[derive(Clone, Copy, Debug, PartialEq, Eq, Structural)]
pub enum OnTrackingLoss {
    /// Bootstrap into the existing map.
    KeepMap,
    /// Drop the map and start a new tracker world.
    ResetMap,
}

impl Default for OnTrackingLoss {
    fn default() -> (r: OnTrackingLoss)
        ensures
            r == OnTrackingLoss::KeepMap,
    {
        OnTrackingLoss::KeepMap
    }
}

/// The `on_tracking_loss` key.
pub const ON_TRACKING_LOSS: &'static str = "on_tracking_loss";

/// The `max_keyframes` key.
pub const MAX_KEYFRAMES: &'static str = "max_keyframes";

/// The `orb_keypoints` key.
pub const ORB_KEYPOINTS: &'static str = "orb_keypoints";

/// The `search_radius_px` key.
pub const SEARCH_RADIUS_PX: &'static str = "search_radius_px";

/// The `max_covisible_keyframes` key.
pub const MAX_COVISIBLE_KEYFRAMES: &'static str = "max_covisible_keyframes";

/// The `pnp_lm_iterations` key.
pub const PNP_LM_ITERATIONS: &'static str = "pnp_lm_iterations";

/// The `landmark_buffers` key.
pub const LANDMARK_BUFFERS: &'static str = "landmark_buffers";

/// The `inertial` key.
pub const INERTIAL: &'static str = "inertial";

/// Every key the task reads.
pub open spec fn config_keys_spec() -> Seq<&'static str> {
    seq![
        ON_TRACKING_LOSS,
        MAX_KEYFRAMES,
        ORB_KEYPOINTS,
        SEARCH_RADIUS_PX,
        MAX_COVISIBLE_KEYFRAMES,
        PNP_LM_ITERATIONS,
        LANDMARK_BUFFERS,
        INERTIAL,
    ]
}

/// Every key the task reads.
pub fn config_keys() -> (r: Vec<&'static str>)
    ensures
        r@ == config_keys_spec(),
{
    let mut r: Vec<&'static str> = Vec::new();
    r.push(ON_TRACKING_LOSS);
    r.push(MAX_KEYFRAMES);
    r.push(ORB_KEYPOINTS);
    r.push(SEARCH_RADIUS_PX);
    r.push(MAX_COVISIBLE_KEYFRAMES);
    r.push(PNP_LM_ITERATIONS);
    r.push(LANDMARK_BUFFERS);
    r.push(INERTIAL);
    assert(r@ =~= config_keys_spec());
    r
}

/// Why a configuration is refused.
#[derive(Debug)]
pub enum ConfigError {
    /// It carries keys that nobody reads, which would otherwise be discarded in silence.
    UnknownKeys {
        /// Those keys, in byte order.
        unknown: Vec<String>,
        /// The task it was meant for.
        task: &'static str,
        /// The keys the task reads.
        known: Vec<&'static str>,
    },
    /// A value has another type than its key.
    Unreadable {
        /// The key.
        key: &'static str,
    },
    /// A count is zero.
    NotPositive {
        /// The key.
        key: &'static str,
    },
    /// A number is not finite and above zero.
    NotPositiveFinite {
        /// The key.
        key: &'static str,
        /// The value.
        value: Double,
    },
    /// More snapshot buffers than may be allocated up front.
    TooManyLandmarkBuffers {
        /// The value.
        got: usize,
    },
}

/// Whether two texts are the same.
pub fn same_text(a: &str, b: &str) -> (r: bool)
    ensures
        r == (a@ == b@),
{
    let x = a.as_bytes();
    let y = b.as_bytes();
    proof {
        vstd::utf8::encode_utf8_decode_utf8(a@);
        vstd::utf8::encode_utf8_decode_utf8(b@);
    }
    if x.len() != y.len() {
        return false;
    }
    let mut i: usize = 0;
    while i < x.len()
        invariant
            i <= x@.len(),
            x@.len() == y@.len(),
            x@ == vstd::utf8::encode_utf8(a@),
            y@ == vstd::utf8::encode_utf8(b@),
            forall|k: int| 0 <= k < i ==> x@[k] == y@[k],
        decreases x@.len() - i,
    {
        if x[i] != y[i] {
            return false;
        }
        i += 1;
    }
    assert(x@ =~= y@);
    true
}

/// Whether bytes come no later than others in dictionary order.
pub open spec fn bytes_le(a: Seq<u8>, b: Seq<u8>) -> bool
    decreases a.len(),
{
    if a.len() == 0 {
        true
    } else if b.len() == 0 {
        false
    } else {
        a[0] < b[0] || (a[0] == b[0] && bytes_le(a.skip(1), b.skip(1)))
    }
}

/// Whether a text comes no later than another, by its UTF-8 bytes.
pub open spec fn text_le(a: Seq<char>, b: Seq<char>) -> bool {
    bytes_le(vstd::utf8::encode_utf8(a), vstd::utf8::encode_utf8(b))
}

fn text_not_after(a: &str, b: &str) -> (r: bool)
    ensures
        r == text_le(a@, b@),
{
    let x = a.as_bytes();
    let y = b.as_bytes();
    let mut i: usize = 0;
    assert(x@.skip(0) =~= x@);
    assert(y@.skip(0) =~= y@);
    loop
        invariant
            i <= x@.len(),
            i <= y@.len(),
            x@ == vstd::utf8::encode_utf8(a@),
            y@ == vstd::utf8::encode_utf8(b@),
            text_le(a@, b@) == bytes_le(x@.skip(i as int), y@.skip(i as int)),
        decreases x@.len() - i,
    {
        if i == x.len() {
            return true;
        }
        if i == y.len() {
            return false;
        }
        if x[i] < y[i] {
            return true;
        }
        if x[i] > y[i] {
            return false;
        }
        proof {
            assert(x@.skip(i as int).skip(1) =~= x@.skip(i + 1));
            assert(y@.skip(i as int).skip(1) =~= y@.skip(i + 1));
        }
        i += 1;
    }
}

proof fn lemma_bytes_le_total(a: Seq<u8>, b: Seq<u8>)
    ensures
        bytes_le(a, b) || bytes_le(b, a),
    decreases a.len(),
{
    if a.len() > 0 && b.len() > 0 {
        lemma_bytes_le_total(a.skip(1), b.skip(1));
    }
}

proof fn lemma_bytes_le_trans(a: Seq<u8>, b: Seq<u8>, c: Seq<u8>)
    requires
        bytes_le(a, b),
        bytes_le(b, c),
    ensures
        bytes_le(a, c),
    decreases a.len(),
{
    if a.len() > 0 && b.len() > 0 && c.len() > 0 && a[0] == b[0] && b[0] == c[0] {
        lemma_bytes_le_trans(a.skip(1), b.skip(1), c.skip(1));
    }
}

/// The views of a list of strings.
pub open spec fn texts(v: Seq<String>) -> Seq<Seq<char>> {
    v.map_values(|s: String| s@)
}

/// Whether texts are in byte order.
pub open spec fn in_byte_order(v: Seq<Seq<char>>) -> bool {
    forall|i: int, j: int| 0 <= i <= j < v.len() ==> text_le(#[trigger] v[i], #[trigger] v[j])
}

/// Whether a text is one of the known keys.
pub open spec fn is_known(known: Seq<&'static str>, key: Seq<char>) -> bool {
    exists|i: int| 0 <= i < known.len() && (#[trigger] known[i])@ == key
}

/// Whether every key is known.
pub open spec fn all_known(keys: Seq<Seq<char>>, known: Seq<&'static str>) -> bool {
    forall|i: int| 0 <= i < keys.len() ==> is_known(known, #[trigger] keys[i])
}

/// The keys that are not known, in the order given.
pub open spec fn unknown_among(keys: Seq<Seq<char>>, known: Seq<&'static str>) -> Seq<Seq<char>> {
    keys.filter(|k: Seq<char>| !is_known(known, k))
}

fn knows(known: &[&'static str], key: &str) -> (r: bool)
    ensures
        r == is_known(known@, key@),
{
    let mut i: usize = 0;
    while i < known.len()
        invariant
            i <= known@.len(),
            forall|k: int| 0 <= k < i ==> (#[trigger] known@[k])@ != key@,
        decreases known@.len() - i,
    {
        if same_text(known[i], key) {
            assert(known@[i as int]@ == key@);
            return true;
        }
        i += 1;
    }
    false
}

/// Inserts a text into a list that is in byte order.
fn insert_in_order(v: &mut Vec<String>, s: String)
    requires
        in_byte_order(texts(old(v)@)),
        old(v)@.len() < usize::MAX,
    ensures
        in_byte_order(texts(final(v)@)),
        texts(final(v)@).to_multiset() == texts(old(v)@).to_multiset().insert(s@),
{
    let mut i: usize = 0;
    while i < v.len() && text_not_after(v[i].as_str(), s.as_str())
        invariant
            i <= v@.len(),
            v@ == old(v)@,
            forall|k: int| 0 <= k < i ==> text_le((#[trigger] v@[k])@, s@),
        decreases v@.len() - i,
    {
        i += 1;
    }
    let ghost before = texts(v@);
    let ghost text = s@;
    proof {
        broadcast use vstd::seq_lib::group_to_multiset_ensures;

        if i < v@.len() {
            lemma_bytes_le_total(
                vstd::utf8::encode_utf8(v@[i as int]@),
                vstd::utf8::encode_utf8(s@),
            );
            assert(text_le(s@, before[i as int]));
        }
    }
    v.insert(i, s);
    proof {
        let after = texts(v@);
        assert(after =~= before.insert(i as int, text));
        assert forall|a: int, b: int| 0 <= a <= b < after.len() implies text_le(
            #[trigger] after[a],
            #[trigger] after[b],
        ) by {
            if a < i && b == i {
                assert(old(v)@[a]@ == after[a]);
            } else if a < i && b > i {
                assert(after[a] == before[a] && after[b] == before[b - 1]);
            } else if a == i && b == i {
                lemma_bytes_le_total(
                    vstd::utf8::encode_utf8(text),
                    vstd::utf8::encode_utf8(text),
                );
            } else if a == i && b > i {
                assert(after[b] == before[b - 1]);
                assert(text_le(before[i as int], before[b - 1]));
                lemma_bytes_le_trans(
                    vstd::utf8::encode_utf8(text),
                    vstd::utf8::encode_utf8(before[i as int]),
                    vstd::utf8::encode_utf8(before[b - 1]),
                );
            } else if a > i {
                assert(after[a] == before[a - 1] && after[b] == before[b - 1]);
            } else {
                assert(after[a] == before[a] && after[b] == before[b]);
            }
        }
        before.to_multiset_ensures();
        vstd::seq_lib::to_multiset_insert(before, i as int, text);
    }
}

/// Refuses a configuration with a key that the task does not read. A key nobody reads would be
/// discarded in silence, and a misspelt knob would look like one that does nothing.
pub fn deny_unknown_keys(
    keys: Option<&Vec<String>>,
    task: &'static str,
    known: &[&'static str],
) -> (r: Result<(), ConfigError>)
    ensures
        keys is None ==> r is Ok,
        keys is Some ==> (r is Ok <==> all_known(texts(keys->0@), known@)),
        r matches Err(e) ==> {
            &&& e is UnknownKeys
            &&& e->UnknownKeys_task == task
            &&& e->UnknownKeys_known@ == known@
            &&& in_byte_order(texts(e->UnknownKeys_unknown@))
            &&& texts(e->UnknownKeys_unknown@).to_multiset() == unknown_among(
                texts(keys->0@),
                known@,
            ).to_multiset()
        },
{
    let keys = match keys {
        Some(k) => k,
        None => {
            return Ok(());
        },
    };
    let mut unknown: Vec<String> = Vec::new();
    let mut i: usize = 0;
    let ghost all = texts(keys@);
    proof {
        reveal(Seq::filter);
        assert(unknown_among(all.take(0), known@) =~= Seq::<Seq<char>>::empty());
        assert(texts(unknown@) =~= Seq::<Seq<char>>::empty());
    }
    while i < keys.len()
        invariant
            i <= keys@.len(),
            all == texts(keys@),
            unknown@.len() <= i,
            in_byte_order(texts(unknown@)),
            texts(unknown@).to_multiset() == unknown_among(all.take(i as int), known@).to_multiset(),
            unknown@.len() == 0 <==> all_known(all.take(i as int), known@),
        decreases keys@.len() - i,
    {
        let ghost seen = unknown_among(all.take(i as int), known@);
        proof {
            reveal(Seq::filter);
            assert(all.take(i + 1).drop_last() =~= all.take(i as int));
            assert(all.take(i + 1).last() == keys@[i as int]@);
            assert(all_known(all.take(i + 1), known@) <==> all_known(all.take(i as int), known@)
                && is_known(known@, keys@[i as int]@)) by {
                if all_known(all.take(i + 1), known@) {
                    assert forall|k: int| 0 <= k < i implies is_known(
                        known@,
                        #[trigger] all.take(i as int)[k],
                    ) by {
                        assert(all.take(i + 1)[k] == all.take(i as int)[k]);
                    }
                    assert(is_known(known@, all.take(i + 1)[i as int]));
                }
                if all_known(all.take(i as int), known@) && is_known(known@, keys@[i as int]@) {
                    assert forall|k: int| 0 <= k < i + 1 implies is_known(
                        known@,
                        #[trigger] all.take(i + 1)[k],
                    ) by {
                        if k < i {
                            assert(all.take(i + 1)[k] == all.take(i as int)[k]);
                        }
                    }
                }
            }
        }
        if !knows(known, keys[i].as_str()) {
            proof {
                broadcast use vstd::seq_lib::group_to_multiset_ensures;

                assert(seen.push(keys@[i as int]@).to_multiset() =~= seen.to_multiset().insert(
                    keys@[i as int]@,
                ));
            }
            insert_in_order(&mut unknown, keys[i].clone());
            proof {
                texts(unknown@).to_multiset_ensures();
                assert(texts(unknown@).to_multiset().count(keys@[i as int]@) > 0);
                assert(unknown@.len() > 0) by {
                    if unknown@.len() == 0 {
                        assert(texts(unknown@) =~= Seq::<Seq<char>>::empty());
                        assert(texts(unknown@).to_multiset().len() == 0);
                    }
                }
            }
        }
        i += 1;
    }
    assert(all.take(i as int) =~= all);
    if unknown.len() == 0 {
        return Ok(());
    }
    let mut named: Vec<&'static str> = Vec::new();
    let mut j: usize = 0;
    while j < known.len()
        invariant
            j <= known@.len(),
            named@ == known@.take(j as int),
        decreases known@.len() - j,
    {
        named.push(known[j]);
        j += 1;
        assert(named@ =~= known@.take(j as int));
    }
    assert(known@.take(j as int) =~= known@);
    Err(ConfigError::UnknownKeys { unknown, task, known: named })
}

/// Reads the loss policy: one canonical spelling each, and keeping the map where there is none.
pub fn on_tracking_loss(raw: Option<&str>) -> (r: Result<OnTrackingLoss, ConfigError>)
    ensures
        match raw {
            None => r == Ok::<OnTrackingLoss, ConfigError>(OnTrackingLoss::KeepMap),
            Some(s) => if s@ == "keep_map"@ {
                r == Ok::<OnTrackingLoss, ConfigError>(OnTrackingLoss::KeepMap)
            } else if s@ == "reset_map"@ {
                r == Ok::<OnTrackingLoss, ConfigError>(OnTrackingLoss::ResetMap)
            } else {
                r == Err::<OnTrackingLoss, ConfigError>(
                    ConfigError::Unreadable { key: ON_TRACKING_LOSS },
                )
            },
        },
{
    match raw {
        None => Ok(OnTrackingLoss::KeepMap),
        Some(s) => {
            if same_text(s, "keep_map") {
                Ok(OnTrackingLoss::KeepMap)
            } else if same_text(s, "reset_map") {
                Ok(OnTrackingLoss::ResetMap)
            } else {
                Err(ConfigError::Unreadable { key: ON_TRACKING_LOSS })
            }
        },
    }
}

/// Reads an optional count. Zero is refused: as a bound on the map it would drop it on every
/// insertion, which looks like a broken tracker rather than like a setting.
pub fn optional_positive_usize(raw: Option<u32>, key: &'static str) -> (r: Result<
    Option<usize>,
    ConfigError,
>)
    ensures
        match raw {
            None => r == Ok::<Option<usize>, ConfigError>(None),
            Some(v) => if v == 0 {
                r == Err::<Option<usize>, ConfigError>(ConfigError::NotPositive { key })
            } else {
                r == Ok::<Option<usize>, ConfigError>(Some(v as usize))
            },
        },
{
    match raw {
        None => Ok(None),
        Some(v) => {
            if v == 0 {
                Err(ConfigError::NotPositive { key })
            } else {
                Ok(Some(v as usize))
            }
        },
    }
}

/// Reads an optional number that has to be finite and above zero.
pub fn optional_positive_f64(raw: Option<Double>, key: &'static str) -> (r: Result<
    Option<Double>,
    ConfigError,
>)
    ensures
        match raw {
            None => r == Ok::<Option<Double>, ConfigError>(None),
            Some(value) => if value.positive_finite() {
                r == Ok::<Option<Double>, ConfigError>(Some(value))
            } else {
                r == Err::<Option<Double>, ConfigError>(
                    ConfigError::NotPositiveFinite { key, value },
                )
            },
        },
{
    match raw {
        None => Ok(None),
        Some(value) => {
            if value.is_positive_finite() {
                Ok(Some(value))
            } else {
                Err(ConfigError::NotPositiveFinite { key, value })
            }
        },
    }
}

/// The `inertial` block as a file holds it: all of it or none, and nothing physical defaulted.
#[derive(Clone, Copy, Debug)]
pub struct InertialRon {
    /// Rotation from camera to sensor axes, row by row.
    pub t_bc_rotation: [Double; 9],
    /// Lever arm in metres.
    pub t_bc_translation: [Double; 3],
    /// Gyroscope white noise.
    pub gyro_noise: Double,
    /// Accelerometer white noise.
    pub accel_noise: Double,
    /// Gyroscope bias random walk.
    pub gyro_bias_noise: Double,
    /// Accelerometer bias random walk.
    pub accel_bias_noise: Double,
    /// Sample rate in hertz.
    pub rate_hz: Double,
    /// Whether the inertial path may move a published pose; off unless the file says so.
    pub enable_inertial_ba: bool,
}

impl InertialRon {
    /// The noise densities.
    pub open spec fn calib(self) -> ImuCalib {
        ImuCalib {
            gyro_noise: self.gyro_noise,
            accel_noise: self.accel_noise,
            gyro_bias_noise: self.gyro_bias_noise,
            accel_bias_noise: self.accel_bias_noise,
        }
    }

    /// Whether a pose is the extrinsic that was written down: a rotation read row by row, and its
    /// lever arm.
    pub open spec fn is_extrinsic(self, pose: RigidPose) -> bool {
        &&& forall|row: int, column: int|
            0 <= row < 3 && 0 <= column < 3 ==> #[trigger] pose.rotation.entry(row, column)
                == self.t_bc_rotation@[3 * row + column]
        &&& pose.translation.x == self.t_bc_translation@[0]
        &&& pose.translation.y == self.t_bc_translation@[1]
        &&& pose.translation.z == self.t_bc_translation@[2]
    }

    /// The extrinsic, its rotation in columns.
    pub open spec fn extrinsic_spec(self) -> RigidPose {
        let m = self.t_bc_rotation@;
        let t = self.t_bc_translation@;
        RigidPose {
            rotation: Mat3 {
                x_axis: Vec3 { x: m[0], y: m[3], z: m[6] },
                y_axis: Vec3 { x: m[1], y: m[4], z: m[7] },
                z_axis: Vec3 { x: m[2], y: m[5], z: m[8] },
            },
            translation: Vec3 { x: t[0], y: t[1], z: t[2] },
        }
    }

    /// What the block comes to, given the residual of its rotation and the widest tolerated gap: a
    /// configuration, or the first thing wrong with it.
    pub open spec fn config(self, rotation: RotationResidual, max_gap_ns: u64) -> Result<
        InertialConfig,
        VioError,
    > {
        let pose = self.extrinsic_spec();
        let unusable = first_unusable(pose, self.calib(), self.rate_hz);
        if !rotation.rigid() {
            Err(
                VioError::InertialExtrinsicNotRigid {
                    orthonormality_error: rotation.orthonormality_error(),
                    determinant: rotation.determinant,
                },
            )
        } else if unusable is Some {
            let fault = unusable->0;
            Err(VioError::InertialParamInvalid { field: fault.0, value: fault.1 })
        } else {
            Ok(
                InertialConfig {
                    enable_inertial_ba: self.enable_inertial_ba,
                    ..InertialConfig::with_defaults(
                        pose,
                        self.calib(),
                        ImuGates {
                            nominal_rate: self.rate_hz,
                            max_gap_ns,
                            min_coverage_ratio: Double {
                                bits: crate::imu::DEFAULT_COVERAGE_RATIO_BITS,
                            },
                            min_samples: crate::imu::DEFAULT_MIN_SAMPLES,
                        },
                    )
                },
            )
        }
    }

    /// The extrinsic, its rotation in columns.
    pub fn extrinsic(&self) -> (r: RigidPose)
        ensures
            r == self.extrinsic_spec(),
            self.is_extrinsic(r),
    {
        let r = RigidPose {
            rotation: Mat3::from_rows(&self.t_bc_rotation),
            translation: Vec3 {
                x: self.t_bc_translation[0],
                y: self.t_bc_translation[1],
                z: self.t_bc_translation[2],
            },
        };
        proof {
            let m = r.rotation;
            assert(m.entry(0, 0) == m.x_axis.x && m.entry(1, 0) == m.x_axis.y && m.entry(2, 0)
                == m.x_axis.z);
            assert(m.entry(0, 1) == m.y_axis.x && m.entry(1, 1) == m.y_axis.y && m.entry(2, 1)
                == m.y_axis.z);
            assert(m.entry(0, 2) == m.z_axis.x && m.entry(1, 2) == m.z_axis.y && m.entry(2, 2)
                == m.z_axis.z);
        }
        r
    }

    /// Turns the block into the tracker's configuration, refusing an extrinsic that is no rotation
    /// and a density that is no positive number. `rotation` holds the residual of the rotation, and
    /// `max_gap_ns` the widest tolerated gap at this rate.
    pub fn to_config(&self, rotation: &RotationResidual, max_gap_ns: u64) -> (r: Result<
        InertialConfig,
        VioError,
    >)
        ensures
            r == self.config(*rotation, max_gap_ns),
    {
        let pose = self.extrinsic();
        let calib = ImuCalib {
            gyro_noise: self.gyro_noise,
            accel_noise: self.accel_noise,
            gyro_bias_noise: self.gyro_bias_noise,
            accel_bias_noise: self.accel_bias_noise,
        };
        let gates = ImuGates::new(self.rate_hz, max_gap_ns);
        match InertialConfig::new(pose, rotation, calib, gates) {
            Ok(c) => {
                let mut config = c;
                config.enable_inertial_ba = self.enable_inertial_ba;
                Ok(config)
            },
            Err(e) => Err(e),
        }
    }
}

} // verus!
