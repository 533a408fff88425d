//! The tracker, driven from a graph: one stereo message in, one pose out.
use crate::config::{
    all_known, config_keys, config_keys_spec, deny_unknown_keys, on_tracking_loss,
    in_byte_order, optional_positive_f64, optional_positive_usize, texts, unknown_among, ConfigError,
    InertialRon, OnTrackingLoss, INERTIAL, LANDMARK_BUFFERS, MAX_COVISIBLE_KEYFRAMES, MAX_KEYFRAMES,
    ON_TRACKING_LOSS, ORB_KEYPOINTS, PNP_LM_ITERATIONS, SEARCH_RADIUS_PX,
};
use crate::ieee::{Double, Single};
use crate::imu_channel::ImuQueue;
use crate::payload::Landmark;
use vstd::prelude::*;

verus! {

/// Most map points one snapshot carries.
pub const MAX_LANDMARKS: usize = 8192;

/// Default number of snapshot buffers.
pub const DEFAULT_LANDMARK_BUFFERS: usize = 16;

/// Largest number of snapshot buffers accepted. Each is allocated up front, so an unbounded key
/// would turn a typo into gigabytes.
pub const MAX_LANDMARK_BUFFERS: usize = 256;

/// The name the task goes by in messages about its configuration.
pub const TASK_NAME: &'static str = "cu_kornia_vio::StereoVio";

/// What a configuration holds under a key.
#[derive(Debug)]
pub enum Raw<T> {
    /// Nothing.
    Absent,
    /// Something of another type.
    Unreadable,
    /// A value.
    Value(T),
}

impl<T> Raw<T> {
    /// The value, if there is one.
    pub open spec fn value(self) -> Option<T> {
        match self {
            Raw::Value(v) => Some(v),
            _ => None,
        }
    }
}

/// A task's configuration as it was read, before any value is checked.
#[derive(Debug)]
pub struct RawConfig {
    /// The keys it carries; `None` where there is no configuration.
    pub keys: Option<Vec<String>>,
    /// Under `inertial`.
    pub inertial: Raw<InertialRon>,
    /// Under `landmark_buffers`.
    pub landmark_buffers: Raw<u32>,
    /// Under `on_tracking_loss`.
    pub on_tracking_loss: Raw<String>,
    /// Under `max_keyframes`.
    pub max_keyframes: Raw<u32>,
    /// Under `orb_keypoints`.
    pub orb_keypoints: Raw<u32>,
    /// Under `search_radius_px`.
    pub search_radius_px: Raw<Double>,
    /// Under `max_covisible_keyframes`.
    pub max_covisible_keyframes: Raw<u32>,
    /// Under `pnp_lm_iterations`.
    pub pnp_lm_iterations: Raw<u32>,
}

/// The task's settings.
#[derive(Clone, Copy, Debug)]
pub struct VioSettings {
    /// What becomes of the map after a loss.
    pub on_tracking_loss: OnTrackingLoss,
    /// Keyframe budget; `None` is unbounded.
    pub max_keyframes: Option<usize>,
    /// Keypoints per image; `None` keeps the default.
    pub orb_keypoints: Option<usize>,
    /// Projection search radius; `None` keeps the default.
    pub search_radius_px: Option<Double>,
    /// Neighbours of a new keyframe; `None` keeps the default.
    pub max_covisible_keyframes: Option<usize>,
    /// Iterations of a pose refinement; `None` keeps the default.
    pub pnp_lm_iterations: Option<usize>,
    /// Snapshot buffers.
    pub landmark_buffers: usize,
    /// The inertial block.
    pub inertial: Option<InertialRon>,
}

/// What is wrong with a count under a key, if anything.
pub open spec fn count_fault(raw: Raw<u32>, key: &'static str) -> Option<ConfigError> {
    match raw {
        Raw::Unreadable => Some(ConfigError::Unreadable { key }),
        Raw::Value(v) => if v == 0 {
            Some(ConfigError::NotPositive { key })
        } else {
            None
        },
        Raw::Absent => None,
    }
}

/// What is wrong with a number under a key, if anything.
pub open spec fn number_fault(raw: Raw<Double>, key: &'static str) -> Option<ConfigError> {
    match raw {
        Raw::Unreadable => Some(ConfigError::Unreadable { key }),
        Raw::Value(value) => if value.positive_finite() {
            None
        } else {
            Some(ConfigError::NotPositiveFinite { key, value })
        },
        Raw::Absent => None,
    }
}

/// What is wrong with a loss policy, if anything.
pub open spec fn policy_fault(raw: Raw<String>) -> Option<ConfigError> {
    match raw {
        Raw::Unreadable => Some(ConfigError::Unreadable { key: ON_TRACKING_LOSS }),
        Raw::Value(s) => if s@ == "keep_map"@ || s@ == "reset_map"@ {
            None
        } else {
            Some(ConfigError::Unreadable { key: ON_TRACKING_LOSS })
        },
        Raw::Absent => None,
    }
}

/// A count as a setting.
pub open spec fn count_setting(raw: Raw<u32>) -> Option<usize> {
    match raw {
        Raw::Value(v) => Some(v as usize),
        _ => None,
    }
}

impl RawConfig {
    /// Whether every key is one the task reads.
    pub open spec fn keys_known(self) -> bool {
        self.keys matches Some(k) ==> all_known(texts(k@), config_keys_spec())
    }

    /// What is wrong with what is read before the queue is armed, if anything.
    pub open spec fn early_fault(self) -> Option<ConfigError> {
        if self.inertial is Unreadable {
            Some(ConfigError::Unreadable { key: INERTIAL })
        } else if count_fault(self.landmark_buffers, LANDMARK_BUFFERS) is Some {
            count_fault(self.landmark_buffers, LANDMARK_BUFFERS)
        } else if self.buffers() > MAX_LANDMARK_BUFFERS {
            Some(ConfigError::TooManyLandmarkBuffers { got: self.buffers() })
        } else {
            None
        }
    }

    /// What is wrong with what is read after that, if anything.
    pub open spec fn late_fault(self) -> Option<ConfigError> {
        if policy_fault(self.on_tracking_loss) is Some {
            policy_fault(self.on_tracking_loss)
        } else if count_fault(self.max_keyframes, MAX_KEYFRAMES) is Some {
            count_fault(self.max_keyframes, MAX_KEYFRAMES)
        } else if count_fault(self.orb_keypoints, ORB_KEYPOINTS) is Some {
            count_fault(self.orb_keypoints, ORB_KEYPOINTS)
        } else if number_fault(self.search_radius_px, SEARCH_RADIUS_PX) is Some {
            number_fault(self.search_radius_px, SEARCH_RADIUS_PX)
        } else if count_fault(self.max_covisible_keyframes, MAX_COVISIBLE_KEYFRAMES) is Some {
            count_fault(self.max_covisible_keyframes, MAX_COVISIBLE_KEYFRAMES)
        } else {
            count_fault(self.pnp_lm_iterations, PNP_LM_ITERATIONS)
        }
    }

    /// The snapshot buffers asked for.
    pub open spec fn buffers(self) -> usize {
        match self.landmark_buffers {
            Raw::Value(v) => v as usize,
            _ => DEFAULT_LANDMARK_BUFFERS,
        }
    }

    /// The settings of a configuration with nothing wrong with it.
    pub open spec fn settings(self) -> VioSettings {
        VioSettings {
            on_tracking_loss: match self.on_tracking_loss {
                Raw::Value(s) => if s@ == "reset_map"@ {
                    OnTrackingLoss::ResetMap
                } else {
                    OnTrackingLoss::KeepMap
                },
                _ => OnTrackingLoss::KeepMap,
            },
            max_keyframes: count_setting(self.max_keyframes),
            orb_keypoints: count_setting(self.orb_keypoints),
            search_radius_px: self.search_radius_px.value(),
            max_covisible_keyframes: count_setting(self.max_covisible_keyframes),
            pnp_lm_iterations: count_setting(self.pnp_lm_iterations),
            landmark_buffers: self.buffers(),
            inertial: self.inertial.value(),
        }
    }
}

fn read_count(raw: &Raw<u32>, key: &'static str) -> (r: Result<Option<usize>, ConfigError>)
    ensures
        match r {
            Ok(v) => count_fault(*raw, key) is None && v == count_setting(*raw),
            Err(e) => count_fault(*raw, key) == Some(e),
        },
{
    match raw {
        Raw::Absent => Ok(None),
        Raw::Unreadable => Err(ConfigError::Unreadable { key }),
        Raw::Value(v) => optional_positive_usize(Some(*v), key),
    }
}

fn read_number(raw: &Raw<Double>, key: &'static str) -> (r: Result<Option<Double>, ConfigError>)
    ensures
        match r {
            Ok(v) => number_fault(*raw, key) is None && v == raw.value(),
            Err(e) => number_fault(*raw, key) == Some(e),
        },
{
    match raw {
        Raw::Absent => Ok(None),
        Raw::Unreadable => Err(ConfigError::Unreadable { key }),
        Raw::Value(v) => optional_positive_f64(Some(*v), key),
    }
}

fn read_policy(raw: &Raw<String>) -> (r: Result<OnTrackingLoss, ConfigError>)
    ensures
        match r {
            Ok(v) => policy_fault(*raw) is None && v == match *raw {
                Raw::Value(s) => if s@ == "reset_map"@ {
                    OnTrackingLoss::ResetMap
                } else {
                    OnTrackingLoss::KeepMap
                },
                _ => OnTrackingLoss::KeepMap,
            },
            Err(e) => policy_fault(*raw) == Some(e),
        },
{
    proof {
        reveal_strlit("keep_map");
        reveal_strlit("reset_map");
        assert("keep_map"@.len() != "reset_map"@.len());
    }
    match raw {
        Raw::Absent => Ok(OnTrackingLoss::KeepMap),
        Raw::Unreadable => Err(ConfigError::Unreadable { key: ON_TRACKING_LOSS }),
        Raw::Value(s) => on_tracking_loss(Some(s.as_str())),
    }
}

/// Reads a task's configuration, arming the sample queue where there is an inertial block: a graph
/// without one leaves the producer inert.
pub fn read_settings(raw: &RawConfig, queue: &mut ImuQueue) -> (r: Result<VioSettings, ConfigError>)
    ensures
        r is Ok <==> raw.keys_known() && raw.early_fault() is None && raw.late_fault() is None,
        r matches Ok(s) ==> s == raw.settings(),
        r matches Err(e) ==> if !raw.keys_known() {
            &&& e is UnknownKeys
            &&& e->UnknownKeys_task == TASK_NAME
            &&& e->UnknownKeys_known@ == config_keys_spec()
            &&& in_byte_order(texts(e->UnknownKeys_unknown@))
            &&& texts(e->UnknownKeys_unknown@).to_multiset() == unknown_among(
                texts(raw.keys->0@),
                config_keys_spec(),
            ).to_multiset()
        } else if raw.early_fault() is Some {
            raw.early_fault() == Some(e)
        } else {
            raw.late_fault() == Some(e)
        },
        final(queue)@ == if raw.keys_known() && raw.early_fault() is None && raw.inertial is Value {
            crate::imu_channel::ImuQueueModel { armed: true, ..old(queue)@ }
        } else {
            old(queue)@
        },
{
    let known: Vec<&'static str> = config_keys();
    match &raw.keys {
        Some(keys) => {
            let keys_read = known.as_slice();
            match deny_unknown_keys(Some(keys), TASK_NAME, keys_read) {
                Ok(()) => {},
                Err(e) => {
                    return Err(e);
                },
            }
        },
        None => {},
    }
    let inertial = match &raw.inertial {
        Raw::Absent => None,
        Raw::Unreadable => {
            return Err(ConfigError::Unreadable { key: INERTIAL });
        },
        Raw::Value(ron) => Some(*ron),
    };
    let landmark_buffers: usize = match read_count(&raw.landmark_buffers, LANDMARK_BUFFERS) {
        Ok(Some(n)) => n,
        Ok(None) => DEFAULT_LANDMARK_BUFFERS,
        Err(e) => {
            return Err(e);
        },
    };
    if landmark_buffers > MAX_LANDMARK_BUFFERS {
        return Err(ConfigError::TooManyLandmarkBuffers { got: landmark_buffers });
    }
    if inertial.is_some() {
        queue.arm();
    }
    let on_tracking_loss = match read_policy(&raw.on_tracking_loss) {
        Ok(v) => v,
        Err(e) => {
            return Err(e);
        },
    };
    let max_keyframes = match read_count(&raw.max_keyframes, MAX_KEYFRAMES) {
        Ok(v) => v,
        Err(e) => {
            return Err(e);
        },
    };
    let orb_keypoints = match read_count(&raw.orb_keypoints, ORB_KEYPOINTS) {
        Ok(v) => v,
        Err(e) => {
            return Err(e);
        },
    };
    let search_radius_px = match read_number(&raw.search_radius_px, SEARCH_RADIUS_PX) {
        Ok(v) => v,
        Err(e) => {
            return Err(e);
        },
    };
    let max_covisible_keyframes = match read_count(
        &raw.max_covisible_keyframes,
        MAX_COVISIBLE_KEYFRAMES,
    ) {
        Ok(v) => v,
        Err(e) => {
            return Err(e);
        },
    };
    let pnp_lm_iterations = match read_count(&raw.pnp_lm_iterations, PNP_LM_ITERATIONS) {
        Ok(v) => v,
        Err(e) => {
            return Err(e);
        },
    };
    Ok(
        VioSettings {
            on_tracking_loss,
            max_keyframes,
            orb_keypoints,
            search_radius_px,
            max_covisible_keyframes,
            pnp_lm_iterations,
            landmark_buffers,
            inertial,
        },
    )
}

/// A map point on its way into a snapshot.
#[derive(Clone, Copy, Debug, PartialEq, Eq, Structural)]
pub struct SnapshotPoint {
    /// Index in the map.
    pub index: usize,
    /// Position, x.
    pub x: Single,
    /// Position, y.
    pub y: Single,
    /// Position, z.
    pub z: Single,
}

/// The landmarks made of the first `n` points: those whose index fits, in order.
pub open spec fn landmarks_upto(points: Seq<SnapshotPoint>, n: int) -> Seq<Landmark>
    decreases n,
{
    if n <= 0 {
        Seq::empty()
    } else {
        let rest = landmarks_upto(points, n - 1);
        let p = points[n - 1];
        if p.index <= u32::MAX {
            rest.push(Landmark { x: p.x, y: p.y, z: p.z, index: p.index as u32 })
        } else {
            rest
        }
    }
}

/// Fills a snapshot, or gives `None` where every buffer is checked out. A buffer starts empty, so
/// nothing of an earlier snapshot is left in it.
pub fn snapshot_map_points(buffer: Option<Vec<Landmark>>, points: &Vec<SnapshotPoint>) -> (r: Option<
    Vec<Landmark>,
>)
    ensures
        r is Some <==> buffer is Some,
        r matches Some(v) ==> v@ == landmarks_upto(points@, points@.len() as int),
{
    match buffer {
        None => None,
        Some(b) => {
            let mut out = b;
            out.clear();
            let mut i: usize = 0;
            while i < points.len()
                invariant
                    i <= points@.len(),
                    out@ == landmarks_upto(points@, i as int),
                decreases points@.len() - i,
            {
                let p = points[i];
                if p.index <= u32::MAX as usize {
                    out.push(Landmark { x: p.x, y: p.y, z: p.z, index: p.index as u32 });
                }
                i += 1;
            }
            Some(out)
        },
    }
}

/// The landmarks of a snapshot keep the points' order, so that points with rising indices make
/// landmarks with rising ones: no two of them share an index.
pub proof fn snapshot_indices_rise(points: Seq<SnapshotPoint>, n: int)
    requires
        0 <= n <= points.len(),
        forall|i: int, j: int|
            0 <= i < j < points.len() ==> (#[trigger] points[i]).index < (#[trigger] points[j]).index,
    ensures
        ({
            let r = landmarks_upto(points, n);
            &&& forall|i: int, j: int|
                0 <= i < j < r.len() ==> (#[trigger] r[i]).index < (#[trigger] r[j]).index
            &&& forall|i: int|
                0 <= i < r.len() ==> exists|k: int|
                    0 <= k < n && (#[trigger] points[k]).index == (#[trigger] r[i]).index
        }),
    decreases n,
{
    if n > 0 {
        snapshot_indices_rise(points, n - 1);
        let rest = landmarks_upto(points, n - 1);
        let r = landmarks_upto(points, n);
        assert forall|i: int| 0 <= i < r.len() implies exists|k: int|
            0 <= k < n && (#[trigger] points[k]).index == (#[trigger] r[i]).index by {
            if i < rest.len() {
                let k = choose|k: int|
                    0 <= k < n - 1 && (#[trigger] points[k]).index == rest[i].index;
                assert(points[k].index == r[i].index);
            } else {
                assert(points[n - 1].index == r[i].index);
            }
        }
        assert forall|i: int, j: int| 0 <= i < j < r.len() implies (#[trigger] r[i]).index < (
        #[trigger] r[j]).index by {
            if j == rest.len() {
                let k = choose|k: int|
                    0 <= k < n - 1 && (#[trigger] points[k]).index == rest[i].index;
                assert(points[k].index < points[n - 1].index);
            }
        }
    }
}

/// A landmark of a snapshot is one of its points: it has the position and the index of one and the
/// same point, and of none before its own place.
pub proof fn a_landmark_is_one_of_the_points(points: Seq<SnapshotPoint>, n: int, i: int)
    requires
        0 <= n <= points.len(),
        0 <= i < landmarks_upto(points, n).len(),
    ensures
        ({
            let l = landmarks_upto(points, n)[i];
            exists|k: int|
                i <= k < n && (#[trigger] points[k]).index == l.index && points[k].x == l.x
                    && points[k].y == l.y && points[k].z == l.z
        }),
    decreases n,
{
    if n > 0 {
        let rest = landmarks_upto(points, n - 1);
        let l = landmarks_upto(points, n)[i];
        lemma_no_more_landmarks_than_points(points, n - 1);
        if i < rest.len() {
            a_landmark_is_one_of_the_points(points, n - 1, i);
            assert(rest[i] == l);
        } else {
            assert(points[n - 1].index == l.index);
        }
    }
}

/// A snapshot has no more landmarks than there are points.
pub proof fn lemma_no_more_landmarks_than_points(points: Seq<SnapshotPoint>, n: int)
    requires
        0 <= n <= points.len(),
    ensures
        landmarks_upto(points, n).len() <= n,
    decreases n,
{
    if n > 0 {
        lemma_no_more_landmarks_than_points(points, n - 1);
    }
}

/// A point whose index fits is in the snapshot, with its own index and at its own position.
pub proof fn a_point_that_fits_is_shown(points: Seq<SnapshotPoint>, n: int, k: int)
    requires
        0 <= k < n <= points.len(),
        points[k].index <= u32::MAX,
    ensures
        ({
            let r = landmarks_upto(points, n);
            let p = points[k];
            exists|i: int|
                0 <= i < r.len() && (#[trigger] r[i]).index == p.index && r[i].x == p.x && r[i].y
                    == p.y && r[i].z == p.z
        }),
    decreases n,
{
    let r = landmarks_upto(points, n);
    let rest = landmarks_upto(points, n - 1);
    let p = points[k];
    if k < n - 1 {
        a_point_that_fits_is_shown(points, n - 1, k);
        let i = choose|i: int|
            0 <= i < rest.len() && (#[trigger] rest[i]).index == p.index && rest[i].x == p.x
                && rest[i].y == p.y && rest[i].z == p.z;
        assert(r[i] == rest[i]);
    } else {
        assert(r[rest.len() as int].index == p.index);
    }
}

/// Where every index fits, the landmarks are the points, one for one and in order.
pub proof fn a_snapshot_shows_every_point_in_order(points: Seq<SnapshotPoint>, n: int)
    requires
        0 <= n <= points.len(),
        forall|k: int| 0 <= k < n ==> (#[trigger] points[k]).index <= u32::MAX,
    ensures
        landmarks_upto(points, n).len() == n,
        forall|k: int|
            0 <= k < n ==> {
                let l = #[trigger] landmarks_upto(points, n)[k];
                l.index == points[k].index && l.x == points[k].x && l.y == points[k].y && l.z
                    == points[k].z
            },
    decreases n,
{
    if n > 0 {
        a_snapshot_shows_every_point_in_order(points, n - 1);
        let rest = landmarks_upto(points, n - 1);
        let r = landmarks_upto(points, n);
        assert(points[n - 1].index <= u32::MAX);
        assert forall|k: int| 0 <= k < n - 1 implies #[trigger] r[k] == rest[k] by {}
    }
}

/// Every setting is what stands under its own key. A key that is absent leaves the default: sixteen
/// snapshot buffers, the map kept after a loss, and none where the tracker has its own.
pub proof fn a_setting_is_what_its_key_holds(raw: RawConfig)
    requires
        raw.late_fault() is None,
    ensures
        ({
            let s = raw.settings();
            &&& raw.landmark_buffers is Absent ==> s.landmark_buffers == 16
            &&& raw.landmark_buffers matches Raw::Value(v) ==> s.landmark_buffers == v
            &&& raw.max_keyframes is Absent ==> s.max_keyframes is None
            &&& raw.max_keyframes matches Raw::Value(v) ==> s.max_keyframes is Some
                && s.max_keyframes->0 == v
            &&& raw.orb_keypoints is Absent ==> s.orb_keypoints is None
            &&& raw.orb_keypoints matches Raw::Value(v) ==> s.orb_keypoints is Some
                && s.orb_keypoints->0 == v
            &&& raw.search_radius_px is Absent ==> s.search_radius_px is None
            &&& raw.search_radius_px matches Raw::Value(v) ==> s.search_radius_px == Some(v)
            &&& raw.max_covisible_keyframes is Absent ==> s.max_covisible_keyframes is None
            &&& raw.max_covisible_keyframes matches Raw::Value(v)
                ==> s.max_covisible_keyframes is Some && s.max_covisible_keyframes->0 == v
            &&& raw.pnp_lm_iterations is Absent ==> s.pnp_lm_iterations is None
            &&& raw.pnp_lm_iterations matches Raw::Value(v) ==> s.pnp_lm_iterations is Some
                && s.pnp_lm_iterations->0 == v
            &&& raw.inertial is Absent ==> s.inertial is None
            &&& raw.inertial matches Raw::Value(v) ==> s.inertial == Some(v)
            &&& s.on_tracking_loss is ResetMap <==> (raw.on_tracking_loss matches Raw::Value(t)
                && t@ == "reset_map"@)
            &&& s.on_tracking_loss is KeepMap <==> (raw.on_tracking_loss matches Raw::Value(t)
                ==> t@ == "keep_map"@)
        }),
{
    reveal_strlit("keep_map");
    reveal_strlit("reset_map");
    assert("keep_map"@.len() != "reset_map"@.len());
}

/// A configuration is refused for a value that cannot be read, a count of nought, more than 256
/// snapshot buffers, a radius that is no positive finite number, and a policy by another name, and
/// for nothing else.
pub proof fn a_configuration_is_refused_for_a_bad_value_alone(raw: RawConfig)
    ensures
        raw.early_fault() is None <==> {
            &&& !(raw.inertial is Unreadable)
            &&& !(raw.landmark_buffers is Unreadable)
            &&& raw.landmark_buffers matches Raw::Value(v) ==> 1 <= v <= 256
        },
        raw.late_fault() is None <==> {
            &&& !(raw.on_tracking_loss is Unreadable)
            &&& raw.on_tracking_loss matches Raw::Value(t) ==> (t@ == "keep_map"@ || t@
                == "reset_map"@)
            &&& !(raw.max_keyframes is Unreadable)
            &&& raw.max_keyframes matches Raw::Value(v) ==> v > 0
            &&& !(raw.orb_keypoints is Unreadable)
            &&& raw.orb_keypoints matches Raw::Value(v) ==> v > 0
            &&& !(raw.search_radius_px is Unreadable)
            &&& raw.search_radius_px matches Raw::Value(v) ==> v.positive_finite()
            &&& !(raw.max_covisible_keyframes is Unreadable)
            &&& raw.max_covisible_keyframes matches Raw::Value(v) ==> v > 0
            &&& !(raw.pnp_lm_iterations is Unreadable)
            &&& raw.pnp_lm_iterations matches Raw::Value(v) ==> v > 0
        },
{
}

/// A refusal names the key whose value is bad, and says what is wrong with it.
pub proof fn a_refusal_names_its_key(raw: RawConfig)
    ensures
        raw.early_fault() matches Some(e) ==> match e {
            ConfigError::Unreadable { key } => {
                ||| key == INERTIAL && raw.inertial is Unreadable
                ||| key == LANDMARK_BUFFERS && raw.landmark_buffers is Unreadable
            },
            ConfigError::NotPositive { key } => key == LANDMARK_BUFFERS && raw.landmark_buffers
                == Raw::Value(0u32),
            ConfigError::TooManyLandmarkBuffers { got } => got > 256 && (
            raw.landmark_buffers matches Raw::Value(v) && v == got),
            _ => false,
        },
        raw.late_fault() matches Some(e) ==> match e {
            ConfigError::Unreadable { key } => {
                ||| key == ON_TRACKING_LOSS && !(raw.on_tracking_loss is Absent)
                ||| key == MAX_KEYFRAMES && raw.max_keyframes is Unreadable
                ||| key == ORB_KEYPOINTS && raw.orb_keypoints is Unreadable
                ||| key == SEARCH_RADIUS_PX && raw.search_radius_px is Unreadable
                ||| key == MAX_COVISIBLE_KEYFRAMES && raw.max_covisible_keyframes is Unreadable
                ||| key == PNP_LM_ITERATIONS && raw.pnp_lm_iterations is Unreadable
            },
            ConfigError::NotPositive { key } => {
                ||| key == MAX_KEYFRAMES && raw.max_keyframes == Raw::Value(0u32)
                ||| key == ORB_KEYPOINTS && raw.orb_keypoints == Raw::Value(0u32)
                ||| key == MAX_COVISIBLE_KEYFRAMES && raw.max_covisible_keyframes == Raw::Value(
                    0u32,
                )
                ||| key == PNP_LM_ITERATIONS && raw.pnp_lm_iterations == Raw::Value(0u32)
            },
            ConfigError::NotPositiveFinite { key, value } => key == SEARCH_RADIUS_PX
                && raw.search_radius_px == Raw::Value(value) && !value.positive_finite(),
            _ => false,
        },
{
}

} // verus!
