//! Pose conventions.
use crate::geometry::{RigidPose, Vec3};
use vstd::prelude::*;

verus! {

/// Where a camera is, given the transform from the world into it and its centre in the world: the
/// rotation turned round, and the centre as translation.
pub open spec fn placed(pose_world_to_cam: RigidPose, centre: Vec3) -> RigidPose {
    RigidPose { rotation: pose_world_to_cam.rotation.transpose_spec(), translation: centre }
}

/// Turns the tracker's pose into the camera-in-world transform a consumer wants. `centre` is the
/// camera's centre, `-(R^T t)` of the pose.
///
/// The tracker's convention is world-to-camera. Publishing that does not look like a mistake: it
/// looks like the camera driving the path in reverse.
pub fn cam_in_world(pose_world_to_cam: &RigidPose, centre: Vec3) -> (r: RigidPose)
    ensures
        r == placed(*pose_world_to_cam, centre),
        forall|row: int, column: int|
            0 <= row < 3 && 0 <= column < 3 ==> #[trigger] r.rotation.entry(row, column)
                == pose_world_to_cam.rotation.entry(column, row),
        r.translation == centre,
{
    RigidPose { rotation: pose_world_to_cam.rotation.transpose(), translation: centre }
}

} // verus!
