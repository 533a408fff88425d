//! Rigid transforms as plain numbers, and the orders their entries are written in.
use crate::ieee::Double;
use vstd::prelude::*;

verus! {

/// Three coordinates.
#[derive(Clone, Copy, Debug, PartialEq, Eq, Structural)]
pub struct Vec3 {
    /// First coordinate.
    pub x: Double,
    /// Second coordinate.
    pub y: Double,
    /// Third coordinate.
    pub z: Double,
}

/// A 3x3 matrix, by its columns.
#[derive(Clone, Copy, Debug, PartialEq, Eq, Structural)]
pub struct Mat3 {
    /// First column.
    pub x_axis: Vec3,
    /// Second column.
    pub y_axis: Vec3,
    /// Third column.
    pub z_axis: Vec3,
}

/// A rigid transform `X -> rotation * X + translation`.
#[derive(Clone, Copy, Debug, PartialEq, Eq, Structural)]
pub struct RigidPose {
    /// The rotation.
    pub rotation: Mat3,
    /// The translation.
    pub translation: Vec3,
}

/// The pattern of `1.0`.
pub const ONE_BITS: u64 = 0x3ff0_0000_0000_0000;

impl Vec3 {
    /// The coordinate at an index; the last one for any index past 1.
    pub open spec fn at(self, i: int) -> Double {
        if i == 0 {
            self.x
        } else if i == 1 {
            self.y
        } else {
            self.z
        }
    }

    /// The origin.
    pub open spec fn zero_spec() -> Vec3 {
        Vec3 { x: Double::zero_spec(), y: Double::zero_spec(), z: Double::zero_spec() }
    }

    /// The origin.
    pub fn zero() -> (r: Vec3)
        ensures
            r == Vec3::zero_spec(),
    {
        Vec3 { x: Double { bits: 0 }, y: Double { bits: 0 }, z: Double { bits: 0 } }
    }
}

impl Mat3 {
    /// The entry at a row and a column.
    pub open spec fn entry(self, row: int, column: int) -> Double {
        if column == 0 {
            self.x_axis.at(row)
        } else if column == 1 {
            self.y_axis.at(row)
        } else {
            self.z_axis.at(row)
        }
    }

    /// The matrix with ones on the diagonal and zeros elsewhere.
    pub open spec fn identity_spec() -> Mat3 {
        let one = Double { bits: ONE_BITS };
        let zero = Double::zero_spec();
        Mat3 {
            x_axis: Vec3 { x: one, y: zero, z: zero },
            y_axis: Vec3 { x: zero, y: one, z: zero },
            z_axis: Vec3 { x: zero, y: zero, z: one },
        }
    }

    /// The identity.
    pub fn identity() -> (r: Mat3)
        ensures
            r == Mat3::identity_spec(),
    {
        let one = Double { bits: ONE_BITS };
        let zero = Double { bits: 0 };
        Mat3 {
            x_axis: Vec3 { x: one, y: zero, z: zero },
            y_axis: Vec3 { x: zero, y: one, z: zero },
            z_axis: Vec3 { x: zero, y: zero, z: one },
        }
    }

    /// The matrix with its rows as columns.
    pub open spec fn transpose_spec(self) -> Mat3 {
        Mat3 {
            x_axis: Vec3 { x: self.x_axis.x, y: self.y_axis.x, z: self.z_axis.x },
            y_axis: Vec3 { x: self.x_axis.y, y: self.y_axis.y, z: self.z_axis.y },
            z_axis: Vec3 { x: self.x_axis.z, y: self.y_axis.z, z: self.z_axis.z },
        }
    }

    /// The transpose, which is the inverse of a rotation.
    pub fn transpose(&self) -> (r: Mat3)
        ensures
            r == self.transpose_spec(),
            forall|row: int, column: int|
                0 <= row < 3 && 0 <= column < 3 ==> #[trigger] r.entry(row, column) == self.entry(
                    column,
                    row,
                ),
    {
        Mat3 {
            x_axis: Vec3 { x: self.x_axis.x, y: self.y_axis.x, z: self.z_axis.x },
            y_axis: Vec3 { x: self.x_axis.y, y: self.y_axis.y, z: self.z_axis.y },
            z_axis: Vec3 { x: self.x_axis.z, y: self.y_axis.z, z: self.z_axis.z },
        }
    }

    /// The matrix whose entries are listed row by row, the way a person writes one down.
    pub fn from_rows(m: &[Double; 9]) -> (r: Mat3)
        ensures
            forall|row: int, column: int|
                0 <= row < 3 && 0 <= column < 3 ==> #[trigger] r.entry(row, column) == m@[3 * row
                    + column],
    {
        Mat3 {
            x_axis: Vec3 { x: m[0], y: m[3], z: m[6] },
            y_axis: Vec3 { x: m[1], y: m[4], z: m[7] },
            z_axis: Vec3 { x: m[2], y: m[5], z: m[8] },
        }
    }
}

impl RigidPose {
    /// The transform that moves nothing.
    pub open spec fn identity_spec() -> RigidPose {
        RigidPose { rotation: Mat3::identity_spec(), translation: Vec3::zero_spec() }
    }

    /// The transform that moves nothing.
    pub fn identity() -> (r: RigidPose)
        ensures
            r == RigidPose::identity_spec(),
    {
        RigidPose { rotation: Mat3::identity(), translation: Vec3::zero() }
    }

    /// All zeros: no transform, but what a pose is before one is known.
    pub open spec fn zero_spec() -> RigidPose {
        let zero = Vec3::zero_spec();
        RigidPose {
            rotation: Mat3 { x_axis: zero, y_axis: zero, z_axis: zero },
            translation: zero,
        }
    }

    /// All zeros.
    pub fn zero() -> (r: RigidPose)
        ensures
            r == RigidPose::zero_spec(),
    {
        let zero = Vec3::zero();
        RigidPose {
            rotation: Mat3 { x_axis: zero, y_axis: zero, z_axis: zero },
            translation: zero,
        }
    }

    /// The entries of the homogeneous matrix of the transform, row by row.
    pub open spec fn entries(self) -> Seq<Double> {
        let m = self.rotation;
        let t = self.translation;
        let zero = Double::zero_spec();
        seq![
            m.x_axis.x,
            m.y_axis.x,
            m.z_axis.x,
            t.x,
            m.x_axis.y,
            m.y_axis.y,
            m.z_axis.y,
            t.y,
            m.x_axis.z,
            m.y_axis.z,
            m.z_axis.z,
            t.z,
            zero,
            zero,
            zero,
            Double { bits: ONE_BITS },
        ]
    }

    /// The transform a homogeneous matrix stands for, from its entries row by row. The last row
    /// says nothing, and is not looked at.
    pub open spec fn of_entries(e: Seq<Double>) -> RigidPose {
        RigidPose {
            rotation: Mat3 {
                x_axis: Vec3 { x: e[0], y: e[4], z: e[8] },
                y_axis: Vec3 { x: e[1], y: e[5], z: e[9] },
                z_axis: Vec3 { x: e[2], y: e[6], z: e[10] },
            },
            translation: Vec3 { x: e[3], y: e[7], z: e[11] },
        }
    }

    /// The homogeneous matrix of the transform, indexed by row and then by column.
    pub fn to_matrix(&self) -> (r: [[Double; 4]; 4])
        ensures
            matrix_entries(r) == self.entries(),
            forall|row: int, column: int|
                0 <= row < 3 && 0 <= column < 3 ==> #[trigger] r@[row]@[column]
                    == self.rotation.entry(row, column),
            forall|row: int| 0 <= row < 3 ==> #[trigger] r@[row]@[3] == self.translation.at(row),
    {
        let m = &self.rotation;
        let t = &self.translation;
        let zero = Double { bits: 0 };
        let r = [
            [m.x_axis.x, m.y_axis.x, m.z_axis.x, t.x],
            [m.x_axis.y, m.y_axis.y, m.z_axis.y, t.y],
            [m.x_axis.z, m.y_axis.z, m.z_axis.z, t.z],
            [zero, zero, zero, Double { bits: ONE_BITS }],
        ];
        proof {
            let e = matrix_entries(r);
            let f = self.entries();
            assert(e[0] == f[0] && e[1] == f[1] && e[2] == f[2] && e[3] == f[3]);
            assert(e[4] == f[4] && e[5] == f[5] && e[6] == f[6] && e[7] == f[7]);
            assert(e[8] == f[8] && e[9] == f[9] && e[10] == f[10] && e[11] == f[11]);
            assert(e[12] == f[12] && e[13] == f[13] && e[14] == f[14] && e[15] == f[15]);
            assert(e =~= f);
        }
        r
    }

    /// The transform of a homogeneous matrix, indexed by row and then by column.
    pub fn from_matrix(m: &[[Double; 4]; 4]) -> (r: RigidPose)
        ensures
            r == RigidPose::of_entries(matrix_entries(*m)),
    {
        let r = RigidPose {
            rotation: Mat3 {
                x_axis: Vec3 { x: m[0][0], y: m[1][0], z: m[2][0] },
                y_axis: Vec3 { x: m[0][1], y: m[1][1], z: m[2][1] },
                z_axis: Vec3 { x: m[0][2], y: m[1][2], z: m[2][2] },
            },
            translation: Vec3 { x: m[0][3], y: m[1][3], z: m[2][3] },
        };
        proof {
            let e = matrix_entries(*m);
            assert(e[0] == m@[0]@[0] && e[1] == m@[0]@[1] && e[2] == m@[0]@[2] && e[3] == m@[0]@[3]);
            assert(e[4] == m@[1]@[0] && e[5] == m@[1]@[1] && e[6] == m@[1]@[2] && e[7] == m@[1]@[3]);
            assert(e[8] == m@[2]@[0] && e[9] == m@[2]@[1] && e[10] == m@[2]@[2] && e[11]
                == m@[2]@[3]);
        }
        r
    }
}

/// The entries of a matrix, row by row.
pub open spec fn matrix_entries(m: [[Double; 4]; 4]) -> Seq<Double> {
    Seq::new(16, |i: int| m@[i / 4]@[i % 4])
}

/// Reading a transform back from its matrix gives the transform.
pub proof fn a_transform_is_read_back(pose: RigidPose)
    ensures
        RigidPose::of_entries(pose.entries()) == pose,
{
}

/// Transposing a matrix twice gives it back.
pub proof fn transposing_twice_changes_nothing(m: Mat3)
    ensures
        m.transpose_spec().transpose_spec() == m,
{
}

} // verus!
