//! What the tracker refuses, and why.
use crate::ieee::Double;
use kornia_image::ImageError;
use vstd::prelude::*;

verus! {

/// `kornia_image::ImageError`: why an image could not be built or resized. Opaque here; it is
/// carried to the caller as it came.
#[verifier::external_type_specification]
#[verifier::external_body]
pub struct ExImageError(kornia_image::ImageError);

/// Hard failures of the tracker: a malformed input, a mis-specified camera, or a failed image
/// operation. A frame that merely could not be tracked is not one of these.
#[derive(Debug)]
pub enum VioError {
    /// The left and right images have different dimensions.
    StereoSizeMismatch {
        /// Left image width.
        left_w: usize,
        /// Left image height.
        left_h: usize,
        /// Right image width.
        right_w: usize,
        /// Right image height.
        right_h: usize,
    },
    /// The camera carries non-zero distortion, where the whole pipeline takes it for rectified.
    DistortedCamera {
        /// Radial distortion coefficient k1.
        k1: Double,
        /// Radial distortion coefficient k2.
        k2: Double,
        /// Tangential distortion coefficient p1.
        p1: Double,
        /// Tangential distortion coefficient p2.
        p2: Double,
    },
    /// A non-positive or non-finite stereo baseline.
    InvalidBaseline {
        /// The offending baseline, in metres.
        baseline: Double,
    },
    /// Per-keypoint arrays of a frame are not index-parallel.
    FrameArraysNotParallel {
        /// Number of keypoints.
        n_keypoints: usize,
        /// Length of the right-image columns.
        n_u_right: usize,
        /// Length of the depths.
        n_depth: usize,
        /// Length of the colours.
        n_colors: usize,
        /// Length of the descriptors.
        n_descriptors: usize,
        /// Length of the octaves.
        n_octaves: usize,
        /// Length of the orientations.
        n_orientations: usize,
    },
    /// A per-keypoint array carries a non-finite value, which no encoding of "no match" is.
    NonFiniteFrameValue {
        /// Which per-keypoint array: `keypoints_xy`, `u_right` or `depth`.
        field: &'static str,
        /// Index of the offending element.
        index: usize,
        /// The offending value.
        value: Double,
    },
    /// Inertial samples were handed to a tracker whose inertial path is not configured.
    InertialDisabled,
    /// The producer says the samples are already rotated into the camera frame, which the
    /// configured extrinsic would do a second time.
    InertialSamplesAligned,
    /// The configured extrinsic rotation is not a rotation.
    InertialExtrinsicNotRigid {
        /// Largest absolute entry of `R^T R - I`.
        orthonormality_error: Double,
        /// Determinant of `R`; near -1 it is a reflection.
        determinant: Double,
    },
    /// A noise density, the sample rate or a lever arm is not a usable number.
    InertialParamInvalid {
        /// Which parameter.
        field: &'static str,
        /// The offending value.
        value: Double,
    },
    /// An image operation failed.
    Image(ImageError),
}

} // verus!
