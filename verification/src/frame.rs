//! What the tracker demands of a camera and of a frame, and what it reads off an image.
use crate::error::VioError;
use crate::ieee::{Double, Single};
use kornia_image::{Image, ImageError, ImageSize, InterpolationMode};
use vstd::prelude::*;

verus! {

/// The lens distortion of a pinhole camera.
#[derive(Clone, Copy, Debug, PartialEq, Eq, Structural)]
pub struct Distortion {
    /// Radial coefficient k1.
    pub k1: Double,
    /// Radial coefficient k2.
    pub k2: Double,
    /// Tangential coefficient p1.
    pub p1: Double,
    /// Tangential coefficient p2.
    pub p2: Double,
}

impl Distortion {
    /// Whether every coefficient is a zero, that is, the camera is rectified.
    pub open spec fn none(self) -> bool {
        let zero = Double::zero_spec();
        self.k1.same_spec(zero) && self.k2.same_spec(zero) && self.p1.same_spec(zero)
            && self.p2.same_spec(zero)
    }
}

/// Whether a camera is rectified and its baseline a positive number.
pub open spec fn camera_usable(distortion: Distortion, baseline_m: Double) -> bool {
    distortion.none() && baseline_m.positive_finite()
}

/// What is wrong with a camera that is not usable: its distortion, or else its baseline.
pub open spec fn camera_fault(distortion: Distortion, baseline_m: Double) -> VioError {
    if !distortion.none() {
        VioError::DistortedCamera {
            k1: distortion.k1,
            k2: distortion.k2,
            p1: distortion.p1,
            p2: distortion.p2,
        }
    } else {
        VioError::InvalidBaseline { baseline: baseline_m }
    }
}

/// Refuses a camera that is not rectified, and then a baseline that is not a positive number.
pub fn validate_camera(distortion: &Distortion, baseline_m: Double) -> (r: Result<(), VioError>)
    ensures
        r is Ok <==> camera_usable(*distortion, baseline_m),
        r matches Err(e) ==> e == camera_fault(*distortion, baseline_m),
{
    if !distortion.k1.is_zero() || !distortion.k2.is_zero() || !distortion.p1.is_zero()
        || !distortion.p2.is_zero() {
        return Err(
            VioError::DistortedCamera {
                k1: distortion.k1,
                k2: distortion.k2,
                p1: distortion.p1,
                p2: distortion.p2,
            },
        );
    }
    if !baseline_m.is_positive_finite() {
        return Err(VioError::InvalidBaseline { baseline: baseline_m });
    }
    Ok(())
}

/// A pixel position.
#[derive(Clone, Copy, Debug, PartialEq, Eq, Structural)]
pub struct Pixel {
    /// Column.
    pub x: Single,
    /// Row.
    pub y: Single,
}

/// What a frame carries per keypoint: the values that are checked, and the lengths of the arrays
/// that only have to be as long.
#[derive(Debug)]
pub struct FrameArrays {
    /// Keypoint positions.
    pub keypoints_xy: Vec<Pixel>,
    /// Matching column in the right image, or -1.
    pub u_right: Vec<Single>,
    /// Stereo depth, or -1.
    pub depth: Vec<Single>,
    /// Length of the colours.
    pub n_colors: usize,
    /// Length of the descriptors.
    pub n_descriptors: usize,
    /// Length of the octaves.
    pub n_octaves: usize,
    /// Length of the orientations.
    pub n_orientations: usize,
}

impl FrameArrays {
    /// Whether every array is index-parallel with the keypoints; a frame without stereo has
    /// neither right columns nor depths.
    pub open spec fn parallel(self) -> bool {
        let n = self.keypoints_xy@.len();
        &&& (self.u_right@.len() == 0 && self.depth@.len() == 0) || (self.u_right@.len() == n
            && self.depth@.len() == n)
        &&& self.n_colors == n
        &&& self.n_descriptors == n
        &&& self.n_octaves == n
        &&& self.n_orientations == n
    }

    /// Whether every value is finite.
    pub open spec fn all_finite(self) -> bool {
        &&& pixels_finite(self.keypoints_xy@)
        &&& singles_finite(self.u_right@)
        &&& singles_finite(self.depth@)
    }

    /// How many keypoints have a positive stereo depth.
    pub open spec fn stereo_matches(self) -> nat {
        positives(self.depth@)
    }
}

/// Whether both coordinates are finite.
pub open spec fn pixel_finite(p: Pixel) -> bool {
    p.x.finite() && p.y.finite()
}

/// Whether every pixel position is finite.
pub open spec fn pixels_finite(v: Seq<Pixel>) -> bool {
    forall|i: int| 0 <= i < v.len() ==> pixel_finite(#[trigger] v[i])
}

/// Whether every value is finite.
pub open spec fn singles_finite(v: Seq<Single>) -> bool {
    forall|i: int| 0 <= i < v.len() ==> (#[trigger] v[i]).finite()
}

/// How many values are above zero.
pub open spec fn positives(v: Seq<Single>) -> nat {
    v.filter(|x: Single| x.positive()).len()
}

/// How many values are above zero.
pub fn count_positive(v: &Vec<Single>) -> (r: usize)
    ensures
        r == positives(v@),
{
    let mut n: usize = 0;
    let mut i: usize = 0;
    proof {
        reveal(Seq::filter);
        assert(v@.take(0).filter(|x: Single| x.positive()) =~= Seq::<Single>::empty());
    }
    while i < v.len()
        invariant
            i <= v@.len(),
            n <= i,
            n == positives(v@.take(i as int)),
        decreases v@.len() - i,
    {
        proof {
            reveal(Seq::filter);
            assert(v@.take(i + 1).drop_last() =~= v@.take(i as int));
        }
        if v[i].is_positive() {
            n += 1;
        }
        i += 1;
    }
    assert(v@.take(i as int) =~= v@);
    n
}

/// Whether `e` names a value of an array that is not finite, the first such one.
pub open spec fn names_first_non_finite(
    v: Seq<Single>,
    name: &'static str,
    e: VioError,
) -> bool {
    e matches VioError::NonFiniteFrameValue { field, index, value } && field == name && index
        < v.len() && !v[index as int].finite() && !value.finite() && value.nan()
        == v[index as int].nan() && value.negative() == v[index as int].negative() && (forall|i: int|
        0 <= i < index ==> (#[trigger] v[i]).finite())
}

/// Whether `e` names the first keypoint with a coordinate that is not finite, and that coordinate,
/// the column where both are not.
pub open spec fn names_first_bad_keypoint(v: Seq<Pixel>, e: VioError) -> bool {
    e matches VioError::NonFiniteFrameValue { field, index, value } && field == "keypoints_xy"
        && index < v.len() && !pixel_finite(v[index as int]) && {
        let bad = if v[index as int].x.finite() {
            v[index as int].y
        } else {
            v[index as int].x
        };
        !value.finite() && value.nan() == bad.nan() && value.negative() == bad.negative()
    } && (forall|i: int| 0 <= i < index ==> pixel_finite(#[trigger] v[i]))
}

/// Whether `e` says what is wrong with a frame: its lengths, or else the first value that is not
/// finite among the keypoints, the right columns and the depths, in this order.
pub open spec fn names_frame_fault(frame: FrameArrays, e: VioError) -> bool {
    if !frame.parallel() {
        e == (VioError::FrameArraysNotParallel {
            n_keypoints: frame.keypoints_xy@.len() as usize,
            n_u_right: frame.u_right@.len() as usize,
            n_depth: frame.depth@.len() as usize,
            n_colors: frame.n_colors,
            n_descriptors: frame.n_descriptors,
            n_octaves: frame.n_octaves,
            n_orientations: frame.n_orientations,
        })
    } else if !pixels_finite(frame.keypoints_xy@) {
        names_first_bad_keypoint(frame.keypoints_xy@, e)
    } else if !singles_finite(frame.u_right@) {
        names_first_non_finite(frame.u_right@, "u_right", e)
    } else {
        names_first_non_finite(frame.depth@, "depth", e)
    }
}

fn check_finite(v: &Vec<Single>, name: &'static str) -> (r: Result<(), VioError>)
    ensures
        r is Ok <==> singles_finite(v@),
        r matches Err(e) ==> names_first_non_finite(v@, name, e),
{
    let mut i: usize = 0;
    while i < v.len()
        invariant
            i <= v@.len(),
            forall|k: int| 0 <= k < i ==> (#[trigger] v@[k]).finite(),
        decreases v@.len() - i,
    {
        if !v[i].is_finite() {
            assert(!v@[i as int].finite());
            return Err(
                VioError::NonFiniteFrameValue { field: name, index: i, value: v[i].widen() },
            );
        }
        i += 1;
    }
    Ok(())
}

/// Refuses a frame whose per-keypoint arrays are not parallel or hold a value that is not finite:
/// an infinite depth would pass for a measured one and spread through every pose solved with it.
pub fn validate_frame_arrays(frame: &FrameArrays) -> (r: Result<(), VioError>)
    ensures
        r is Ok <==> frame.parallel() && frame.all_finite(),
        r matches Err(e) ==> names_frame_fault(*frame, e),
{
    let n: usize = frame.keypoints_xy.len();
    let stereo_ok = (frame.u_right.len() == 0 && frame.depth.len() == 0) || (frame.u_right.len()
        == n && frame.depth.len() == n);
    if !stereo_ok || frame.n_colors != n || frame.n_descriptors != n || frame.n_octaves != n
        || frame.n_orientations != n {
        return Err(
            VioError::FrameArraysNotParallel {
                n_keypoints: n,
                n_u_right: frame.u_right.len(),
                n_depth: frame.depth.len(),
                n_colors: frame.n_colors,
                n_descriptors: frame.n_descriptors,
                n_octaves: frame.n_octaves,
                n_orientations: frame.n_orientations,
            },
        );
    }
    let mut i: usize = 0;
    while i < frame.keypoints_xy.len()
        invariant
            i <= frame.keypoints_xy@.len(),
            frame.parallel(),
            forall|k: int| 0 <= k < i ==> pixel_finite(#[trigger] frame.keypoints_xy@[k]),
        decreases frame.keypoints_xy@.len() - i,
    {
        let kp = frame.keypoints_xy[i];
        if !kp.x.is_finite() || !kp.y.is_finite() {
            let bad = if kp.x.is_finite() {
                kp.y
            } else {
                kp.x
            };
            assert(!pixel_finite(frame.keypoints_xy@[i as int]));
            return Err(
                VioError::NonFiniteFrameValue {
                    field: "keypoints_xy",
                    index: i,
                    value: bad.widen(),
                },
            );
        }
        i += 1;
    }
    match check_finite(&frame.u_right, "u_right") {
        Ok(()) => {},
        Err(e) => {
            return Err(e);
        },
    }
    check_finite(&frame.depth, "depth")
}

/// The grey that stands in where there is no pixel to read.
pub const NEUTRAL_GREY: u8 = 128;

/// The colour of a keypoint; neutral grey where the list is too short.
pub fn keypoint_color(colors: &Vec<[u8; 3]>, desc_idx: usize) -> (r: [u8; 3])
    ensures
        r == if desc_idx < colors@.len() {
            colors@[desc_idx as int]
        } else {
            [NEUTRAL_GREY, NEUTRAL_GREY, NEUTRAL_GREY]
        },
{
    if desc_idx < colors.len() {
        colors[desc_idx]
    } else {
        [NEUTRAL_GREY, NEUTRAL_GREY, NEUTRAL_GREY]
    }
}

/// A grey image, row by row.
#[derive(Debug)]
pub struct GrayImage {
    /// Width in pixels.
    pub width: usize,
    /// Height in pixels.
    pub height: usize,
    /// One byte per pixel.
    pub data: Vec<u8>,
}

impl GrayImage {
    /// Whether there is one byte per pixel, and both dimensions fit 32 bits.
    pub open spec fn wf(self) -> bool {
        &&& self.data@.len() == self.width * self.height
        &&& self.width <= u32::MAX
        &&& self.height <= u32::MAX
    }

    /// The grey value at a pixel.
    pub open spec fn at(self, x: int, y: int) -> u8 {
        self.data@[y * self.width + x]
    }
}

/// The column or row a coordinate falls on: truncated, and clamped into the image.
pub open spec fn clamped(v: Single, len: usize) -> int {
    if v.negative() || v.nan() {
        0
    } else if v.magnitude() == crate::ieee::INF32 || v.whole() >= len {
        len - 1
    } else {
        v.whole() as int
    }
}

fn clamp_index(v: Single, len: usize) -> (r: usize)
    requires
        len > 0,
    ensures
        r == clamped(v, len),
        r < len,
{
    let i: usize = v.to_usize();
    if i < len - 1 {
        i
    } else {
        len - 1
    }
}

/// Samples one grey value per keypoint. Coordinates are truncated and then clamped, never wrapped;
/// an image without pixels gives neutral grey.
pub fn sample_keypoint_colors(gray: &GrayImage, keypoints_xy: &Vec<Pixel>) -> (r: Vec<[u8; 3]>)
    requires
        gray.wf(),
    ensures
        r@.len() == keypoints_xy@.len(),
        forall|i: int|
            0 <= i < r@.len() ==> #[trigger] r@[i] == ({
                let g = if gray.width == 0 || gray.height == 0 {
                    NEUTRAL_GREY
                } else {
                    gray.at(
                        clamped(keypoints_xy@[i].x, gray.width),
                        clamped(keypoints_xy@[i].y, gray.height),
                    )
                };
                [g, g, g]
            }),
{
    let mut r: Vec<[u8; 3]> = Vec::new();
    let mut i: usize = 0;
    while i < keypoints_xy.len()
        invariant
            i <= keypoints_xy@.len(),
            gray.wf(),
            r@.len() == i,
            forall|k: int|
                0 <= k < r@.len() ==> #[trigger] r@[k] == ({
                    let g = if gray.width == 0 || gray.height == 0 {
                        NEUTRAL_GREY
                    } else {
                        gray.at(
                            clamped(keypoints_xy@[k].x, gray.width),
                            clamped(keypoints_xy@[k].y, gray.height),
                        )
                    };
                    [g, g, g]
                }),
        decreases keypoints_xy@.len() - i,
    {
        let g: u8 = if gray.width == 0 || gray.height == 0 {
            NEUTRAL_GREY
        } else {
            let x: usize = clamp_index(keypoints_xy[i].x, gray.width);
            let y: usize = clamp_index(keypoints_xy[i].y, gray.height);
            proof {
                lemma_index_in_image(x as int, y as int, gray.width as int, gray.height as int);
                assert(gray.data.len() <= usize::MAX);
            }
            gray.data[y * gray.width + x]
        };
        r.push([g, g, g]);
        i += 1;
    }
    r
}

proof fn lemma_index_in_image(x: int, y: int, width: int, height: int)
    requires
        0 <= x < width,
        0 <= y < height,
    ensures
        0 <= y * width,
        y * width + x < width * height,
{
    assert(0 <= y * width && y * width + x < width * height) by (nonlinear_arith)
        requires
            0 <= x < width,
            0 <= y < height,
    ;
}

/// The pixels that bilinear resampling makes of an image of the given width and height at another
/// width and height.
pub uninterp spec fn bilinear_resized(
    data: Seq<u8>,
    width: usize,
    height: usize,
    new_width: usize,
    new_height: usize,
) -> Seq<u8>;

/// `kornia_imgproc::resize::resize_fast_mono` with bilinear interpolation, between images that
/// `kornia_image::Image` holds: it fails only for a source under two pixels in either direction,
/// which has no second sample to blend with, and otherwise fills every pixel of the target. What
/// it fills them with is left to [`bilinear_resized`].
#[verifier::external_body]
fn resize_bilinear(
    src: &GrayImage,
    width: usize,
    height: usize,
) -> (r: Result<GrayImage, ImageError>)
    requires
        src.wf(),
        1 <= width <= u32::MAX,
        1 <= height <= u32::MAX,
        width * height <= isize::MAX,
        src.data@.len() <= isize::MAX,
    ensures
        r is Ok == (src.width >= 2 && src.height >= 2),
        r is Ok ==> r->Ok_0.width == width,
        r is Ok ==> r->Ok_0.height == height,
        r is Ok ==> r->Ok_0.data@.len() == width * height,
        r is Ok ==> r->Ok_0.data@ == bilinear_resized(
            src.data@,
            src.width,
            src.height,
            width,
            height,
        ),
{
    let size = ImageSize { width: src.width, height: src.height };
    let image = Image::<u8, 1>::new(size, src.data.clone())?;
    let mut dst = Image::<u8, 1>::from_size_val(ImageSize { width, height }, 0u8)?;
    kornia_imgproc::resize::resize_fast_mono(&image, &mut dst, InterpolationMode::Bilinear)?;
    Ok(GrayImage { width, height, data: dst.as_slice().to_vec() })
}

/// The dimensions of one pyramid level.
#[derive(Clone, Copy, Debug, PartialEq, Eq, Structural)]
pub struct LevelSize {
    /// Width in pixels.
    pub width: usize,
    /// Height in pixels.
    pub height: usize,
}

impl LevelSize {
    /// Whether a level of this size can be allocated: it has pixels, and not too many.
    pub open spec fn allocatable(self) -> bool {
        &&& 1 <= self.width <= u32::MAX
        &&& 1 <= self.height <= u32::MAX
        &&& self.width * self.height <= isize::MAX
    }
}

/// Builds the octave pyramid of an image: the image itself, and then one level per size, each
/// resampled straight from the image.
pub fn build_u8_pyramid(img: &GrayImage, sizes: &Vec<LevelSize>) -> (r: Result<
    Vec<GrayImage>,
    VioError,
>)
    requires
        img.wf(),
        img.data@.len() <= isize::MAX,
        forall|i: int| 0 <= i < sizes@.len() ==> (#[trigger] sizes@[i]).allocatable(),
    ensures
        r is Ok <==> sizes@.len() == 0 || (img.width >= 2 && img.height >= 2),
        r matches Err(e) ==> e is Image,
        r matches Ok(p) ==> {
            &&& p@.len() == sizes@.len() + 1
            &&& p@[0].width == img.width
            &&& p@[0].height == img.height
            &&& p@[0].data@ == img.data@
            &&& forall|i: int|
                0 <= i < sizes@.len() ==> {
                    let level = #[trigger] p@[i + 1];
                    level.width == sizes@[i].width && level.height == sizes@[i].height
                        && level.data@ == bilinear_resized(
                        img.data@,
                        img.width,
                        img.height,
                        sizes@[i].width,
                        sizes@[i].height,
                    )
                }
            &&& forall|i: int| 0 <= i < p@.len() ==> (#[trigger] p@[i]).wf()
        },
{
    let mut pyramid: Vec<GrayImage> = Vec::new();
    let base = GrayImage { width: img.width, height: img.height, data: img.data.clone() };
    assert(base.data@ =~= img.data@);
    pyramid.push(base);
    let mut i: usize = 0;
    while i < sizes.len()
        invariant
            i <= sizes@.len(),
            i > 0 ==> img.width >= 2 && img.height >= 2,
            img.wf(),
            img.data@.len() <= isize::MAX,
            forall|k: int| 0 <= k < sizes@.len() ==> (#[trigger] sizes@[k]).allocatable(),
            pyramid@.len() == i + 1,
            pyramid@[0].width == img.width,
            pyramid@[0].height == img.height,
            pyramid@[0].data@ == img.data@,
            forall|k: int|
                0 <= k < i ==> {
                    let level = #[trigger] pyramid@[k + 1];
                    level.width == sizes@[k].width && level.height == sizes@[k].height
                        && level.data@ == bilinear_resized(
                        img.data@,
                        img.width,
                        img.height,
                        sizes@[k].width,
                        sizes@[k].height,
                    )
                },
            forall|k: int| 0 <= k < pyramid@.len() ==> (#[trigger] pyramid@[k]).wf(),
        decreases sizes@.len() - i,
    {
        assert(sizes@[i as int].allocatable());
        match resize_bilinear(img, sizes[i].width, sizes[i].height) {
            Ok(level) => {
                pyramid.push(level);
            },
            Err(e) => {
                return Err(VioError::Image(e));
            },
        }
        i += 1;
    }
    Ok(pyramid)
}

} // verus!
