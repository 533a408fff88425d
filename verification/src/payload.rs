//! The imagery and inertial types a stereo driver produces and the estimator consumes, and the
//! pose it emits.
//!
//! No payload carries a message timestamp: that is the time of validity of the message around it.
//! The exception is the time of each sample in an [`ImuBatch`], whose samples were not captured at
//! one instant.
use crate::geometry::{RigidPose, Vec3};
use crate::ieee::{Double, Single};
use crate::imu::RawImuSample;
use crate::task_error::Eye;
use vstd::prelude::*;

verus! {

/// FourCC of the only pixel format an eye may use: 8-bit grayscale.
pub const GRAY8: [u8; 4] = [0x47, 0x52, 0x41, 0x59];

/// A time of validity, in nanoseconds.
#[derive(Clone, Copy, Debug, PartialEq, Eq, Structural)]
pub enum Tov {
    /// None is known.
    Absent,
    /// One instant.
    Time(u64),
    /// A range of time.
    Range(TimeRange),
}

/// A range of time, in nanoseconds.
#[derive(Clone, Copy, Debug, PartialEq, Eq, Structural)]
pub struct TimeRange {
    /// Its earliest instant.
    pub start: u64,
    /// Its latest instant.
    pub end: u64,
}

impl Tov {
    /// The instant a message is processed under: the time, or where its range starts.
    pub open spec fn stamp_spec(self) -> Option<u64> {
        match self {
            Tov::Absent => None,
            Tov::Time(t) => Some(t),
            Tov::Range(r) => Some(r.start),
        }
    }

    /// The instant a message is processed under.
    pub fn stamp(self) -> (r: Option<u64>)
        ensures
            r == self.stamp_spec(),
    {
        match self {
            Tov::Absent => None,
            Tov::Time(t) => Some(t),
            Tov::Range(r) => Some(r.start),
        }
    }
}

/// The geometry of a rectified pair: the common intrinsics in pixels, and the baseline in metres.
#[derive(Clone, Copy, Debug, PartialEq, Eq, Structural)]
pub struct RectifiedStereo {
    /// Focal length x.
    pub fx: Double,
    /// Focal length y.
    pub fy: Double,
    /// Principal point x.
    pub cx: Double,
    /// Principal point y.
    pub cy: Double,
    /// Distance between the two optical centres.
    pub baseline: Double,
}

impl RectifiedStereo {
    /// Everything zero.
    pub open spec fn zero() -> RectifiedStereo {
        RectifiedStereo {
            fx: Double::zero_spec(),
            fy: Double::zero_spec(),
            cx: Double::zero_spec(),
            cy: Double::zero_spec(),
            baseline: Double::zero_spec(),
        }
    }

    /// Whether two calibrations hold the same numbers; one with a NaN in it matches none.
    pub open spec fn matches_spec(self, other: RectifiedStereo) -> bool {
        self.fx.same_spec(other.fx) && self.fy.same_spec(other.fy) && self.cx.same_spec(other.cx)
            && self.cy.same_spec(other.cy) && self.baseline.same_spec(other.baseline)
    }

    /// Whether two calibrations hold the same numbers.
    pub fn matches(&self, other: &RectifiedStereo) -> (r: bool)
        ensures
            r == self.matches_spec(*other),
    {
        self.fx.same(other.fx) && self.fy.same(other.fy) && self.cx.same(other.cx) && self.cy.same(
            other.cy,
        ) && self.baseline.same(other.baseline)
    }
}

impl Default for RectifiedStereo {
    fn default() -> (r: RectifiedStereo)
        ensures
            r == RectifiedStereo::zero(),
    {
        let zero = Double { bits: 0 };
        RectifiedStereo { fx: zero, fy: zero, cx: zero, cy: zero, baseline: zero }
    }
}

/// How an image lies in its buffer.
#[derive(Clone, Copy, Debug)]
pub struct ImageFormat {
    /// Width in pixels.
    pub width: u32,
    /// Height in pixels.
    pub height: u32,
    /// Bytes from one row to the next.
    pub stride: u32,
    /// FourCC.
    pub pixel_format: [u8; 4],
}

/// The format of one tightly packed grayscale eye.
pub fn gray8_format(width: u32, height: u32) -> (r: ImageFormat)
    ensures
        r == (ImageFormat { width, height, stride: width, pixel_format: GRAY8 }),
{
    ImageFormat { width, height, stride: width, pixel_format: GRAY8 }
}

/// `cu_sensor_payloads::CuImageBufferFormat::required_bytes` of a grayscale image: a stride for
/// every row.
#[verifier::external_body]
fn required_bytes(format: &ImageFormat) -> (r: usize)
    requires
        format.pixel_format@ == GRAY8@,
        format.stride * format.height <= usize::MAX,
    ensures
        r == format.stride * format.height,
{
    let layout = cu_sensor_payloads::CuImageBufferFormat {
        width: format.width,
        height: format.height,
        stride: format.stride,
        pixel_format: format.pixel_format,
    };
    layout.required_bytes()
}

/// One eye of a stereo pair.
#[derive(Debug)]
pub struct EyeImage {
    /// Frame counter.
    pub seq: u64,
    /// Format of the buffer.
    pub format: ImageFormat,
    /// The buffer.
    pub data: Vec<u8>,
}

impl EyeImage {
    /// How many bytes the rows take.
    pub open spec fn needed(self) -> int {
        self.format.stride * self.format.height
    }
}

/// One rectified grayscale stereo pair: rows are epipolar lines. The calibration rides on every
/// pair, so nobody ever holds pixels they cannot interpret.
#[derive(Debug)]
pub struct StereoPair {
    /// Left eye.
    pub left: EyeImage,
    /// Right eye, in the format of the left.
    pub right: EyeImage,
    /// Geometry of the pair.
    pub calib: RectifiedStereo,
    /// Frames the source produced but never handed on, cumulative.
    pub dropped: u64,
}

/// What is wrong with a stereo pair.
#[derive(Clone, Copy, Debug)]
pub enum PairFault {
    /// The eyes differ in size.
    SizeMismatch {
        /// Left width.
        left_width: u32,
        /// Left height.
        left_height: u32,
        /// Right width.
        right_width: u32,
        /// Right height.
        right_height: u32,
    },
    /// The eyes have no pixels.
    Empty,
    /// An eye is not 8-bit grayscale.
    PixelFormat {
        /// Which eye.
        eye: Eye,
        /// Its FourCC.
        pixel_format: [u8; 4],
    },
    /// An eye's rows are padded or overlap.
    Stride {
        /// Which eye.
        eye: Eye,
        /// Its stride.
        stride: u32,
        /// Its width.
        width: u32,
    },
    /// An eye's buffer is too short.
    ShortBuffer {
        /// Which eye.
        eye: Eye,
        /// Bytes present.
        have: usize,
        /// Bytes required.
        want: usize,
    },
}

/// What is wrong with one eye by itself, if anything: its pixel format, its stride, its length.
pub open spec fn eye_fault(eye: Eye, image: EyeImage) -> Option<PairFault> {
    if image.format.pixel_format@ != GRAY8@ {
        Some(PairFault::PixelFormat { eye, pixel_format: image.format.pixel_format })
    } else if image.format.stride != image.format.width {
        Some(
            PairFault::Stride { eye, stride: image.format.stride, width: image.format.width },
        )
    } else if image.data@.len() < image.needed() {
        Some(
            PairFault::ShortBuffer {
                eye,
                have: image.data@.len() as usize,
                want: image.needed() as usize,
            },
        )
    } else {
        None
    }
}

impl StereoPair {
    /// What is wrong with a pair, if anything: unequal sizes, no pixels, then the left eye, then
    /// the right.
    pub open spec fn fault(self) -> Option<PairFault> {
        let l = self.left.format;
        let r = self.right.format;
        if l.width != r.width || l.height != r.height {
            Some(
                PairFault::SizeMismatch {
                    left_width: l.width,
                    left_height: l.height,
                    right_width: r.width,
                    right_height: r.height,
                },
            )
        } else if l.width == 0 || l.height == 0 {
            Some(PairFault::Empty)
        } else if eye_fault(Eye::Left, self.left) is Some {
            eye_fault(Eye::Left, self.left)
        } else {
            eye_fault(Eye::Right, self.right)
        }
    }

    /// Whether both eyes can be addressed on this machine.
    pub open spec fn addressable(self) -> bool {
        self.left.needed() <= usize::MAX && self.right.needed() <= usize::MAX
    }

    /// Builds a pair from two grayscale buffers, checking them with [`StereoPair::validate`].
    pub fn new(
        width: u32,
        height: u32,
        left: Vec<u8>,
        right: Vec<u8>,
        calib: RectifiedStereo,
    ) -> (r: Result<StereoPair, PairFault>)
        requires
            width * height <= usize::MAX,
        ensures
            r is Ok <==> width > 0 && height > 0 && left@.len() >= width * height && right@.len()
                >= width * height,
            r matches Ok(p) ==> {
                &&& p.left.seq == 0
                &&& p.left.format == (ImageFormat { width, height, stride: width, pixel_format: GRAY8 })
                &&& p.left.data@ == left@
                &&& p.right.seq == 0
                &&& p.right.format == p.left.format
                &&& p.right.data@ == right@
                &&& p.calib == calib
                &&& p.dropped == 0
                &&& p.fault() is None
            },
            r matches Err(e) ==> e == if width == 0 || height == 0 {
                PairFault::Empty
            } else if left@.len() < width * height {
                PairFault::ShortBuffer {
                    eye: Eye::Left,
                    have: left@.len() as usize,
                    want: (width * height) as usize,
                }
            } else {
                PairFault::ShortBuffer {
                    eye: Eye::Right,
                    have: right@.len() as usize,
                    want: (width * height) as usize,
                }
            },
    {
        let format = gray8_format(width, height);
        let pair = StereoPair {
            left: EyeImage { seq: 0, format, data: left },
            right: EyeImage { seq: 0, format, data: right },
            calib,
            dropped: 0,
        };
        proof {
            if width == 0 || height == 0 {
                assert(width * height == 0) by (nonlinear_arith)
                    requires
                        width == 0 || height == 0,
                ;
            }
        }
        match pair.validate() {
            Ok(()) => Ok(pair),
            Err(e) => Err(e),
        }
    }

    /// Checks that both eyes are tightly packed grayscale of one size, and that each buffer holds
    /// the bytes its format declares. Worth running at every boundary: a stride mistake shears the
    /// image, and the stereo matcher takes it without complaint.
    pub fn validate(&self) -> (r: Result<(), PairFault>)
        requires
            self.addressable(),
        ensures
            match r {
                Ok(_) => self.fault() is None,
                Err(e) => self.fault() == Some(e),
            },
    {
        let l = self.left.format;
        let r = self.right.format;
        if l.width != r.width || l.height != r.height {
            return Err(
                PairFault::SizeMismatch {
                    left_width: l.width,
                    left_height: l.height,
                    right_width: r.width,
                    right_height: r.height,
                },
            );
        }
        if l.width == 0 || l.height == 0 {
            return Err(PairFault::Empty);
        }
        match validate_eye(Eye::Left, &self.left) {
            Ok(()) => {},
            Err(e) => {
                return Err(e);
            },
        }
        validate_eye(Eye::Right, &self.right)
    }

    /// Both eyes' pixel bytes, as many as their rows take: for a pair that [`StereoPair::validate`]
    /// passes, exactly the width times the height.
    pub fn with_eyes(&self) -> (r: (&[u8], &[u8]))
        requires
            self.left.needed() <= self.left.data@.len(),
            self.right.needed() <= self.right.data@.len(),
        ensures
            r.0@ == self.left.data@.take(self.left.needed()),
            r.1@ == self.right.data@.take(self.right.needed()),
    {
        (eye_bytes(&self.left), eye_bytes(&self.right))
    }
}

fn eye_bytes(image: &EyeImage) -> (r: &[u8])
    requires
        image.needed() <= image.data@.len(),
    ensures
        r@ == image.data@.take(image.needed()),
{
    let n: usize = byte_count(image.format.stride, image.format.height, image.data.len());
    let r = vstd::slice::slice_subrange(image.data.as_slice(), 0, n);
    assert(image.data@.subrange(0, n as int) =~= image.data@.take(image.needed()));
    r
}

fn byte_count(stride: u32, height: u32, len: usize) -> (r: usize)
    requires
        stride * height <= len,
    ensures
        r == stride * height,
{
    assert(stride * height <= u32::MAX * u32::MAX) by (nonlinear_arith)
        requires
            stride <= u32::MAX,
            height <= u32::MAX,
    ;
    (stride as u64 * height as u64) as usize
}

fn same_fourcc(a: &[u8; 4], b: &[u8; 4]) -> (r: bool)
    ensures
        r == (a@ == b@),
{
    let r = a[0] == b[0] && a[1] == b[1] && a[2] == b[2] && a[3] == b[3];
    proof {
        if r {
            assert(a@ =~= b@);
        }
    }
    r
}

fn validate_eye(eye: Eye, image: &EyeImage) -> (r: Result<(), PairFault>)
    requires
        image.needed() <= usize::MAX,
    ensures
        match r {
            Ok(_) => eye_fault(eye, *image) is None,
            Err(e) => eye_fault(eye, *image) == Some(e),
        },
{
    if !same_fourcc(&image.format.pixel_format, &GRAY8) {
        return Err(PairFault::PixelFormat { eye, pixel_format: image.format.pixel_format });
    }
    if image.format.stride != image.format.width {
        return Err(
            PairFault::Stride { eye, stride: image.format.stride, width: image.format.width },
        );
    }
    let have: usize = image.data.len();
    let want: usize = required_bytes(&image.format);
    if have < want {
        return Err(PairFault::ShortBuffer { eye, have, want });
    }
    Ok(())
}

/// A pair that passes validation hands out eyes of exactly the width times the height.
pub proof fn a_valid_pair_has_whole_eyes(pair: StereoPair)
    requires
        pair.fault() is None,
    ensures
        pair.left.needed() == pair.left.format.width * pair.left.format.height,
        pair.right.needed() == pair.left.format.width * pair.left.format.height,
        pair.left.needed() <= pair.left.data@.len(),
        pair.right.needed() <= pair.right.data@.len(),
        pair.left.needed() > 0,
{
    assert(pair.left.format.width * pair.left.format.height > 0) by (nonlinear_arith)
        requires
            pair.left.format.width > 0,
            pair.left.format.height > 0,
    ;
}

/// An inertial measurement: acceleration in m/s^2, angular velocity in rad/s, temperature in
/// kelvin.
#[derive(Clone, Copy, Debug, PartialEq, Eq, Structural)]
pub struct ImuPayload {
    /// Acceleration along x.
    pub accel_x: Single,
    /// Acceleration along y.
    pub accel_y: Single,
    /// Acceleration along z.
    pub accel_z: Single,
    /// Angular velocity about x.
    pub gyro_x: Single,
    /// Angular velocity about y.
    pub gyro_y: Single,
    /// Angular velocity about z.
    pub gyro_z: Single,
    /// Temperature.
    pub temperature: Single,
}

/// The pattern of `273.15`, zero degrees Celsius in kelvin.
pub const ICE_POINT_BITS: u32 = 0x4388_9333;

impl ImuPayload {
    /// No motion, at zero degrees Celsius.
    pub open spec fn at_rest() -> ImuPayload {
        let zero = Single { bits: 0 };
        ImuPayload {
            accel_x: zero,
            accel_y: zero,
            accel_z: zero,
            gyro_x: zero,
            gyro_y: zero,
            gyro_z: zero,
            temperature: Single { bits: ICE_POINT_BITS },
        }
    }
}

impl Default for ImuPayload {
    fn default() -> (r: ImuPayload)
        ensures
            r == ImuPayload::at_rest(),
    {
        let zero = Single { bits: 0 };
        ImuPayload {
            accel_x: zero,
            accel_y: zero,
            accel_z: zero,
            gyro_x: zero,
            gyro_y: zero,
            gyro_z: zero,
            temperature: Single { bits: ICE_POINT_BITS },
        }
    }
}

/// One inertial sample with its own time of validity.
#[derive(Clone, Copy, Debug, PartialEq, Eq, Structural)]
pub struct ImuSample {
    /// Capture time in nanoseconds, on the clock of the images.
    pub tov: u64,
    /// The measurement, in the sensor's own axes.
    pub imu: ImuPayload,
}

impl Default for ImuSample {
    fn default() -> (r: ImuSample)
        ensures
            r == (ImuSample { tov: 0, imu: ImuPayload::at_rest() }),
    {
        ImuSample { tov: 0, imu: ImuPayload::default() }
    }
}

/// A payload's sample as the tracker holds it: its own time, and the same numbers.
pub open spec fn unpacked(s: ImuSample) -> RawImuSample {
    RawImuSample {
        stamp_ns: s.tov,
        gyro: Vec3 {
            x: s.imu.gyro_x.widen_spec(),
            y: s.imu.gyro_y.widen_spec(),
            z: s.imu.gyro_z.widen_spec(),
        },
        accel: Vec3 {
            x: s.imu.accel_x.widen_spec(),
            y: s.imu.accel_y.widen_spec(),
            z: s.imu.accel_z.widen_spec(),
        },
    }
}

/// Payload samples as the tracker holds them.
pub open spec fn unpacked_all(s: Seq<ImuSample>) -> Seq<RawImuSample> {
    Seq::new(s.len(), |i: int| unpacked(s[i]))
}

/// Unpacks a payload's sample into the tracker's.
pub fn unpack_sample(s: &ImuSample) -> (r: RawImuSample)
    ensures
        r == unpacked(*s),
{
    RawImuSample {
        stamp_ns: s.tov,
        gyro: Vec3 { x: s.imu.gyro_x.widen(), y: s.imu.gyro_y.widen(), z: s.imu.gyro_z.widen() },
        accel: Vec3 {
            x: s.imu.accel_x.widen(),
            y: s.imu.accel_y.widen(),
            z: s.imu.accel_z.widen(),
        },
    }
}

/// Unpacks a payload's samples into the tracker's, in order.
pub fn unpack_samples(s: &[ImuSample]) -> (r: Vec<RawImuSample>)
    ensures
        r@ == unpacked_all(s@),
{
    let mut r: Vec<RawImuSample> = Vec::new();
    let mut i: usize = 0;
    while i < s.len()
        invariant
            i <= s@.len(),
            r@.len() == i,
            forall|k: int| 0 <= k < i ==> #[trigger] r@[k] == unpacked(s@[k]),
        decreases s@.len() - i,
    {
        r.push(unpack_sample(&s[i]));
        i += 1;
    }
    assert(r@ =~= unpacked_all(s@));
    r
}

/// A bounded batch of timestamped samples, oldest first.
#[derive(Debug)]
pub struct ImuBatch<const N: usize> {
    /// The samples held, at most `N`.
    pub samples: Vec<ImuSample>,
    /// The source's cumulative count of samples it lost. A driver never resets it.
    pub dropped: u64,
    /// Whether the samples are already rotated into the camera's frame.
    pub camera_aligned: bool,
}

/// Raised by [`ImuBatch::push`] on a full batch.
#[derive(Clone, Copy, Debug, PartialEq, Eq, Structural)]
pub struct ImuBatchFull {
    /// The batch capacity.
    pub capacity: usize,
}

/// The mathematical content of an [`ImuBatch`].
#[verifier::ext_equal]
pub struct BatchModel {
    /// The samples.
    pub samples: Seq<ImuSample>,
    /// The source's drop count.
    pub dropped: u64,
    /// Whether they are in the camera's frame.
    pub camera_aligned: bool,
}

impl BatchModel {
    /// No samples and nothing lost.
    pub open spec fn empty() -> BatchModel {
        BatchModel { samples: Seq::empty(), dropped: 0, camera_aligned: false }
    }
}

impl<const N: usize> View for ImuBatch<N> {
    type V = BatchModel;

    open spec fn view(&self) -> BatchModel {
        BatchModel {
            samples: self.samples@,
            dropped: self.dropped,
            camera_aligned: self.camera_aligned,
        }
    }
}

/// The earliest time among samples.
pub open spec fn earliest(s: Seq<ImuSample>) -> u64
    decreases s.len(),
{
    if s.len() <= 1 {
        s[0].tov
    } else {
        let rest = earliest(s.drop_last());
        if s.last().tov < rest {
            s.last().tov
        } else {
            rest
        }
    }
}

/// The latest time among samples.
pub open spec fn latest(s: Seq<ImuSample>) -> u64
    decreases s.len(),
{
    if s.len() <= 1 {
        s[0].tov
    } else {
        let rest = latest(s.drop_last());
        if s.last().tov > rest {
            s.last().tov
        } else {
            rest
        }
    }
}

/// Every sample's time lies between the earliest and the latest, and both are some sample's time.
pub proof fn range_covers_the_samples(s: Seq<ImuSample>)
    requires
        s.len() > 0,
    ensures
        forall|i: int| 0 <= i < s.len() ==> earliest(s) <= (#[trigger] s[i]).tov <= latest(s),
        exists|i: int| 0 <= i < s.len() && (#[trigger] s[i]).tov == earliest(s),
        exists|i: int| 0 <= i < s.len() && (#[trigger] s[i]).tov == latest(s),
    decreases s.len(),
{
    if s.len() == 1 {
        assert(s[0].tov == earliest(s));
    } else {
        let front = s.drop_last();
        range_covers_the_samples(front);
        let a = choose|i: int| 0 <= i < front.len() && (#[trigger] front[i]).tov == earliest(front);
        let b = choose|i: int| 0 <= i < front.len() && (#[trigger] front[i]).tov == latest(front);
        let last = s.len() - 1;
        assert(s[a] == front[a] && s[b] == front[b]);
        assert(s[last].tov == s.last().tov);
        assert forall|i: int| 0 <= i < s.len() implies earliest(s) <= (#[trigger] s[i]).tov
            <= latest(s) by {
            if i < last {
                assert(front[i] == s[i]);
            }
        }
    }
}

impl<const N: usize> ImuBatch<N> {
    /// The representation invariant: no more samples than the capacity.
    pub open spec fn wf(self) -> bool {
        self@.samples.len() <= N
    }

    /// An empty batch.
    pub fn new() -> (r: ImuBatch<N>)
        ensures
            r@ == BatchModel::empty(),
            r.wf(),
    {
        ImuBatch { samples: Vec::new(), dropped: 0, camera_aligned: false }
    }

    /// Number of samples held.
    pub fn len(&self) -> (r: usize)
        ensures
            r == self@.samples.len(),
    {
        self.samples.len()
    }

    /// Whether the batch holds no sample.
    pub fn is_empty(&self) -> (r: bool)
        ensures
            r == (self@.samples.len() == 0),
    {
        self.samples.len() == 0
    }

    /// Whether the batch is at capacity.
    pub fn is_full(&self) -> (r: bool)
        ensures
            r == (self@.samples.len() >= N),
    {
        self.samples.len() >= N
    }

    /// The samples held, in push order.
    pub fn samples(&self) -> (r: &[ImuSample])
        ensures
            r@ == self@.samples,
    {
        self.samples.as_slice()
    }

    /// Appends a sample, refusing rather than overwriting when full.
    pub fn push(&mut self, sample: ImuSample) -> (r: Result<(), ImuBatchFull>)
        ensures
            old(self).wf() ==> final(self).wf(),
            r is Ok <==> old(self)@.samples.len() < N,
            r is Ok ==> final(self)@ == (BatchModel {
                samples: old(self)@.samples.push(sample),
                ..old(self)@
            }),
            r matches Err(e) ==> final(self)@ == old(self)@ && e.capacity == N,
    {
        if self.is_full() {
            return Err(ImuBatchFull { capacity: N });
        }
        self.samples.push(sample);
        Ok(())
    }

    /// Empties the batch, keeping the drop count and the alignment.
    pub fn clear(&mut self)
        ensures
            final(self)@ == (BatchModel { samples: Seq::empty(), ..old(self)@ }),
            final(self).wf(),
    {
        self.samples.clear();
    }

    /// The earliest and latest sample times, or `None` for an empty batch.
    pub fn tov_range(&self) -> (r: Option<TimeRange>)
        ensures
            r == if self@.samples.len() == 0 {
                None
            } else {
                Some(TimeRange { start: earliest(self@.samples), end: latest(self@.samples) })
            },
    {
        if self.samples.len() == 0 {
            return None;
        }
        let mut start: u64 = self.samples[0].tov;
        let mut end: u64 = self.samples[0].tov;
        let mut i: usize = 1;
        assert(self@.samples.take(1)[0] == self@.samples[0]);
        while i < self.samples.len()
            invariant
                1 <= i <= self@.samples.len(),
                start == earliest(self@.samples.take(i as int)),
                end == latest(self@.samples.take(i as int)),
            decreases self@.samples.len() - i,
        {
            let t: u64 = self.samples[i].tov;
            assert(self@.samples.take(i + 1).drop_last() =~= self@.samples.take(i as int));
            if t < start {
                start = t;
            }
            if t > end {
                end = t;
            }
            i += 1;
        }
        assert(self@.samples.take(i as int) =~= self@.samples);
        Some(TimeRange { start, end })
    }

    /// The time of validity for the message carrying this batch: the range over its samples, or
    /// none when it is empty.
    pub fn tov(&self) -> (r: Tov)
        ensures
            r == if self@.samples.len() == 0 {
                Tov::Absent
            } else {
                Tov::Range(TimeRange { start: earliest(self@.samples), end: latest(self@.samples) })
            },
    {
        match self.tov_range() {
            Some(range) => Tov::Range(range),
            None => Tov::Absent,
        }
    }
}

impl<const N: usize> Default for ImuBatch<N> {
    fn default() -> (r: ImuBatch<N>)
        ensures
            r@ == BatchModel::empty(),
            r.wf(),
    {
        ImuBatch::new()
    }
}

/// Tracker bookkeeping that accompanies each pose. There is no tracking state in it: a frame that
/// could not be placed carries no payload.
#[derive(Clone, Copy, Debug, PartialEq, Eq, Structural)]
pub struct VioStatus {
    /// Whether a keyframe was inserted.
    pub keyframe: bool,
    /// Which tracker world the pose belongs to.
    pub reset_epoch: u64,
    /// Live map points in the tracker's map.
    pub landmarks: u32,
}

impl Default for VioStatus {
    fn default() -> (r: VioStatus)
        ensures
            r == (VioStatus { keyframe: false, reset_epoch: 0, landmarks: 0 }),
    {
        VioStatus { keyframe: false, reset_epoch: 0, landmarks: 0 }
    }
}

/// One point of the tracker's map. Its index is an integer of its own: as a binary32 it would be
/// exact to `2^24` only.
#[derive(Clone, Copy, Debug, PartialEq, Eq, Structural)]
pub struct Landmark {
    /// Position in the tracker's world, x.
    pub x: Single,
    /// Position in the tracker's world, y.
    pub y: Single,
    /// Position in the tracker's world, z.
    pub z: Single,
    /// Index in the tracker's map, stable within one world.
    pub index: u32,
}

impl Default for Landmark {
    fn default() -> (r: Landmark)
        ensures
            r == (Landmark {
                x: Single { bits: 0 },
                y: Single { bits: 0 },
                z: Single { bits: 0 },
                index: 0,
            }),
    {
        let zero = Single { bits: 0 };
        Landmark { x: zero, y: zero, z: zero, index: 0 }
    }
}

/// One estimated pose, camera in world.
#[derive(Debug)]
pub struct VioPose {
    /// The camera in the tracker's world, in metres.
    pub cam_in_world: RigidPose,
    /// Tracker bookkeeping.
    pub status: VioStatus,
    /// A snapshot of map points: the complete view to display, or nothing new.
    pub map_points: Option<Vec<Landmark>>,
}

impl Default for VioPose {
    /// Everything zero, and no map points.
    fn default() -> (r: VioPose)
        ensures
            r.cam_in_world == RigidPose::zero_spec(),
            r.status == (VioStatus { keyframe: false, reset_epoch: 0, landmarks: 0 }),
            r.map_points is None,
    {
        VioPose {
            cam_in_world: RigidPose::zero(),
            status: VioStatus::default(),
            map_points: None,
        }
    }
}

} // verus!
