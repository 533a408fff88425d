//! Where each field lies in a payload's bytes.
use crate::ieee::Double;
use crate::payload::{BatchModel, ImuSample, Landmark, RectifiedStereo, VioStatus};
use crate::wire::{
    bool_wire, doubles_wire, from_le, landmarks_wire, le_bytes, lemma_le_bytes_len, parse_bool,
    parse_double, parse_single, parse_u32, parse_u64, samples_wire, varint, EyeModel, PairModel,
    PoseModel, WireError,
};
use vstd::prelude::*;

verus! {

/// A number is spelled least significant byte first.
pub proof fn a_number_is_spelled_least_byte_first(x: nat, n: nat, i: int)
    requires
        0 <= i < n,
    ensures
        le_bytes(x, n).len() == n,
        i == 0 ==> le_bytes(x, n)[i] == x % 256,
        i > 0 ==> le_bytes(x, n)[i] == le_bytes(x / 256, (n - 1) as nat)[i - 1],
{
    lemma_le_bytes_len(x, n);
    lemma_le_bytes_len(x / 256, (n - 1) as nat);
}

/// An integer up to 250 is its own byte; a larger one follows a tag, in the two, four or eight bytes
/// it needs.
pub proof fn an_integer_takes_the_bytes_it_needs(x: u64)
    ensures
        x <= 250 ==> varint(x).len() == 1 && varint(x)[0] == x,
        250 < x <= 0xffff ==> varint(x).len() == 3 && varint(x)[0] == 251 && varint(x).skip(1)
            == le_bytes(x as nat, 2),
        0xffff < x <= 0xffff_ffff ==> varint(x).len() == 5 && varint(x)[0] == 252 && varint(
            x,
        ).skip(1) == le_bytes(x as nat, 4),
        0xffff_ffff < x ==> varint(x).len() == 9 && varint(x)[0] == 253 && varint(x).skip(1)
            == le_bytes(x as nat, 8),
{
    reveal(varint);
    lemma_le_bytes_len(x as nat, 2);
    lemma_le_bytes_len(x as nat, 4);
    lemma_le_bytes_len(x as nat, 8);
}

/// A calibration is its five numbers in eight bytes each: both focal lengths, the principal point,
/// the baseline.
pub proof fn a_calibration_lies_in_forty_bytes(c: RectifiedStereo)
    ensures
        c.wire().len() == 40,
        c.wire().subrange(0, 8) == le_bytes(c.fx.bits as nat, 8),
        c.wire().subrange(8, 16) == le_bytes(c.fy.bits as nat, 8),
        c.wire().subrange(16, 24) == le_bytes(c.cx.bits as nat, 8),
        c.wire().subrange(24, 32) == le_bytes(c.cy.bits as nat, 8),
        c.wire().subrange(32, 40) == le_bytes(c.baseline.bits as nat, 8),
{
    lemma_le_bytes_len(c.fx.bits as nat, 8);
    lemma_le_bytes_len(c.fy.bits as nat, 8);
    lemma_le_bytes_len(c.cx.bits as nat, 8);
    lemma_le_bytes_len(c.cy.bits as nat, 8);
    lemma_le_bytes_len(c.baseline.bits as nat, 8);
}

/// A sample is its time, and then seven numbers in four bytes each: the three accelerations, the
/// three angular velocities, the temperature.
pub proof fn a_sample_lies_behind_its_time(s: ImuSample)
    ensures
        ({
            let n = varint(s.tov).len() as int;
            let w = s.wire();
            &&& w.len() == n + 28
            &&& w.take(n) == varint(s.tov)
            &&& w.subrange(n, n + 4) == le_bytes(s.imu.accel_x.bits as nat, 4)
            &&& w.subrange(n + 4, n + 8) == le_bytes(s.imu.accel_y.bits as nat, 4)
            &&& w.subrange(n + 8, n + 12) == le_bytes(s.imu.accel_z.bits as nat, 4)
            &&& w.subrange(n + 12, n + 16) == le_bytes(s.imu.gyro_x.bits as nat, 4)
            &&& w.subrange(n + 16, n + 20) == le_bytes(s.imu.gyro_y.bits as nat, 4)
            &&& w.subrange(n + 20, n + 24) == le_bytes(s.imu.gyro_z.bits as nat, 4)
            &&& w.subrange(n + 24, n + 28) == le_bytes(s.imu.temperature.bits as nat, 4)
        }),
{
    lemma_le_bytes_len(s.imu.accel_x.bits as nat, 4);
    lemma_le_bytes_len(s.imu.accel_y.bits as nat, 4);
    lemma_le_bytes_len(s.imu.accel_z.bits as nat, 4);
    lemma_le_bytes_len(s.imu.gyro_x.bits as nat, 4);
    lemma_le_bytes_len(s.imu.gyro_y.bits as nat, 4);
    lemma_le_bytes_len(s.imu.gyro_z.bits as nat, 4);
    lemma_le_bytes_len(s.imu.temperature.bits as nat, 4);
}

/// A landmark is its position in four bytes each, and its index behind them.
pub proof fn a_landmark_lies_before_its_index(l: Landmark)
    ensures
        l.wire().len() == 12 + varint(l.index as u64).len(),
        l.wire().subrange(0, 4) == le_bytes(l.x.bits as nat, 4),
        l.wire().subrange(4, 8) == le_bytes(l.y.bits as nat, 4),
        l.wire().subrange(8, 12) == le_bytes(l.z.bits as nat, 4),
        l.wire().skip(12) == varint(l.index as u64),
{
    lemma_le_bytes_len(l.x.bits as nat, 4);
    lemma_le_bytes_len(l.y.bits as nat, 4);
    lemma_le_bytes_len(l.z.bits as nat, 4);
}

/// A status is its keyframe flag in one byte, its epoch, and its count of landmarks.
pub proof fn a_status_begins_with_its_flag(s: VioStatus)
    ensures
        ({
            let n = varint(s.reset_epoch).len() as int;
            let w = s.wire();
            &&& w.len() == 1 + n + varint(s.landmarks as u64).len()
            &&& s.keyframe ==> w[0] == 1
            &&& !s.keyframe ==> w[0] == 0
            &&& w.subrange(1, 1 + n) == varint(s.reset_epoch)
            &&& w.skip(1 + n) == varint(s.landmarks as u64)
        }),
{
}

/// An eye is its counter, its width, height and stride, its four-byte pixel format, and its buffer
/// behind the buffer's length.
pub proof fn an_eye_ends_with_its_buffer(e: EyeModel)
    ensures
        ({
            let a = varint(e.seq).len() as int;
            let b = a + varint(e.format.width as u64).len();
            let c = b + varint(e.format.height as u64).len();
            let d = c + varint(e.format.stride as u64).len();
            let f = d + 4 + varint(e.data.len() as u64).len();
            let w = e.wire();
            &&& w.len() == f + e.data.len()
            &&& w.take(a) == varint(e.seq)
            &&& w.subrange(a, b) == varint(e.format.width as u64)
            &&& w.subrange(b, c) == varint(e.format.height as u64)
            &&& w.subrange(c, d) == varint(e.format.stride as u64)
            &&& w.subrange(d, d + 4) == e.format.pixel_format@
            &&& w.subrange(d + 4, f) == varint(e.data.len() as u64)
            &&& w.skip(f) == e.data
        }),
{
}

/// A pair is its left eye, its right eye, its calibration, and the frames that were dropped.
pub proof fn a_pair_begins_with_its_left_eye(p: PairModel)
    ensures
        ({
            let a = p.left.wire().len() as int;
            let b = a + p.right.wire().len();
            let w = p.wire();
            &&& w.len() == b + 40 + varint(p.dropped).len()
            &&& w.take(a) == p.left.wire()
            &&& w.subrange(a, b) == p.right.wire()
            &&& w.subrange(b, b + 40) == p.calib.wire()
            &&& w.skip(b + 40) == varint(p.dropped)
        }),
{
    a_calibration_lies_in_forty_bytes(p.calib);
    let a = p.left.wire().len() as int;
    let b = a + p.right.wire().len();
    let w = p.wire();
    assert(w.take(a) =~= p.left.wire());
    assert(w.subrange(a, b) =~= p.right.wire());
    assert(w.subrange(b, b + 40) =~= p.calib.wire());
    assert(w.skip(b + 40) =~= varint(p.dropped));
}

/// A batch is the number of its samples, the samples, the samples that were dropped, and in one byte
/// whether they are in camera axes.
pub proof fn a_batch_begins_with_its_length(m: BatchModel)
    ensures
        ({
            let a = varint(m.samples.len() as u64).len() as int;
            let b = a + samples_wire(m.samples).len();
            let c = b + varint(m.dropped).len();
            let w = m.wire();
            &&& w.len() == c + 1
            &&& w.take(a) == varint(m.samples.len() as u64)
            &&& w.subrange(a, b) == samples_wire(m.samples)
            &&& w.subrange(b, c) == varint(m.dropped)
            &&& m.camera_aligned ==> w[c] == 1
            &&& !m.camera_aligned ==> w[c] == 0
        }),
{
    let a = varint(m.samples.len() as u64).len() as int;
    let b = a + samples_wire(m.samples).len();
    let c = b + varint(m.dropped).len();
    let w = m.wire();
    assert(w.take(a) =~= varint(m.samples.len() as u64));
    assert(w.subrange(a, b) =~= samples_wire(m.samples));
    assert(w.subrange(b, c) =~= varint(m.dropped));
    assert(w[c] == bool_wire(m.camera_aligned)[0]);
}

/// Samples lie one behind the other, first to last, and so do landmarks and numbers.
pub proof fn lists_lie_in_order(s: Seq<ImuSample>, l: Seq<Landmark>, d: Seq<Double>)
    ensures
        samples_wire(Seq::empty()).len() == 0,
        landmarks_wire(Seq::empty()).len() == 0,
        doubles_wire(Seq::empty()).len() == 0,
        s.len() > 0 ==> samples_wire(s) == s[0].wire() + samples_wire(s.skip(1)),
        l.len() > 0 ==> landmarks_wire(l) == l[0].wire() + landmarks_wire(l.skip(1)),
        d.len() > 0 ==> doubles_wire(d) == le_bytes(d[0].bits as nat, 8) + doubles_wire(d.skip(1)),
{
}

/// A pose is its matrix in sixteen numbers, its status, and its snapshot: nought where there is
/// none, and otherwise one, the number of landmarks, and the landmarks.
pub proof fn a_pose_ends_with_its_snapshot(p: PoseModel)
    ensures
        ({
            let a = doubles_wire(p.cam_in_world.entries()).len() as int;
            let b = a + p.status.wire().len();
            let w = p.wire();
            &&& w.take(a) == doubles_wire(p.cam_in_world.entries())
            &&& w.subrange(a, b) == p.status.wire()
            &&& p.map_points is None ==> w.skip(b) == seq![0u8]
            &&& p.map_points matches Some(points) ==> w.len() > b && w[b] == 1 && w.skip(b + 1)
                == varint(points.len() as u64) + landmarks_wire(points)
        }),
{
    let a = doubles_wire(p.cam_in_world.entries()).len() as int;
    let b = a + p.status.wire().len();
    let w = p.wire();
    assert(w.take(a) =~= doubles_wire(p.cam_in_world.entries()));
    assert(w.subrange(a, b) =~= p.status.wire());
    assert(w.skip(b) =~= p.snapshot_wire());
    if p.map_points is Some {
        let points = p.map_points->0;
        assert(w[b] == p.snapshot_wire()[0]);
        assert(w.skip(b + 1) =~= p.snapshot_wire().skip(1));
        assert(p.snapshot_wire().skip(1) =~= varint(points.len() as u64) + landmarks_wire(points));
    }
}

/// Bytes spell a number least significant first.
pub proof fn bytes_spell_least_significant_first(s: Seq<u8>)
    ensures
        from_le(Seq::empty()) == 0,
        s.len() > 0 ==> from_le(s) == s[0] + 256 * from_le(s.skip(1)),
        s.len() == 2 ==> from_le(s) == s[0] + 256 * s[1],
{
    reveal_with_fuel(from_le, 3);
}

/// An integer is read from its own byte up to 250, and from the two, four or eight bytes behind a tag
/// of 251, 252 or 253; another tag, and bytes that end before the integer does, are malformed. What
/// is left are the bytes behind it. In 32 bits the longest form is malformed too.
pub proof fn an_integer_is_read_by_its_tag(b: Seq<u8>)
    ensures
        b.len() == 0 ==> parse_u64(b) == Err::<(u64, Seq<u8>), WireError>(WireError::Malformed),
        b.len() > 0 ==> {
            let tag = b[0];
            let size: int = if tag <= 250 {
                0
            } else if tag == 251 {
                2
            } else if tag == 252 {
                4
            } else {
                8
            };
            let whole = tag <= 253 && b.len() > size;
            &&& !whole ==> parse_u64(b) == Err::<(u64, Seq<u8>), WireError>(WireError::Malformed)
            &&& whole ==> parse_u64(b) is Ok && parse_u64(b)->Ok_0.1 == b.skip(1 + size)
            &&& whole && tag <= 250 ==> parse_u64(b)->Ok_0.0 == tag
            &&& whole && tag > 250 ==> parse_u64(b)->Ok_0.0 == from_le(
                b.subrange(1, 1 + size),
            ) as u64
            &&& !whole || tag == 253 ==> parse_u32(b) == Err::<(u32, Seq<u8>), WireError>(
                WireError::Malformed,
            )
            &&& whole && tag < 253 ==> parse_u32(b) is Ok && parse_u32(b)->Ok_0.1 == b.skip(
                1 + size,
            )
            &&& whole && tag <= 250 ==> parse_u32(b)->Ok_0.0 == tag
            &&& whole && 250 < tag < 253 ==> parse_u32(b)->Ok_0.0 == from_le(
                b.subrange(1, 1 + size),
            ) as u32
        },
{
    reveal(parse_u64);
    reveal(parse_u32);
}

/// A number is read from eight or four bytes, and a flag from one, which has to be nought or one;
/// fewer bytes are malformed.
pub proof fn a_number_is_read_from_its_bytes(b: Seq<u8>)
    ensures
        parse_double(b) is Ok <==> b.len() >= 8,
        parse_double(b) matches Ok((x, rest)) ==> x.bits == from_le(b.take(8)) as u64 && rest
            == b.skip(8),
        parse_single(b) is Ok <==> b.len() >= 4,
        parse_single(b) matches Ok((x, rest)) ==> x.bits == from_le(b.take(4)) as u32 && rest
            == b.skip(4),
        parse_bool(b) is Ok <==> b.len() > 0 && b[0] <= 1,
        parse_bool(b) matches Ok((x, rest)) ==> x == (b[0] == 1) && rest == b.skip(1),
        b.len() > 0 && b[0] > 1 ==> parse_bool(b) == Err::<(bool, Seq<u8>), WireError>(
            WireError::InvalidBoolean(b[0]),
        ),
        b.len() < 8 ==> parse_double(b)->Err_0 is Malformed,
        b.len() < 4 ==> parse_single(b)->Err_0 is Malformed,
        b.len() == 0 ==> parse_bool(b)->Err_0 is Malformed,
{
    reveal(parse_double);
    reveal(parse_single);
    reveal(parse_bool);
}

} // verus!
