//! What the patterns, matrices and frames stand for: comparisons are those of the numbers, and every
//! entry and coordinate is where it belongs.
use crate::config::{bytes_le, config_keys_spec, in_byte_order, unknown_among};
use crate::error::VioError;
use crate::frame::{
    camera_fault, camera_usable, clamped, names_frame_fault, positives, Distortion, FrameArrays,
    GrayImage,
};
use crate::geometry::{Mat3, RigidPose, Vec3};
use crate::ieee::{Double, Single, INF32};
use crate::inertial::{within_tolerance, InertialStats, RotationResidual};
use crate::track::TrackerModel;
use vstd::prelude::*;

verus! {

/// Comparisons of finite patterns are comparisons of the numbers they stand for.
pub proof fn comparisons_are_numeric(a: Double, b: Double)
    requires
        a.finite(),
        b.finite(),
    ensures
        a.lt_spec(b) <==> a.exact() < b.exact(),
        a.le_spec(b) <==> a.exact() <= b.exact(),
        a.same_spec(b) <==> a.exact() == b.exact(),
        a.max_spec(b).exact() >= a.exact(),
        a.max_spec(b).exact() >= b.exact(),
        a.max_spec(b) == a || a.max_spec(b) == b,
        a.exact() >= 0 ==> a.abs_spec().exact() == a.exact(),
        a.exact() <= 0 ==> a.abs_spec().exact() == -a.exact(),
{
    crate::ieee::double_order_is_numeric(a, b);
    crate::ieee::double_order_is_numeric(b, a);
    let z = Double { bits: 0 };
    crate::ieee::double_order_is_numeric(a, z);
    crate::ieee::double_order_is_numeric(z, a);
    let p = a.abs_spec();
    assert(p.magnitude() == a.magnitude());
    assert(!p.negative());
}

/// What is no number is neither below, nor above, nor the same as anything; the larger of it and a
/// number is the number.
pub proof fn a_nan_compares_with_nothing(a: Double, b: Double)
    requires
        a.nan(),
    ensures
        !a.lt_spec(b) && !b.lt_spec(a),
        !a.le_spec(b) && !b.le_spec(a),
        !a.same_spec(b) && !b.same_spec(a),
        a.max_spec(b) == b,
        !b.nan() ==> b.max_spec(a) == b,
        !a.finite(),
        !a.positive_finite(),
        !within_tolerance(a),
{
    let p = a.abs_spec();
    assert(p.magnitude() == a.magnitude());
}

/// Infinity is past every number: above all of them with its sign clear, below with its sign set.
pub proof fn infinity_is_past_every_number(a: Double)
    requires
        a.finite(),
    ensures
        a.lt_spec(Double { bits: 0x7ff0_0000_0000_0000 }),
        (Double { bits: 0xfff0_0000_0000_0000 }).lt_spec(a),
        !(Double { bits: 0x7ff0_0000_0000_0000 }).finite(),
        !(Double { bits: 0x7ff0_0000_0000_0000 }).nan(),
        !(Double { bits: 0x7ff0_0000_0000_0000 }).positive_finite(),
{
}

/// A rotation is one up to the tolerance if and only if none of the nine entries of its residual,
/// and not its determinant's error, is further from nought than a millionth.
pub proof fn a_rotation_is_within_a_millionth(r: RotationResidual)
    ensures
        ({
            let m = r.residual;
            let near = |x: Double| x.abs_spec().le_spec(Double { bits: 0x3eb0_c6f7_a0b5_ed8d });
            r.rigid() <==> {
                &&& near(m.x_axis.x) && near(m.x_axis.y) && near(m.x_axis.z)
                &&& near(m.y_axis.x) && near(m.y_axis.y) && near(m.y_axis.z)
                &&& near(m.z_axis.x) && near(m.z_axis.y) && near(m.z_axis.z)
                &&& near(r.determinant_error)
            }
        }),
{
    let m = r.residual;
    assert(m.entry(0, 0) == m.x_axis.x && m.entry(1, 0) == m.x_axis.y && m.entry(2, 0)
        == m.x_axis.z);
    assert(m.entry(0, 1) == m.y_axis.x && m.entry(1, 1) == m.y_axis.y && m.entry(2, 1)
        == m.y_axis.z);
    assert(m.entry(0, 2) == m.z_axis.x && m.entry(1, 2) == m.z_axis.y && m.entry(2, 2)
        == m.z_axis.z);
}

/// A residual's error is the largest of its entries, leaving the signs aside: no entry is larger,
/// and it is nought or one of them.
pub proof fn a_residual_error_is_its_largest_entry(r: RotationResidual)
    requires
        forall|row: int, column: int|
            0 <= row < 3 && 0 <= column < 3 ==> !(#[trigger] r.residual.entry(row, column)).nan(),
    ensures
        ({
            let m = r.residual;
            let e = r.orthonormality_error();
            &&& m.x_axis.x.abs_spec().le_spec(e) && m.x_axis.y.abs_spec().le_spec(e)
                && m.x_axis.z.abs_spec().le_spec(e)
            &&& m.y_axis.x.abs_spec().le_spec(e) && m.y_axis.y.abs_spec().le_spec(e)
                && m.y_axis.z.abs_spec().le_spec(e)
            &&& m.z_axis.x.abs_spec().le_spec(e) && m.z_axis.y.abs_spec().le_spec(e)
                && m.z_axis.z.abs_spec().le_spec(e)
            &&& e.bits == 0 || exists|row: int, column: int|
                0 <= row < 3 && 0 <= column < 3 && e == (#[trigger] m.entry(
                    row,
                    column,
                )).abs_spec()
        }),
{
    let m = r.residual;
    assert(m.entry(0, 0) == m.x_axis.x && m.entry(1, 0) == m.x_axis.y && m.entry(2, 0)
        == m.x_axis.z);
    assert(m.entry(0, 1) == m.y_axis.x && m.entry(1, 1) == m.y_axis.y && m.entry(2, 1)
        == m.y_axis.z);
    assert(m.entry(0, 2) == m.z_axis.x && m.entry(1, 2) == m.z_axis.y && m.entry(2, 2)
        == m.z_axis.z);
}

/// The identity has ones on its diagonal and zeros elsewhere, and moves nothing; the zero transform
/// has zeros throughout.
pub proof fn the_identity_moves_nothing(row: int, column: int)
    requires
        0 <= row < 3,
        0 <= column < 3,
    ensures
        row == column ==> RigidPose::identity_spec().rotation.entry(row, column).bits
            == 0x3ff0_0000_0000_0000,
        row != column ==> RigidPose::identity_spec().rotation.entry(row, column).bits == 0,
        RigidPose::identity_spec().translation.at(row).bits == 0,
        RigidPose::zero_spec().rotation.entry(row, column).bits == 0,
        RigidPose::zero_spec().translation.at(row).bits == 0,
{
}

/// Transposing swaps rows and columns.
pub proof fn transposing_swaps_rows_and_columns(m: Mat3, row: int, column: int)
    requires
        0 <= row < 3,
        0 <= column < 3,
    ensures
        m.transpose_spec().entry(row, column) == m.entry(column, row),
{
}

/// An entry of a matrix lies in the axis of its column, at the coordinate of its row.
pub proof fn an_entry_lies_in_its_column(m: Mat3, v: Vec3)
    ensures
        m.entry(0, 0) == m.x_axis.x && m.entry(1, 0) == m.x_axis.y && m.entry(2, 0) == m.x_axis.z,
        m.entry(0, 1) == m.y_axis.x && m.entry(1, 1) == m.y_axis.y && m.entry(2, 1) == m.y_axis.z,
        m.entry(0, 2) == m.z_axis.x && m.entry(1, 2) == m.z_axis.y && m.entry(2, 2) == m.z_axis.z,
        v.at(0) == v.x && v.at(1) == v.y && v.at(2) == v.z,
{
}

/// The matrix of a transform has the rotation in its upper left, the translation in its last column,
/// and `0 0 0 1` in its last row; reading one back takes each from where it stands.
pub proof fn a_transform_is_laid_out_by_rows(pose: RigidPose, e: Seq<Double>, row: int, column: int)
    requires
        0 <= row < 3,
        0 <= column < 3,
        e.len() == 16,
    ensures
        pose.entries().len() == 16,
        pose.entries()[4 * row + column] == pose.rotation.entry(row, column),
        pose.entries()[4 * row + 3] == pose.translation.at(row),
        pose.entries()[12 + column].bits == 0,
        pose.entries()[15].bits == 0x3ff0_0000_0000_0000,
        RigidPose::of_entries(e).rotation.entry(row, column) == e[4 * row + column],
        RigidPose::of_entries(e).translation.at(row) == e[4 * row + 3],
{
}

/// A camera is usable if and only if its four distortion coefficients are zeros and its baseline is
/// a positive finite number; what is wrong with another is its distortion, or else its baseline.
pub proof fn a_camera_is_usable_when_rectified(d: Distortion, baseline: Double)
    ensures
        camera_usable(d, baseline) <==> d.k1.rank() == 0 && d.k2.rank() == 0 && d.p1.rank() == 0
            && d.p2.rank() == 0 && baseline.finite() && baseline.rank() > 0,
        !camera_usable(d, baseline) ==> match camera_fault(d, baseline) {
            VioError::DistortedCamera { k1, k2, p1, p2 } => k1 == d.k1 && k2 == d.k2 && p1 == d.p1
                && p2 == d.p2 && !(k1.rank() == 0 && k2.rank() == 0 && p1.rank() == 0
                && p2.rank() == 0),
            VioError::InvalidBaseline { baseline: b } => b == baseline && !b.positive_finite()
                && d.k1.rank() == 0 && d.k2.rank() == 0 && d.p1.rank() == 0 && d.p2.rank() == 0,
            _ => false,
        },
{
}

/// A frame is parallel if and only if all its arrays are as long as its keypoints, where the right
/// columns and the depths may both be absent.
pub proof fn a_frame_is_parallel_with_its_keypoints(f: FrameArrays)
    ensures
        ({
            let n = f.keypoints_xy@.len();
            f.parallel() <==> {
                &&& f.n_colors == n && f.n_descriptors == n && f.n_octaves == n
                    && f.n_orientations == n
                &&& f.u_right@.len() == f.depth@.len() || n == 0
                &&& f.u_right@.len() == 0 || f.u_right@.len() == n
                &&& f.depth@.len() == 0 || f.depth@.len() == n
            }
        }),
        f.all_finite() <==> (forall|i: int|
            0 <= i < f.keypoints_xy@.len() ==> (#[trigger] f.keypoints_xy@[i]).x.finite()
                && f.keypoints_xy@[i].y.finite()) && (forall|i: int|
            0 <= i < f.u_right@.len() ==> (#[trigger] f.u_right@[i]).finite()) && (forall|i: int|
            0 <= i < f.depth@.len() ==> (#[trigger] f.depth@[i]).finite()),
{
}

/// The positive values of a list are counted one by one: a value above nought counts one, a zero, a
/// negative one or what is no number none.
pub proof fn positive_values_are_counted_one_by_one(v: Seq<Single>, x: Single)
    ensures
        positives(Seq::<Single>::empty()) == 0,
        x.bits > 0 && x.bits <= INF32 ==> positives(v.push(x)) == positives(v) + 1,
        x.bits == 0 || x.bits > INF32 ==> positives(v.push(x)) == positives(v),
{
    reveal(Seq::filter);
    assert(v.push(x).drop_last() =~= v);
    assert(v.push(x).last() == x);
}

/// A coordinate falls on a column inside the image: its whole part where that lies inside, the first
/// one for what is negative or no number, and the last one for what is past it.
pub proof fn a_coordinate_falls_inside_the_image(v: Single, len: usize)
    requires
        len > 0,
    ensures
        0 <= clamped(v, len) < len,
        v.negative() || v.nan() ==> clamped(v, len) == 0,
        v.finite() && !v.negative() && v.whole() < len ==> clamped(v, len) == v.whole(),
        v.finite() && !v.negative() && v.whole() >= len ==> clamped(v, len) == len - 1,
        v.bits == INF32 ==> clamped(v, len) == len - 1,
{
}

/// The refusals of the inertial path are those of every reason, added up.
pub proof fn refusals_are_added_up(s: InertialStats)
    ensures
        s.refusals() == s.refused_dropped + s.refused_gap + s.refused_too_few
            + s.refused_no_samples + s.refused_bad_interval + s.refused_zero_dt,
        InertialStats::zero().refusals() == 0,
{
}

/// The report on the inertial path holds its own counters, the ring's with its occupancy, whether
/// it is initialized, and what the map retains; without an inertial path there is none.
pub proof fn a_report_holds_the_counters(
    m: TrackerModel,
    retained_factors: usize,
    retained_samples: usize,
)
    requires
        m.wf(),
    ensures
        ({
            let r = m.inertial_report(retained_factors, retained_samples);
            &&& r is Some <==> m.inertial is Some
            &&& m.inertial matches Some(i) ==> {
                let s = r->0;
                &&& s.initialized == m.state.imu_initialized
                &&& s.retained_factors == retained_factors
                &&& s.retained_samples == retained_samples
                &&& s.factors_added == i.stats.factors_added
                &&& s.refusals() == i.stats.refusals()
                &&& s.refused_gap == i.stats.refused_gap
                &&& s.refused_dropped == i.stats.refused_dropped
                &&& s.init_attempts == i.stats.init_attempts
                &&& s.init_accepted == i.stats.init_accepted
                &&& s.first_refinement_done == i.stats.first_refinement_done
                &&& s.second_refinement_done == i.stats.second_refinement_done
                &&& s.buffer.buffered == i.buffer.samples.len()
                &&& s.buffer.accepted == i.buffer.stats.accepted
                &&& s.buffer.out_of_order == i.buffer.stats.out_of_order
                &&& s.buffer.evicted == i.buffer.stats.evicted
                &&& s.buffer.drop_reports == i.buffer.stats.drop_reports
            }
        }),
{
}

/// Dictionary order is an order: every text comes no later than itself and any that continues it,
/// of two texts one comes no later than the other, and both do only where they agree.
pub proof fn dictionary_order_is_an_order(a: Seq<u8>, b: Seq<u8>)
    ensures
        bytes_le(a, a),
        bytes_le(a, b) || bytes_le(b, a),
        bytes_le(a, b) && bytes_le(b, a) ==> a == b,
        a.len() > 0 && b.len() > 0 && a[0] < b[0] ==> bytes_le(a, b) && !bytes_le(b, a),
        bytes_le(Seq::<u8>::empty(), b),
    decreases a.len(),
{
    if a.len() > 0 && b.len() > 0 {
        dictionary_order_is_an_order(a.skip(1), b.skip(1));
        if bytes_le(a, b) && bytes_le(b, a) {
            assert(a.skip(1) == b.skip(1));
            assert(a =~= seq![a[0]] + a.skip(1));
            assert(b =~= seq![b[0]] + b.skip(1));
        }
    } else if a.len() > 0 {
        dictionary_order_is_an_order(a.skip(1), Seq::empty());
    } else if b.len() == 0 {
        assert(a =~= b);
    }
}

/// A key is reported as unknown if and only if it is none of the eight that are read.
pub proof fn an_unknown_key_is_none_of_those_read(keys: Seq<Seq<char>>, i: int)
    requires
        0 <= i < keys.len(),
    ensures
        config_keys_spec().len() == 8,
        unknown_among(keys, config_keys_spec()).contains(keys[i]) <==> {
            let k = keys[i];
            &&& k != "on_tracking_loss"@
            &&& k != "max_keyframes"@
            &&& k != "orb_keypoints"@
            &&& k != "search_radius_px"@
            &&& k != "max_covisible_keyframes"@
            &&& k != "pnp_lm_iterations"@
            &&& k != "landmark_buffers"@
            &&& k != "inertial"@
        },
{
    let known = config_keys_spec();
    let k = keys[i];
    let strange = |x: Seq<char>| !crate::config::is_known(known, x);
    let r = unknown_among(keys, known);
    assert(r == keys.filter(strange));
    assert(crate::config::is_known(known, k) <==> k == "on_tracking_loss"@ || k
        == "max_keyframes"@ || k == "orb_keypoints"@ || k == "search_radius_px"@ || k
        == "max_covisible_keyframes"@ || k == "pnp_lm_iterations"@ || k == "landmark_buffers"@ || k
        == "inertial"@) by {
        assert(known[0]@ == "on_tracking_loss"@);
        assert(known[1]@ == "max_keyframes"@);
        assert(known[2]@ == "orb_keypoints"@);
        assert(known[3]@ == "search_radius_px"@);
        assert(known[4]@ == "max_covisible_keyframes"@);
        assert(known[5]@ == "pnp_lm_iterations"@);
        assert(known[6]@ == "landmark_buffers"@);
        assert(known[7]@ == "inertial"@);
    }
    if strange(k) {
        keys.lemma_filter_contains(strange, i);
    }
    if r.contains(k) {
        let j = choose|j: int| 0 <= j < r.len() && #[trigger] r[j] == k;
        keys.lemma_filter_pred(strange, j);
    }
}

/// A frame's fault names its lengths, as they are, or the first value that is not finite: of the
/// keypoints first, then of the right columns, then of the depths.
pub proof fn a_frame_fault_names_the_first_bad_value(f: FrameArrays, e: VioError)
    requires
        names_frame_fault(f, e),
        f.keypoints_xy@.len() <= usize::MAX && f.u_right@.len() <= usize::MAX && f.depth@.len()
            <= usize::MAX,
    ensures
        !f.parallel() ==> match e {
            VioError::FrameArraysNotParallel {
                n_keypoints,
                n_u_right,
                n_depth,
                n_colors,
                n_descriptors,
                n_octaves,
                n_orientations,
            } => n_keypoints == f.keypoints_xy@.len() && n_u_right == f.u_right@.len() && n_depth
                == f.depth@.len() && n_colors == f.n_colors && n_descriptors == f.n_descriptors
                && n_octaves == f.n_octaves && n_orientations == f.n_orientations,
            _ => false,
        },
        f.parallel() ==> match e {
            VioError::NonFiniteFrameValue { field, index, value } => {
                let keypoints_fine = forall|i: int|
                    0 <= i < f.keypoints_xy@.len() ==> (#[trigger] f.keypoints_xy@[i]).x.finite()
                        && f.keypoints_xy@[i].y.finite();
                let columns_fine = forall|i: int|
                    0 <= i < f.u_right@.len() ==> (#[trigger] f.u_right@[i]).finite();
                &&& !value.finite()
                &&& !keypoints_fine ==> {
                    &&& field == "keypoints_xy"
                    &&& index < f.keypoints_xy@.len()
                    &&& !(f.keypoints_xy@[index as int].x.finite()
                        && f.keypoints_xy@[index as int].y.finite())
                    &&& forall|i: int|
                        0 <= i < index ==> (#[trigger] f.keypoints_xy@[i]).x.finite()
                            && f.keypoints_xy@[i].y.finite()
                }
                &&& keypoints_fine && !columns_fine ==> {
                    &&& field == "u_right"
                    &&& index < f.u_right@.len()
                    &&& !f.u_right@[index as int].finite()
                    &&& forall|i: int| 0 <= i < index ==> (#[trigger] f.u_right@[i]).finite()
                }
                &&& keypoints_fine && columns_fine ==> {
                    &&& field == "depth"
                    &&& index < f.depth@.len()
                    &&& !f.depth@[index as int].finite()
                    &&& forall|i: int| 0 <= i < index ==> (#[trigger] f.depth@[i]).finite()
                }
            },
            _ => false,
        },
{
}

/// The total order ranks finite numbers as the numbers do, places the negative zero before the other,
/// and tells any two patterns apart.
pub proof fn the_total_order_ranks_as_the_numbers_do(a: Double, b: Double)
    ensures
        a.finite() && b.finite() && a.exact() < b.exact() ==> a.total_rank() < b.total_rank(),
        a.total_rank() == b.total_rank() <==> a == b,
        (Double { bits: 0x8000_0000_0000_0000 }).total_rank() < (Double { bits: 0 }).total_rank(),
        a.nan() && !a.negative() && b.finite() ==> b.total_rank() < a.total_rank(),
        a.nan() && a.negative() && b.finite() ==> a.total_rank() < b.total_rank(),
{
    if a.finite() && b.finite() {
        crate::ieee::double_order_is_numeric(a, b);
    }
}

/// An image lies row by row: the next column is the next byte, and the next row is a width further.
pub proof fn an_image_lies_row_by_row(g: GrayImage, x: int, y: int)
    requires
        g.wf(),
        0 <= x < g.width,
        0 <= y < g.height,
    ensures
        g.at(x, y) == g.data@[y * g.width + x],
        0 <= y * g.width + x < g.data@.len(),
        g.at(0, 0) == g.data@[0],
        y == 0 ==> g.at(x, y) == g.data@[x],
        x == 0 && y == 1 ==> g.at(x, y) == g.data@[g.width as int],
{
    assert(0 <= y * g.width && y * g.width + x < g.width * g.height) by (nonlinear_arith)
        requires
            0 <= x < g.width,
            0 <= y < g.height,
    ;
    if y == 1 {
        assert(y * g.width == g.width);
    }
}

/// Texts in byte order come one after the other in dictionary order of their bytes.
pub proof fn texts_in_byte_order_follow_the_dictionary(v: Seq<Seq<char>>, i: int, j: int)
    requires
        in_byte_order(v),
        0 <= i <= j < v.len(),
    ensures
        bytes_le(vstd::utf8::encode_utf8(v[i]), vstd::utf8::encode_utf8(v[j])),
{
    assert(crate::config::text_le(v[i], v[j]));
}

/// Gravity before it is estimated points straight down the world's third axis, at 9.81 metres per
/// second squared.
pub proof fn initial_gravity_points_down()
    ensures
        crate::state::initial_gravity().x.bits == 0,
        crate::state::initial_gravity().y.bits == 0,
        crate::state::initial_gravity().z.negative(),
        crate::state::initial_gravity().z.abs_spec().bits == 0x4023_9eb8_51eb_851f,
{
}

/// What nothing was measured of is at rest, at the ice point.
pub proof fn an_unmeasured_sample_is_at_rest()
    ensures
        ({
            let p = crate::payload::ImuPayload::at_rest();
            &&& p.accel_x.bits == 0 && p.accel_y.bits == 0 && p.accel_z.bits == 0
            &&& p.gyro_x.bits == 0 && p.gyro_y.bits == 0 && p.gyro_z.bits == 0
            &&& p.temperature.bits == 0x4388_9333
        }),
{
}

} // verus!
