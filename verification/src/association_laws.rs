//! Which points, keypoints and matches the map's steps take, and which they leave.
use crate::association::{
    associated_upto, claims_first, close_free_upto, everything, explained_upto, fusable,
    fusion_proposal, grown_upto, growth_pairs_upto, keypoint_free, live_points_between,
    nearest_positions, proposals_upto, reloc_proposal, reloc_proposals, unassociated_upto, window_start,
    KeyframeDescriptors, KeypointPair, MapPointRecord, PairGeometry, PointMatch, Sighting, StereoDepth,
};
use crate::ieee::{Double, Single};
use crate::matching::{hamming, is_best, keeps_best_per_keypoint, nearest, ones, Match};
use crate::order::{is_stable_order, ordering, orders_range, total_keys_spec};
use vstd::prelude::*;

verus! {

proof fn lemma_split(keys: Seq<u128>, order: Seq<usize>, n: int, k: int) -> (p: int)
    requires
        0 <= n < keys.len(),
        orders_range(keys, 0, n, order),
        0 <= k <= order.len(),
        forall|i: int| k <= i < order.len() ==> keys[#[trigger] order[i] as int] > keys[n],
    ensures
        0 <= p <= order.len(),
        forall|i: int| 0 <= i < p ==> keys[#[trigger] order[i] as int] <= keys[n],
        forall|i: int| p <= i < order.len() ==> keys[#[trigger] order[i] as int] > keys[n],
    decreases k,
{
    if k == 0 {
        0
    } else if keys[order[k - 1] as int] > keys[n] {
        lemma_split(keys, order, n, k - 1)
    } else {
        assert forall|i: int| 0 <= i < k implies keys[#[trigger] order[i] as int] <= keys[n] by {
            if i < k - 1 {
                assert(crate::order::before(keys, order[i] as int, order[k - 1] as int));
            }
        }
        k
    }
}

proof fn lemma_an_order_exists(keys: Seq<u128>, n: int) -> (order: Seq<usize>)
    requires
        0 <= n <= keys.len() <= usize::MAX,
    ensures
        orders_range(keys, 0, n, order),
    decreases n,
{
    if n == 0 {
        Seq::empty()
    } else {
        let o = lemma_an_order_exists(keys, n - 1);
        let p = lemma_split(keys, o, n - 1, o.len() as int);
        let last = (n - 1) as usize;
        let r = o.insert(p, last);
        assert(r.len() == n);
        assert forall|k: usize| 0 <= k < n implies #[trigger] r.contains(k) by {
            if k == last {
                assert(r[p] == k);
            } else {
                assert(o.contains(k));
                let i = choose|i: int| 0 <= i < o.len() && #[trigger] o[i] == k;
                if i < p {
                    assert(r[i] == k);
                } else {
                    assert(r[i + 1] == k);
                }
            }
        }
        assert forall|i: int, j: int| 0 <= i < j < r.len() implies crate::order::before(
            keys,
            #[trigger] r[i] as int,
            #[trigger] r[j] as int,
        ) by {
            let a = if i < p { i } else { i - 1 };
            let b = if j < p { j } else { j - 1 };
            if i != p && j != p {
                assert(r[i] == o[a] && r[j] == o[b]);
            } else if i == p {
                assert(r[j] == o[b]);
            } else {
                assert(r[i] == o[a]);
            }
        }
        assert forall|i: int| 0 <= i < r.len() implies 0 <= #[trigger] r[i] < n by {
            if i < p {
                assert(r[i] == o[i]);
            } else if i > p {
                assert(r[i] == o[i - 1]);
            }
        }
        r
    }
}

/// Every list of keys has its ordering, which lists every position once: by rising key, and by
/// rising position where keys agree.
pub proof fn every_list_has_its_ordering(keys: Seq<u128>)
    requires
        keys.len() <= usize::MAX,
    ensures
        is_stable_order(keys, ordering(keys)),
        ordering(keys).len() == keys.len(),
{
    let order = lemma_an_order_exists(keys, keys.len() as int);
    assert(is_stable_order(keys, order));
}

/// The candidates a lost frame is matched against are the nearest there are: each is a position in
/// the list, none twice, by rising distance; there are as many as asked for or as there are
/// distances; and no position that is left out is nearer than one that is taken.
pub proof fn candidates_are_the_nearest(distances: Seq<Double>, max: usize)
    requires
        distances.len() <= usize::MAX,
    ensures
        ({
            let r = nearest_positions(distances, max);
            &&& r.len() <= max
            &&& r.len() == max || r.len() == distances.len()
            &&& forall|i: int| 0 <= i < r.len() ==> (#[trigger] r[i]) < distances.len()
            &&& forall|i: int, j: int|
                0 <= i < j < r.len() ==> {
                    let a = #[trigger] r[i];
                    let b = #[trigger] r[j];
                    a != b && (distances[a as int].total_rank() < distances[b as int].total_rank()
                        || (distances[a as int].total_rank() == distances[b as int].total_rank() && a
                        < b))
                }
            &&& forall|i: int, k: usize|
                0 <= i < r.len() && k < distances.len() && !(#[trigger] r.contains(k)) ==> {
                    let a = #[trigger] r[i];
                    distances[a as int].total_rank() <= distances[k as int].total_rank()
                }
        }),
{
    let keys = total_keys_spec(distances);
    every_list_has_its_ordering(keys);
    let order = ordering(keys);
    let r = nearest_positions(distances, max);
    assert forall|i: int| 0 <= i < r.len() implies #[trigger] r[i] == order[i] by {}
    assert forall|k: int| 0 <= k < distances.len() implies #[trigger] keys[k]
        == distances[k].total_rank() + crate::ieee::SIGN64 by {}
    assert forall|i: int, j: int| 0 <= i < j < r.len() implies {
        let a = #[trigger] r[i];
        let b = #[trigger] r[j];
        a != b && (distances[a as int].total_rank() < distances[b as int].total_rank() || (
        distances[a as int].total_rank() == distances[b as int].total_rank() && a < b))
    } by {
        assert(crate::order::before(keys, order[i] as int, order[j] as int));
        assert(keys[order[i] as int] == distances[order[i] as int].total_rank()
            + crate::ieee::SIGN64);
        assert(keys[order[j] as int] == distances[order[j] as int].total_rank()
            + crate::ieee::SIGN64);
    }
    assert forall|i: int, k: usize|
        0 <= i < r.len() && k < distances.len() && !(#[trigger] r.contains(k)) implies {
        let a = #[trigger] r[i];
        distances[a as int].total_rank() <= distances[k as int].total_rank()
    } by {
        assert(order.contains(k));
        let x = choose|x: int| 0 <= x < order.len() && #[trigger] order[x] == k;
        if x < r.len() {
            assert(r[x] == k);
        }
        assert(crate::order::before(keys, order[i] as int, order[x] as int));
        assert(keys[order[i] as int] == distances[order[i] as int].total_rank()
            + crate::ieee::SIGN64);
        assert(keys[k as int] == distances[k as int].total_rank() + crate::ieee::SIGN64);
    }
}

/// The free keypoints are those without a map point, each once and in order, and all of them.
pub proof fn free_keypoints_are_those_without_a_point(points: Seq<Option<usize>>, n: int)
    requires
        0 <= n <= points.len() <= usize::MAX,
    ensures
        ({
            let r = unassociated_upto(points, n);
            &&& forall|i: int|
                0 <= i < r.len() ==> (#[trigger] r[i]) < n && points[r[i] as int] is None
            &&& forall|i: int, j: int|
                0 <= i < j < r.len() ==> (#[trigger] r[i]) < (#[trigger] r[j])
            &&& forall|k: usize|
                k < n && points[k as int] is None ==> #[trigger] r.contains(k)
        }),
    decreases n,
{
    if n > 0 {
        free_keypoints_are_those_without_a_point(points, n - 1);
        let rest = unassociated_upto(points, n - 1);
        let r = unassociated_upto(points, n);
        assert forall|k: usize| k < n && points[k as int] is None implies #[trigger] r.contains(
            k,
        ) by {
            if k == n - 1 {
                assert(r[rest.len() as int] == k);
            } else {
                assert(rest.contains(k));
                let i = choose|i: int| 0 <= i < rest.len() && #[trigger] rest[i] == k;
                assert(r[i] == k);
            }
        }
    }
}

/// The associated points of a keyframe are the points of its keypoints, all of them, and as many as
/// there are keypoints with one.
pub proof fn associated_points_are_those_of_the_keypoints(points: Seq<Option<usize>>, n: int)
    requires
        0 <= n <= points.len() <= usize::MAX,
    ensures
        ({
            let r = associated_upto(points, n);
            &&& r.len() + unassociated_upto(points, n).len() == n
            &&& forall|i: int|
                0 <= i < r.len() ==> points.contains(Some(#[trigger] r[i]))
            &&& forall|k: int|
                0 <= k < n && (#[trigger] points[k]) is Some ==> r.contains(points[k]->0)
            &&& (forall|k: int| 0 <= k < n ==> (#[trigger] points[k]) is Some) ==> r.len() == n
                && forall|k: int| 0 <= k < n ==> Some(#[trigger] r[k]) == points[k]
        }),
    decreases n,
{
    if n > 0 {
        associated_points_are_those_of_the_keypoints(points, n - 1);
        let rest = associated_upto(points, n - 1);
        let r = associated_upto(points, n);
        assert forall|i: int| 0 <= i < r.len() implies points.contains(Some(#[trigger] r[i])) by {
            if i < rest.len() {
                assert(r[i] == rest[i]);
            } else {
                assert(points[n - 1] == Some(r[i]));
            }
        }
        assert forall|k: int| 0 <= k < n && (#[trigger] points[k]) is Some implies r.contains(
            points[k]->0,
        ) by {
            if k == n - 1 {
                assert(r[rest.len() as int] == points[k]->0);
            } else {
                assert(rest.contains(points[k]->0));
                let i = choose|i: int| 0 <= i < rest.len() && #[trigger] rest[i] == points[k]->0;
                assert(r[i] == rest[i]);
            }
        }
    }
}

/// A pair can be two views of one point if and only if it is located, no nearer to the epipole than
/// the limit, on a line whose normal is longer than nothing, and no further off that line than the
/// limit: by the numbers, where they are finite.
pub proof fn a_pair_is_plausible_inside_every_limit(g: PairGeometry)
    requires
        g.epipole_distance_sq matches Some(d) ==> d.finite(),
        g.epipole_limit_sq.finite(),
        g.line_norm_sq.finite(),
        g.offset_sq.finite(),
        g.offset_limit_sq.finite(),
    ensures
        g.plausible() <==> {
            &&& g.located
            &&& g.epipole_distance_sq matches Some(d) ==> d.exact() >= g.epipole_limit_sq.exact()
            &&& g.line_norm_sq.exact() > (Double { bits: 0x3d71_9799_812d_ea11 }).exact()
            &&& g.offset_sq.exact() <= g.offset_limit_sq.exact()
        },
{
    let least = Double { bits: 0x3d71_9799_812d_ea11 };
    assert(least.finite());
    crate::ieee::double_order_is_numeric(g.line_norm_sq, least);
    crate::ieee::double_order_is_numeric(least, g.line_norm_sq);
    crate::ieee::double_order_is_numeric(g.offset_limit_sq, g.offset_sq);
    crate::ieee::double_order_is_numeric(g.offset_sq, g.offset_limit_sq);
    if g.epipole_distance_sq is Some {
        crate::ieee::double_order_is_numeric(g.epipole_distance_sq->0, g.epipole_limit_sq);
        crate::ieee::double_order_is_numeric(g.epipole_limit_sq, g.epipole_distance_sq->0);
    }
}

/// A pair that is selected for growth joins the two keypoints of one plausible match, in both
/// keyframes' own numbers.
pub proof fn a_growth_pair_joins_the_keypoints_of_a_match(
    matches: Seq<KeypointPair>,
    geometry: Seq<PairGeometry>,
    prev_free: Seq<usize>,
    curr_free: Seq<usize>,
    n: int,
    i: int,
)
    requires
        0 <= i < growth_pairs_upto(matches, geometry, prev_free, curr_free, n).len(),
    ensures
        ({
            let p = growth_pairs_upto(matches, geometry, prev_free, curr_free, n)[i];
            exists|j: int|
                i <= j < n && (#[trigger] matches[j]).prev < prev_free.len() && matches[j].curr
                    < curr_free.len() && p.prev == prev_free[matches[j].prev as int] && p.curr
                    == curr_free[matches[j].curr as int] && geometry[j].plausible()
        }),
    decreases n,
{
    if n > 0 {
        let rest = growth_pairs_upto(matches, geometry, prev_free, curr_free, n - 1);
        let p = growth_pairs_upto(matches, geometry, prev_free, curr_free, n)[i];
        lemma_no_more_pairs_than_matches(matches, geometry, prev_free, curr_free, n - 1);
        if i < rest.len() {
            a_growth_pair_joins_the_keypoints_of_a_match(
                matches,
                geometry,
                prev_free,
                curr_free,
                n - 1,
                i,
            );
            assert(p == rest[i]);
        } else {
            assert(matches[n - 1].prev < prev_free.len());
        }
    }
}

proof fn lemma_no_more_pairs_than_matches(
    matches: Seq<KeypointPair>,
    geometry: Seq<PairGeometry>,
    prev_free: Seq<usize>,
    curr_free: Seq<usize>,
    n: int,
)
    requires
        0 <= n,
    ensures
        growth_pairs_upto(matches, geometry, prev_free, curr_free, n).len() <= n,
    decreases n,
{
    if n > 0 {
        lemma_no_more_pairs_than_matches(matches, geometry, prev_free, curr_free, n - 1);
    }
}

/// A plausible match that no earlier one forestalls is selected: one whose keypoint of the later
/// keyframe no earlier match names.
pub proof fn an_uncontested_match_is_grown_from(
    matches: Seq<KeypointPair>,
    geometry: Seq<PairGeometry>,
    prev_free: Seq<usize>,
    curr_free: Seq<usize>,
    n: int,
    k: int,
)
    requires
        0 <= k < n,
        matches[k].prev < prev_free.len(),
        matches[k].curr < curr_free.len(),
        geometry[k].plausible(),
        forall|j: int|
            0 <= j < k && (#[trigger] matches[j]).curr < curr_free.len()
                ==> curr_free[matches[j].curr as int] != curr_free[matches[k].curr as int],
    ensures
        growth_pairs_upto(matches, geometry, prev_free, curr_free, n).contains(
            (KeypointPair {
                prev: prev_free[matches[k].prev as int],
                curr: curr_free[matches[k].curr as int],
            }),
        ),
    decreases n,
{
    let rest = growth_pairs_upto(matches, geometry, prev_free, curr_free, n - 1);
    let r = growth_pairs_upto(matches, geometry, prev_free, curr_free, n);
    let p = KeypointPair {
        prev: prev_free[matches[k].prev as int],
        curr: curr_free[matches[k].curr as int],
    };
    if k == n - 1 {
        assert(claims_first(matches, prev_free, curr_free, k));
        assert(r[rest.len() as int] == p);
    } else {
        an_uncontested_match_is_grown_from(matches, geometry, prev_free, curr_free, n - 1, k);
        let i = choose|i: int| 0 <= i < rest.len() && #[trigger] rest[i] == p;
        assert(r[i] == p);
    }
}

/// A triangulated pair becomes a point if and only if it names a selected pair whose keypoint of
/// the later keyframe is free; the points stay in the results' order.
pub proof fn a_pair_becomes_a_point_where_its_keypoint_is_free(
    triangulated: Seq<usize>,
    pairs: Seq<KeypointPair>,
    curr_points: Seq<Option<usize>>,
    n: int,
    k: int,
)
    requires
        0 <= k < n <= triangulated.len() <= usize::MAX,
    ensures
        ({
            let p = triangulated[k];
            let taken = p < pairs.len() && (pairs[p as int].curr >= curr_points.len()
                || curr_points[pairs[p as int].curr as int] is None);
            let r = grown_upto(triangulated, pairs, curr_points, n);
            &&& taken ==> r.contains((k as usize, pairs[p as int]))
            &&& !taken ==> forall|i: int| 0 <= i < r.len() ==> (#[trigger] r[i]).0 != k
            &&& forall|i: int|
                0 <= i < r.len() && (#[trigger] r[i]).0 == k ==> r[i].1 == pairs[p as int]
            &&& forall|i: int| 0 <= i < r.len() ==> (#[trigger] r[i]).0 < n
            &&& forall|i: int, j: int|
                0 <= i < j < r.len() ==> (#[trigger] r[i]).0 < (#[trigger] r[j]).0
        }),
    decreases n,
{
    let rest = grown_upto(triangulated, pairs, curr_points, n - 1);
    let r = grown_upto(triangulated, pairs, curr_points, n);
    lemma_grown_positions(triangulated, pairs, curr_points, n);
    lemma_grown_positions(triangulated, pairs, curr_points, n - 1);
    let p = triangulated[k];
    if k == n - 1 {
        if p < pairs.len() && keypoint_free(curr_points, pairs[p as int].curr) {
            assert(r[rest.len() as int] == (k as usize, pairs[p as int]));
        }
        assert forall|i: int| 0 <= i < rest.len() implies (#[trigger] r[i]).0 != k by {
            assert(r[i] == rest[i]);
        }
    } else {
        a_pair_becomes_a_point_where_its_keypoint_is_free(triangulated, pairs, curr_points, n - 1, k);
        if rest.contains((k as usize, pairs[p as int])) {
            let i = choose|i: int|
                0 <= i < rest.len() && #[trigger] rest[i] == (k as usize, pairs[p as int]);
            assert(r[i] == rest[i]);
        }
        assert forall|i: int| 0 <= i < r.len() && (#[trigger] r[i]).0 == k implies i < rest.len()
            && r[i] == rest[i] by {}
    }
}

proof fn lemma_grown_positions(
    triangulated: Seq<usize>,
    pairs: Seq<KeypointPair>,
    curr_points: Seq<Option<usize>>,
    n: int,
)
    requires
        0 <= n <= triangulated.len() <= usize::MAX,
    ensures
        forall|i: int|
            0 <= i < grown_upto(triangulated, pairs, curr_points, n).len() ==> (
            #[trigger] grown_upto(triangulated, pairs, curr_points, n)[i]).0 < n,
        forall|i: int, j: int|
            0 <= i < j < grown_upto(triangulated, pairs, curr_points, n).len() ==> (
            #[trigger] grown_upto(triangulated, pairs, curr_points, n)[i]).0 < (
            #[trigger] grown_upto(triangulated, pairs, curr_points, n)[j]).0,
    decreases n,
{
    if n > 0 {
        lemma_grown_positions(triangulated, pairs, curr_points, n - 1);
        let rest = grown_upto(triangulated, pairs, curr_points, n - 1);
        let r = grown_upto(triangulated, pairs, curr_points, n);
        assert forall|i: int| 0 <= i < r.len() implies (#[trigger] r[i]).0 < n by {
            if i < rest.len() {
                assert(r[i] == rest[i]);
            }
        }
        assert forall|i: int, j: int| 0 <= i < j < r.len() implies (#[trigger] r[i]).0 < (
        #[trigger] r[j]).0 by {
            assert(r[i] == rest[i]);
            if j < rest.len() {
                assert(r[j] == rest[j]);
            }
        }
    }
}

/// A stereo keypoint is added as a point if and only if it is no deeper than the limit and has no
/// map point yet; those that are added stay in order.
pub proof fn a_close_free_keypoint_is_added(
    stereo: Seq<StereoDepth>,
    points: Seq<Option<usize>>,
    limit: Double,
    n: int,
)
    requires
        0 <= n <= stereo.len() <= usize::MAX,
    ensures
        ({
            let r = close_free_upto(stereo, points, limit, n);
            &&& forall|i: int, j: int|
                0 <= i < j < r.len() ==> (#[trigger] r[i]) < (#[trigger] r[j])
            &&& forall|i: int| 0 <= i < r.len() ==> (#[trigger] r[i]) < n
            &&& forall|k: usize|
                k < n ==> (#[trigger] r.contains(k) <==> {
                    let s = stereo[k as int];
                    &&& !limit.lt_spec(s.depth)
                    &&& s.keypoint >= points.len() || points[s.keypoint as int] is None
                })
        }),
    decreases n,
{
    if n > 0 {
        a_close_free_keypoint_is_added(stereo, points, limit, n - 1);
        let rest = close_free_upto(stereo, points, limit, n - 1);
        let r = close_free_upto(stereo, points, limit, n);
        assert forall|k: usize| k < n implies (#[trigger] r.contains(k) <==> {
            let s = stereo[k as int];
            &&& !limit.lt_spec(s.depth)
            &&& s.keypoint >= points.len() || points[s.keypoint as int] is None
        }) by {
            if k == n - 1 {
                assert(!rest.contains(k));
                if r.len() > rest.len() {
                    assert(r[rest.len() as int] == k);
                } else {
                    assert(r == rest);
                }
            } else {
                if rest.contains(k) {
                    let i = choose|i: int| 0 <= i < rest.len() && #[trigger] rest[i] == k;
                    assert(r[i] == k);
                }
                if r.contains(k) {
                    let i = choose|i: int| 0 <= i < r.len() && #[trigger] r[i] == k;
                    assert(rest[i] == k);
                }
            }
        }
    }
}

/// A keypoint of a keyframe proposes its own live map point at the frame's nearest descriptor, if
/// that is near enough, and proposes nothing otherwise.
pub proof fn a_keypoint_proposes_its_live_point(
    keyframe: KeyframeDescriptors,
    live: Seq<bool>,
    frame: Seq<[u8; 32]>,
    max_hamming: u32,
    k: int,
)
    requires
        keyframe.parallel(),
        0 <= k < keyframe.points@.len(),
        frame.len() <= usize::MAX,
    ensures
        ({
            let r = reloc_proposal(keyframe, live, frame, max_hamming, k);
            let d = keyframe.descriptors@[k]@;
            let has = keyframe.points@[k] matches Some(p) && p < live.len() && live[p as int];
            &&& r matches Some(m) ==> {
                &&& has
                &&& keyframe.points@[k] == Some(m.point)
                &&& m.keypoint < frame.len()
                &&& hamming(d, frame[m.keypoint as int]@) <= max_hamming
                &&& m.distance == hamming(d, frame[m.keypoint as int]@)
                &&& forall|j: int|
                    0 <= j < frame.len() ==> hamming(d, frame[m.keypoint as int]@) <= hamming(
                        d,
                        #[trigger] frame[j]@,
                    )
            }
            &&& has && r is None ==> forall|j: int|
                0 <= j < frame.len() ==> hamming(d, #[trigger] frame[j]@) > max_hamming
        }),
{
    let d = keyframe.descriptors@[k]@;
    let all = everything(frame.len());
    crate::matching::nearest_is_the_first_closest(d, frame, all);
    assert forall|j: int| 0 <= j < frame.len() implies #[trigger] all[j] by {}
    let near = nearest(d, frame, all);
    if near is None {
        assert forall|j: int| 0 <= j < frame.len() implies hamming(d, #[trigger] frame[j]@)
            > max_hamming by {
            assert(all[j]);
        }
    } else {
        assert forall|j: int| 0 <= j < frame.len() implies hamming(d, frame[near->0]@) <= hamming(
            d,
            #[trigger] frame[j]@,
        ) by {
            assert(all[j]);
        }
    }
}

/// What a keyframe proposes is what its keypoints do, all of it and nothing else.
pub proof fn a_keyframe_proposes_what_its_keypoints_do(
    keyframe: KeyframeDescriptors,
    live: Seq<bool>,
    frame: Seq<[u8; 32]>,
    max_hamming: u32,
    n: int,
    k: int,
)
    requires
        0 <= k < n,
    ensures
        ({
            let r = reloc_proposals(keyframe, live, frame, max_hamming, n);
            &&& reloc_proposal(keyframe, live, frame, max_hamming, k) matches Some(m)
                ==> r.contains(m)
            &&& r.len() <= n
        }),
    decreases n,
{
    let rest = reloc_proposals(keyframe, live, frame, max_hamming, n - 1);
    let r = reloc_proposals(keyframe, live, frame, max_hamming, n);
    if k < n - 1 {
        a_keyframe_proposes_what_its_keypoints_do(keyframe, live, frame, max_hamming, n - 1, k);
        if reloc_proposal(keyframe, live, frame, max_hamming, k) is Some {
            let m = reloc_proposal(keyframe, live, frame, max_hamming, k)->0;
            let i = choose|i: int| 0 <= i < rest.len() && #[trigger] rest[i] == m;
            assert(r[i] == m);
        }
    } else {
        if n > 1 {
            a_keyframe_proposes_what_its_keypoints_do(
                keyframe,
                live,
                frame,
                max_hamming,
                n - 1,
                n - 2,
            );
        }
        if reloc_proposal(keyframe, live, frame, max_hamming, k) is Some {
            assert(r[rest.len() as int] == reloc_proposal(keyframe, live, frame, max_hamming, k)->0);
        }
    }
}

/// Whatever a keyframe proposes, one of its keypoints does, no earlier in its own list.
pub proof fn a_proposal_comes_from_a_keypoint(
    keyframe: KeyframeDescriptors,
    live: Seq<bool>,
    frame: Seq<[u8; 32]>,
    max_hamming: u32,
    n: int,
    i: int,
)
    requires
        0 <= i < reloc_proposals(keyframe, live, frame, max_hamming, n).len(),
    ensures
        exists|k: int|
            i <= k < n && #[trigger] reloc_proposal(keyframe, live, frame, max_hamming, k) == Some(
                reloc_proposals(keyframe, live, frame, max_hamming, n)[i],
            ),
    decreases n,
{
    if n > 0 {
        if n > 1 {
            a_keyframe_proposes_what_its_keypoints_do(
                keyframe,
                live,
                frame,
                max_hamming,
                n - 1,
                n - 2,
            );
        }
        let rest = reloc_proposals(keyframe, live, frame, max_hamming, n - 1);
        if i < rest.len() {
            a_proposal_comes_from_a_keypoint(keyframe, live, frame, max_hamming, n - 1, i);
        } else {
            assert(reloc_proposal(keyframe, live, frame, max_hamming, n - 1) is Some);
        }
    }
}

/// A projected point proposes a free keypoint of the neighbour inside the search radius, the one
/// whose descriptor is nearest, if that is no more than fifty bits off; and nothing otherwise.
pub proof fn a_projected_point_proposes_a_free_keypoint(
    neighbour: KeyframeDescriptors,
    gaps: Seq<Option<Single>>,
    descriptor: Seq<u8>,
    point: usize,
)
    requires
        neighbour.parallel(),
        neighbour.points@.len() <= usize::MAX,
    ensures
        ({
            let r = fusion_proposal(neighbour, gaps, descriptor, point);
            let open = |k: int|
                neighbour.points@[k] is None && gaps[k] is Some && !(Single {
                    bits: 0x4244_0000,
                }).lt_spec(gaps[k]->0);
            &&& r matches Some(m) ==> {
                &&& m.point == point
                &&& m.keypoint < neighbour.points@.len()
                &&& open(m.keypoint as int)
                &&& m.distance <= 50
                &&& m.distance == hamming(descriptor, neighbour.descriptors@[m.keypoint as int]@)
                &&& forall|k: int|
                    0 <= k < neighbour.points@.len() && open(k) ==> m.distance <= hamming(
                        descriptor,
                        #[trigger] neighbour.descriptors@[k]@,
                    )
            }
            &&& r is None ==> forall|k: int|
                0 <= k < neighbour.points@.len() && open(k) ==> hamming(
                    descriptor,
                    #[trigger] neighbour.descriptors@[k]@,
                ) > 50
        }),
{
    let e = fusable(neighbour.points@, gaps);
    let d = neighbour.descriptors@;
    crate::matching::nearest_is_the_first_closest(descriptor, d, e);
    let open = |k: int|
        neighbour.points@[k] is None && gaps[k] is Some && !(Single { bits: 0x4244_0000 }).lt_spec(
            gaps[k]->0,
        );
    assert forall|k: int| 0 <= k < neighbour.points@.len() implies #[trigger] e[k] == open(k) by {}
    let near = nearest(descriptor, d, e);
    assert forall|k: int| 0 <= k < neighbour.points@.len() && open(k) implies near is Some
        && hamming(descriptor, d[near->0]@) <= hamming(descriptor, #[trigger] d[k]@) by {
        assert(e[k]);
    }
}

/// A point is projected into a neighbour if and only if it is live, not observed there yet, in front
/// of its camera and inside its image; what the neighbour is proposed is what those points propose.
pub proof fn only_new_points_in_view_are_proposed(neighbour: KeyframeDescriptors, s: Sighting)
    ensures
        ({
            let seen = s.live && !s.observed && !s.depth.le_spec(Double { bits: 0 }) && s.gaps
                is Some;
            &&& !seen ==> s.proposal(neighbour) is None
            &&& seen ==> s.proposal(neighbour) == fusion_proposal(
                neighbour,
                s.gaps->0@,
                s.descriptor@,
                s.point,
            )
        }),
{
}

/// What a neighbour is proposed is what the sighted points propose, all of it and nothing else.
pub proof fn a_neighbour_is_proposed_what_its_sightings_propose(
    neighbour: KeyframeDescriptors,
    sightings: Seq<Sighting>,
    n: int,
)
    requires
        0 <= n <= sightings.len(),
    ensures
        ({
            let r = proposals_upto(neighbour, sightings, n);
            &&& r.len() <= n
            &&& forall|k: int|
                0 <= k < n && (#[trigger] sightings[k]).proposal(neighbour) is Some ==> r.contains(
                    sightings[k].proposal(neighbour)->0,
                )
        }),
        forall|i: int|
            0 <= i < proposals_upto(neighbour, sightings, n).len() ==> exists|k: int|
                i <= k < n && (#[trigger] sightings[k]).proposal(neighbour) == Some(
                    #[trigger] proposals_upto(neighbour, sightings, n)[i],
                ),
    decreases n,
{
    if n > 0 {
        a_neighbour_is_proposed_what_its_sightings_propose(neighbour, sightings, n - 1);
        let rest = proposals_upto(neighbour, sightings, n - 1);
        let r = proposals_upto(neighbour, sightings, n);
        assert forall|k: int|
            0 <= k < n && (#[trigger] sightings[k]).proposal(neighbour) is Some implies r.contains(
            sightings[k].proposal(neighbour)->0,
        ) by {
            let m = sightings[k].proposal(neighbour)->0;
            if k == n - 1 {
                assert(r[rest.len() as int] == m);
            } else {
                assert(rest.contains(m));
                let i = choose|i: int| 0 <= i < rest.len() && #[trigger] rest[i] == m;
                assert(r[i] == m);
            }
        }
        assert forall|i: int| 0 <= i < r.len() implies exists|k: int|
            i <= k < n && (#[trigger] sightings[k]).proposal(neighbour) == Some(
                #[trigger] proposals_upto(neighbour, sightings, n)[i],
            ) by {
            if i < rest.len() {
                assert(r[i] == rest[i]);
                let k = choose|k: int|
                    i <= k < n - 1 && (#[trigger] sightings[k]).proposal(neighbour) == Some(
                        proposals_upto(neighbour, sightings, n - 1)[i],
                    );
                assert(sightings[k].proposal(neighbour) == Some(r[i]));
            } else {
                assert(sightings[n - 1].proposal(neighbour) == Some(r[i]));
            }
        }
    }
}

/// A match survives its pose where its point is live and it reprojects within the limit.
pub proof fn a_match_survives_where_the_pose_explains_it(
    matches: Seq<PointMatch>,
    errors_sq: Seq<Option<Double>>,
    live: Seq<bool>,
    limit_sq: Double,
    n: int,
    k: int,
)
    requires
        0 <= k < n <= matches.len(),
        matches[k].point < live.len(),
        live[matches[k].point as int],
        errors_sq[k] is Some,
        errors_sq[k]->0.le_spec(limit_sq),
    ensures
        explained_upto(matches, errors_sq, live, limit_sq, n).contains(matches[k]),
    decreases n,
{
    let rest = explained_upto(matches, errors_sq, live, limit_sq, n - 1);
    let r = explained_upto(matches, errors_sq, live, limit_sq, n);
    if k < n - 1 {
        a_match_survives_where_the_pose_explains_it(matches, errors_sq, live, limit_sq, n - 1, k);
        let i = choose|i: int| 0 <= i < rest.len() && #[trigger] rest[i] == matches[k];
        assert(r[i] == rest[i]);
    } else {
        assert(r[rest.len() as int] == matches[k]);
    }
}

/// A match that survives is one of those there were, unchanged, whose point is live and which
/// reprojects within the limit; and the survivors stay in order.
pub proof fn a_match_that_survives_is_explained(
    matches: Seq<PointMatch>,
    errors_sq: Seq<Option<Double>>,
    live: Seq<bool>,
    limit_sq: Double,
    n: int,
    i: int,
)
    requires
        0 <= n <= matches.len(),
        0 <= i < explained_upto(matches, errors_sq, live, limit_sq, n).len(),
    ensures
        ({
            let m = explained_upto(matches, errors_sq, live, limit_sq, n)[i];
            exists|j: int|
                i <= j < n && #[trigger] matches[j] == m && m.point < live.len()
                    && live[m.point as int] && errors_sq[j] is Some && errors_sq[j]->0.le_spec(
                    limit_sq,
                )
        }),
    decreases n,
{
    if n > 0 {
        let rest = explained_upto(matches, errors_sq, live, limit_sq, n - 1);
        let m = explained_upto(matches, errors_sq, live, limit_sq, n)[i];
        lemma_no_more_survive(matches, errors_sq, live, limit_sq, n - 1);
        if i < rest.len() {
            a_match_that_survives_is_explained(matches, errors_sq, live, limit_sq, n - 1, i);
            assert(rest[i] == m);
        } else {
            assert(matches[n - 1] == m);
        }
    }
}

proof fn lemma_no_more_survive(
    matches: Seq<PointMatch>,
    errors_sq: Seq<Option<Double>>,
    live: Seq<bool>,
    limit_sq: Double,
    n: int,
)
    requires
        0 <= n,
    ensures
        explained_upto(matches, errors_sq, live, limit_sq, n).len() <= n,
    decreases n,
{
    if n > 0 {
        lemma_no_more_survive(matches, errors_sq, live, limit_sq, n - 1);
    }
}

/// The window over a map is over its newest points: the last `cap`, or all of them.
pub proof fn a_window_is_over_the_newest_points(points: Seq<MapPointRecord>, cap: usize, k: int)
    requires
        points.len() <= usize::MAX,
        0 <= k < points.len(),
        !points[k].culled,
    ensures
        ({
            let r = live_points_between(
                points,
                window_start(points.len(), cap),
                points.len() as int,
            );
            r.contains((k as usize, points[k].position)) <==> points.len() - k <= cap
        }),
{
    let first = window_start(points.len(), cap);
    crate::association::a_window_lists_every_live_point_once(points, first, points.len() as int);
    let r = live_points_between(points, first, points.len() as int);
    if r.contains((k as usize, points[k].position)) {
        let i = choose|i: int| 0 <= i < r.len() && #[trigger] r[i] == (k as usize, points[k].position);
        assert(first <= r[i].0);
    }
}

/// Of every keypoint that is proposed, one match is kept, and it is the closest: no match of that
/// keypoint is closer than the one that is kept, and of several as close it is the first. They are
/// kept by rising keypoint.
pub proof fn the_closest_match_of_a_keypoint_is_kept(matches: Seq<Match>, kept: Seq<Match>, p: int)
    requires
        keeps_best_per_keypoint(matches, kept),
        0 <= p < matches.len(),
    ensures
        exists|i: int|
            0 <= i < kept.len() && (#[trigger] kept[i]).keypoint == matches[p].keypoint
                && kept[i].distance <= matches[p].distance,
        forall|i: int|
            0 <= i < kept.len() && (#[trigger] kept[i]).keypoint == matches[p].keypoint
                ==> kept[i].distance <= matches[p].distance && matches.contains(kept[i]),
        forall|i: int, j: int|
            0 <= i < j < kept.len() ==> (#[trigger] kept[i]).keypoint < (
            #[trigger] kept[j]).keypoint,
        (forall|q: int|
            0 <= q < matches.len() && (#[trigger] matches[q]).keypoint == matches[p].keypoint && q
                != p ==> matches[p].distance < matches[q].distance || (matches[p].distance
                == matches[q].distance && p < q)) ==> kept.contains(matches[p]),
{
    let q = lemma_best_of_its_keypoint(matches, p);
    assert(kept.contains(matches[q]));
    if forall|x: int|
        0 <= x < matches.len() && (#[trigger] matches[x]).keypoint == matches[p].keypoint && x != p
            ==> matches[p].distance < matches[x].distance || (matches[p].distance
            == matches[x].distance && p < x) {
        assert(is_best(matches, p));
    }
    assert forall|i: int|
        0 <= i < kept.len() && (#[trigger] kept[i]).keypoint == matches[p].keypoint implies
        kept[i].distance <= matches[p].distance && matches.contains(kept[i]) by {
        let x = choose|x: int|
            0 <= x < matches.len() && is_best(matches, x) && #[trigger] matches[x] == kept[i];
        assert(matches[p].keypoint == matches[x].keypoint);
    }
}

proof fn lemma_best_of_its_keypoint(matches: Seq<Match>, p: int) -> (q: int)
    requires
        0 <= p < matches.len(),
    ensures
        0 <= q < matches.len(),
        is_best(matches, q),
        matches[q].keypoint == matches[p].keypoint,
        matches[q].distance <= matches[p].distance,
    decreases matches[p].distance, p,
{
    if is_best(matches, p) {
        p
    } else {
        let b = choose|b: int|
            0 <= b < matches.len() && (#[trigger] matches[b]).keypoint == matches[p].keypoint && !(
            matches[p].distance < matches[b].distance || (matches[p].distance
                == matches[b].distance && p <= b));
        lemma_best_of_its_keypoint(matches, b)
    }
}

/// A free keypoint that is proposed is claimed by the closest of its proposals; a keypoint that has
/// a point is claimed by none. Claims are made by rising distance.
pub proof fn a_free_keypoint_goes_to_its_closest_proposal(
    matches: Seq<Match>,
    taken: Seq<Option<usize>>,
    claimed: Seq<usize>,
    p: int,
)
    requires
        crate::matching::claims_free_keypoints(matches, taken, claimed),
        matches.len() <= usize::MAX,
        0 <= p < matches.len(),
        matches[p].keypoint < taken.len(),
    ensures
        taken[matches[p].keypoint as int] is Some ==> !claimed.contains(p as usize),
        taken[matches[p].keypoint as int] is None ==> exists|i: int|
            0 <= i < claimed.len() && matches[#[trigger] claimed[i] as int].keypoint
                == matches[p].keypoint && matches[claimed[i] as int].distance
                <= matches[p].distance,
        forall|i: int, j: int|
            0 <= i < j < claimed.len() ==> matches[#[trigger] claimed[i] as int].distance
                <= matches[#[trigger] claimed[j] as int].distance,
{
    if taken[matches[p].keypoint as int] is None {
        let q = lemma_best_of_its_keypoint(matches, p);
        assert(matches[q].keypoint == matches[p].keypoint);
        assert(claimed.contains(q as usize));
    } else {
        assert(matches[p].keypoint < taken.len());
    }
}

/// A byte has no ones if and only if it is nought, and never more than its value.
pub proof fn only_nought_has_no_ones(b: u8)
    ensures
        ones(b) == 0 <==> b == 0,
        ones(b) <= b,
    decreases b,
{
    if b > 0 {
        only_nought_has_no_ones(b / 2);
    }
}

/// Descriptors are as far apart one way as the other, and not at all if and only if they agree.
pub proof fn descriptor_distance_is_symmetric(a: Seq<u8>, b: Seq<u8>)
    requires
        a.len() == b.len(),
    ensures
        hamming(a, b) == hamming(b, a),
        hamming(a, b) == 0 <==> a == b,
    decreases a.len(),
{
    if a.len() > 0 {
        let x = a.last();
        let y = b.last();
        descriptor_distance_is_symmetric(a.drop_last(), b.drop_last());
        assert(x ^ y == y ^ x) by (bit_vector);
        assert(x ^ y == 0 <==> x == y) by (bit_vector);
        only_nought_has_no_ones(x ^ y);
        assert(a == a.drop_last().push(x));
        assert(b == b.drop_last().push(y));
        if hamming(a, b) == 0 {
            assert(a.drop_last() == b.drop_last());
        }
        if a == b {
            assert(a.drop_last() == b.drop_last());
        }
    } else {
        assert(a =~= b);
    }
}

/// Fusing records, at every free keypoint of the neighbour that is proposed, the point of its
/// closest proposal, and leaves every other keypoint and every descriptor as it was.
pub proof fn a_proposed_keypoint_is_given_its_closest_point(
    before: KeyframeDescriptors,
    after: KeyframeDescriptors,
    sightings: Seq<Sighting>,
    proposals: Seq<Match>,
    claimed: Seq<usize>,
    k: int,
)
    requires
        crate::association::is_fused(before, after, sightings, proposals, claimed),
        proposals.len() <= usize::MAX,
        0 <= k < before.points@.len(),
    ensures
        after.descriptors == before.descriptors,
        before.points@[k] is Some ==> after.points@[k] == before.points@[k],
        (forall|p: int| 0 <= p < proposals.len() ==> (#[trigger] proposals[p]).keypoint != k)
            ==> after.points@[k] == before.points@[k],
        before.points@[k] is None ==> forall|p: int|
            0 <= p < proposals.len() && (#[trigger] proposals[p]).keypoint == k
                ==> after.points@[k] is Some && exists|q: int|
                0 <= q < proposals.len() && (#[trigger] proposals[q]).keypoint == k
                    && after.points@[k] == Some(proposals[q].point) && proposals[q].distance
                    <= proposals[p].distance,
{
    if before.points@[k] is Some {
        crate::association::fusion_keeps_associations(
            proposals,
            before.points@,
            after.points@,
            claimed,
            k,
        );
    } else {
        assert forall|p: int|
            0 <= p < proposals.len() && (#[trigger] proposals[p]).keypoint == k implies
            after.points@[k] is Some && exists|q: int|
            0 <= q < proposals.len() && (#[trigger] proposals[q]).keypoint == k && after.points@[k]
                == Some(proposals[q].point) && proposals[q].distance <= proposals[p].distance by {
            a_free_keypoint_goes_to_its_closest_proposal(proposals, before.points@, claimed, p);
            let i = choose|i: int|
                0 <= i < claimed.len() && proposals[#[trigger] claimed[i] as int].keypoint == k
                    && proposals[claimed[i] as int].distance <= proposals[p].distance;
            let q = claimed[i] as int;
            assert(proposals[q].keypoint == k);
        }
    }
}

/// The limits of growth and fusion: fifteen pairs to triangulate, a hundred millionth of a metre
/// between the cameras, and seven pixels and fifty bits to fuse within.
pub proof fn the_limits_of_growth_and_fusion()
    ensures
        crate::association::MIN_GROWTH_MATCHES == 15,
        crate::association::MIN_PAIR_DISTANCE_BITS == 0x3e45_798e_e230_8c3a,
        crate::association::FUSE_MAX_HAMMING == 50,
        crate::association::FUSE_RADIUS_SQ_BITS == 0x4244_0000,
{
}

} // verus!
