//! Which keypoints and map points are tied together: relocalization against old keyframes, growth
//! of new points from a keyframe pair, densification from stereo, fusion into neighbours, and the
//! rejection of matches that a solved pose does not explain.
//!
//! The geometry each decision looks at (distances, reprojection errors, epipolar offsets) is
//! measured by the caller; what is decided on those measurements is decided here.
use crate::geometry::Vec3;
use crate::ieee::{Double, Single};
use crate::matching::{
    best_per_keypoint, claim_matches, claims_free_keypoints, hamming, keeps_best_per_keypoint,
    nearest, nearest_descriptor, Match,
};
use crate::order::{
    a_stable_order_is_the_ordering, ordering, stable_order, total_keys, total_keys_spec,
};
use std::collections::HashSet;
use vstd::prelude::*;

verus! {

/// Settings for matching a lost frame against the existing map.
#[derive(Clone, Copy, Debug, PartialEq, Eq, Structural)]
pub struct RelocConfig {
    /// How many keyframes to try, nearest first.
    pub max_candidates: usize,
    /// Largest descriptor distance that counts as a match, in bits.
    pub max_hamming: u32,
    /// Fewest matches worth solving for a pose.
    pub min_matches: usize,
    /// Fewest inliers of a solved pose that make it a relocalization.
    pub min_inliers: usize,
    /// How far from the prior a match may reproject, in pixels.
    pub prior_reproj_threshold_px: Double,
    /// How long to keep trying before the map is given up, in seconds.
    pub patience: Double,
}

/// The pattern of `200.0`, the default reprojection gate in pixels.
pub const RELOC_REPROJ_BITS: u64 = 0x4069_0000_0000_0000;

/// The pattern of `3.0`, the default patience in seconds.
pub const RELOC_PATIENCE_BITS: u64 = 0x4008_0000_0000_0000;

impl RelocConfig {
    /// The default settings.
    pub open spec fn standard() -> RelocConfig {
        RelocConfig {
            max_candidates: 12,
            max_hamming: 60,
            min_matches: 20,
            min_inliers: 30,
            prior_reproj_threshold_px: Double { bits: RELOC_REPROJ_BITS },
            patience: Double { bits: RELOC_PATIENCE_BITS },
        }
    }
}

impl Default for RelocConfig {
    fn default() -> (r: RelocConfig)
        ensures
            r == RelocConfig::standard(),
    {
        RelocConfig {
            max_candidates: 12,
            max_hamming: 60,
            min_matches: 20,
            min_inliers: 30,
            prior_reproj_threshold_px: Double { bits: RELOC_REPROJ_BITS },
            patience: Double { bits: RELOC_PATIENCE_BITS },
        }
    }
}

/// The positions of the `max` smallest distances, nearest first, earlier positions first among
/// equals; all of them where there are no more.
pub open spec fn nearest_positions(distances: Seq<Double>, max: usize) -> Seq<usize> {
    let order = ordering(total_keys_spec(distances));
    if order.len() <= max {
        order
    } else {
        order.take(max as int)
    }
}

/// The positions of the `max` smallest distances, nearest first.
pub fn nearest_candidates(distances: &Vec<Double>, max: usize) -> (r: Vec<usize>)
    ensures
        r@ == nearest_positions(distances@, max),
{
    let keys: Vec<u128> = total_keys(distances);
    let mut order: Vec<usize> = stable_order(&keys);
    let ghost full = order@;
    proof {
        a_stable_order_is_the_ordering(keys@, full);
    }
    if order.len() > max {
        order.truncate(max);
        assert(order@ =~= full.take(max as int));
    }
    order
}

/// What a keyframe offers for matching: its descriptors, and the map point each is associated
/// with, if any.
#[derive(Debug)]
pub struct KeyframeDescriptors {
    /// Descriptor of each keypoint.
    pub descriptors: Vec<[u8; 32]>,
    /// Map point of each keypoint.
    pub points: Vec<Option<usize>>,
}

impl KeyframeDescriptors {
    /// Whether the two lists are index-parallel.
    pub open spec fn parallel(self) -> bool {
        self.descriptors@.len() == self.points@.len()
    }
}

/// Whether an index names a map point that is not culled.
pub open spec fn live_point(live: Seq<bool>, point: usize) -> bool {
    point < live.len() && live[point as int]
}

/// As many `true`s as there are elements.
pub open spec fn everything(n: nat) -> Seq<bool> {
    Seq::new(n, |i: int| true)
}

/// What a keyframe's keypoint `k` proposes for a frame: its map point, if it has one that is live,
/// with the frame's nearest descriptor, if that is near enough.
pub open spec fn reloc_proposal(
    keyframe: KeyframeDescriptors,
    live: Seq<bool>,
    frame: Seq<[u8; 32]>,
    max_hamming: u32,
    k: int,
) -> Option<Match> {
    match keyframe.points@[k] {
        Some(point) => {
            let near = nearest(keyframe.descriptors@[k]@, frame, everything(frame.len()));
            if live_point(live, point) && near is Some && hamming(
                keyframe.descriptors@[k]@,
                frame[near->0]@,
            ) <= max_hamming {
                Some(
                    Match {
                        keypoint: near->0 as usize,
                        point,
                        distance: hamming(keyframe.descriptors@[k]@, frame[near->0]@) as u32,
                    },
                )
            } else {
                None
            }
        },
        None => None,
    }
}

/// What the first `n` keypoints of a keyframe propose, in order.
pub open spec fn reloc_proposals(
    keyframe: KeyframeDescriptors,
    live: Seq<bool>,
    frame: Seq<[u8; 32]>,
    max_hamming: u32,
    n: int,
) -> Seq<Match>
    decreases n,
{
    if n <= 0 {
        Seq::empty()
    } else {
        let rest = reloc_proposals(keyframe, live, frame, max_hamming, n - 1);
        match reloc_proposal(keyframe, live, frame, max_hamming, n - 1) {
            Some(m) => rest.push(m),
            None => rest,
        }
    }
}

/// Matches a lost frame against one keyframe: each live map point the keyframe holds proposes the
/// frame's nearest descriptor, and each keypoint keeps its best proposal. `None` where fewer than
/// the configured number of matches remain.
pub fn relocalization_matches(
    keyframe: &KeyframeDescriptors,
    live: &Vec<bool>,
    frame: &Vec<[u8; 32]>,
    config: &RelocConfig,
) -> (r: Option<Vec<Match>>)
    requires
        keyframe.parallel(),
    ensures
        ({
            let proposals = reloc_proposals(
                *keyframe,
                live@,
                frame@,
                config.max_hamming,
                keyframe.points@.len() as int,
            );
            match r {
                Some(m) => keeps_best_per_keypoint(proposals, m@) && m@.len() >= config.min_matches,
                None => exists|m: Seq<Match>| #[trigger]
                    keeps_best_per_keypoint(proposals, m) && m.len() < config.min_matches,
            }
        }),
{
    let mut eligible: Vec<bool> = Vec::new();
    let mut i: usize = 0;
    while i < frame.len()
        invariant
            i <= frame@.len(),
            eligible@ == everything(i as nat),
        decreases frame@.len() - i,
    {
        eligible.push(true);
        i += 1;
        assert(eligible@ =~= everything(i as nat));
    }
    let mut proposals: Vec<Match> = Vec::new();
    let mut k: usize = 0;
    while k < keyframe.points.len()
        invariant
            k <= keyframe.points@.len(),
            keyframe.parallel(),
            eligible@ == everything(frame@.len()),
            proposals@ == reloc_proposals(
                *keyframe,
                live@,
                frame@,
                config.max_hamming,
                k as int,
            ),
        decreases keyframe.points@.len() - k,
    {
        match keyframe.points[k] {
            Some(point) => {
                if point < live.len() && live[point] {
                    match nearest_descriptor(&keyframe.descriptors[k], frame, &eligible) {
                        Some((keypoint, distance)) => {
                            if distance <= config.max_hamming {
                                proposals.push(Match { keypoint, point, distance });
                            }
                        },
                        None => {},
                    }
                }
            },
            None => {},
        }
        k += 1;
    }
    let kept: Vec<Match> = best_per_keypoint(&proposals);
    if kept.len() < config.min_matches {
        None
    } else {
        Some(kept)
    }
}

/// Whether a pose solved for a lost frame is a relocalization.
pub fn accepts_relocalization(config: &RelocConfig, inliers: usize) -> (r: bool)
    ensures
        r == (inliers >= config.min_inliers),
{
    inliers >= config.min_inliers
}

/// The positions that hold no map point, among the first `n`.
pub open spec fn unassociated_upto(points: Seq<Option<usize>>, n: int) -> Seq<usize>
    decreases n,
{
    if n <= 0 {
        Seq::empty()
    } else {
        let rest = unassociated_upto(points, n - 1);
        if points[n - 1] is None {
            rest.push((n - 1) as usize)
        } else {
            rest
        }
    }
}

/// The keypoints that are associated with no map point, in order.
pub fn unassociated(points: &Vec<Option<usize>>) -> (r: Vec<usize>)
    ensures
        r@ == unassociated_upto(points@, points@.len() as int),
{
    let mut r: Vec<usize> = Vec::new();
    let mut i: usize = 0;
    while i < points.len()
        invariant
            i <= points@.len(),
            r@ == unassociated_upto(points@, i as int),
        decreases points@.len() - i,
    {
        if points[i].is_none() {
            r.push(i);
        }
        i += 1;
    }
    r
}

/// The map points of the first `n` keypoints that have one, in keypoint order.
pub open spec fn associated_upto(points: Seq<Option<usize>>, n: int) -> Seq<usize>
    decreases n,
{
    if n <= 0 {
        Seq::empty()
    } else {
        let rest = associated_upto(points, n - 1);
        match points[n - 1] {
            Some(p) => rest.push(p),
            None => rest,
        }
    }
}

/// The map points a keyframe's keypoints are associated with, in keypoint order.
pub fn associated(points: &Vec<Option<usize>>) -> (r: Vec<usize>)
    ensures
        r@ == associated_upto(points@, points@.len() as int),
{
    let mut r: Vec<usize> = Vec::new();
    let mut i: usize = 0;
    while i < points.len()
        invariant
            i <= points@.len(),
            r@ == associated_upto(points@, i as int),
        decreases points@.len() - i,
    {
        match points[i] {
            Some(p) => {
                r.push(p);
            },
            None => {},
        }
        i += 1;
    }
    r
}

/// The pattern of `1e-8` metres: a keyframe pair closer together than this has no parallax.
pub const MIN_PAIR_DISTANCE_BITS: u64 = 0x3e45_798e_e230_8c3a;

/// The pattern of `1e-12`: an epipolar line whose squared normal is no longer than this has no
/// direction.
pub const MIN_LINE_NORM_BITS: u64 = 0x3d71_9799_812d_ea11;

/// Fewest gated matches worth triangulating from a keyframe pair.
pub const MIN_GROWTH_MATCHES: usize = 15;

/// Whether a keyframe pair can grow the map at all: both sides have keypoints without a map
/// point, and the cameras stand apart.
pub fn pair_can_grow(prev_free: usize, curr_free: usize, distance: Double) -> (r: bool)
    ensures
        r == (prev_free > 0 && curr_free > 0 && !distance.le_spec(
            Double { bits: MIN_PAIR_DISTANCE_BITS },
        )),
{
    prev_free > 0 && curr_free > 0 && !distance.le(Double { bits: MIN_PAIR_DISTANCE_BITS })
}

/// What was measured of a matched keypoint pair under the poses of its two keyframes.
#[derive(Clone, Copy, Debug, PartialEq, Eq, Structural)]
pub struct PairGeometry {
    /// Whether both keypoints have an undistorted position.
    pub located: bool,
    /// Squared pixel distance of the current keypoint from the epipole, where there is one.
    pub epipole_distance_sq: Option<Double>,
    /// How near the epipole, squared, is too near at the keypoint's scale.
    pub epipole_limit_sq: Double,
    /// Squared length of the epipolar line's normal.
    pub line_norm_sq: Double,
    /// Squared offset from the epipolar line, not yet normalised.
    pub offset_sq: Double,
    /// The largest such offset at the keypoint's scale.
    pub offset_limit_sq: Double,
}

impl PairGeometry {
    /// Whether the pair can be two views of one point: it is located, away from the epipole, and
    /// near a well-defined epipolar line.
    pub open spec fn plausible(self) -> bool {
        &&& self.located
        &&& self.epipole_distance_sq matches Some(d) ==> !d.lt_spec(self.epipole_limit_sq)
        &&& !self.line_norm_sq.le_spec(Double { bits: MIN_LINE_NORM_BITS })
        &&& !self.offset_limit_sq.lt_spec(self.offset_sq)
    }

    /// Whether the pair passes every gate.
    pub fn is_plausible(&self) -> (r: bool)
        ensures
            r == self.plausible(),
    {
        if !self.located {
            return false;
        }
        match self.epipole_distance_sq {
            Some(d) => {
                if d.lt(self.epipole_limit_sq) {
                    return false;
                }
            },
            None => {},
        }
        !self.line_norm_sq.le(Double { bits: MIN_LINE_NORM_BITS }) && !self.offset_limit_sq.lt(
            self.offset_sq,
        )
    }
}

/// Two keypoints, one in each keyframe of a pair.
#[derive(Clone, Copy, Debug, PartialEq, Eq, Structural)]
pub struct KeypointPair {
    /// Keypoint of the earlier keyframe.
    pub prev: usize,
    /// Keypoint of the later keyframe.
    pub curr: usize,
}

/// Whether a match of positions in the two lists of free keypoints names entries of both.
pub open spec fn in_lists(m: KeypointPair, prev_free: Seq<usize>, curr_free: Seq<usize>) -> bool {
    m.prev < prev_free.len() && m.curr < curr_free.len()
}

/// Whether match `k` is the first to lay claim to its keypoint of the later keyframe. A claim
/// stands whether or not the pair then passes the gates.
pub open spec fn claims_first(
    matches: Seq<KeypointPair>,
    prev_free: Seq<usize>,
    curr_free: Seq<usize>,
    k: int,
) -> bool {
    &&& in_lists(matches[k], prev_free, curr_free)
    &&& forall|j: int|
        0 <= j < k && in_lists(#[trigger] matches[j], prev_free, curr_free)
            ==> curr_free[matches[j].curr as int] != curr_free[matches[k].curr as int]
}

/// The keypoint pairs worth triangulating among the first `n` matches: those that claim their
/// keypoint first and pass the gates, in match order.
pub open spec fn growth_pairs_upto(
    matches: Seq<KeypointPair>,
    geometry: Seq<PairGeometry>,
    prev_free: Seq<usize>,
    curr_free: Seq<usize>,
    n: int,
) -> Seq<KeypointPair>
    decreases n,
{
    if n <= 0 {
        Seq::empty()
    } else {
        let rest = growth_pairs_upto(matches, geometry, prev_free, curr_free, n - 1);
        if claims_first(matches, prev_free, curr_free, n - 1) && geometry[n - 1].plausible() {
            rest.push(
                KeypointPair {
                    prev: prev_free[matches[n - 1].prev as int],
                    curr: curr_free[matches[n - 1].curr as int],
                },
            )
        } else {
            rest
        }
    }
}

/// Selects the keypoint pairs worth triangulating. A match is a pair of positions in the lists of
/// free keypoints; `geometry` holds what was measured of each. `None` where too few pairs remain.
pub fn select_growth_pairs(
    matches: &Vec<KeypointPair>,
    geometry: &Vec<PairGeometry>,
    prev_free: &Vec<usize>,
    curr_free: &Vec<usize>,
) -> (r: Option<Vec<KeypointPair>>)
    requires
        geometry@.len() == matches@.len(),
    ensures
        ({
            let pairs = growth_pairs_upto(
                matches@,
                geometry@,
                prev_free@,
                curr_free@,
                matches@.len() as int,
            );
            match r {
                Some(v) => v@ == pairs && pairs.len() >= MIN_GROWTH_MATCHES,
                None => pairs.len() < MIN_GROWTH_MATCHES,
            }
        }),
{
    let mut pairs: Vec<KeypointPair> = Vec::new();
    broadcast use vstd::std_specs::hash::group_hash_axioms;

    let mut claimed: HashSet<usize> = HashSet::new();
    let mut k: usize = 0;
    while k < matches.len()
        invariant
            k <= matches@.len(),
            geometry@.len() == matches@.len(),
            pairs@ == growth_pairs_upto(matches@, geometry@, prev_free@, curr_free@, k as int),
            forall|x: usize|
                claimed@.contains(x) <==> exists|j: int|
                    0 <= j < k && in_lists(#[trigger] matches@[j], prev_free@, curr_free@)
                        && curr_free@[matches@[j].curr as int] == x,
        decreases matches@.len() - k,
    {
        let m = matches[k];
        if m.prev < prev_free.len() && m.curr < curr_free.len() {
            let prev: usize = prev_free[m.prev];
            let curr: usize = curr_free[m.curr];
            if claimed.insert(curr) {
                assert(claims_first(matches@, prev_free@, curr_free@, k as int));
                if geometry[k].is_plausible() {
                    pairs.push(KeypointPair { prev, curr });
                }
                proof {
                    assert forall|x: usize| claimed@.contains(x) <==> exists|j: int|
                        0 <= j < k + 1 && in_lists(#[trigger] matches@[j], prev_free@, curr_free@)
                            && curr_free@[matches@[j].curr as int] == x by {
                        if x == curr {
                            assert(in_lists(matches@[k as int], prev_free@, curr_free@));
                        }
                    }
                }
            } else {
                assert(!claims_first(matches@, prev_free@, curr_free@, k as int));
            }
        }
        k += 1;
    }
    if pairs.len() < MIN_GROWTH_MATCHES {
        None
    } else {
        Some(pairs)
    }
}

/// No two pairs selected for growth share a keypoint of the later keyframe, and every one of those
/// keypoints is one that a match named.
pub proof fn growth_pairs_claim_once(
    matches: Seq<KeypointPair>,
    geometry: Seq<PairGeometry>,
    prev_free: Seq<usize>,
    curr_free: Seq<usize>,
    n: int,
)
    ensures
        ({
            let pairs = growth_pairs_upto(matches, geometry, prev_free, curr_free, n);
            forall|i: int, j: int|
                0 <= i < j < pairs.len() ==> (#[trigger] pairs[i]).curr != (#[trigger] pairs[j]).curr
        }),
        ({
            let pairs = growth_pairs_upto(matches, geometry, prev_free, curr_free, n);
            forall|i: int|
                0 <= i < pairs.len() ==> exists|j: int|
                    0 <= j < n && in_lists(#[trigger] matches[j], prev_free, curr_free)
                        && curr_free[matches[j].curr as int] == (#[trigger] pairs[i]).curr
        }),
    decreases n,
{
    if n > 0 {
        growth_pairs_claim_once(matches, geometry, prev_free, curr_free, n - 1);
        let rest = growth_pairs_upto(matches, geometry, prev_free, curr_free, n - 1);
        let pairs = growth_pairs_upto(matches, geometry, prev_free, curr_free, n);
        assert forall|i: int| 0 <= i < pairs.len() implies exists|j: int|
            0 <= j < n && in_lists(#[trigger] matches[j], prev_free, curr_free)
                && curr_free[matches[j].curr as int] == (#[trigger] pairs[i]).curr by {
            if i < rest.len() {
                assert(pairs[i] == rest[i]);
                let j = choose|j: int|
                    0 <= j < n - 1 && in_lists(#[trigger] matches[j], prev_free, curr_free)
                        && curr_free[matches[j].curr as int] == rest[i].curr;
                assert(in_lists(matches[j], prev_free, curr_free));
            } else {
                assert(in_lists(matches[n - 1], prev_free, curr_free));
            }
        }
        assert forall|i: int, j: int| 0 <= i < j < pairs.len() implies (#[trigger] pairs[i]).curr
            != (#[trigger] pairs[j]).curr by {
            assert(pairs[i] == rest[i]);
            if j < rest.len() {
                assert(pairs[j] == rest[j]);
            } else {
                let x = choose|x: int|
                    0 <= x < n - 1 && in_lists(#[trigger] matches[x], prev_free, curr_free)
                        && curr_free[matches[x].curr as int] == rest[i].curr;
                assert(in_lists(matches[x], prev_free, curr_free));
            }
        }
    }
}

/// The triangulated pairs that become points, among the first `n` results: those that name a
/// selected pair whose later keypoint is still free. Each is listed as the position of its result
/// and its pair.
pub open spec fn grown_upto(
    triangulated: Seq<usize>,
    pairs: Seq<KeypointPair>,
    curr_points: Seq<Option<usize>>,
    n: int,
) -> Seq<(usize, KeypointPair)>
    decreases n,
{
    if n <= 0 {
        Seq::empty()
    } else {
        let rest = grown_upto(triangulated, pairs, curr_points, n - 1);
        let p = triangulated[n - 1];
        if p < pairs.len() && keypoint_free(curr_points, pairs[p as int].curr) {
            rest.push(((n - 1) as usize, pairs[p as int]))
        } else {
            rest
        }
    }
}

/// No keypoint of the later keyframe is given two points: where every result comes from a pair of
/// its own, the pairs that were selected for growth become points at keypoints that differ.
pub proof fn grown_points_share_no_keypoint(
    matches: Seq<KeypointPair>,
    geometry: Seq<PairGeometry>,
    prev_free: Seq<usize>,
    curr_free: Seq<usize>,
    triangulated: Seq<usize>,
    curr_points: Seq<Option<usize>>,
)
    requires
        forall|i: int, j: int|
            0 <= i < j < triangulated.len() ==> #[trigger] triangulated[i]
                != #[trigger] triangulated[j],
        triangulated.len() <= usize::MAX,
    ensures
        ({
            let pairs = growth_pairs_upto(
                matches,
                geometry,
                prev_free,
                curr_free,
                matches.len() as int,
            );
            let grown = grown_upto(
                triangulated,
                pairs,
                curr_points,
                triangulated.len() as int,
            );
            &&& forall|i: int, j: int|
                0 <= i < j < grown.len() ==> (#[trigger] grown[i]).1.curr != (
                #[trigger] grown[j]).1.curr
            &&& forall|i: int|
                0 <= i < grown.len() ==> keypoint_free(curr_points, (#[trigger] grown[i]).1.curr)
        }),
{
    let pairs = growth_pairs_upto(matches, geometry, prev_free, curr_free, matches.len() as int);
    growth_pairs_claim_once(matches, geometry, prev_free, curr_free, matches.len() as int);
    lemma_grown_share_nothing(triangulated, pairs, curr_points, triangulated.len() as int);
    lemma_grown_are_pairs(triangulated, pairs, curr_points, triangulated.len() as int);
}

proof fn lemma_unassociated(points: Seq<Option<usize>>, n: int)
    requires
        n <= points.len() <= usize::MAX,
    ensures
        forall|i: int|
            0 <= i < unassociated_upto(points, n).len() ==> (#[trigger] unassociated_upto(
                points,
                n,
            )[i]) < n && points[unassociated_upto(points, n)[i] as int] is None,
    decreases n,
{
    if n > 0 {
        lemma_unassociated(points, n - 1);
    }
}

proof fn lemma_growth_pairs_are_listed(
    matches: Seq<KeypointPair>,
    geometry: Seq<PairGeometry>,
    prev_free: Seq<usize>,
    curr_free: Seq<usize>,
    n: int,
)
    ensures
        ({
            let pairs = growth_pairs_upto(matches, geometry, prev_free, curr_free, n);
            forall|i: int|
                0 <= i < pairs.len() ==> prev_free.contains((#[trigger] pairs[i]).prev)
                    && curr_free.contains(pairs[i].curr)
        }),
    decreases n,
{
    if n > 0 {
        lemma_growth_pairs_are_listed(matches, geometry, prev_free, curr_free, n - 1);
        let rest = growth_pairs_upto(matches, geometry, prev_free, curr_free, n - 1);
        let pairs = growth_pairs_upto(matches, geometry, prev_free, curr_free, n);
        assert forall|i: int| 0 <= i < pairs.len() implies prev_free.contains(
            (#[trigger] pairs[i]).prev,
        ) && curr_free.contains(pairs[i].curr) by {
            if i < rest.len() {
                assert(pairs[i] == rest[i]);
            } else {
                assert(prev_free[matches[n - 1].prev as int] == pairs[i].prev);
                assert(curr_free[matches[n - 1].curr as int] == pairs[i].curr);
            }
        }
    }
}

/// A grown point takes a keypoint that was free in either keyframe: where the matches were made
/// between the keypoints that neither had associated, no association of the earlier keyframe is
/// taken over, and none of the later one.
pub proof fn grown_points_take_free_keypoints(
    matches: Seq<KeypointPair>,
    geometry: Seq<PairGeometry>,
    triangulated: Seq<usize>,
    prev_points: Seq<Option<usize>>,
    curr_points: Seq<Option<usize>>,
)
    requires
        prev_points.len() <= usize::MAX,
        curr_points.len() <= usize::MAX,
        triangulated.len() <= usize::MAX,
    ensures
        ({
            let prev_free = unassociated_upto(prev_points, prev_points.len() as int);
            let curr_free = unassociated_upto(curr_points, curr_points.len() as int);
            let pairs = growth_pairs_upto(
                matches,
                geometry,
                prev_free,
                curr_free,
                matches.len() as int,
            );
            let grown = grown_upto(
                triangulated,
                pairs,
                curr_points,
                triangulated.len() as int,
            );
            forall|i: int|
                0 <= i < grown.len() ==> {
                    let pair = (#[trigger] grown[i]).1;
                    &&& pair.prev < prev_points.len() && prev_points[pair.prev as int] is None
                    &&& pair.curr < curr_points.len() && curr_points[pair.curr as int] is None
                }
        }),
{
    let prev_free = unassociated_upto(prev_points, prev_points.len() as int);
    let curr_free = unassociated_upto(curr_points, curr_points.len() as int);
    let n = matches.len() as int;
    let pairs = growth_pairs_upto(matches, geometry, prev_free, curr_free, n);
    let grown = grown_upto(triangulated, pairs, curr_points, triangulated.len() as int);
    lemma_unassociated(prev_points, prev_points.len() as int);
    lemma_unassociated(curr_points, curr_points.len() as int);
    lemma_growth_pairs_are_listed(matches, geometry, prev_free, curr_free, n);
    lemma_grown_are_pairs(triangulated, pairs, curr_points, triangulated.len() as int);
    assert forall|i: int| 0 <= i < grown.len() implies {
        let pair = (#[trigger] grown[i]).1;
        &&& pair.prev < prev_points.len() && prev_points[pair.prev as int] is None
        &&& pair.curr < curr_points.len() && curr_points[pair.curr as int] is None
    } by {
        let pair = pairs[triangulated[grown[i].0 as int] as int];
        assert(grown[i].1 == pair);
        assert(prev_free.contains(pair.prev) && curr_free.contains(pair.curr));
    }
}

proof fn lemma_grown_are_pairs(
    triangulated: Seq<usize>,
    pairs: Seq<KeypointPair>,
    curr_points: Seq<Option<usize>>,
    n: int,
)
    requires
        n <= triangulated.len() <= usize::MAX,
    ensures
        ({
            let grown = grown_upto(triangulated, pairs, curr_points, n);
            forall|i: int|
                0 <= i < grown.len() ==> (#[trigger] grown[i]).0 < n
                    && triangulated[grown[i].0 as int] < pairs.len() && grown[i].1
                    == pairs[triangulated[grown[i].0 as int] as int] && keypoint_free(
                    curr_points,
                    grown[i].1.curr,
                )
        }),
    decreases n,
{
    if n > 0 {
        lemma_grown_are_pairs(triangulated, pairs, curr_points, n - 1);
        let rest = grown_upto(triangulated, pairs, curr_points, n - 1);
        let grown = grown_upto(triangulated, pairs, curr_points, n);
        assert forall|i: int| 0 <= i < grown.len() implies (#[trigger] grown[i]).0 < n
            && triangulated[grown[i].0 as int] < pairs.len() && grown[i].1
            == pairs[triangulated[grown[i].0 as int] as int] && keypoint_free(
            curr_points,
            grown[i].1.curr,
        ) by {
            if i < rest.len() {
                assert(grown[i] == rest[i]);
            }
        }
    }
}

proof fn lemma_grown_share_nothing(
    triangulated: Seq<usize>,
    pairs: Seq<KeypointPair>,
    curr_points: Seq<Option<usize>>,
    n: int,
)
    requires
        forall|i: int, j: int|
            0 <= i < j < triangulated.len() ==> #[trigger] triangulated[i]
                != #[trigger] triangulated[j],
        forall|i: int, j: int|
            0 <= i < j < pairs.len() ==> (#[trigger] pairs[i]).curr != (#[trigger] pairs[j]).curr,
        n <= triangulated.len() <= usize::MAX,
    ensures
        ({
            let grown = grown_upto(triangulated, pairs, curr_points, n);
            forall|i: int, j: int|
                0 <= i < j < grown.len() ==> (#[trigger] grown[i]).1.curr != (
                #[trigger] grown[j]).1.curr
        }),
    decreases n,
{
    if n > 0 {
        lemma_grown_share_nothing(triangulated, pairs, curr_points, n - 1);
        lemma_grown_are_pairs(triangulated, pairs, curr_points, n - 1);
        let rest = grown_upto(triangulated, pairs, curr_points, n - 1);
        let grown = grown_upto(triangulated, pairs, curr_points, n);
        assert forall|i: int, j: int| 0 <= i < j < grown.len() implies (#[trigger] grown[i]).1.curr
            != (#[trigger] grown[j]).1.curr by {
            assert(grown[i] == rest[i]);
            if j < rest.len() {
                assert(grown[j] == rest[j]);
            } else {
                let a = triangulated[rest[i].0 as int];
                let b = triangulated[n - 1];
                assert(a != b);
                if a < b {
                    assert(pairs[a as int].curr != pairs[b as int].curr);
                } else {
                    assert(pairs[b as int].curr != pairs[a as int].curr);
                }
            }
        }
    }
}

/// Whether a keypoint is associated with no map point; one past the list is not.
pub open spec fn keypoint_free(points: Seq<Option<usize>>, keypoint: usize) -> bool {
    keypoint >= points.len() || points[keypoint as int] is None
}

fn is_free(points: &Vec<Option<usize>>, keypoint: usize) -> (r: bool)
    ensures
        r == keypoint_free(points@, keypoint),
{
    keypoint >= points.len() || points[keypoint].is_none()
}

/// Keeps the triangulated pairs that become points. `triangulated` lists, for each result, which
/// selected pair it came from.
pub fn keep_triangulated(
    triangulated: &Vec<usize>,
    pairs: &Vec<KeypointPair>,
    curr_points: &Vec<Option<usize>>,
) -> (r: Vec<(usize, KeypointPair)>)
    ensures
        r@ == grown_upto(triangulated@, pairs@, curr_points@, triangulated@.len() as int),
{
    let mut r: Vec<(usize, KeypointPair)> = Vec::new();
    let mut i: usize = 0;
    while i < triangulated.len()
        invariant
            i <= triangulated@.len(),
            r@ == grown_upto(triangulated@, pairs@, curr_points@, i as int),
        decreases triangulated@.len() - i,
    {
        let p: usize = triangulated[i];
        if p < pairs.len() && is_free(curr_points, pairs[p].curr) {
            r.push((i, pairs[p]));
        }
        i += 1;
    }
    r
}

/// The observations to record in the earlier keyframe for points just grown: the `i`-th point,
/// counted from the first new one, is seen at the `i`-th pair's earlier keypoint.
pub fn growth_links(
    first_point: usize,
    grown: &Vec<(usize, KeypointPair)>,
    added: usize,
) -> (r: Vec<(usize, usize)>)
    requires
        first_point + grown@.len() <= usize::MAX,
    ensures
        r@.len() == if added <= grown@.len() {
            added as nat
        } else {
            grown@.len()
        },
        forall|i: int|
            0 <= i < r@.len() ==> #[trigger] r@[i] == ((first_point + i) as usize, grown@[i].1.prev),
{
    let mut r: Vec<(usize, usize)> = Vec::new();
    let mut i: usize = 0;
    while i < grown.len() && i < added
        invariant
            i <= grown@.len(),
            i <= added,
            first_point + grown@.len() <= usize::MAX,
            r@.len() == i,
            forall|k: int|
                0 <= k < i ==> #[trigger] r@[k] == ((first_point + k) as usize, grown@[k].1.prev),
        decreases grown@.len() - i,
    {
        r.push((first_point + i, grown[i].1.prev));
        i += 1;
    }
    r
}

/// A keypoint with its depth as seen by the stereo pair, in metres.
#[derive(Clone, Copy, Debug, PartialEq, Eq, Structural)]
pub struct StereoDepth {
    /// Index of the keypoint.
    pub keypoint: usize,
    /// Depth in front of the camera.
    pub depth: Double,
}

/// The stereo keypoints worth adding as points, among the first `n`: those no deeper than the
/// limit and still free, in order.
pub open spec fn close_free_upto(
    stereo: Seq<StereoDepth>,
    points: Seq<Option<usize>>,
    limit: Double,
    n: int,
) -> Seq<usize>
    decreases n,
{
    if n <= 0 {
        Seq::empty()
    } else {
        let rest = close_free_upto(stereo, points, limit, n - 1);
        let s = stereo[n - 1];
        if !limit.lt_spec(s.depth) && keypoint_free(points, s.keypoint) {
            rest.push((n - 1) as usize)
        } else {
            rest
        }
    }
}

/// Selects the stereo keypoints a new keyframe adds as metric points: close, and not associated.
/// Returns their positions in `stereo`.
pub fn close_stereo_points(
    stereo: &Vec<StereoDepth>,
    points: &Vec<Option<usize>>,
    limit: Double,
) -> (r: Vec<usize>)
    ensures
        r@ == close_free_upto(stereo@, points@, limit, stereo@.len() as int),
{
    let mut r: Vec<usize> = Vec::new();
    let mut i: usize = 0;
    while i < stereo.len()
        invariant
            i <= stereo@.len(),
            r@ == close_free_upto(stereo@, points@, limit, i as int),
        decreases stereo@.len() - i,
    {
        if !limit.lt(stereo[i].depth) && is_free(points, stereo[i].keypoint) {
            r.push(i);
        }
        i += 1;
    }
    r
}

/// The pattern of `49.0`, the square of the fusion search radius in pixels.
pub const FUSE_RADIUS_SQ_BITS: u32 = 0x4244_0000;

/// Largest descriptor distance at which an observation is fused, in bits.
pub const FUSE_MAX_HAMMING: u32 = 50;

/// Whether a map point is worth projecting into a neighbour: it is live, the neighbour does not
/// observe it yet, and it lies in front of the neighbour's camera.
pub fn wants_fusion(live: bool, observed: bool, depth: Double) -> (r: bool)
    ensures
        r == (live && !observed && !depth.le_spec(Double::zero_spec())),
{
    live && !observed && !depth.le(Double { bits: 0 })
}

/// Which of a neighbour's keypoints a projected point may fuse with: those that are free and no
/// further away than the search radius.
pub open spec fn fusable(points: Seq<Option<usize>>, gaps: Seq<Option<Single>>) -> Seq<bool> {
    Seq::new(
        points.len(),
        |k: int|
            points[k] is None && gaps[k] is Some && !(Single { bits: FUSE_RADIUS_SQ_BITS }).lt_spec(
                gaps[k]->0,
            ),
    )
}

/// What a projected map point proposes in a neighbour: the nearest descriptor among the fusable
/// keypoints, if that is near enough.
pub open spec fn fusion_proposal(
    neighbour: KeyframeDescriptors,
    gaps: Seq<Option<Single>>,
    descriptor: Seq<u8>,
    point: usize,
) -> Option<Match> {
    let near = nearest(descriptor, neighbour.descriptors@, fusable(neighbour.points@, gaps));
    if near is Some && hamming(descriptor, neighbour.descriptors@[near->0]@) <= FUSE_MAX_HAMMING {
        Some(
            Match {
                keypoint: near->0 as usize,
                point,
                distance: hamming(descriptor, neighbour.descriptors@[near->0]@) as u32,
            },
        )
    } else {
        None
    }
}

/// Proposes an observation of a map point in a neighbour. `gaps` holds the squared pixel distance
/// of each keypoint from where the point projects.
pub fn propose_fusion(
    neighbour: &KeyframeDescriptors,
    gaps: &Vec<Option<Single>>,
    descriptor: &[u8; 32],
    point: usize,
) -> (r: Option<Match>)
    requires
        neighbour.parallel(),
        gaps@.len() == neighbour.points@.len(),
    ensures
        r == fusion_proposal(*neighbour, gaps@, descriptor@, point),
{
    let mut eligible: Vec<bool> = Vec::new();
    let mut k: usize = 0;
    while k < neighbour.points.len()
        invariant
            k <= neighbour.points@.len(),
            gaps@.len() == neighbour.points@.len(),
            eligible@.len() == k,
            forall|x: int|
                0 <= x < k ==> #[trigger] eligible@[x] == fusable(neighbour.points@, gaps@)[x],
        decreases neighbour.points@.len() - k,
    {
        let ok = neighbour.points[k].is_none() && match gaps[k] {
            Some(d) => !Single { bits: FUSE_RADIUS_SQ_BITS }.lt(d),
            None => false,
        };
        eligible.push(ok);
        k += 1;
    }
    assert(eligible@ =~= fusable(neighbour.points@, gaps@));
    match nearest_descriptor(descriptor, &neighbour.descriptors, &eligible) {
        Some((keypoint, distance)) => {
            if distance <= FUSE_MAX_HAMMING {
                Some(Match { keypoint, point, distance })
            } else {
                None
            }
        },
        None => None,
    }
}

/// Settles the proposals of one neighbour and records the observations: by rising distance, each
/// proposal takes its keypoint unless it is taken. Returns the proposals that went in.
pub fn fuse_into(neighbour: &mut KeyframeDescriptors, proposals: &Vec<Match>) -> (r: Vec<usize>)
    requires
        old(neighbour).parallel(),
    ensures
        claims_free_keypoints(proposals@, old(neighbour).points@, r@),
        final(neighbour).descriptors == old(neighbour).descriptors,
        final(neighbour).parallel(),
        forall|i: int|
            0 <= i < r@.len() ==> final(neighbour).points@[proposals@[#[trigger] r@[i] as int].keypoint as int]
                == Some(proposals@[r@[i] as int].point),
        forall|k: int|
            0 <= k < old(neighbour).points@.len() && (forall|i: int|
                0 <= i < r@.len() ==> proposals@[#[trigger] r@[i] as int].keypoint != k)
                ==> #[trigger] final(neighbour).points@[k] == old(neighbour).points@[k],
{
    let r: Vec<usize> = claim_matches(proposals, &neighbour.points);
    let ghost start = *neighbour;
    let mut i: usize = 0;
    while i < r.len()
        invariant
            i <= r@.len(),
            claims_free_keypoints(proposals@, start.points@, r@),
            neighbour.descriptors == start.descriptors,
            neighbour.points@.len() == start.points@.len(),
            start.parallel(),
            forall|x: int|
                0 <= x < i ==> neighbour.points@[proposals@[#[trigger] r@[x] as int].keypoint as int]
                    == Some(proposals@[r@[x] as int].point),
            forall|k: int|
                0 <= k < start.points@.len() && (forall|x: int|
                    0 <= x < i ==> proposals@[#[trigger] r@[x] as int].keypoint != k)
                    ==> #[trigger] neighbour.points@[k] == start.points@[k],
        decreases r@.len() - i,
    {
        let m = proposals[r[i]];
        proof {
            assert(r@.contains(r@[i as int]));
            assert(r@.contains((r@[i as int] as int) as usize));
            assert(proposals@[r@[i as int] as int].keypoint < start.points@.len());
            assert forall|x: int| 0 <= x < i implies proposals@[#[trigger] r@[x] as int].keypoint
                != m.keypoint by {
                crate::matching::no_keypoint_is_claimed_twice(
                    proposals@,
                    start.points@,
                    r@,
                    x,
                    i as int,
                );
            }
        }
        let ghost prev = neighbour.points@;
        neighbour.points.set(m.keypoint, Some(m.point));
        proof {
            assert forall|k: int|
                0 <= k < start.points@.len() && (forall|x: int|
                    0 <= x < i + 1 ==> proposals@[#[trigger] r@[x] as int].keypoint
                        != k) implies #[trigger] neighbour.points@[k] == start.points@[k] by {
                assert(proposals@[r@[i as int] as int].keypoint != k);
                assert(prev[k] == start.points@[k]);
            }
        }
        i += 1;
    }
    r
}

/// A map point of the current keyframe, as a neighbour would see it.
#[derive(Debug)]
pub struct Sighting {
    /// Index of the point.
    pub point: usize,
    /// Its descriptor.
    pub descriptor: [u8; 32],
    /// Whether it is live.
    pub live: bool,
    /// Whether the neighbour observes it already.
    pub observed: bool,
    /// Its depth in front of the neighbour's camera.
    pub depth: Double,
    /// Where it projects into the neighbour's image, the squared pixel distance of each keypoint
    /// from there.
    pub gaps: Option<Vec<Option<Single>>>,
}

impl Sighting {
    /// What the point proposes in the neighbour, if anything.
    pub open spec fn proposal(self, neighbour: KeyframeDescriptors) -> Option<Match> {
        if self.live && !self.observed && !self.depth.le_spec(Double::zero_spec()) && self.gaps is Some {
            fusion_proposal(neighbour, self.gaps->0@, self.descriptor@, self.point)
        } else {
            None
        }
    }
}

/// The proposals of the first `n` points, in order.
pub open spec fn proposals_upto(neighbour: KeyframeDescriptors, sightings: Seq<Sighting>, n: int) -> Seq<
    Match,
>
    decreases n,
{
    if n <= 0 {
        Seq::empty()
    } else {
        let rest = proposals_upto(neighbour, sightings, n - 1);
        match sightings[n - 1].proposal(neighbour) {
            Some(m) => rest.push(m),
            None => rest,
        }
    }
}

/// Whether a neighbour came out of fusing as it should: every point worth projecting proposed an
/// observation of itself, the proposals were settled among each other, those that won were
/// recorded, and nothing else changed.
pub open spec fn is_fused(
    before: KeyframeDescriptors,
    after: KeyframeDescriptors,
    sightings: Seq<Sighting>,
    proposals: Seq<Match>,
    claimed: Seq<usize>,
) -> bool {
    &&& proposals == proposals_upto(before, sightings, sightings.len() as int)
    &&& claims_free_keypoints(proposals, before.points@, claimed)
    &&& after.descriptors == before.descriptors
    &&& after.parallel()
    &&& forall|i: int|
        0 <= i < claimed.len()
            ==> after.points@[proposals[#[trigger] claimed[i] as int].keypoint as int] == Some(
            proposals[claimed[i] as int].point,
        )
    &&& forall|k: int|
        0 <= k < before.points@.len() && (forall|i: int|
            0 <= i < claimed.len() ==> proposals[#[trigger] claimed[i] as int].keypoint != k)
            ==> #[trigger] after.points@[k] == before.points@[k]
}

/// Whether the points sighted were measured against every keypoint of a neighbour.
pub open spec fn measured_for(sightings: Seq<Sighting>, neighbour: KeyframeDescriptors) -> bool {
    forall|i: int|
        0 <= i < sightings.len() && (#[trigger] sightings[i]).gaps is Some
            ==> sightings[i].gaps->0@.len() == neighbour.points@.len()
}

/// Fuses the current keyframe's points into one neighbour: every point worth projecting proposes an
/// observation of itself, and the proposals are settled among each other. Returns the proposals,
/// and which of them went in.
pub fn fuse_into_neighbor(neighbour: &mut KeyframeDescriptors, sightings: &Vec<Sighting>) -> (r: (
    Vec<Match>,
    Vec<usize>,
))
    requires
        old(neighbour).parallel(),
        measured_for(sightings@, *old(neighbour)),
    ensures
        is_fused(*old(neighbour), *final(neighbour), sightings@, r.0@, r.1@),
{
    let mut proposals: Vec<Match> = Vec::new();
    let mut i: usize = 0;
    while i < sightings.len()
        invariant
            i <= sightings@.len(),
            *neighbour == *old(neighbour),
            neighbour.parallel(),
            measured_for(sightings@, *neighbour),
            proposals@ == proposals_upto(*neighbour, sightings@, i as int),
        decreases sightings@.len() - i,
    {
        let s = &sightings[i];
        if wants_fusion(s.live, s.observed, s.depth) {
            match &s.gaps {
                Some(gaps) => {
                    match propose_fusion(neighbour, gaps, &s.descriptor, s.point) {
                        Some(m) => {
                            proposals.push(m);
                        },
                        None => {},
                    }
                },
                None => {},
            }
        }
        i += 1;
    }
    let claimed: Vec<usize> = fuse_into(neighbour, &proposals);
    (proposals, claimed)
}

/// The walk of a new keyframe through the neighbours its points are fused into.
#[derive(Debug)]
pub struct Fusion {
    /// The new keyframe.
    pub curr_idx: usize,
    /// The neighbours to visit, in order.
    pub neighbours: Vec<usize>,
    /// How many of them are behind.
    pub at: usize,
    /// Observations recorded so far, over all neighbours.
    pub fused: usize,
}

impl Fusion {
    /// A walk that has not begun.
    pub fn new(curr_idx: usize, neighbours: Vec<usize>) -> (r: Fusion)
        ensures
            r == (Fusion { curr_idx, neighbours, at: 0, fused: 0 }),
    {
        Fusion { curr_idx, neighbours, at: 0, fused: 0 }
    }

    /// The next neighbour to visit: the first one not behind yet that is not the new keyframe
    /// itself. `None` once there is no other.
    pub fn next_neighbour(&mut self) -> (r: Option<usize>)
        requires
            old(self).at <= old(self).neighbours@.len(),
        ensures
            old(self).at <= final(self).at <= final(self).neighbours@.len(),
            final(self).curr_idx == old(self).curr_idx,
            final(self).neighbours == old(self).neighbours,
            final(self).fused == old(self).fused,
            match r {
                Some(n) => {
                    &&& old(self).at < final(self).at
                    &&& n == old(self).neighbours@[final(self).at - 1]
                    &&& n != old(self).curr_idx
                    &&& forall|i: int|
                        old(self).at <= i < final(self).at - 1 ==> #[trigger] old(self).neighbours@[i]
                            == old(self).curr_idx
                },
                None => {
                    &&& final(self).at == old(self).neighbours@.len()
                    &&& forall|i: int|
                        old(self).at <= i < old(self).neighbours@.len()
                            ==> #[trigger] old(self).neighbours@[i] == old(self).curr_idx
                },
            },
    {
        while self.at < self.neighbours.len()
            invariant
                old(self).at <= self.at <= self.neighbours@.len(),
                self.curr_idx == old(self).curr_idx,
                self.neighbours == old(self).neighbours,
                self.fused == old(self).fused,
                forall|i: int|
                    old(self).at <= i < self.at ==> #[trigger] old(self).neighbours@[i] == old(
                        self,
                    ).curr_idx,
            decreases self.neighbours@.len() - self.at,
        {
            let n: usize = self.neighbours[self.at];
            self.at += 1;
            if n != self.curr_idx {
                return Some(n);
            }
        }
        None
    }

    /// Fuses the new keyframe's points into the neighbour being visited, and counts the
    /// observations recorded. `slots` is what the map holds of it; one the map does not hold is
    /// passed over. Returns the proposals, and which of them went in.
    pub fn visit(&mut self, slots: &mut Option<KeyframeDescriptors>, sightings: &Vec<Sighting>) -> (r: (
        Vec<Match>,
        Vec<usize>,
    ))
        requires
            *old(slots) matches Some(s) ==> {
                &&& s.parallel()
                &&& measured_for(sightings@, s)
                &&& old(self).fused + s.points@.len() <= usize::MAX
            },
        ensures
            final(self).curr_idx == old(self).curr_idx,
            final(self).neighbours == old(self).neighbours,
            final(self).at == old(self).at,
            final(self).fused == old(self).fused + r.1@.len(),
            match *old(slots) {
                None => *final(slots) is None && r.0@.len() == 0 && r.1@.len() == 0,
                Some(before) => {
                    &&& *final(slots) is Some
                    &&& is_fused(before, final(slots)->0, sightings@, r.0@, r.1@)
                },
            },
    {
        match slots {
            None => (Vec::new(), Vec::new()),
            Some(neighbour) => {
                let ghost before = *neighbour;
                let (proposals, claimed) = fuse_into_neighbor(neighbour, sightings);
                proof {
                    lemma_claims_fit(proposals@, before.points@, claimed@);
                }
                self.fused += claimed.len();
                (proposals, claimed)
            },
        }
    }
}

proof fn lemma_claims_fit(proposals: Seq<Match>, points: Seq<Option<usize>>, claimed: Seq<usize>)
    requires
        claims_free_keypoints(proposals, points, claimed),
    ensures
        claimed.len() <= points.len(),
{
    let keypoints = Seq::new(
        claimed.len(),
        |i: int| proposals[claimed[i] as int].keypoint as int,
    );
    assert forall|i: int, j: int| 0 <= i < keypoints.len() && 0 <= j < keypoints.len() && i
        != j implies keypoints[i] != keypoints[j] by {
        if i < j {
            crate::matching::no_keypoint_is_claimed_twice(proposals, points, claimed, i, j);
        } else {
            crate::matching::no_keypoint_is_claimed_twice(proposals, points, claimed, j, i);
        }
    }
    keypoints.unique_seq_to_set();
    let all = vstd::set_lib::set_int_range(0, points.len() as int);
    assert forall|k: int| keypoints.to_set().contains(k) implies all.contains(k) by {
        let i = choose|i: int| 0 <= i < keypoints.len() && keypoints[i] == k;
        assert(claimed.contains(claimed[i]));
        assert(claimed.contains((claimed[i] as int) as usize));
    }
    vstd::set_lib::lemma_int_range(0, points.len() as int);
    vstd::set_lib::lemma_len_subset(keypoints.to_set(), all);
}

/// Fusing observations never takes an association away: a keypoint that had a map point keeps it.
pub proof fn fusion_keeps_associations(
    proposals: Seq<Match>,
    before_points: Seq<Option<usize>>,
    after_points: Seq<Option<usize>>,
    claimed: Seq<usize>,
    k: int,
)
    requires
        claims_free_keypoints(proposals, before_points, claimed),
        forall|x: int|
            0 <= x < before_points.len() && (forall|i: int|
                0 <= i < claimed.len() ==> proposals[#[trigger] claimed[i] as int].keypoint != x)
                ==> #[trigger] after_points[x] == before_points[x],
        0 <= k < before_points.len(),
        before_points[k] is Some,
    ensures
        after_points[k] == before_points[k],
{
    assert forall|i: int| 0 <= i < claimed.len() implies proposals[#[trigger] claimed[i] as int].keypoint
        != k by {
        assert(claimed.contains(claimed[i]));
        assert(claimed.contains((claimed[i] as int) as usize));
    }
}

/// A match of a map point with a keypoint of the current frame.
#[derive(Clone, Copy, Debug, PartialEq, Eq, Structural)]
pub struct PointMatch {
    /// Index of the map point.
    pub point: usize,
    /// Index of the keypoint.
    pub keypoint: usize,
}

/// Whether a match survives the pose it was solved for: its point is live, and it reprojects no
/// further than the limit from its keypoint.
pub open spec fn explained(m: PointMatch, error_sq: Option<Double>, live: Seq<bool>, limit_sq: Double)
    -> bool {
    live_point(live, m.point) && error_sq is Some && error_sq->0.le_spec(limit_sq)
}

/// The matches among the first `n` that survive, in order.
pub open spec fn explained_upto(
    matches: Seq<PointMatch>,
    errors_sq: Seq<Option<Double>>,
    live: Seq<bool>,
    limit_sq: Double,
    n: int,
) -> Seq<PointMatch>
    decreases n,
{
    if n <= 0 {
        Seq::empty()
    } else {
        let rest = explained_upto(matches, errors_sq, live, limit_sq, n - 1);
        if explained(matches[n - 1], errors_sq[n - 1], live, limit_sq) {
            rest.push(matches[n - 1])
        } else {
            rest
        }
    }
}

/// Drops the matches that the solved pose does not explain. `errors_sq` holds each match's squared
/// reprojection error, where it could be measured.
pub fn reject_pnp_outliers(
    matches: &Vec<PointMatch>,
    errors_sq: &Vec<Option<Double>>,
    live: &Vec<bool>,
    limit_sq: Double,
) -> (r: Vec<PointMatch>)
    requires
        errors_sq@.len() == matches@.len(),
    ensures
        r@ == explained_upto(matches@, errors_sq@, live@, limit_sq, matches@.len() as int),
{
    let mut r: Vec<PointMatch> = Vec::new();
    let mut i: usize = 0;
    while i < matches.len()
        invariant
            i <= matches@.len(),
            errors_sq@.len() == matches@.len(),
            r@ == explained_upto(matches@, errors_sq@, live@, limit_sq, i as int),
        decreases matches@.len() - i,
    {
        let m = matches[i];
        let ok = m.point < live.len() && live[m.point] && match errors_sq[i] {
            Some(e) => e.le(limit_sq),
            None => false,
        };
        if ok {
            r.push(m);
        }
        i += 1;
    }
    r
}

/// A map point as a snapshot sees it.
#[derive(Clone, Copy, Debug, PartialEq, Eq, Structural)]
pub struct MapPointRecord {
    /// Position in the world.
    pub position: Vec3,
    /// Whether the point was culled.
    pub culled: bool,
}

/// The live points among positions `first..n` with their indices, oldest first.
pub open spec fn live_points_between(points: Seq<MapPointRecord>, first: int, n: int) -> Seq<
    (usize, Vec3),
>
    decreases n - first,
{
    if n <= first {
        Seq::empty()
    } else {
        let rest = live_points_between(points, first, n - 1);
        if points[n - 1].culled {
            rest
        } else {
            rest.push(((n - 1) as usize, points[n - 1].position))
        }
    }
}

/// Where a window over the newest `cap` of `len` points starts.
pub open spec fn window_start(len: nat, cap: usize) -> int {
    if len <= cap {
        0
    } else {
        len - cap
    }
}

/// The live points among the newest `cap`, with their indices in the map. The window is over all
/// points, so culled ones shrink the result rather than reaching further back.
pub fn newest_live_map_points(points: &Vec<MapPointRecord>, cap: usize) -> (r: Vec<(usize, Vec3)>)
    ensures
        r@ == live_points_between(
            points@,
            window_start(points@.len(), cap),
            points@.len() as int,
        ),
        r@.len() <= cap,
{
    let first: usize = if points.len() <= cap {
        0
    } else {
        points.len() - cap
    };
    let mut r: Vec<(usize, Vec3)> = Vec::new();
    let mut i: usize = first;
    while i < points.len()
        invariant
            first <= i <= points@.len(),
            first == window_start(points@.len(), cap),
            r@ == live_points_between(points@, first as int, i as int),
            r@.len() <= i - first,
        decreases points@.len() - i,
    {
        if !points[i].culled {
            r.push((i, points[i].position));
        }
        i += 1;
    }
    r
}

/// A window over the map lists every live point in it once, under its own index, and the indices
/// rise.
pub proof fn a_window_lists_every_live_point_once(points: Seq<MapPointRecord>, first: int, n: int)
    requires
        0 <= first,
        n <= points.len() <= usize::MAX,
    ensures
        ({
            let r = live_points_between(points, first, n);
            &&& forall|i: int, j: int| 0 <= i < j < r.len() ==> (#[trigger] r[i]).0 < (#[trigger] r[j]).0
            &&& forall|i: int|
                0 <= i < r.len() ==> first <= (#[trigger] r[i]).0 < n && !points[r[i].0 as int].culled
                    && r[i].1 == points[r[i].0 as int].position
            &&& forall|k: int|
                first <= k < n && !(#[trigger] points[k]).culled ==> r.contains(
                    (k as usize, points[k].position),
                )
        }),
    decreases n - first,
{
    if first < n {
        a_window_lists_every_live_point_once(points, first, n - 1);
        let rest = live_points_between(points, first, n - 1);
        let r = live_points_between(points, first, n);
        assert forall|k: int| first <= k < n && !(#[trigger] points[k]).culled implies r.contains(
            (k as usize, points[k].position),
        ) by {
            if k == n - 1 {
                assert(r[r.len() - 1] == (k as usize, points[k].position));
            } else {
                let i = choose|i: int| 0 <= i < rest.len() && rest[i] == (k as usize, points[k].position);
                assert(r[i] == rest[i]);
            }
        }
    }
}

} // verus!
