use cufx_vio::association::{
    accepts_relocalization, associated, close_stereo_points, fuse_into, fuse_into_neighbor,
    growth_links, keep_triangulated, nearest_candidates, pair_can_grow, propose_fusion,
    reject_pnp_outliers, relocalization_matches, select_growth_pairs, unassociated, wants_fusion,
    Fusion, KeyframeDescriptors, KeypointPair, PairGeometry, PointMatch, RelocConfig, Sighting,
    StereoDepth,
};
use cufx_vio::ieee::{Double, Single};
use cufx_vio::matching::{best_per_keypoint, claim_matches, nearest_descriptor, Match};

fn double(x: f64) -> Double {
    Double::from_bits(x.to_bits())
}

fn single(x: f32) -> Single {
    Single::from_bits(x.to_bits())
}

/// A descriptor with this many low bits set.
fn bits(n: usize) -> [u8; 32] {
    let mut d = [0u8; 32];
    for i in 0..n {
        d[i / 8] |= 1 << (i % 8);
    }
    d
}

#[test]
fn the_closest_descriptor_is_the_first_of_the_closest() {
    let all = vec![bits(9), bits(4), bits(6), bits(4)];
    assert_eq!(
        nearest_descriptor(&bits(5), &all, &vec![true; 4]),
        Some((1, 1)),
        "two at one bit: the first"
    );
    assert_eq!(
        nearest_descriptor(&bits(5), &all, &vec![true, false, false, false]),
        Some((0, 4))
    );
    assert_eq!(nearest_descriptor(&bits(5), &all, &vec![false; 4]), None);
    assert_eq!(
        nearest_descriptor(&[0xff; 32], &vec![[0; 32]], &vec![true]),
        Some((0, 256))
    );
}

#[test]
fn one_point_per_keypoint_and_the_best_one() {
    let m = |keypoint, point, distance| Match {
        keypoint,
        point,
        distance,
    };
    let kept = best_per_keypoint(&vec![m(3, 0, 9), m(1, 1, 5), m(3, 2, 4), m(3, 5, 4)]);
    assert_eq!(kept, [m(1, 1, 5), m(3, 2, 4)]);

    let claimed = claim_matches(
        &vec![m(0, 10, 7), m(1, 11, 2), m(1, 12, 1), m(2, 13, 0)],
        &vec![None, None, Some(99)],
    );
    // Best first, each keypoint once, and never one that is taken.
    assert_eq!(claimed, [2, 0]);
}

fn lenient() -> RelocConfig {
    RelocConfig {
        min_matches: 2,
        ..RelocConfig::default()
    }
}

#[test]
fn relocalization_matches_live_points_within_reach() {
    let keyframe = KeyframeDescriptors {
        descriptors: vec![bits(0), bits(100), bits(200), bits(50)],
        points: vec![Some(0), Some(1), Some(2), None],
    };
    let frame = vec![bits(2), bits(101), bits(140)];
    // Point 1 was culled.
    let live = vec![true, false, true];
    let got = relocalization_matches(&keyframe, &live, &frame, &lenient()).expect("two matches");
    assert_eq!(
        got,
        [
            Match {
                keypoint: 0,
                point: 0,
                distance: 2,
            },
            Match {
                keypoint: 2,
                point: 2,
                distance: 60,
            },
        ]
    );
    // One bit past the reach, only one match is left.
    let strict = RelocConfig {
        max_hamming: 59,
        ..lenient()
    };
    assert_eq!(relocalization_matches(&keyframe, &live, &frame, &strict), None);
    assert!(accepts_relocalization(&RelocConfig::default(), 30));
    assert!(!accepts_relocalization(&RelocConfig::default(), 29));
}

#[test]
fn candidates_are_the_nearest_first() {
    let d: Vec<Double> = [4.0, 1.0, 9.0, 1.0].into_iter().map(double).collect();
    assert_eq!(nearest_candidates(&d, 3), [1, 3, 0]);
    assert_eq!(nearest_candidates(&d, 10), [1, 3, 0, 2]);
    assert_eq!(RelocConfig::default().max_candidates, 12);
}

fn geometry(located: bool) -> PairGeometry {
    PairGeometry {
        located,
        epipole_distance_sq: Some(double(500.0)),
        epipole_limit_sq: double(100.0),
        line_norm_sq: double(1.0),
        offset_sq: double(1.0),
        offset_limit_sq: double(3.84),
    }
}

#[test]
fn growth_pairs_are_gated_and_claim_once() {
    assert!(geometry(true).is_plausible());
    assert!(!geometry(false).is_plausible());
    for bad in [
        PairGeometry {
            epipole_distance_sq: Some(double(99.0)),
            ..geometry(true)
        },
        PairGeometry {
            line_norm_sq: double(1e-12),
            ..geometry(true)
        },
        PairGeometry {
            offset_sq: double(3.85),
            ..geometry(true)
        },
    ] {
        assert!(!bad.is_plausible());
    }
    let no_epipole = PairGeometry {
        epipole_distance_sq: None,
        ..geometry(true)
    };
    assert!(no_epipole.is_plausible());

    // Sixteen sub-matches, the last naming the first's current keypoint again.
    let prev_free: Vec<usize> = (100..116).collect();
    let curr_free: Vec<usize> = (200..215).collect();
    let mut matches: Vec<KeypointPair> = (0..15).map(|i| KeypointPair { prev: i, curr: i }).collect();
    matches.push(KeypointPair { prev: 15, curr: 0 });
    let good = vec![geometry(true); 16];
    let pairs = select_growth_pairs(&matches, &good, &prev_free, &curr_free).expect("enough");
    assert_eq!(pairs.len(), 15);
    assert_eq!((pairs[0].prev, pairs[0].curr), (100, 200));
    assert_eq!((pairs[14].prev, pairs[14].curr), (114, 214));

    // One of the fifteen fails a gate: too few are left, and its keypoint stays claimed.
    let mut one_bad = good.clone();
    one_bad[0] = geometry(false);
    assert!(select_growth_pairs(&matches, &one_bad, &prev_free, &curr_free).is_none());

    assert!(pair_can_grow(1, 1, double(0.1)));
    assert!(!pair_can_grow(0, 1, double(0.1)));
    assert!(!pair_can_grow(1, 1, double(1e-8)), "no baseline");

    let grown = keep_triangulated(&vec![2, 0, 99], &pairs, &vec![None; 300]);
    assert_eq!(grown.len(), 2);
    assert_eq!(grown[0].0, 0);
    assert_eq!(grown[0].1.curr, 202);
    assert_eq!(growth_links(7, &grown, 2), [(7, 102), (8, 100)]);
    assert_eq!(growth_links(7, &grown, 1), [(7, 102)]);
}

#[test]
fn a_grown_point_takes_a_free_keypoint_of_either_keyframe() {
    // Every third keypoint of the earlier keyframe is taken, and every fourth of the later one.
    let prev_points: Vec<Option<usize>> = (0..30).map(|i| (i % 3 == 0).then_some(i)).collect();
    let curr_points: Vec<Option<usize>> = (0..30).map(|i| (i % 4 == 0).then_some(i)).collect();
    let (prev_free, curr_free) = (unassociated(&prev_points), unassociated(&curr_points));
    let matches: Vec<KeypointPair> = (0..18).map(|i| KeypointPair { prev: i, curr: i }).collect();
    let pairs = select_growth_pairs(&matches, &vec![geometry(true); 18], &prev_free, &curr_free)
        .expect("enough");
    let grown = keep_triangulated(&(0..18).rev().collect(), &pairs, &curr_points);
    assert_eq!(grown.len(), 18);
    assert_eq!((grown[17].1.prev, grown[17].1.curr), (1, 1));
    assert_eq!((grown[0].1.prev, grown[0].1.curr), (26, 23));
    for (_, pair) in grown {
        assert!(prev_points[pair.prev].is_none());
        assert!(curr_points[pair.curr].is_none());
    }
}

#[test]
fn slots_are_told_apart() {
    let points = vec![Some(4), None, Some(2)];
    assert_eq!(unassociated(&points), [1]);
    assert_eq!(associated(&points), [4, 2]);
}

#[test]
fn only_close_free_keypoints_become_points() {
    let stereo: Vec<StereoDepth> = [(0, 1.0), (1, 2.0), (2, 2.5), (3, 2.6)]
        .into_iter()
        .map(|(keypoint, z)| StereoDepth {
            keypoint,
            depth: double(z),
        })
        .collect();
    let points = vec![None, Some(8), None, None];
    assert_eq!(close_stereo_points(&stereo, &points, double(2.5)), [0, 2]);
}

#[test]
fn fusion_finds_a_free_keypoint_nearby() {
    assert!(wants_fusion(true, false, double(1.0)));
    assert!(!wants_fusion(false, false, double(1.0)), "culled");
    assert!(!wants_fusion(true, true, double(1.0)), "already observed there");
    assert!(!wants_fusion(true, false, double(0.0)), "behind the camera");

    let mut neighbour = KeyframeDescriptors {
        descriptors: vec![bits(10), bits(11), bits(12), bits(90)],
        points: vec![Some(1), None, None, None],
    };
    let gaps = vec![Some(single(0.0)), Some(single(49.0)), Some(single(49.1)), Some(single(1.0))];
    let p = propose_fusion(&neighbour, &gaps, &bits(10), 5).expect("keypoint 1");
    assert_eq!(
        p,
        Match {
            keypoint: 1,
            point: 5,
            distance: 1,
        }
    );
    // The nearest free one is too far in bits.
    let only_far = vec![None, None, None, Some(single(1.0))];
    assert_eq!(propose_fusion(&neighbour, &only_far, &bits(10), 5), None);

    let rival = Match {
        keypoint: 1,
        point: 6,
        distance: 0,
    };
    assert_eq!(fuse_into(&mut neighbour, &vec![p, rival]), [1]);
    assert_eq!(neighbour.points, [Some(1), Some(6), None, None]);
}

#[test]
fn a_neighbour_gets_the_points_it_can_see_and_no_keypoint_twice() {
    let mut neighbour = KeyframeDescriptors {
        descriptors: vec![bits(10), bits(20), bits(30)],
        points: vec![None, None, Some(7)],
    };
    let near = |keypoint: usize| {
        let mut gaps = vec![None; 3];
        gaps[keypoint] = Some(single(4.0));
        Some(gaps)
    };
    let sighting = |point, n, gaps| Sighting {
        point,
        descriptor: bits(n),
        live: true,
        observed: false,
        depth: double(2.0),
        gaps,
    };
    let sightings = vec![
        sighting(1, 12, near(0)),
        sighting(2, 11, near(0)),
        Sighting {
            live: false,
            ..sighting(3, 20, near(1))
        },
        Sighting {
            observed: true,
            ..sighting(4, 20, near(1))
        },
        sighting(5, 20, None),
        sighting(6, 30, near(2)),
    ];
    let (proposals, claimed) = fuse_into_neighbor(&mut neighbour, &sightings);
    assert_eq!(
        proposals,
        [
            Match {
                keypoint: 0,
                point: 1,
                distance: 2,
            },
            Match {
                keypoint: 0,
                point: 2,
                distance: 1,
            },
        ]
    );
    assert_eq!(claimed, [1], "the nearer one takes the keypoint");
    assert_eq!(neighbour.points, [Some(2), None, Some(7)]);
}

#[test]
fn a_walk_visits_every_other_keyframe_and_counts_what_it_fused() {
    let sightings = |point| {
        vec![Sighting {
            point,
            descriptor: bits(10),
            live: true,
            observed: false,
            depth: double(2.0),
            gaps: Some(vec![Some(single(4.0)), None]),
        }]
    };
    let slots = |first| {
        Some(KeyframeDescriptors {
            descriptors: vec![bits(10), bits(20)],
            points: vec![first, None],
        })
    };
    let mut walk = Fusion::new(9, vec![9, 7, 4, 9, 2, 9]);
    assert_eq!(walk.next_neighbour(), Some(7));
    let mut seven = slots(None);
    let (proposals, claimed) = walk.visit(&mut seven, &sightings(3));
    assert_eq!((proposals[0].point, proposals[0].keypoint), (3, 0));
    assert_eq!(claimed, [0]);
    assert_eq!(seven.expect("held").points, [Some(3), None]);

    assert_eq!(walk.next_neighbour(), Some(4));
    let mut unknown = None;
    let (proposals, claimed) = walk.visit(&mut unknown, &Vec::new());
    assert!(proposals.is_empty() && claimed.is_empty() && unknown.is_none());

    assert_eq!(walk.next_neighbour(), Some(2), "itself is passed over");
    walk.visit(&mut slots(None), &sightings(3));
    assert_eq!(walk.fused, 2);
    walk.visit(&mut slots(Some(1)), &sightings(3));
    assert_eq!(walk.fused, 2, "its keypoint is taken");
    assert_eq!(walk.next_neighbour(), None);
    assert_eq!(walk.next_neighbour(), None);
}

#[test]
fn correspondences_the_pose_does_not_explain_are_dropped() {
    let m = |point, keypoint| PointMatch { point, keypoint };
    let matches = vec![m(0, 1), m(1, 2), m(2, 3), m(9, 4), m(0, 5)];
    let errors = vec![
        Some(double(4.0)),
        Some(double(4.1)),
        Some(double(0.1)),
        Some(double(0.1)),
        None,
    ];
    // Point 2 was culled, and there is no point 9.
    let kept = reject_pnp_outliers(&matches, &errors, &vec![true, true, false], double(4.0));
    assert_eq!(kept, [m(0, 1)]);
}
