//! Matching binary descriptors, and settling which match a keypoint keeps.
use crate::order::{is_stable_order, stable_order};
use vstd::prelude::*;

verus! {

/// The number of ones in the binary notation of a byte.
pub open spec fn ones(b: u8) -> nat
    decreases b,
{
    if b == 0 {
        0
    } else {
        (b % 2) as nat + ones(b / 2)
    }
}

/// The number of bits in which two byte sequences of one length differ.
pub open spec fn hamming(a: Seq<u8>, b: Seq<u8>) -> nat
    decreases a.len(),
{
    if a.len() == 0 {
        0
    } else {
        hamming(a.drop_last(), b.drop_last()) + ones(a.last() ^ b.last())
    }
}

/// `kornia_imgproc::features::hamming_distance` on 32-byte descriptors: the number of bits in
/// which the two differ, whichever vector unit counts them.
#[verifier::external_body]
fn descriptor_distance(a: &[u8; 32], b: &[u8; 32]) -> (r: u32)
    ensures
        r == hamming(a@, b@),
{
    kornia_imgproc::features::hamming_distance(a, b)
}

/// A proposed association of a keypoint with a map point, and how far apart their descriptors
/// are.
#[derive(Clone, Copy, Debug, PartialEq, Eq, Structural)]
pub struct Match {
    /// Index of the keypoint.
    pub keypoint: usize,
    /// Index of the map point.
    pub point: usize,
    /// Descriptor distance in bits.
    pub distance: u32,
}

/// The first of the eligible descriptors among the first `n` that is closest to the query.
pub open spec fn nearest_upto(
    query: Seq<u8>,
    descriptors: Seq<[u8; 32]>,
    eligible: Seq<bool>,
    n: int,
) -> Option<int>
    decreases n,
{
    if n <= 0 {
        None
    } else {
        let best = nearest_upto(query, descriptors, eligible, n - 1);
        if !eligible[n - 1] {
            best
        } else {
            match best {
                None => Some(n - 1),
                Some(b) => if hamming(query, descriptors[n - 1]@) < hamming(query, descriptors[b]@) {
                    Some(n - 1)
                } else {
                    Some(b)
                },
            }
        }
    }
}

/// The first of the eligible descriptors that is closest to the query.
pub open spec fn nearest(query: Seq<u8>, descriptors: Seq<[u8; 32]>, eligible: Seq<bool>) -> Option<
    int,
> {
    nearest_upto(query, descriptors, eligible, descriptors.len() as int)
}

proof fn lemma_nearest_upto(
    query: Seq<u8>,
    descriptors: Seq<[u8; 32]>,
    eligible: Seq<bool>,
    n: int,
)
    ensures
        nearest_upto(query, descriptors, eligible, n) is None ==> forall|k: int|
            0 <= k < n ==> !#[trigger] eligible[k],
        nearest_upto(query, descriptors, eligible, n) matches Some(b) ==> {
            &&& 0 <= b < n
            &&& eligible[b]
            &&& forall|k: int|
                0 <= k < n && #[trigger] eligible[k] ==> hamming(query, descriptors[b]@) <= hamming(
                    query,
                    descriptors[k]@,
                )
            &&& forall|k: int|
                0 <= k < b && #[trigger] eligible[k] ==> hamming(query, descriptors[b]@) < hamming(
                    query,
                    descriptors[k]@,
                )
        },
    decreases n,
{
    if n > 0 {
        lemma_nearest_upto(query, descriptors, eligible, n - 1);
    }
}

/// What is found nearest is eligible, no eligible descriptor is closer, and none before it is as
/// close; nothing is found only where nothing is eligible.
pub proof fn nearest_is_the_first_closest(
    query: Seq<u8>,
    descriptors: Seq<[u8; 32]>,
    eligible: Seq<bool>,
)
    ensures
        nearest(query, descriptors, eligible) is None ==> forall|k: int|
            0 <= k < descriptors.len() ==> !#[trigger] eligible[k],
        nearest(query, descriptors, eligible) matches Some(b) ==> {
            &&& 0 <= b < descriptors.len()
            &&& eligible[b]
            &&& forall|k: int|
                0 <= k < descriptors.len() && #[trigger] eligible[k] ==> hamming(
                    query,
                    descriptors[b]@,
                ) <= hamming(query, descriptors[k]@)
            &&& forall|k: int|
                0 <= k < b && #[trigger] eligible[k] ==> hamming(query, descriptors[b]@) < hamming(
                    query,
                    descriptors[k]@,
                )
        },
{
    lemma_nearest_upto(query, descriptors, eligible, descriptors.len() as int);
}

/// Finds the first of the eligible descriptors that is closest to the query, with its distance.
pub fn nearest_descriptor(
    query: &[u8; 32],
    descriptors: &Vec<[u8; 32]>,
    eligible: &Vec<bool>,
) -> (r: Option<(usize, u32)>)
    requires
        eligible@.len() == descriptors@.len(),
    ensures
        match r {
            Some((k, d)) => nearest(query@, descriptors@, eligible@) == Some(k as int) && k
                < descriptors@.len() && d == hamming(query@, descriptors@[k as int]@),
            None => nearest(query@, descriptors@, eligible@) is None,
        },
{
    let mut best: Option<(usize, u32)> = None;
    let mut i: usize = 0;
    while i < descriptors.len()
        invariant
            i <= descriptors@.len(),
            eligible@.len() == descriptors@.len(),
            match best {
                Some((k, d)) => nearest_upto(query@, descriptors@, eligible@, i as int) == Some(
                    k as int,
                ) && k < i && d == hamming(query@, descriptors@[k as int]@),
                None => nearest_upto(query@, descriptors@, eligible@, i as int) is None,
            },
        decreases descriptors@.len() - i,
    {
        if eligible[i] {
            let d: u32 = descriptor_distance(query, &descriptors[i]);
            match best {
                Some((_, least)) => {
                    if d < least {
                        best = Some((i, d));
                    }
                },
                None => {
                    best = Some((i, d));
                },
            }
        }
        i += 1;
    }
    best
}

/// Whether no match of the same keypoint is closer, nor as close and earlier.
pub open spec fn is_best(matches: Seq<Match>, p: int) -> bool {
    forall|q: int|
        0 <= q < matches.len() && (#[trigger] matches[q]).keypoint == matches[p].keypoint
            ==> matches[p].distance < matches[q].distance || (matches[p].distance
            == matches[q].distance && p <= q)
}

/// The key that ranks matches by keypoint and then by distance.
pub open spec fn keypoint_key(m: Match) -> int {
    m.keypoint * 0x1_0000_0000 + m.distance
}

/// Whether `kept` holds the best match of every keypoint, and nothing else, by rising keypoint.
pub open spec fn keeps_best_per_keypoint(matches: Seq<Match>, kept: Seq<Match>) -> bool {
    &&& forall|i: int, j: int|
        0 <= i < j < kept.len() ==> (#[trigger] kept[i]).keypoint < (#[trigger] kept[j]).keypoint
    &&& forall|i: int|
        0 <= i < kept.len() ==> exists|p: int|
            0 <= p < matches.len() && is_best(matches, p) && #[trigger] matches[p]
                == #[trigger] kept[i]
    &&& forall|p: int|
        0 <= p < matches.len() && is_best(matches, p) ==> kept.contains(#[trigger] matches[p])
}

/// Keeps the best match of every keypoint.
pub fn best_per_keypoint(matches: &Vec<Match>) -> (r: Vec<Match>)
    ensures
        keeps_best_per_keypoint(matches@, r@),
{
    let mut keys: Vec<u128> = Vec::new();
    let mut i: usize = 0;
    while i < matches.len()
        invariant
            i <= matches@.len(),
            keys@.len() == i,
            forall|k: int| 0 <= k < i ==> #[trigger] keys@[k] == keypoint_key(matches@[k]),
        decreases matches@.len() - i,
    {
        keys.push(matches[i].keypoint as u128 * 0x1_0000_0000u128 + matches[i].distance as u128);
        i += 1;
    }
    let order: Vec<usize> = stable_order(&keys);
    let mut r: Vec<Match> = Vec::new();
    let mut n: usize = 0;
    while n < order.len()
        invariant
            n <= order@.len(),
            is_stable_order(keys@, order@),
            keys@.len() == matches@.len() <= usize::MAX,
            forall|k: int|
                0 <= k < matches@.len() ==> #[trigger] keys@[k] == keypoint_key(matches@[k]),
            n > 0 ==> r@.len() > 0 && r@.last().keypoint == matches@[order@[n - 1] as int].keypoint,
            n == 0 ==> r@.len() == 0,
            forall|i: int, j: int|
                0 <= i < j < r@.len() ==> (#[trigger] r@[i]).keypoint < (#[trigger] r@[j]).keypoint,
            forall|i: int|
                0 <= i < r@.len() ==> exists|p: int|
                    0 <= p < matches@.len() && is_best(matches@, p) && #[trigger] matches@[p]
                        == #[trigger] r@[i],
            forall|m: int|
                0 <= m < n && is_best(matches@, order@[m] as int) ==> r@.contains(
                    matches@[#[trigger] order@[m] as int],
                ),
        decreases order@.len() - n,
    {
        let p: usize = order[n];
        let m = matches[p];
        let fresh = r.len() == 0 || r[r.len() - 1].keypoint != m.keypoint;
        let ghost prev = r@;
        proof {
            assert(forall|k: int| 0 <= k < n ==> crate::order::before(keys@, #[trigger] order@[k] as int, p as int));
            assert(keys@[p as int] == keypoint_key(m));
            if n > 0 {
                let last = order@[n - 1] as int;
                assert(crate::order::before(keys@, last, p as int));
                assert(keys@[last] == keypoint_key(matches@[last]));
                assert(matches@[last].keypoint <= m.keypoint);
            }
        }
        if fresh {
            proof {
                lemma_first_of_group_is_best(matches@, keys@, order@, n as int);
            }
            r.push(m);
            proof {
                assert forall|i: int| 0 <= i < r@.len() implies exists|p: int|
                    0 <= p < matches@.len() && is_best(matches@, p) && #[trigger] matches@[p]
                        == #[trigger] r@[i] by {
                    if i < prev.len() {
                        assert(r@[i] == prev[i]);
                    } else {
                        assert(matches@[p as int] == r@[i]);
                    }
                }
                assert(r@[prev.len() as int] == matches@[p as int]);
            }
        } else {
            proof {
                let last = order@[n - 1] as int;
                assert(matches@[last].keypoint == m.keypoint);
                assert(!is_best(matches@, p as int));
            }
        }
        proof {
            assert forall|x: int| 0 <= x < n + 1 && is_best(matches@, order@[x] as int) implies r@.contains(
                matches@[#[trigger] order@[x] as int],
            ) by {
                if x < n {
                    assert(prev.contains(matches@[order@[x] as int]));
                    let y = choose|y: int|
                        0 <= y < prev.len() && prev[y] == matches@[order@[x] as int];
                    assert(r@[y] == prev[y]);
                }
            }
        }
        n += 1;
    }
    proof {
        assert forall|p: int| 0 <= p < matches@.len() && is_best(matches@, p) implies r@.contains(
            #[trigger] matches@[p],
        ) by {
            assert(order@.contains(p as usize));
            let x = choose|x: int| 0 <= x < order@.len() && #[trigger] order@[x] == p;
            assert(r@.contains(matches@[order@[x] as int]));
        }
    }
    r
}

proof fn lemma_first_of_group_is_best(
    matches: Seq<Match>,
    keys: Seq<u128>,
    order: Seq<usize>,
    n: int,
)
    requires
        0 <= n < order.len(),
        is_stable_order(keys, order),
        keys.len() == matches.len() <= usize::MAX,
        forall|k: int| 0 <= k < matches.len() ==> #[trigger] keys[k] == keypoint_key(matches[k]),
        n > 0 ==> matches[order[n - 1] as int].keypoint != matches[order[n] as int].keypoint,
    ensures
        is_best(matches, order[n] as int),
{
    let p = order[n] as int;
    assert forall|q: int|
        0 <= q < matches.len() && (#[trigger] matches[q]).keypoint
            == matches[p].keypoint implies matches[p].distance < matches[q].distance || (
    matches[p].distance == matches[q].distance && p <= q) by {
        assert(order.contains(q as usize));
        let x = choose|x: int| 0 <= x < order.len() && #[trigger] order[x] == q;
        assert(keys[q] == keypoint_key(matches[q]));
        assert(keys[p] == keypoint_key(matches[p]));
        if x > n {
            assert(crate::order::before(keys, order[n] as int, order[x] as int));
        } else if x < n {
            let last = order[n - 1] as int;
            assert(keys[last] == keypoint_key(matches[last]));
            assert(crate::order::before(keys, last, p));
            if x < n - 1 {
                assert(crate::order::before(keys, order[x] as int, order[n - 1] as int));
            }
            assert(matches[q].keypoint <= matches[last].keypoint <= matches[p].keypoint);
            assert(false);
        }
    }
}

/// The matches that are the best of their keypoint, of those keypoints that are still free, by
/// rising distance; matches equally far apart stay in the order they were proposed in.
pub open spec fn claims_free_keypoints(
    matches: Seq<Match>,
    taken: Seq<Option<usize>>,
    claimed: Seq<usize>,
) -> bool {
    &&& forall|i: int, j: int|
        0 <= i < j < claimed.len() ==> {
            let a = #[trigger] claimed[i] as int;
            let b = #[trigger] claimed[j] as int;
            matches[a].distance < matches[b].distance || (matches[a].distance == matches[b].distance
                && a < b)
        }
    &&& forall|p: int|
        0 <= p < matches.len() ==> (claimed.contains(p as usize) <==> is_best(matches, p) && (
        #[trigger] matches[p]).keypoint < taken.len() && taken[matches[p].keypoint as int] is None)
    &&& forall|i: int| 0 <= i < claimed.len() ==> #[trigger] claimed[i] < matches.len()
}

/// Settles competing matches: by rising distance, each match claims its keypoint unless the
/// keypoint is associated already or was claimed by an earlier one. Returns the positions of the
/// matches that won, in that order.
pub fn claim_matches(matches: &Vec<Match>, taken: &Vec<Option<usize>>) -> (r: Vec<usize>)
    ensures
        claims_free_keypoints(matches@, taken@, r@),
{
    let mut keys: Vec<u128> = Vec::new();
    let mut i: usize = 0;
    while i < matches.len()
        invariant
            i <= matches@.len(),
            keys@.len() == i,
            forall|k: int| 0 <= k < i ==> #[trigger] keys@[k] == matches@[k].distance,
        decreases matches@.len() - i,
    {
        keys.push(matches[i].distance as u128);
        i += 1;
    }
    let order: Vec<usize> = stable_order(&keys);
    let mut claimed: Vec<bool> = Vec::new();
    let mut k: usize = 0;
    while k < taken.len()
        invariant
            k <= taken@.len(),
            claimed@.len() == k,
            forall|x: int| 0 <= x < k ==> !#[trigger] claimed@[x],
        decreases taken@.len() - k,
    {
        claimed.push(false);
        k += 1;
    }
    let mut r: Vec<usize> = Vec::new();
    let mut n: usize = 0;
    while n < order.len()
        invariant
            n <= order@.len(),
            is_stable_order(keys@, order@),
            keys@.len() == matches@.len() <= usize::MAX,
            forall|k: int| 0 <= k < matches@.len() ==> #[trigger] keys@[k] == matches@[k].distance,
            claimed@.len() == taken@.len(),
            forall|x: int|
                0 <= x < claimed@.len() ==> (#[trigger] claimed@[x] <==> taken@[x] is None
                    && exists|y: int|
                    0 <= y < n && matches@[#[trigger] order@[y] as int].keypoint == x),
            forall|x: int| 0 <= x < r@.len() ==> #[trigger] r@[x] < matches@.len(),
            forall|x: int|
                0 <= x < r@.len() ==> exists|y: int|
                    0 <= y < n && #[trigger] order@[y] == #[trigger] r@[x],
            forall|i: int, j: int|
                0 <= i < j < r@.len() ==> crate::order::before(
                    keys@,
                    #[trigger] r@[i] as int,
                    #[trigger] r@[j] as int,
                ),
            forall|x: int|
                0 <= x < n ==> (r@.contains(#[trigger] order@[x]) <==> is_best(
                    matches@,
                    order@[x] as int,
                ) && matches@[order@[x] as int].keypoint < taken@.len()
                    && taken@[matches@[order@[x] as int].keypoint as int] is None),
        decreases order@.len() - n,
    {
        let p: usize = order[n];
        let kp: usize = matches[p].keypoint;
        let ghost prev = r@;
        let ghost claimed_before = claimed@;
        proof {
            lemma_best_by_distance(matches@, keys@, order@, n as int);
            assert forall|x: int| 0 <= x < prev.len() implies crate::order::before(
                keys@,
                #[trigger] prev[x] as int,
                p as int,
            ) by {
                let y = choose|y: int| 0 <= y < n && #[trigger] order@[y] == prev[x];
                assert(crate::order::before(keys@, order@[y] as int, order@[n as int] as int));
            }
        }
        if kp < taken.len() && taken[kp].is_none() && !claimed[kp] {
            r.push(p);
            claimed.set(kp, true);
            proof {
                assert(r@[prev.len() as int] == p);
                assert(r@.contains(p));
            }
        } else {
            proof {
                if prev.contains(p) {
                    let x = choose|x: int| 0 <= x < prev.len() && #[trigger] prev[x] == p;
                    assert(crate::order::before(keys@, prev[x] as int, p as int));
                }
            }
        }
        proof {
            assert forall|x: int| 0 <= x < claimed@.len() implies (#[trigger] claimed@[x]
                <==> taken@[x] is None && exists|y: int|
                0 <= y < n + 1 && matches@[#[trigger] order@[y] as int].keypoint == x) by {
                if x == kp {
                    assert(matches@[order@[n as int] as int].keypoint == x);
                } else {
                    assert(claimed@[x] == claimed_before[x]);
                }
            }
            assert forall|x: int| 0 <= x < n + 1 implies (r@.contains(#[trigger] order@[x])
                <==> is_best(matches@, order@[x] as int) && matches@[order@[x] as int].keypoint
                < taken@.len() && taken@[matches@[order@[x] as int].keypoint as int] is None) by {
                if x < n {
                    assert(crate::order::before(keys@, order@[x] as int, order@[n as int] as int));
                    assert(order@[x] != p);
                    assert(r@.contains(order@[x]) <==> prev.contains(order@[x])) by {
                        if prev.contains(order@[x]) {
                            let y = choose|y: int| 0 <= y < prev.len() && prev[y] == order@[x];
                            assert(r@[y] == order@[x]);
                        }
                        if r@.contains(order@[x]) {
                            let y = choose|y: int| 0 <= y < r@.len() && r@[y] == order@[x];
                            assert(y < prev.len());
                            assert(prev[y] == order@[x]);
                        }
                    }
                }
            }
            assert forall|x: int| 0 <= x < r@.len() implies exists|y: int|
                0 <= y < n + 1 && #[trigger] order@[y] == #[trigger] r@[x] by {
                if x < prev.len() {
                    let y = choose|y: int| 0 <= y < n && #[trigger] order@[y] == prev[x];
                    assert(order@[y] == r@[x]);
                } else {
                    assert(order@[n as int] == r@[x]);
                }
            }
        }
        n += 1;
    }
    proof {
        assert forall|p: int| 0 <= p < matches@.len() implies (r@.contains(p as usize) <==> is_best(
            matches@,
            p,
        ) && (#[trigger] matches@[p]).keypoint < taken@.len()
            && taken@[matches@[p].keypoint as int] is None) by {
            assert(order@.contains(p as usize));
            let x = choose|x: int| 0 <= x < order@.len() && #[trigger] order@[x] == p;
            assert(r@.contains(order@[x]) <==> is_best(matches@, order@[x] as int)
                && matches@[order@[x] as int].keypoint < taken@.len()
                && taken@[matches@[order@[x] as int].keypoint as int] is None);
        }
        assert forall|i: int, j: int| 0 <= i < j < r@.len() implies ({
            let a = #[trigger] r@[i] as int;
            let b = #[trigger] r@[j] as int;
            matches@[a].distance < matches@[b].distance || (matches@[a].distance
                == matches@[b].distance && a < b)
        }) by {
            assert(crate::order::before(keys@, r@[i] as int, r@[j] as int));
            assert(keys@[r@[i] as int] == matches@[r@[i] as int].distance);
            assert(keys@[r@[j] as int] == matches@[r@[j] as int].distance);
        }
    }
    r
}

proof fn lemma_best_by_distance(matches: Seq<Match>, keys: Seq<u128>, order: Seq<usize>, n: int)
    requires
        0 <= n < order.len(),
        is_stable_order(keys, order),
        keys.len() == matches.len() <= usize::MAX,
        forall|k: int| 0 <= k < matches.len() ==> #[trigger] keys[k] == matches[k].distance,
    ensures
        is_best(matches, order[n] as int) <==> !exists|y: int|
            0 <= y < n && matches[#[trigger] order[y] as int].keypoint
                == matches[order[n] as int].keypoint,
{
    let p = order[n] as int;
    assert(keys[p] == matches[p].distance);
    if exists|y: int| 0 <= y < n && matches[#[trigger] order[y] as int].keypoint == matches[p].keypoint {
        let y = choose|y: int|
            0 <= y < n && matches[#[trigger] order[y] as int].keypoint == matches[p].keypoint;
        let q = order[y] as int;
        assert(crate::order::before(keys, order[y] as int, order[n] as int));
        assert(keys[q] == matches[q].distance);
        assert(matches[q].keypoint == matches[p].keypoint);
    } else {
        assert forall|q: int|
            0 <= q < matches.len() && (#[trigger] matches[q]).keypoint
                == matches[p].keypoint implies matches[p].distance < matches[q].distance || (
        matches[p].distance == matches[q].distance && p <= q) by {
            assert(order.contains(q as usize));
            let x = choose|x: int| 0 <= x < order.len() && #[trigger] order[x] == q;
            assert(keys[q] == matches[q].distance);
            if x > n {
                assert(crate::order::before(keys, order[n] as int, order[x] as int));
            } else if x < n {
                assert(matches[order[x] as int].keypoint == matches[p].keypoint);
            }
        }
    }
}

/// No keypoint is claimed twice.
pub proof fn no_keypoint_is_claimed_twice(
    matches: Seq<Match>,
    taken: Seq<Option<usize>>,
    claimed: Seq<usize>,
    i: int,
    j: int,
)
    requires
        claims_free_keypoints(matches, taken, claimed),
        0 <= i < j < claimed.len(),
    ensures
        matches[claimed[i] as int].keypoint != matches[claimed[j] as int].keypoint,
{
    let a = claimed[i] as int;
    let b = claimed[j] as int;
    assert(claimed.contains(claimed[i]));
    assert(claimed.contains(claimed[j]));
    assert(claimed.contains(a as usize) && claimed.contains(b as usize));
    if matches[a].keypoint == matches[b].keypoint {
        assert(is_best(matches, a));
        assert(is_best(matches, b));
        assert(a <= b && b <= a);
    }
}

} // verus!
