//! Stable orderings by integer keys.
//!
//! Everything that is ranked here (distances, descriptor matches, durations) is ranked through an
//! unsigned integer key, so one sort serves them all: it returns the positions in order, and which
//! positions those are is fixed by the keys alone.
use crate::ieee::{Double, SIGN64};
use vstd::prelude::*;

verus! {

/// Whether position `a` comes before position `b`: by key, and by position where the keys agree.
pub open spec fn before(keys: Seq<u128>, a: int, b: int) -> bool {
    keys[a] < keys[b] || (keys[a] == keys[b] && a < b)
}

/// Whether `order` lists the positions `lo..hi` once each, in stable key order.
pub open spec fn orders_range(keys: Seq<u128>, lo: int, hi: int, order: Seq<usize>) -> bool {
    &&& order.len() == hi - lo
    &&& forall|i: int| 0 <= i < order.len() ==> lo <= #[trigger] order[i] < hi
    &&& forall|i: int, j: int|
        0 <= i < j < order.len() ==> before(keys, #[trigger] order[i] as int, #[trigger] order[j] as int)
    &&& forall|k: usize| lo <= k < hi ==> #[trigger] order.contains(k)
}

/// Whether `order` lists every position of `keys` once, in stable key order.
pub open spec fn is_stable_order(keys: Seq<u128>, order: Seq<usize>) -> bool {
    orders_range(keys, 0, keys.len() as int, order)
}

/// The positions of `keys` in stable key order. There is exactly one such list.
pub open spec fn ordering(keys: Seq<u128>) -> Seq<usize> {
    choose|order: Seq<usize>| is_stable_order(keys, order)
}

fn merge(keys: &Vec<u128>, a: &Vec<usize>, b: &Vec<usize>, Ghost(lo): Ghost<int>, Ghost(mid): Ghost<
    int,
>, Ghost(hi): Ghost<int>) -> (r: Vec<usize>)
    requires
        0 <= lo <= mid <= hi <= keys@.len(),
        orders_range(keys@, lo, mid, a@),
        orders_range(keys@, mid, hi, b@),
        a@.len() + b@.len() <= usize::MAX,
    ensures
        orders_range(keys@, lo, hi, r@),
{
    let mut r: Vec<usize> = Vec::new();
    let mut i: usize = 0;
    let mut j: usize = 0;
    while i < a.len() || j < b.len()
        invariant
            0 <= lo <= mid <= hi <= keys@.len(),
            orders_range(keys@, lo, mid, a@),
            orders_range(keys@, mid, hi, b@),
            i <= a@.len(),
            j <= b@.len(),
            a@.len() + b@.len() <= usize::MAX,
            r@.len() == i + j,
            forall|k: int| 0 <= k < r@.len() ==> lo <= #[trigger] r@[k] < hi,
            forall|k: int, l: int|
                0 <= k < l < r@.len() ==> before(
                    keys@,
                    #[trigger] r@[k] as int,
                    #[trigger] r@[l] as int,
                ),
            forall|k: int, l: int|
                0 <= k < r@.len() && i <= l < a@.len() ==> before(
                    keys@,
                    #[trigger] r@[k] as int,
                    #[trigger] a@[l] as int,
                ),
            forall|k: int, l: int|
                0 <= k < r@.len() && j <= l < b@.len() ==> before(
                    keys@,
                    #[trigger] r@[k] as int,
                    #[trigger] b@[l] as int,
                ),
            forall|l: int| 0 <= l < i ==> r@.contains(#[trigger] a@[l]),
            forall|l: int| 0 <= l < j ==> r@.contains(#[trigger] b@[l]),
        decreases a@.len() - i + b@.len() - j,
    {
        let ghost prev = r@;
        if j >= b.len() || (i < a.len() && keys[a[i]] <= keys[b[j]]) {
            r.push(a[i]);
            proof {
                assert forall|l: int| 0 <= l < i + 1 implies r@.contains(#[trigger] a@[l]) by {
                    lemma_push_contains(prev, a@[i as int], a@[l]);
                }
                assert forall|l: int| 0 <= l < j implies r@.contains(#[trigger] b@[l]) by {
                    lemma_push_contains(prev, a@[i as int], b@[l]);
                }
            }
            i += 1;
        } else {
            r.push(b[j]);
            proof {
                assert forall|l: int| 0 <= l < i implies r@.contains(#[trigger] a@[l]) by {
                    lemma_push_contains(prev, b@[j as int], a@[l]);
                }
                assert forall|l: int| 0 <= l < j + 1 implies r@.contains(#[trigger] b@[l]) by {
                    lemma_push_contains(prev, b@[j as int], b@[l]);
                }
            }
            j += 1;
        }
    }
    proof {
        assert forall|k: usize| lo <= k < hi implies #[trigger] r@.contains(k) by {
            if k < mid {
                assert(a@.contains(k));
                let x = choose|x: int| 0 <= x < a@.len() && #[trigger] a@[x] == k;
                assert(r@.contains(a@[x]));
            } else {
                assert(b@.contains(k));
                let x = choose|x: int| 0 <= x < b@.len() && #[trigger] b@[x] == k;
                assert(r@.contains(b@[x]));
            }
        }
    }
    r
}

proof fn lemma_push_contains(s: Seq<usize>, v: usize, x: usize)
    requires
        s.contains(x) || x == v,
    ensures
        s.push(v).contains(x),
{
    if s.contains(x) {
        let i = choose|i: int| 0 <= i < s.len() && s[i] == x;
        assert(s.push(v)[i] == x);
    } else {
        assert(s.push(v)[s.len() as int] == x);
    }
}

fn order_range(keys: &Vec<u128>, lo: usize, hi: usize) -> (r: Vec<usize>)
    requires
        lo <= hi <= keys@.len(),
    ensures
        orders_range(keys@, lo as int, hi as int, r@),
    decreases hi - lo,
{
    let mut r: Vec<usize> = Vec::new();
    if hi - lo == 1 {
        r.push(lo);
        assert(r@[0] == lo);
        r
    } else if hi - lo > 1 {
        let mid: usize = lo + (hi - lo) / 2;
        let a: Vec<usize> = order_range(keys, lo, mid);
        let b: Vec<usize> = order_range(keys, mid, hi);
        merge(keys, &a, &b, Ghost(lo as int), Ghost(mid as int), Ghost(hi as int))
    } else {
        r
    }
}

/// The positions of `keys` in stable key order.
pub fn stable_order(keys: &Vec<u128>) -> (r: Vec<usize>)
    ensures
        is_stable_order(keys@, r@),
{
    order_range(keys, 0, keys.len())
}

/// There is only one stable order: the keys alone decide it.
pub proof fn stable_order_is_unique(keys: Seq<u128>, a: Seq<usize>, b: Seq<usize>)
    requires
        is_stable_order(keys, a),
        is_stable_order(keys, b),
    ensures
        a == b,
{
    lemma_prefixes_agree(keys, a, b, keys.len());
    assert(a.take(keys.len() as int) =~= a);
    assert(b.take(keys.len() as int) =~= b);
}

/// A list in stable key order is the ordering.
pub proof fn a_stable_order_is_the_ordering(keys: Seq<u128>, order: Seq<usize>)
    requires
        is_stable_order(keys, order),
    ensures
        order == ordering(keys),
{
    stable_order_is_unique(keys, order, ordering(keys));
}

proof fn lemma_prefixes_agree(keys: Seq<u128>, a: Seq<usize>, b: Seq<usize>, n: nat)
    requires
        is_stable_order(keys, a),
        is_stable_order(keys, b),
        n <= keys.len(),
    ensures
        a.take(n as int) == b.take(n as int),
    decreases n,
{
    if n > 0 {
        let m = (n - 1) as nat;
        lemma_prefixes_agree(keys, a, b, m);
        assert forall|i: int| 0 <= i < m implies #[trigger] a[i] == b[i] by {
            assert(a.take(m as int)[i] == b.take(m as int)[i]);
        }
        assert(b.contains(a[m as int]));
        assert(a.contains(b[m as int]));
        let x = choose|x: int| 0 <= x < b.len() && #[trigger] b[x] == a[m as int];
        let y = choose|y: int| 0 <= y < a.len() && #[trigger] a[y] == b[m as int];
        if x < m {
            assert(a[x] == b[x]);
            assert(before(keys, a[x] as int, a[m as int] as int));
        }
        if y < m {
            assert(a[y] == b[y]);
            assert(before(keys, b[y] as int, b[m as int] as int));
        }
        if x > m && y > m {
            assert(before(keys, b[m as int] as int, b[x] as int));
            assert(before(keys, a[m as int] as int, a[y] as int));
        }
        assert(a[m as int] == b[m as int]);
        assert(a.take(n as int) =~= b.take(n as int));
    } else {
        assert(a.take(0) =~= b.take(0));
    }
}

/// The key that ranks binary64 values in their total order.
pub open spec fn total_key_spec(x: Double) -> u128 {
    (x.total_rank() + SIGN64) as u128
}

/// The key that ranks binary64 values in their total order.
pub fn total_key(x: Double) -> (r: u128)
    ensures
        r == total_key_spec(x),
        r == x.total_rank() + SIGN64,
{
    if x.bits >= SIGN64 {
        (SIGN64 - 1 - (x.bits - SIGN64)) as u128
    } else {
        x.bits as u128 + SIGN64 as u128
    }
}

/// The keys that rank a list of binary64 values.
pub open spec fn total_keys_spec(v: Seq<Double>) -> Seq<u128> {
    Seq::new(v.len(), |i: int| total_key_spec(v[i]))
}

/// The keys that rank a list of binary64 values.
pub fn total_keys(v: &Vec<Double>) -> (r: Vec<u128>)
    ensures
        r@ == total_keys_spec(v@),
{
    let mut r: Vec<u128> = Vec::new();
    let mut i: usize = 0;
    while i < v.len()
        invariant
            i <= v@.len(),
            r@.len() == i,
            forall|k: int| 0 <= k < i ==> #[trigger] r@[k] == total_key_spec(v@[k]),
        decreases v@.len() - i,
    {
        r.push(total_key(v[i]));
        i += 1;
    }
    assert(r@ =~= total_keys_spec(v@));
    r
}

} // verus!
