use vstd::prelude::*;

verus! {

/// First index of bucket `i` (counted from 1): edge `i - 1`.
pub open spec fn bucket_start(edges: Seq<usize>, i: int) -> int {
    edges[i - 1] as int
}

/// One past the last index of bucket `i`: edge `i`, never beyond the last
/// sample.
pub open spec fn bucket_end(edges: Seq<usize>, n: int, i: int) -> int {
    if (edges[i] as int) < n - 1 {
        edges[i] as int
    } else {
        n - 1
    }
}

/// Index of the first smallest key in `ys[s..e)`.
pub open spec fn min_index(ys: Seq<i64>, s: int, e: int) -> int
    decreases e - s,
{
    if e - s <= 1 {
        s
    } else {
        let m = min_index(ys, s, e - 1);
        if ys[e - 1] < ys[m] {
            e - 1
        } else {
            m
        }
    }
}

/// Index of the first largest key in `ys[s..e)`.
pub open spec fn max_index(ys: Seq<i64>, s: int, e: int) -> int
    decreases e - s,
{
    if e - s <= 1 {
        s
    } else {
        let m = max_index(ys, s, e - 1);
        if ys[e - 1] > ys[m] {
            e - 1
        } else {
            m
        }
    }
}

/// The indices kept from bucket `i`: its extrema in sequence order, one index
/// when they coincide, none when the bucket is empty.
pub open spec fn bucket_picks(ys: Seq<i64>, edges: Seq<usize>, i: int) -> Seq<usize> {
    let s = bucket_start(edges, i);
    let e = bucket_end(edges, ys.len() as int, i);
    if s >= e {
        seq![]
    } else {
        let lo = min_index(ys, s, e);
        let hi = max_index(ys, s, e);
        if lo == hi {
            seq![lo as usize]
        } else if lo < hi {
            seq![lo as usize, hi as usize]
        } else {
            seq![hi as usize, lo as usize]
        }
    }
}

/// The indices kept from buckets `1..=k`, in bucket order.
pub open spec fn picks_through(ys: Seq<i64>, edges: Seq<usize>, k: int) -> Seq<usize>
    decreases k,
{
    if k <= 0 {
        seq![]
    } else {
        picks_through(ys, edges, k - 1) + bucket_picks(ys, edges, k)
    }
}

/// The indices that peak-preserving downsampling keeps from a series whose
/// y keys are `ys`, for a target of `t` points and the bucket edges `edges`
/// (bucket `i` runs from edge `i - 1` up to edge `i`).
pub open spec fn downsample_spec(ys: Seq<i64>, t: int, edges: Seq<usize>) -> Seq<usize> {
    let n = ys.len() as int;
    if n <= t {
        Seq::new(n as nat, |j: int| j as usize)
    } else {
        seq![0usize] + picks_through(ys, edges, t - 2) + seq![(n - 1) as usize]
    }
}

/// Edges that start after the first sample and never go back.
pub open spec fn edges_ordered(edges: Seq<usize>) -> bool {
    &&& edges.len() > 0 ==> edges[0] >= 1
    &&& forall|a: int, b: int| 0 <= a <= b < edges.len() ==> edges[a] <= edges[b]
}

/// Number of points to plot for a chart area `area_width` columns wide: two
/// per plotting column (the area less borders and labels), at least fifty.
pub open spec fn target_points_spec(area_width: int) -> int {
    let w = if area_width > 12 {
        area_width - 12
    } else {
        0
    };
    if 2 * w > 50 {
        2 * w
    } else {
        50
    }
}

/// Downsampling keeps the first and the last sample of every non-empty
/// series, and keeps a series no longer than the target whole.
pub proof fn lemma_downsample_keeps_ends(ys: Seq<i64>, t: int, edges: Seq<usize>)
    requires
        0 < ys.len() <= usize::MAX,
    ensures
        downsample_spec(ys, t, edges).len() > 0,
        downsample_spec(ys, t, edges)[0] == 0,
        downsample_spec(ys, t, edges).last() == ys.len() - 1,
        ys.len() <= t ==> downsample_spec(ys, t, edges) == Seq::new(ys.len(), |j: int| j as usize),
{
    let n = ys.len() as int;
    if n > t {
        let r = downsample_spec(ys, t, edges);
        let mid = picks_through(ys, edges, t - 2);
        assert(r == seq![0usize] + mid + seq![(n - 1) as usize]);
        assert(r[r.len() - 1] == (n - 1) as usize);
    } else {
        let r = downsample_spec(ys, t, edges);
        assert(r[n - 1] == (n - 1) as usize);
    }
}

/// Downsamples a series given by the y keys `ys` of its samples, in sequence
/// order, to about `target` points, keeping the first and last samples and
/// the smallest and largest sample of each bucket in between. `edges` holds
/// the `target - 1` bucket edges: the interior samples are split into
/// `target - 2` buckets, bucket `i` running from `edges[i - 1]` up to
/// `edges[i]`. Returns the indices of the kept samples.
pub fn downsample_indices(ys: &Vec<i64>, target: usize, edges: &Vec<usize>) -> (r: Vec<usize>)
    requires
        ys.len() <= target || (target >= 2 && edges.len() == target - 1),
    ensures
        r@ == downsample_spec(ys@, target as int, edges@),
        ys.len() <= target ==> r.len() == ys.len() && forall|j: int|
            0 <= j < ys.len() ==> r@[j] == j,
        ys.len() > 0 ==> r.len() > 0 && r@[0] == 0 && r@.last() == ys.len() - 1,
        forall|a: int| 0 <= a < r.len() ==> r@[a] < ys.len(),
        edges_ordered(edges@) ==> forall|a: int, b: int| 0 <= a < b < r.len() ==> r@[a] < r@[b],
{
    let n = ys.len();
    if n <= target {
        let mut r: Vec<usize> = Vec::new();
        let mut j: usize = 0;
        while j < n
            invariant
                j <= n,
                n == ys.len(),
                r@ =~= Seq::new(j as nat, |k: int| k as usize),
            decreases n - j,
        {
            r.push(j);
            j += 1;
        }
        return r;
    }
    let ghost ordered = edges_ordered(edges@);
    let mut r: Vec<usize> = Vec::new();
    r.push(0);
    let mut i: usize = 1;
    while i < target - 1
        invariant
            n == ys.len(),
            n > target >= 2,
            edges.len() == target - 1,
            1 <= i <= target - 1,
            ordered == edges_ordered(edges@),
            r@ == seq![0usize] + picks_through(ys@, edges@, i - 1),
            r.len() >= 1,
            r@[0] == 0,
            forall|a: int| 0 <= a < r.len() ==> r@[a] < n - 1 || (a == 0 && n == 1),
            ordered ==> forall|a: int, b: int| 0 <= a < b < r.len() ==> r@[a] < r@[b],
            ordered ==> forall|a: int| 0 <= a < r.len() ==> r@[a] < edges@[i - 1],
        decreases target - i,
    {
        let ghost before = r@;
        let s = edges[i - 1];
        let e = if edges[i] < n - 1 {
            edges[i]
        } else {
            n - 1
        };
        if s < e {
            let mut lo: usize = s;
            let mut hi: usize = s;
            let mut j: usize = s + 1;
            while j < e
                invariant
                    n == ys.len(),
                    s < j <= e <= n,
                    lo == min_index(ys@, s as int, j as int),
                    hi == max_index(ys@, s as int, j as int),
                    s <= lo < j,
                    s <= hi < j,
                decreases e - j,
            {
                if ys[j] < ys[lo] {
                    lo = j;
                }
                if ys[j] > ys[hi] {
                    hi = j;
                }
                j += 1;
            }
            if lo == hi {
                r.push(lo);
            } else if lo < hi {
                r.push(lo);
                r.push(hi);
            } else {
                r.push(hi);
                r.push(lo);
            }
        }
        proof {
            if ordered {
                assert(edges@[i - 1] <= edges@[i as int]);
                assert forall|a: int| 0 <= a < r.len() implies r@[a] < edges@[i as int] by {
                    if a < before.len() {
                        assert(r@[a] == before[a]);
                    }
                }
                assert forall|a: int, b: int| 0 <= a < b < r.len() implies r@[a] < r@[b] by {
                    if b < before.len() {
                        assert(r@[a] == before[a] && r@[b] == before[b]);
                    } else if a < before.len() {
                        assert(r@[a] == before[a]);
                    }
                }
            }
            assert forall|a: int| 0 <= a < r.len() implies r@[a] < n - 1 || (a == 0 && n == 1) by {
                if a < before.len() {
                    assert(r@[a] == before[a]);
                }
            }
        }
        assert(r@ =~= before + bucket_picks(ys@, edges@, i as int));
        assert(r@ =~= seq![0usize] + picks_through(ys@, edges@, i as int));
        i += 1;
    }
    let ghost before = r@;
    r.push(n - 1);
    proof {
        assert forall|a: int| 0 <= a < r.len() implies r@[a] < n by {
            if a < before.len() {
                assert(r@[a] == before[a]);
            }
        }
        if ordered {
            assert forall|a: int, b: int| 0 <= a < b < r.len() implies r@[a] < r@[b] by {
                if b < before.len() {
                    assert(r@[a] == before[a] && r@[b] == before[b]);
                } else {
                    assert(r@[a] == before[a]);
                }
            }
        }
    }
    r
}

/// How many points to plot in a chart area `area_width` columns wide.
pub fn chart_target_points(area_width: u16) -> (r: usize)
    ensures
        r == target_points_spec(area_width as int),
        r >= 50,
{
    let w: usize = if area_width > 12 {
        (area_width - 12) as usize
    } else {
        0
    };
    if 2 * w > 50 {
        2 * w
    } else {
        50
    }
}

} // verus!
