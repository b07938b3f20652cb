use vstd::prelude::*;

verus! {

/// Number of in-range latency buckets kept per method.
pub const BENCH_RESOLUTION: usize = 10000;

/// Width of one bucket in nanoseconds (0.1 ms).
pub const BENCH_BUCKET: u64 = 100000;

/// Sum of a sequence of counters.
pub open spec fn seq_sum(s: Seq<u64>) -> int
    decreases s.len(),
{
    if s.len() == 0 {
        0
    } else {
        seq_sum(s.drop_last()) + s.last()
    }
}

/// Sum of the first `i` counters.
pub open spec fn prefix_sum(s: Seq<u64>, i: int) -> int {
    seq_sum(s.subrange(0, i))
}

pub proof fn lemma_sum_nonneg(s: Seq<u64>)
    ensures
        seq_sum(s) >= 0,
    decreases s.len(),
{
    if s.len() > 0 {
        lemma_sum_nonneg(s.drop_last());
    }
}

pub proof fn lemma_sum_update(s: Seq<u64>, i: int, x: u64)
    requires
        0 <= i < s.len(),
    ensures
        seq_sum(s.update(i, x)) == seq_sum(s) - s[i] + x,
    decreases s.len(),
{
    if i == s.len() - 1 {
        assert(s.update(i, x).drop_last() =~= s.drop_last());
    } else {
        assert(s.update(i, x).drop_last() =~= s.drop_last().update(i, x));
        lemma_sum_update(s.drop_last(), i, x);
    }
}

pub proof fn lemma_prefix_step(s: Seq<u64>, i: int)
    requires
        0 <= i < s.len(),
    ensures
        prefix_sum(s, i + 1) == prefix_sum(s, i) + s[i],
{
    assert(s.subrange(0, i + 1).drop_last() =~= s.subrange(0, i));
}

pub proof fn lemma_prefix_full(s: Seq<u64>)
    ensures
        prefix_sum(s, s.len() as int) == seq_sum(s),
{
    assert(s.subrange(0, s.len() as int) =~= s);
}

pub proof fn lemma_prefix_mono(s: Seq<u64>, i: int, j: int)
    requires
        0 <= i <= j <= s.len(),
    ensures
        prefix_sum(s, i) <= prefix_sum(s, j),
    decreases j - i,
{
    if i < j {
        lemma_prefix_step(s, j - 1);
        lemma_prefix_mono(s, i, j - 1);
    }
}

pub proof fn lemma_prefix_bounded(s: Seq<u64>, i: int)
    requires
        0 <= i <= s.len(),
    ensures
        0 <= prefix_sum(s, i) <= seq_sum(s),
{
    lemma_sum_nonneg(s.subrange(0, i));
    lemma_prefix_mono(s, i, s.len() as int);
    lemma_prefix_full(s);
}

pub proof fn lemma_zeros_sum(s: Seq<u64>)
    requires
        forall|k: int| 0 <= k < s.len() ==> s[k] == 0,
    ensures
        seq_sum(s) == 0,
    decreases s.len(),
{
    if s.len() > 0 {
        lemma_zeros_sum(s.drop_last());
    }
}

pub open spec fn is_sorted(s: Seq<u64>) -> bool {
    forall|a: int, b: int| 0 <= a <= b < s.len() ==> s[a] <= s[b]
}

/// `s` holds the entries of `o` in ascending order.
pub open spec fn sorted_perm(o: Seq<u64>, s: Seq<u64>) -> bool {
    &&& s.to_multiset() == o.to_multiset()
    &&& is_sorted(s)
}

/// The latency bucket reported for rank `r` when the in-range counts `d` are
/// walked first and the overflow entries `s` (ascending) after them.
pub open spec fn reported_at(d: Seq<u64>, s: Seq<u64>, r: int, v: u64) -> bool {
    if r <= seq_sum(d) {
        &&& v < d.len()
        &&& prefix_sum(d, v as int) < r <= prefix_sum(d, v + 1)
    } else {
        &&& 0 <= r - seq_sum(d) - 1 < s.len()
        &&& v == s[r - seq_sum(d) - 1]
    }
}

/// `x` is the bucket of at least one recorded sample: an in-range bucket
/// with a count, or an overflow entry.
pub open spec fn is_recorded(d: Seq<u64>, s: Seq<u64>, x: u64) -> bool {
    (x < d.len() && d[x as int] > 0) || s.contains(x)
}

/// What a histogram must satisfy for the sweep to be meaningful: overflow
/// entries are ascending and lie beyond the in-range buckets.
pub open spec fn sweep_ready(d: Seq<u64>, s: Seq<u64>) -> bool {
    &&& is_sorted(s)
    &&& forall|k: int| 0 <= k < s.len() ==> s[k] >= d.len()
}

/// Ranks are reported in a non-decreasing order of latency.
pub proof fn lemma_reported_monotone(d: Seq<u64>, s: Seq<u64>, r1: int, r2: int, v1: u64, v2: u64)
    requires
        sweep_ready(d, s),
        1 <= r1 <= r2,
        reported_at(d, s, r1, v1),
        reported_at(d, s, r2, v2),
    ensures
        v1 <= v2,
{
    if r2 <= seq_sum(d) {
        if v1 > v2 {
            lemma_prefix_mono(d, v2 + 1, v1 as int);
        }
    } else if r1 <= seq_sum(d) {
        assert(s[r2 - seq_sum(d) - 1] >= d.len());
    }
}

/// The rank equal to the number of samples reports the largest recorded bucket.
pub proof fn lemma_top_rank_is_max(d: Seq<u64>, s: Seq<u64>, v: u64)
    requires
        sweep_ready(d, s),
        seq_sum(d) + s.len() >= 1,
        reported_at(d, s, seq_sum(d) + s.len(), v),
    ensures
        is_recorded(d, s, v),
        forall|x: u64| is_recorded(d, s, x) ==> x <= v,
{
    let n = seq_sum(d) + s.len();
    if s.len() > 0 {
        assert(v == s[s.len() - 1]);
        assert(s.contains(v));
        assert forall|x: u64| is_recorded(d, s, x) implies x <= v by {
            if s.contains(x) {
                let k = choose|k: int| 0 <= k < s.len() && s[k] == x;
                assert(s[k] <= s[s.len() - 1]);
            } else {
                assert(s[s.len() - 1] >= d.len());
            }
        }
    } else {
        lemma_prefix_bounded(d, v + 1);
        lemma_prefix_step(d, v as int);
        assert(d[v as int] > 0);
        assert forall|x: u64| is_recorded(d, s, x) implies x <= v by {
            if x > v {
                assert(!s.contains(x));
                lemma_prefix_mono(d, v + 1, x as int);
                lemma_prefix_step(d, x as int);
                lemma_prefix_bounded(d, x + 1);
            }
        }
    }
}


/// Percentile table, in ascending order.
pub open spec fn pct(k: int) -> int {
    if k == 0 { 50 } else if k == 1 { 66 } else if k == 2 { 75 } else if k == 3 { 80 }
    else if k == 4 { 90 } else if k == 5 { 95 } else if k == 6 { 98 } else if k == 7 { 99 }
    else { 100 }
}

pub const PERCENTILE_COUNT: usize = 9;

/// Rank looked for at table entry `k` among `n` samples: `floor(n * p / 100)`,
/// the last entry forced to `n`, and never below the first sample.
pub open spec fn target_rank(n: int, k: int) -> int {
    let r = if k == 8 { n } else { n * pct(k) / 100 };
    if r < 1 { 1 } else { r }
}

pub fn percentile_value(k: usize) -> (r: u64)
    requires
        k < PERCENTILE_COUNT,
    ensures
        r == pct(k as int),
{
    if k == 0 { 50 } else if k == 1 { 66 } else if k == 2 { 75 } else if k == 3 { 80 }
    else if k == 4 { 90 } else if k == 5 { 95 } else if k == 6 { 98 } else if k == 7 { 99 }
    else { 100 }
}

pub proof fn lemma_target_mono(n: int, k1: int, k2: int)
    requires
        n >= 1,
        0 <= k1 <= k2 < 9,
    ensures
        1 <= target_rank(n, k1) <= target_rank(n, k2) <= n,
{
    assert(n * pct(k1) <= n * pct(k2)) by (nonlinear_arith)
        requires n >= 1, pct(k1) <= pct(k2);
    assert(n * pct(k2) <= n * 100) by (nonlinear_arith)
        requires n >= 1, pct(k2) <= 100;
    assert(n * pct(k1) / 100 <= n * pct(k2) / 100) by (nonlinear_arith)
        requires n * pct(k1) <= n * pct(k2);
    assert(n * pct(k2) / 100 <= n) by (nonlinear_arith)
        requires n * pct(k2) <= n * 100;
}

/// The ranks of the percentile table for `n` samples.
pub fn rank_targets(n: u64) -> (r: Vec<u64>)
    requires
        n >= 1,
    ensures
        r@.len() == PERCENTILE_COUNT,
        forall|k: int| 0 <= k < 9 ==> r@[k] == target_rank(n as int, k),
{
    let mut r: Vec<u64> = Vec::new();
    let mut k: usize = 0;
    while k < PERCENTILE_COUNT
        invariant
            k <= PERCENTILE_COUNT,
            n >= 1,
            r@.len() == k,
            forall|j: int| 0 <= j < k ==> r@[j] == target_rank(n as int, j),
        decreases PERCENTILE_COUNT - k,
    {
        let p = percentile_value(k);
        proof { lemma_target_mono(n as int, k as int, 8); }
        let raw: u64 = if k == PERCENTILE_COUNT - 1 {
            n
        } else {
            assert((n as u128) * (p as u128) <= (n as u128) * 100) by (nonlinear_arith)
                requires p <= 100;
            ((n as u128) * (p as u128) / 100) as u64
        };
        let t: u64 = if raw < 1 { 1 } else { raw };
        r.push(t);
        k = k + 1;
    }
    r
}

/// One forward sweep over the in-range counts and then the ascending overflow
/// entries, reporting for each target rank the bucket at which the running
/// count first reaches it.
pub fn sweep_ranks(d: &Vec<u64>, s: &Vec<u64>, targets: &Vec<u64>) -> (r: Vec<u64>)
    requires
        seq_sum(d@) + s@.len() <= u64::MAX,
        d@.len() <= u64::MAX,
        forall|a: int, b: int| 0 <= a <= b < targets@.len() ==> targets@[a] <= targets@[b],
        forall|a: int| 0 <= a < targets@.len() ==> 1 <= #[trigger] targets@[a] <= seq_sum(d@) + s@.len(),
    ensures
        r@.len() == targets@.len(),
        forall|k: int| 0 <= k < targets@.len() ==> reported_at(d@, s@, targets@[k] as int, #[trigger] r@[k]),
{
    let m = targets.len();
    let mut r: Vec<u64> = Vec::new();
    let mut pidx: usize = 0;
    let mut cur: u64 = 0;
    let mut i: usize = 0;
    proof { lemma_sum_nonneg(d@); }
    while i < d.len()
        invariant
            m == targets@.len(),
            i <= d@.len(),
            pidx <= m,
            r@.len() == pidx,
            cur == prefix_sum(d@, i as int),
            seq_sum(d@) + s@.len() <= u64::MAX,
            d@.len() <= u64::MAX,
            forall|a: int, b: int| 0 <= a <= b < targets@.len() ==> targets@[a] <= targets@[b],
            forall|a: int| 0 <= a < targets@.len() ==> 1 <= #[trigger] targets@[a] <= seq_sum(d@) + s@.len(),
            pidx < m ==> targets@[pidx as int] > cur,
            forall|k: int| 0 <= k < pidx ==> reported_at(d@, s@, targets@[k] as int, #[trigger] r@[k]),
        decreases d@.len() - i,
    {
        proof {
            lemma_prefix_step(d@, i as int);
            lemma_prefix_bounded(d@, i as int + 1);
        }
        let ghost before = cur;
        cur = cur + d[i];
        while pidx < m && cur >= targets[pidx]
            invariant
                m == targets@.len(),
                i < d@.len(),
                pidx <= m,
                r@.len() == pidx,
                before == prefix_sum(d@, i as int),
                cur == prefix_sum(d@, i as int + 1),
                cur <= seq_sum(d@),
                forall|a: int, b: int| 0 <= a <= b < targets@.len() ==> targets@[a] <= targets@[b],
                pidx < m ==> targets@[pidx as int] > before,
                forall|k: int| 0 <= k < pidx ==> reported_at(d@, s@, targets@[k] as int, #[trigger] r@[k]),
            decreases m - pidx,
        {
            r.push(i as u64);
            proof {
                assert(reported_at(d@, s@, targets@[pidx as int] as int, i as u64));
            }
            pidx = pidx + 1;
        }
        i = i + 1;
    }
    proof { lemma_prefix_full(d@); }
    let mut j: usize = 0;
    while j < s.len()
        invariant
            m == targets@.len(),
            j <= s@.len(),
            pidx <= m,
            r@.len() == pidx,
            cur == seq_sum(d@) + j,
            seq_sum(d@) >= 0,
            seq_sum(d@) + s@.len() <= u64::MAX,
            forall|a: int, b: int| 0 <= a <= b < targets@.len() ==> targets@[a] <= targets@[b],
            forall|a: int| 0 <= a < targets@.len() ==> 1 <= #[trigger] targets@[a] <= seq_sum(d@) + s@.len(),
            pidx < m ==> targets@[pidx as int] > cur,
            forall|k: int| 0 <= k < pidx ==> reported_at(d@, s@, targets@[k] as int, #[trigger] r@[k]),
        decreases s@.len() - j,
    {
        cur = cur + 1;
        while pidx < m && cur >= targets[pidx]
            invariant
                m == targets@.len(),
                j < s@.len(),
                pidx <= m,
                r@.len() == pidx,
                cur == seq_sum(d@) + j + 1,
                forall|a: int, b: int| 0 <= a <= b < targets@.len() ==> targets@[a] <= targets@[b],
                pidx < m ==> targets@[pidx as int] > cur - 1,
                forall|k: int| 0 <= k < pidx ==> reported_at(d@, s@, targets@[k] as int, #[trigger] r@[k]),
            decreases m - pidx,
        {
            r.push(s[j]);
            proof {
                assert(reported_at(d@, s@, targets@[pidx as int] as int, s@[j as int]));
            }
            pidx = pidx + 1;
        }
        j = j + 1;
    }
    if pidx < m {
        assert(targets@[m - 1] >= targets@[pidx as int]);
    }
    r
}


/// `vals` is the percentile table of the histogram with in-range counts `d`
/// and overflow entries `o` (in any order).
pub open spec fn reports_table(d: Seq<u64>, o: Seq<u64>, vals: Seq<u64>) -> bool {
    &&& vals.len() == 9
    &&& exists|s: Seq<u64>|
        #[trigger] sorted_perm(o, s) && forall|k: int|
            0 <= k < 9 ==> reported_at(d, s, target_rank(seq_sum(d) + o.len(), k), #[trigger] vals[k])
}

proof fn lemma_sorted_ready(d: Seq<u64>, o: Seq<u64>, s: Seq<u64>)
    requires
        sorted_perm(o, s),
        forall|k: int| 0 <= k < o.len() ==> o[k] >= d.len(),
    ensures
        sweep_ready(d, s),
        s.len() == o.len(),
        forall|x: u64| s.contains(x) <==> o.contains(x),
{
    broadcast use vstd::seq_lib::group_to_multiset_ensures;
    s.to_multiset_ensures();
    o.to_multiset_ensures();
    assert(s.len() == o.len());
    assert forall|x: u64| s.contains(x) <==> o.contains(x) by {
        assert(s.contains(x) <==> s.to_multiset().count(x) > 0);
        assert(o.contains(x) <==> o.to_multiset().count(x) > 0);
    }
    assert forall|k: int| 0 <= k < s.len() implies s[k] >= d.len() by {
        assert(s.contains(s[k]));
    }
}

/// Percentile monotonicity: a higher percentile never reports a lower latency.
pub proof fn lemma_percentiles_monotone(d: Seq<u64>, o: Seq<u64>, vals: Seq<u64>)
    requires
        forall|k: int| 0 <= k < o.len() ==> o[k] >= d.len(),
        seq_sum(d) + o.len() >= 1,
        reports_table(d, o, vals),
    ensures
        forall|k1: int, k2: int| 0 <= k1 <= k2 < 9 ==> vals[k1] <= vals[k2],
{
    let s = choose|s: Seq<u64>|
        #[trigger] sorted_perm(o, s) && forall|k: int|
            0 <= k < 9 ==> reported_at(d, s, target_rank(seq_sum(d) + o.len(), k), #[trigger] vals[k]);
    lemma_sorted_ready(d, o, s);
    let n = seq_sum(d) + o.len();
    assert forall|k1: int, k2: int| 0 <= k1 <= k2 < 9 implies vals[k1] <= vals[k2] by {
        lemma_target_mono(n, k1, k2);
        lemma_reported_monotone(d, s, target_rank(n, k1), target_rank(n, k2), vals[k1], vals[k2]);
    }
}

/// The 100th percentile is the largest recorded sample.
pub proof fn lemma_top_percentile_is_max(d: Seq<u64>, o: Seq<u64>, vals: Seq<u64>)
    requires
        forall|k: int| 0 <= k < o.len() ==> o[k] >= d.len(),
        seq_sum(d) + o.len() >= 1,
        reports_table(d, o, vals),
    ensures
        is_recorded(d, o, vals[8]),
        forall|x: u64| is_recorded(d, o, x) ==> x <= vals[8],
{
    let s = choose|s: Seq<u64>|
        #[trigger] sorted_perm(o, s) && forall|k: int|
            0 <= k < 9 ==> reported_at(d, s, target_rank(seq_sum(d) + o.len(), k), #[trigger] vals[k]);
    lemma_sorted_ready(d, o, s);
    lemma_sum_nonneg(d);
    assert(reported_at(d, s, target_rank(seq_sum(d) + o.len(), 8), vals[8]));
    lemma_top_rank_is_max(d, s, vals[8]);
    assert forall|x: u64| is_recorded(d, o, x) implies x <= vals[8] by {
        assert(is_recorded(d, s, x));
    }
}


pub proof fn lemma_elem_le_sum(s: Seq<u64>, i: int)
    requires
        0 <= i < s.len(),
    ensures
        s[i] <= seq_sum(s),
{
    lemma_prefix_step(s, i);
    lemma_prefix_bounded(s, i + 1);
    lemma_prefix_bounded(s, i);
}


proof fn lemma_sorted_perm_unique(s1: Seq<u64>, s2: Seq<u64>)
    requires
        is_sorted(s1),
        is_sorted(s2),
        s1.to_multiset() == s2.to_multiset(),
    ensures
        s1 == s2,
    decreases s1.len(),
{
    s1.to_multiset_ensures();
    s2.to_multiset_ensures();
    if s1.len() == 0 {
        assert(s2.len() == 0);
        assert(s1 =~= s2);
    } else {
        assert(s2.len() == s1.len());
        assert(s1.contains(s1[0]));
        assert(s1.to_multiset().count(s1[0]) > 0);
        assert(s2.to_multiset().count(s1[0]) > 0);
        assert(s2.contains(s1[0]));
        assert(s2.contains(s2[0]));
        assert(s2.to_multiset().count(s2[0]) > 0);
        assert(s1.to_multiset().count(s2[0]) > 0);
        assert(s1.contains(s2[0]));
        let i = choose|i: int| 0 <= i < s2.len() && s2[i] == s1[0];
        let j = choose|j: int| 0 <= j < s1.len() && s1[j] == s2[0];
        assert(s2[0] <= s2[i]);
        assert(s1[0] <= s1[j]);
        assert(s1[0] == s2[0]);
        assert(s1.remove(0) =~= s1.drop_first());
        assert(s2.remove(0) =~= s2.drop_first());
        lemma_sorted_perm_unique(s1.drop_first(), s2.drop_first());
        assert(s1 =~= s2) by {
            assert forall|k: int| 0 <= k < s1.len() implies s1[k] == s2[k] by {
                if k > 0 {
                    assert(s1[k] == s1.drop_first()[k - 1]);
                    assert(s2[k] == s2.drop_first()[k - 1]);
                }
            }
        }
    }
}

proof fn lemma_reported_unique(d: Seq<u64>, s: Seq<u64>, r: int, v1: u64, v2: u64)
    requires
        reported_at(d, s, r, v1),
        reported_at(d, s, r, v2),
    ensures
        v1 == v2,
{
    if r <= seq_sum(d) {
        if v1 < v2 {
            lemma_prefix_mono(d, v1 + 1, v2 as int);
        } else if v2 < v1 {
            lemma_prefix_mono(d, v2 + 1, v1 as int);
        }
    }
}

/// The percentile table depends on the histogram alone: two tables reported
/// for the same counts and overflow entries are equal.
pub proof fn lemma_table_determined(d: Seq<u64>, o: Seq<u64>, a: Seq<u64>, b: Seq<u64>)
    requires
        reports_table(d, o, a),
        reports_table(d, o, b),
    ensures
        a == b,
{
    let n = seq_sum(d) + o.len();
    let sa = choose|s: Seq<u64>|
        #[trigger] sorted_perm(o, s) && forall|k: int|
            0 <= k < 9 ==> reported_at(d, s, target_rank(n, k), #[trigger] a[k]);
    let sb = choose|s: Seq<u64>|
        #[trigger] sorted_perm(o, s) && forall|k: int|
            0 <= k < 9 ==> reported_at(d, s, target_rank(n, k), #[trigger] b[k]);
    lemma_sorted_perm_unique(sa, sb);
    assert forall|k: int| 0 <= k < 9 implies a[k] == b[k] by {
        lemma_reported_unique(d, sa, target_rank(n, k), a[k], b[k]);
    }
    assert(a =~= b);
}

} // verus!
