use vstd::prelude::*;
use crate::histogram::{
    BENCH_BUCKET, BENCH_RESOLUTION, PERCENTILE_COUNT, seq_sum, is_sorted, sorted_perm,
    reported_at, reports_table, is_recorded, lemma_percentiles_monotone, lemma_top_percentile_is_max, target_rank, lemma_sum_update, lemma_zeros_sum,
    lemma_prefix_bounded, lemma_target_mono, percentile_value, rank_targets, sweep_ranks,
};
use crate::methods::{METHOD_COUNT, method_slot, method_slot_of};

verus! {

/// Counters of one worker for one method.
#[derive(Clone, Copy, Debug)]
pub struct LocalStat {
    pub completed: u64,
    pub failed: u32,
    pub not_2xx: u32,
    pub total: u32,
    pub transferred: u64,
    pub req_transfer: u64,
    pub resp_transfer: u64,
}

impl Default for LocalStat {
    fn default() -> (r: LocalStat)
        ensures
            r == LocalStat::zero(),
    {
        LocalStat {
            completed: 0,
            failed: 0,
            not_2xx: 0,
            total: 0,
            transferred: 0,
            req_transfer: 0,
            resp_transfer: 0,
        }
    }
}

pub open spec fn sat_add64(a: u64, b: u64) -> u64 {
    if a + b > u64::MAX { u64::MAX } else { (a + b) as u64 }
}

pub open spec fn sat_inc32(a: u32) -> u32 {
    if a == u32::MAX { u32::MAX } else { (a + 1) as u32 }
}

/// A status code outside `[200, 300)`.
pub open spec fn is_not_2xx(status: u16) -> bool {
    !(200 <= status < 300)
}

impl LocalStat {
    pub open spec fn zero() -> LocalStat {
        LocalStat {
            completed: 0,
            failed: 0,
            not_2xx: 0,
            total: 0,
            transferred: 0,
            req_transfer: 0,
            resp_transfer: 0,
        }
    }

    /// The counters after a response with `status` and `length` bytes: one more
    /// completed request, and one more failed and not-2xx request where the
    /// status is not a success. Counters saturate at their largest value.
    pub open spec fn after_response(self, status: u16, length: u64) -> LocalStat {
        LocalStat {
            completed: sat_add64(self.completed, 1),
            resp_transfer: sat_add64(self.resp_transfer, length),
            not_2xx: if is_not_2xx(status) { sat_inc32(self.not_2xx) } else { self.not_2xx },
            failed: if is_not_2xx(status) { sat_inc32(self.failed) } else { self.failed },
            ..self
        }
    }

    /// The counters after a request that got no response.
    pub open spec fn after_failure(self) -> LocalStat {
        LocalStat { failed: sat_inc32(self.failed), ..self }
    }
}

/// Sums of the counters over a set of workers (and methods); each sum
/// saturates at `u64::MAX`.
#[derive(Clone, Copy, Debug)]
pub struct Totals {
    pub completed: u64,
    pub failed: u64,
    pub not_2xx: u64,
    pub transferred: u64,
}

pub open spec fn clamp64(x: int) -> u64 {
    if x > u64::MAX { u64::MAX } else if x < 0 { 0 } else { x as u64 }
}

pub open spec fn completed_of(s: LocalStat) -> int { s.completed as int }

pub open spec fn failed_of(s: LocalStat) -> int { s.failed as int }

pub open spec fn not_2xx_of(s: LocalStat) -> int { s.not_2xx as int }

/// Bytes moved by one counter set: recorded transfers plus request and
/// response bytes.
pub open spec fn transferred_of(s: LocalStat) -> int {
    s.transferred + s.req_transfer + s.resp_transfer
}

/// Sum of `f` over the counters of one method.
pub open spec fn row_sum(rows: Seq<LocalStat>, f: spec_fn(LocalStat) -> int) -> int
    decreases rows.len(),
{
    if rows.len() == 0 { 0 } else { row_sum(rows.drop_last(), f) + f(rows.last()) }
}

/// Sum of `f` over the counters of several methods.
pub open spec fn table_sum(t: Seq<Seq<LocalStat>>, f: spec_fn(LocalStat) -> int) -> int
    decreases t.len(),
{
    if t.len() == 0 { 0 } else { table_sum(t.drop_last(), f) + row_sum(t.last(), f) }
}

/// The saturated sums of one method's counters.
pub open spec fn row_totals(rows: Seq<LocalStat>) -> Totals {
    Totals {
        completed: clamp64(row_sum(rows, |s: LocalStat| completed_of(s))),
        failed: clamp64(row_sum(rows, |s: LocalStat| failed_of(s))),
        not_2xx: clamp64(row_sum(rows, |s: LocalStat| not_2xx_of(s))),
        transferred: clamp64(row_sum(rows, |s: LocalStat| transferred_of(s))),
    }
}

/// The saturated sums of all methods' counters.
pub open spec fn table_totals(t: Seq<Seq<LocalStat>>) -> Totals {
    Totals {
        completed: clamp64(table_sum(t, |s: LocalStat| completed_of(s))),
        failed: clamp64(table_sum(t, |s: LocalStat| failed_of(s))),
        not_2xx: clamp64(table_sum(t, |s: LocalStat| not_2xx_of(s))),
        transferred: clamp64(table_sum(t, |s: LocalStat| transferred_of(s))),
    }
}

proof fn lemma_row_sum_nonneg(rows: Seq<LocalStat>, f: spec_fn(LocalStat) -> int)
    requires
        forall|s: LocalStat| #[trigger] f(s) >= 0,
    ensures
        row_sum(rows, f) >= 0,
    decreases rows.len(),
{
    if rows.len() > 0 {
        lemma_row_sum_nonneg(rows.drop_last(), f);
    }
}

proof fn lemma_table_sum_nonneg(t: Seq<Seq<LocalStat>>, f: spec_fn(LocalStat) -> int)
    requires
        forall|s: LocalStat| #[trigger] f(s) >= 0,
    ensures
        table_sum(t, f) >= 0,
    decreases t.len(),
{
    if t.len() > 0 {
        lemma_table_sum_nonneg(t.drop_last(), f);
        lemma_row_sum_nonneg(t.last(), f);
    }
}

fn sat_add(acc: u64, x: u64, Ghost(total): Ghost<int>, Ghost(part): Ghost<int>) -> (r: u64)
    requires
        total >= 0,
        part >= 0,
        acc == clamp64(total),
        x == clamp64(part),
    ensures
        r == clamp64(total + part),
{
    acc.saturating_add(x)
}

/// Saturated sums of the counters of one method.
pub fn sum_row(rows: &Vec<LocalStat>) -> (r: Totals)
    ensures
        r == row_totals(rows@),
{
    let mut r = Totals { completed: 0, failed: 0, not_2xx: 0, transferred: 0 };
    let mut i: usize = 0;
    while i < rows.len()
        invariant
            i <= rows@.len(),
            r == row_totals(rows@.subrange(0, i as int)),
        decreases rows@.len() - i,
    {
        let s = rows[i];
        let ghost pre = rows@.subrange(0, i as int);
        let ghost next = rows@.subrange(0, i as int + 1);
        proof {
            assert(next.drop_last() =~= pre);
            lemma_row_sum_nonneg(pre, |s: LocalStat| completed_of(s));
            lemma_row_sum_nonneg(pre, |s: LocalStat| failed_of(s));
            lemma_row_sum_nonneg(pre, |s: LocalStat| not_2xx_of(s));
            lemma_row_sum_nonneg(pre, |s: LocalStat| transferred_of(s));
        }
        let t1 = s.transferred.saturating_add(s.req_transfer);
        let t = t1.saturating_add(s.resp_transfer);
        let ghost part = transferred_of(s);
        assert(t1 == clamp64(s.transferred + s.req_transfer));
        assert(t == clamp64(part));
        r = Totals {
            completed: sat_add(r.completed, s.completed, Ghost(row_sum(pre, |s: LocalStat| completed_of(s))), Ghost(completed_of(s))),
            failed: sat_add(r.failed, s.failed as u64, Ghost(row_sum(pre, |s: LocalStat| failed_of(s))), Ghost(failed_of(s))),
            not_2xx: sat_add(r.not_2xx, s.not_2xx as u64, Ghost(row_sum(pre, |s: LocalStat| not_2xx_of(s))), Ghost(not_2xx_of(s))),
            transferred: sat_add(r.transferred, t, Ghost(row_sum(pre, |s: LocalStat| transferred_of(s))), Ghost(part)),
        };
        i = i + 1;
    }
    assert(rows@.subrange(0, rows@.len() as int) =~= rows@);
    r
}

/// Latency histogram and per-worker counters, kept apart by method.
pub struct Stats {
    data: Vec<Vec<u64>>,
    overflow: Vec<Vec<u64>>,
    local_stats: Vec<Vec<LocalStat>>,
    samples: Vec<u64>,
    workers: usize,
}

impl Stats {
    /// In-range bucket counts of each method.
    pub closed spec fn buckets(&self) -> Seq<Seq<u64>> {
        self.data@.map_values(|v: Vec<u64>| v@)
    }

    /// Bucket indices of the samples beyond the in-range buckets, by method.
    pub closed spec fn overflows(&self) -> Seq<Seq<u64>> {
        self.overflow@.map_values(|v: Vec<u64>| v@)
    }

    /// Counters by method, then by worker.
    pub closed spec fn counters(&self) -> Seq<Seq<LocalStat>> {
        self.local_stats@.map_values(|v: Vec<LocalStat>| v@)
    }

    /// Number of samples recorded for each method.
    pub closed spec fn sample_counts(&self) -> Seq<u64> {
        self.samples@
    }

    pub closed spec fn worker_count(&self) -> nat {
        self.workers as nat
    }

    pub closed spec fn wf(&self) -> bool {
        &&& self.data@.len() == METHOD_COUNT
        &&& self.overflow@.len() == METHOD_COUNT
        &&& self.local_stats@.len() == METHOD_COUNT
        &&& self.samples@.len() == METHOD_COUNT
        &&& forall|m: int| 0 <= m < METHOD_COUNT ==> #[trigger] self.data@[m]@.len() == BENCH_RESOLUTION
        &&& forall|m: int| 0 <= m < METHOD_COUNT ==> #[trigger] self.local_stats@[m]@.len() == self.workers
        &&& forall|m: int| 0 <= m < METHOD_COUNT ==>
            seq_sum(#[trigger] self.data@[m]@) + self.overflow@[m]@.len() == self.samples@[m]
        &&& forall|m: int, k: int| 0 <= m < METHOD_COUNT && 0 <= k < self.overflow@[m]@.len()
            ==> #[trigger] self.overflow@[m]@[k] >= BENCH_RESOLUTION
    }

    /// Histogram completeness: for every method, the in-range bucket counts
    /// plus the overflow entries account for every recorded sample, and every
    /// overflow entry lies beyond the in-range buckets.
    pub proof fn lemma_histogram_complete(&self, m: int)
        requires
            self.wf(),
            0 <= m < METHOD_COUNT,
        ensures
            self.buckets().len() == METHOD_COUNT,
            self.overflows().len() == METHOD_COUNT,
            self.sample_counts().len() == METHOD_COUNT,
            self.counters().len() == METHOD_COUNT,
            self.counters()[m].len() == self.worker_count(),
            self.buckets()[m].len() == BENCH_RESOLUTION,
            seq_sum(self.buckets()[m]) + self.overflows()[m].len() == self.sample_counts()[m],
            forall|k: int| 0 <= k < self.overflows()[m].len() ==> self.overflows()[m][k] >= BENCH_RESOLUTION,
    {
        assert(self.local_stats@[m]@.len() == self.workers);
        assert(self.data@[m]@.len() == BENCH_RESOLUTION);
        assert(seq_sum(self.data@[m]@) + self.overflow@[m]@.len() == self.samples@[m]);
        assert forall|k: int| 0 <= k < self.overflows()[m].len() implies self.overflows()[m][k] >= BENCH_RESOLUTION by {
            assert(self.overflow@[m]@[k] >= BENCH_RESOLUTION);
        }
    }

    /// The shape of well-formed statistics: one row of buckets, overflow
    /// entries, sample count and counters per method; `BENCH_RESOLUTION`
    /// buckets and one counter cell per worker in each row; and, for every
    /// method, bucket counts plus overflow entries equal the samples recorded.
    pub proof fn lemma_shape(&self)
        requires
            self.wf(),
        ensures
            self.buckets().len() == METHOD_COUNT,
            self.overflows().len() == METHOD_COUNT,
            self.sample_counts().len() == METHOD_COUNT,
            self.counters().len() == METHOD_COUNT,
            forall|m: int| 0 <= m < METHOD_COUNT ==> #[trigger] self.buckets()[m].len() == BENCH_RESOLUTION,
            forall|m: int| 0 <= m < METHOD_COUNT ==> #[trigger] self.counters()[m].len() == self.worker_count(),
            forall|m: int| 0 <= m < METHOD_COUNT ==>
                seq_sum(#[trigger] self.buckets()[m]) + self.overflows()[m].len() == self.sample_counts()[m],
    {
        assert forall|m: int| 0 <= m < METHOD_COUNT implies #[trigger] self.buckets()[m].len() == BENCH_RESOLUTION
            && self.counters()[m].len() == self.worker_count()
            && seq_sum(self.buckets()[m]) + self.overflows()[m].len() == self.sample_counts()[m] by {
            self.lemma_histogram_complete(m);
        }
    }

    /// The percentile table of a method whose histogram holds samples is
    /// ordered (a higher percentile never reports a lower latency), and its
    /// 100th percentile is the largest recorded sample.
    pub proof fn lemma_percentile_table(&self, m: int, vals: Seq<u64>)
        requires
            self.wf(),
            0 <= m < METHOD_COUNT,
            self.sample_counts()[m] > 0,
            reports_table(self.buckets()[m], self.overflows()[m], vals),
        ensures
            forall|k1: int, k2: int| 0 <= k1 <= k2 < PERCENTILE_COUNT ==> vals[k1] <= vals[k2],
            is_recorded(self.buckets()[m], self.overflows()[m], vals[8]),
            forall|x: u64| is_recorded(self.buckets()[m], self.overflows()[m], x) ==> x <= vals[8],
    {
        self.lemma_histogram_complete(m);
        lemma_percentiles_monotone(self.buckets()[m], self.overflows()[m], vals);
        lemma_top_percentile_is_max(self.buckets()[m], self.overflows()[m], vals);
    }

    /// Empty statistics for `workers` workers.
    pub fn new(workers: usize) -> (r: Stats)
        ensures
            r.wf(),
            r.worker_count() == workers,
            r.buckets().len() == METHOD_COUNT,
            r.overflows().len() == METHOD_COUNT,
            r.sample_counts().len() == METHOD_COUNT,
            r.counters().len() == METHOD_COUNT,
            forall|m: int| 0 <= m < METHOD_COUNT ==> #[trigger] r.buckets()[m].len() == BENCH_RESOLUTION,
            forall|m: int| 0 <= m < METHOD_COUNT ==> #[trigger] r.counters()[m].len() == workers,
            forall|m: int, b: int| 0 <= m < METHOD_COUNT && 0 <= b < BENCH_RESOLUTION
                ==> #[trigger] r.buckets()[m][b] == 0,
            forall|m: int| 0 <= m < METHOD_COUNT ==> #[trigger] r.overflows()[m].len() == 0,
            forall|m: int| 0 <= m < METHOD_COUNT ==> #[trigger] r.sample_counts()[m] == 0,
            forall|m: int, w: int| 0 <= m < METHOD_COUNT && 0 <= w < workers
                ==> #[trigger] r.counters()[m][w] == LocalStat::zero(),
    {
        let mut data: Vec<Vec<u64>> = Vec::new();
        let mut overflow: Vec<Vec<u64>> = Vec::new();
        let mut local_stats: Vec<Vec<LocalStat>> = Vec::new();
        let mut samples: Vec<u64> = Vec::new();
        let mut m: usize = 0;
        while m < METHOD_COUNT
            invariant
                m <= METHOD_COUNT,
                data@.len() == m,
                overflow@.len() == m,
                local_stats@.len() == m,
                samples@.len() == m,
                forall|j: int| 0 <= j < m ==> #[trigger] data@[j]@.len() == BENCH_RESOLUTION,
                forall|j: int, b: int| 0 <= j < m && 0 <= b < BENCH_RESOLUTION ==> #[trigger] data@[j]@[b] == 0,
                forall|j: int| 0 <= j < m ==> #[trigger] overflow@[j]@.len() == 0,
                forall|j: int| 0 <= j < m ==> #[trigger] samples@[j] == 0,
                forall|j: int| 0 <= j < m ==> #[trigger] local_stats@[j]@.len() == workers,
                forall|j: int, w: int| 0 <= j < m && 0 <= w < workers ==> #[trigger] local_stats@[j]@[w] == LocalStat::zero(),
            decreases METHOD_COUNT - m,
        {
            let mut buckets: Vec<u64> = Vec::new();
            let mut b: usize = 0;
            while b < BENCH_RESOLUTION
                invariant
                    b <= BENCH_RESOLUTION,
                    buckets@.len() == b,
                    forall|k: int| 0 <= k < b ==> buckets@[k] == 0,
                decreases BENCH_RESOLUTION - b,
            {
                buckets.push(0);
                b = b + 1;
            }
            let mut row: Vec<LocalStat> = Vec::new();
            let mut w: usize = 0;
            while w < workers
                invariant
                    w <= workers,
                    row@.len() == w,
                    forall|k: int| 0 <= k < w ==> row@[k] == LocalStat::zero(),
                decreases workers - w,
            {
                row.push(LocalStat::default());
                w = w + 1;
            }
            data.push(buckets);
            overflow.push(Vec::new());
            local_stats.push(row);
            samples.push(0);
            m = m + 1;
        }
        let r = Stats { data, overflow, local_stats, samples, workers };
        assert forall|j: int| 0 <= j < METHOD_COUNT implies
            seq_sum(#[trigger] r.data@[j]@) + r.overflow@[j]@.len() == r.samples@[j] by {
            lemma_zeros_sum(r.data@[j]@);
        }
        r
    }

    /// Number of samples recorded so far for `method`, or 0 for a method that
    /// is not kept.
    pub fn sample_count(&self, method: &str) -> (r: u64)
        requires
            self.wf(),
        ensures
            r == match method_slot(method@) {
                Some(m) => self.sample_counts()[m],
                None => 0,
            },
    {
        match method_slot_of(method) {
            Some(m) => self.samples[m],
            None => 0,
        }
    }

    /// Records one latency sample of `elapsed_nanos` for `method`: the bucket
    /// `elapsed_nanos / BENCH_BUCKET` is counted in range, or its index is
    /// appended to the overflow list. A method that is not kept leaves the
    /// statistics unchanged.
    pub fn add_sample(&mut self, method: &str, _idx: usize, elapsed_nanos: u64)
        requires
            old(self).wf(),
            method_slot(method@) is Some ==> old(self).sample_counts()[method_slot(method@)->0] < u64::MAX,
        ensures
            final(self).wf(),
            final(self).worker_count() == old(self).worker_count(),
            final(self).counters() == old(self).counters(),
            match method_slot(method@) {
                None => final(self).buckets() == old(self).buckets()
                    && final(self).overflows() == old(self).overflows()
                    && final(self).sample_counts() == old(self).sample_counts(),
                Some(m) => {
                    let b = elapsed_nanos / BENCH_BUCKET;
                    &&& final(self).sample_counts() == old(self).sample_counts().update(m, (old(self).sample_counts()[m] + 1) as u64)
                    &&& if b < BENCH_RESOLUTION {
                        &&& final(self).buckets() == old(self).buckets().update(m,
                            old(self).buckets()[m].update(b as int, (old(self).buckets()[m][b as int] + 1) as u64))
                        &&& final(self).overflows() == old(self).overflows()
                    } else {
                        &&& final(self).buckets() == old(self).buckets()
                        &&& final(self).overflows() == old(self).overflows().update(m, old(self).overflows()[m].push(b))
                    }
                },
            },
    {
        let slot = method_slot_of(method);
        if slot.is_none() {
            return;
        }
        let m = slot.unwrap();
        let index = elapsed_nanos / BENCH_BUCKET;
        let ghost pre = *self;
        proof {
            assert(seq_sum(self.data@[m as int]@) + self.overflow@[m as int]@.len() == self.samples@[m as int]);
            lemma_prefix_bounded(self.data@[m as int]@, 0);
        }
        if index < BENCH_RESOLUTION as u64 {
            let mut row: Vec<u64> = Vec::new();
            self.data.set_and_swap(m, &mut row);
            let i = index as usize;
            proof {
                crate::histogram::lemma_elem_le_sum(row@, i as int);
            }
            let v = row[i] + 1;
            proof { lemma_sum_update(row@, i as int, v); }
            row.set(i, v);
            self.data.set_and_swap(m, &mut row);
        } else {
            let mut row: Vec<u64> = Vec::new();
            self.overflow.set_and_swap(m, &mut row);
            row.push(index);
            self.overflow.set_and_swap(m, &mut row);
        }
        let c = self.samples[m] + 1;
        self.samples.set(m, c);
        proof {
            assert(self.buckets() =~= if index < BENCH_RESOLUTION { pre.buckets().update(m as int,
                pre.buckets()[m as int].update(index as int, (pre.buckets()[m as int][index as int] + 1) as u64)) } else { pre.buckets() });
            assert(self.overflows() =~= if index < BENCH_RESOLUTION { pre.overflows() } else {
                pre.overflows().update(m as int, pre.overflows()[m as int].push(index)) });
            assert(self.counters() =~= pre.counters());
            assert forall|j: int| 0 <= j < METHOD_COUNT implies
                seq_sum(#[trigger] self.data@[j]@) + self.overflow@[j]@.len() == self.samples@[j] by {
                if j != m {
                    assert(self.data@[j] == pre.data@[j]);
                    assert(self.overflow@[j] == pre.overflow@[j]);
                }
            }
            assert forall|j: int, k: int| 0 <= j < METHOD_COUNT && 0 <= k < self.overflow@[j]@.len()
                implies #[trigger] self.overflow@[j]@[k] >= BENCH_RESOLUTION by {
                if j != m || index < BENCH_RESOLUTION || k < pre.overflow@[j]@.len() {
                    assert(self.overflow@[j]@[k] == pre.overflow@[j]@[k]);
                }
            }
        }
    }

    /// Replaces the counters of `worker_id` for method slot `m` with `v`.
    fn set_counter(&mut self, m: usize, worker_id: usize, v: LocalStat)
        requires
            old(self).wf(),
            m < METHOD_COUNT,
            worker_id < old(self).worker_count(),
        ensures
            final(self).wf(),
            final(self).worker_count() == old(self).worker_count(),
            final(self).buckets() == old(self).buckets(),
            final(self).overflows() == old(self).overflows(),
            final(self).sample_counts() == old(self).sample_counts(),
            final(self).counters() == old(self).counters().update(m as int,
                old(self).counters()[m as int].update(worker_id as int, v)),
    {
        let ghost pre = *self;
        let mut row: Vec<LocalStat> = Vec::new();
        self.local_stats.set_and_swap(m, &mut row);
        assert(row@.len() == self.workers);
        row.set(worker_id, v);
        self.local_stats.set_and_swap(m, &mut row);
        proof {
            assert(self.counters() =~= pre.counters().update(m as int,
                pre.counters()[m as int].update(worker_id as int, v)));
            assert(self.buckets() =~= pre.buckets());
            assert(self.overflows() =~= pre.overflows());
            assert forall|j: int| 0 <= j < METHOD_COUNT implies #[trigger] self.local_stats@[j]@.len() == self.workers by {
                if j != m {
                    assert(self.local_stats@[j] == pre.local_stats@[j]);
                }
            }
            assert forall|j: int| 0 <= j < METHOD_COUNT implies
                seq_sum(#[trigger] self.data@[j]@) + self.overflow@[j]@.len() == self.samples@[j] by {
                assert(self.data@[j] == pre.data@[j]);
            }
            assert forall|j: int, k: int| 0 <= j < METHOD_COUNT && 0 <= k < self.overflow@[j]@.len()
                implies #[trigger] self.overflow@[j]@[k] >= BENCH_RESOLUTION by {
                assert(self.overflow@[j]@[k] == pre.overflow@[j]@[k]);
            }
        }
    }

    /// The counters of `worker_id` for `method`, or `None` where the method is
    /// not kept or the worker does not exist.
    pub fn local_stat(&self, method: &str, worker_id: usize) -> (r: Option<LocalStat>)
        requires
            self.wf(),
        ensures
            match method_slot(method@) {
                Some(m) if worker_id < self.worker_count() => r == Some(self.counters()[m][worker_id as int]),
                _ => r is None,
            },
    {
        match method_slot_of(method) {
            Some(m) => {
                if worker_id < self.workers {
                    assert(self.local_stats@[m as int]@.len() == self.workers);
                    Some(self.local_stats[m][worker_id])
                } else {
                    None
                }
            },
            None => None,
        }
    }

    /// Records a response with `status` and `length` bytes from `worker_id` for
    /// `method`: one more completed request, and where the status is not 2xx,
    /// one more failed and not-2xx request. An unknown method or worker leaves
    /// the statistics unchanged.
    pub fn update_stats(&mut self, method: &str, worker_id: usize, status: u16, length: u64)
        requires
            old(self).wf(),
        ensures
            final(self).wf(),
            final(self).worker_count() == old(self).worker_count(),
            final(self).buckets() == old(self).buckets(),
            final(self).overflows() == old(self).overflows(),
            final(self).sample_counts() == old(self).sample_counts(),
            match method_slot(method@) {
                Some(m) if worker_id < old(self).worker_count() =>
                    final(self).counters() == old(self).counters().update(m, old(self).counters()[m].update(
                        worker_id as int, old(self).counters()[m][worker_id as int].after_response(status, length))),
                _ => final(self).counters() == old(self).counters(),
            },
    {
        let slot = method_slot_of(method);
        if slot.is_none() || worker_id >= self.workers {
            return;
        }
        let m = slot.unwrap();
        assert(self.local_stats@[m as int]@.len() == self.workers);
        let mut stat = self.local_stats[m][worker_id];
        stat.completed = stat.completed.saturating_add(1);
        stat.resp_transfer = stat.resp_transfer.saturating_add(length);
        if !(200 <= status && status < 300) {
            stat.not_2xx = stat.not_2xx.saturating_add(1);
            stat.failed = stat.failed.saturating_add(1);
        }
        self.set_counter(m, worker_id, stat);
    }

    /// Records a request of `worker_id` for `method` that got no response: one
    /// more failed request, nothing else. An unknown method or worker leaves
    /// the statistics unchanged.
    pub fn increment_failed(&mut self, method: &str, worker_id: usize)
        requires
            old(self).wf(),
        ensures
            final(self).wf(),
            final(self).worker_count() == old(self).worker_count(),
            final(self).buckets() == old(self).buckets(),
            final(self).overflows() == old(self).overflows(),
            final(self).sample_counts() == old(self).sample_counts(),
            match method_slot(method@) {
                Some(m) if worker_id < old(self).worker_count() =>
                    final(self).counters() == old(self).counters().update(m, old(self).counters()[m].update(
                        worker_id as int, old(self).counters()[m][worker_id as int].after_failure())),
                _ => final(self).counters() == old(self).counters(),
            },
    {
        let slot = method_slot_of(method);
        if slot.is_none() || worker_id >= self.workers {
            return;
        }
        let m = slot.unwrap();
        assert(self.local_stats@[m as int]@.len() == self.workers);
        let mut stat = self.local_stats[m][worker_id];
        stat.failed = stat.failed.saturating_add(1);
        self.set_counter(m, worker_id, stat);
    }

    /// The percentile table of `method`: for each entry of the table, the
    /// percentage and the bucket of the sample at its rank. Empty where the
    /// method is not kept or has no samples.
    pub fn percentiles(&self, method: &str) -> (r: Vec<(u64, u64)>)
        requires
            self.wf(),
        ensures
            match method_slot(method@) {
                Some(m) if self.sample_counts()[m] > 0 => {
                    &&& r@.len() == PERCENTILE_COUNT
                    &&& forall|k: int| 0 <= k < PERCENTILE_COUNT ==> (#[trigger] r@[k]).0 == crate::histogram::pct(k)
                    &&& reports_table(self.buckets()[m], self.overflows()[m], r@.map_values(|p: (u64, u64)| p.1))
                },
                _ => r@.len() == 0,
            },
    {
        let slot = method_slot_of(method);
        if slot.is_none() {
            return Vec::new();
        }
        let m = slot.unwrap();
        let n = self.samples[m];
        if n == 0 {
            return Vec::new();
        }
        proof { self.lemma_histogram_complete(m as int); }
        let d = &self.data[m];
        let sorted = sorted_copy(&self.overflow[m]);
        let targets = rank_targets(n);
        proof {
            assert(d@ == self.buckets()[m as int]);
            assert(self.overflow@[m as int]@ == self.overflows()[m as int]);
            assert(sorted@.len() == self.overflows()[m as int].len()) by {
                sorted@.to_multiset_ensures();
                self.overflows()[m as int].to_multiset_ensures();
            }
            assert forall|a: int, b: int| 0 <= a <= b < targets@.len() implies targets@[a] <= targets@[b] by {
                lemma_target_mono(n as int, a, b);
            }
            assert forall|a: int| 0 <= a < targets@.len() implies 1 <= #[trigger] targets@[a] <= seq_sum(d@) + sorted@.len() by {
                lemma_target_mono(n as int, a, 8);
            }
        }
        let vals = sweep_ranks(d, &sorted, &targets);
        let mut r: Vec<(u64, u64)> = Vec::new();
        let mut k: usize = 0;
        while k < PERCENTILE_COUNT
            invariant
                k <= PERCENTILE_COUNT,
                vals@.len() == PERCENTILE_COUNT,
                r@.len() == k,
                forall|j: int| 0 <= j < k ==> (#[trigger] r@[j]).0 == crate::histogram::pct(j) && r@[j].1 == vals@[j],
            decreases PERCENTILE_COUNT - k,
        {
            r.push((percentile_value(k), vals[k]));
            k = k + 1;
        }
        proof {
            let o = self.overflows()[m as int];
            assert(sorted@.len() == o.len()) by {
                sorted@.to_multiset_ensures();
                o.to_multiset_ensures();
            }
            assert(r@.map_values(|p: (u64, u64)| p.1) =~= vals@);
            assert(sorted_perm(o, sorted@));
            assert forall|k: int| 0 <= k < 9 implies
                reported_at(d@, sorted@, target_rank(seq_sum(d@) + o.len(), k), #[trigger] vals@[k]) by {
                assert(reported_at(d@, sorted@, targets@[k] as int, vals@[k]));
            }
        }
        r
    }

    /// Number of workers the statistics were made for.
    pub fn workers(&self) -> (r: usize)
        ensures
            r == self.worker_count(),
    {
        self.workers
    }

    /// The in-range bucket counts of method slot `m`.
    pub fn bucket_counts(&self, m: usize) -> (r: &Vec<u64>)
        requires
            self.wf(),
            m < METHOD_COUNT,
        ensures
            r@ == self.buckets()[m as int],
    {
        &self.data[m]
    }

    /// The overflow bucket indices of method slot `m`, in the order recorded.
    pub fn overflow_entries(&self, m: usize) -> (r: &Vec<u64>)
        requires
            self.wf(),
            m < METHOD_COUNT,
        ensures
            r@ == self.overflows()[m as int],
    {
        &self.overflow[m]
    }

    /// Saturated sums of the counters of `method` over all workers, or `None`
    /// for a method that is not kept.
    pub fn method_totals(&self, method: &str) -> (r: Option<Totals>)
        requires
            self.wf(),
        ensures
            match method_slot(method@) {
                Some(m) => r == Some(row_totals(self.counters()[m])),
                None => r is None,
            },
    {
        match method_slot_of(method) {
            Some(m) => Some(sum_row(&self.local_stats[m])),
            None => None,
        }
    }

    /// The smallest and the largest recorded latency bucket of `method`, or
    /// `None` where the method is not kept or has no samples.
    pub fn latency_range(&self, method: &str) -> (r: Option<(u64, u64)>)
        requires
            self.wf(),
        ensures
            match method_slot(method@) {
                Some(m) if self.sample_counts()[m] > 0 => r matches Some((lo, hi)) && {
                    let d = self.buckets()[m];
                    let o = self.overflows()[m];
                    &&& is_recorded(d, o, lo)
                    &&& is_recorded(d, o, hi)
                    &&& forall|x: u64| is_recorded(d, o, x) ==> lo <= x <= hi
                },
                _ => r is None,
            },
    {
        let slot = method_slot_of(method);
        if slot.is_none() {
            return None;
        }
        let m = slot.unwrap();
        if self.samples[m] == 0 {
            return None;
        }
        proof { self.lemma_histogram_complete(m as int); }
        let d = &self.data[m];
        let o = &self.overflow[m];
        let mut lo: Option<u64> = None;
        let mut hi: Option<u64> = None;
        let mut i: usize = 0;
        while i < d.len()
            invariant
                i <= d@.len(),
                d@.len() == BENCH_RESOLUTION,
                lo is None <==> hi is None,
                lo is None ==> forall|j: int| 0 <= j < i ==> d@[j] == 0,
                lo matches Some(v) ==> v < i && d@[v as int] > 0 && forall|j: int| 0 <= j < v ==> d@[j] == 0,
                hi matches Some(v) ==> v < i && d@[v as int] > 0 && forall|j: int| v < j < i ==> d@[j] == 0,
            decreases d@.len() - i,
        {
            if d[i] > 0 {
                if lo.is_none() {
                    lo = Some(i as u64);
                }
                hi = Some(i as u64);
            }
            i = i + 1;
        }
        let mut omin: Option<u64> = None;
        let mut omax: Option<u64> = None;
        let mut j: usize = 0;
        while j < o.len()
            invariant
                j <= o@.len(),
                omin is None <==> j == 0,
                omax is None <==> j == 0,
                omin matches Some(v) ==> o@.contains(v) && forall|k: int| 0 <= k < j ==> v <= o@[k],
                omax matches Some(v) ==> o@.contains(v) && forall|k: int| 0 <= k < j ==> o@[k] <= v,
            decreases o@.len() - j,
        {
            let x = o[j];
            omin = match omin {
                Some(v) => if x < v { Some(x) } else { Some(v) },
                None => Some(x),
            };
            omax = match omax {
                Some(v) => if x > v { Some(x) } else { Some(v) },
                None => Some(x),
            };
            j = j + 1;
        }
        let ghost dv = d@;
        let ghost ov = o@;
        proof {
            assert(dv == self.buckets()[m as int]);
            assert(ov == self.overflows()[m as int]);
            if lo is None {
                crate::histogram::lemma_zeros_sum(dv);
                assert(ov.len() > 0);
            }
        }
        let low = match lo {
            Some(v) => v,
            None => omin.unwrap(),
        };
        let high = match omax {
            Some(v) => v,
            None => hi.unwrap(),
        };
        proof {
            assert forall|x: u64| is_recorded(dv, ov, x) implies low <= x <= high by {
                if ov.contains(x) {
                    let k = choose|k: int| 0 <= k < ov.len() && ov[k] == x;
                    assert(ov[k] >= BENCH_RESOLUTION);
                } else {
                    if omax is Some {
                        assert(ov.contains(high));
                        let k = choose|k: int| 0 <= k < ov.len() && ov[k] == high;
                        assert(ov[k] >= BENCH_RESOLUTION);
                    }
                }
            }
            if lo is None {
                assert(ov.contains(low));
            }
            if omax is Some {
                assert(ov.contains(high));
            }
        }
        Some((low, high))
    }

    /// The totals of `method` where its report block is printed: a kept
    /// method with at least one completed request. `None` otherwise, so that
    /// no rate is ever divided by zero requests.
    pub fn reported_totals(&self, method: &str) -> (r: Option<Totals>)
        requires
            self.wf(),
        ensures
            match method_slot(method@) {
                Some(m) if row_totals(self.counters()[m]).completed > 0 => r == Some(row_totals(self.counters()[m])),
                _ => r is None,
            },
    {
        match self.method_totals(method) {
            Some(t) => if t.completed > 0 { Some(t) } else { None },
            None => None,
        }
    }

    /// Saturated sums of the counters of every method and worker. The result
    /// depends on the counters alone, so two calls with no change in between
    /// give the same totals.
    pub fn summary_totals(&self) -> (r: Totals)
        requires
            self.wf(),
        ensures
            r == table_totals(self.counters()),
    {
        let mut r = Totals { completed: 0, failed: 0, not_2xx: 0, transferred: 0 };
        let mut m: usize = 0;
        let ghost t = self.counters();
        while m < METHOD_COUNT
            invariant
                self.wf(),
                t == self.counters(),
                m <= METHOD_COUNT,
                r == table_totals(t.subrange(0, m as int)),
            decreases METHOD_COUNT - m,
        {
            let row = sum_row(&self.local_stats[m]);
            let ghost pre = t.subrange(0, m as int);
            proof {
                assert(t.subrange(0, m as int + 1).drop_last() =~= pre);
                assert(t.subrange(0, m as int + 1).last() == self.local_stats@[m as int]@);
                lemma_table_sum_nonneg(pre, |s: LocalStat| completed_of(s));
                lemma_table_sum_nonneg(pre, |s: LocalStat| failed_of(s));
                lemma_table_sum_nonneg(pre, |s: LocalStat| not_2xx_of(s));
                lemma_table_sum_nonneg(pre, |s: LocalStat| transferred_of(s));
                let rw = self.local_stats@[m as int]@;
                lemma_row_sum_nonneg(rw, |s: LocalStat| completed_of(s));
                lemma_row_sum_nonneg(rw, |s: LocalStat| failed_of(s));
                lemma_row_sum_nonneg(rw, |s: LocalStat| not_2xx_of(s));
                lemma_row_sum_nonneg(rw, |s: LocalStat| transferred_of(s));
            }
            r = Totals {
                completed: sat_add(r.completed, row.completed,
                    Ghost(table_sum(pre, |s: LocalStat| completed_of(s))),
                    Ghost(row_sum(self.local_stats@[m as int]@, |s: LocalStat| completed_of(s)))),
                failed: sat_add(r.failed, row.failed,
                    Ghost(table_sum(pre, |s: LocalStat| failed_of(s))),
                    Ghost(row_sum(self.local_stats@[m as int]@, |s: LocalStat| failed_of(s)))),
                not_2xx: sat_add(r.not_2xx, row.not_2xx,
                    Ghost(table_sum(pre, |s: LocalStat| not_2xx_of(s))),
                    Ghost(row_sum(self.local_stats@[m as int]@, |s: LocalStat| not_2xx_of(s)))),
                transferred: sat_add(r.transferred, row.transferred,
                    Ghost(table_sum(pre, |s: LocalStat| transferred_of(s))),
                    Ghost(row_sum(self.local_stats@[m as int]@, |s: LocalStat| transferred_of(s)))),
            };
            m = m + 1;
        }
        assert(t.subrange(0, METHOD_COUNT as int) =~= t);
        r
    }

    /// Completed requests over every method and worker, for progress output.
    pub fn completed_total(&self) -> (r: u64)
        requires
            self.wf(),
        ensures
            r == table_totals(self.counters()).completed,
    {
        self.summary_totals().completed
    }
}

/// Relies on `slice::sort_unstable`: the same entries, in ascending order.
#[verifier::external_body]
fn sorted_copy(v: &Vec<u64>) -> (r: Vec<u64>)
    ensures
        r@.to_multiset() == v@.to_multiset(),
        is_sorted(r@),
{
    let mut r = v.clone();
    r.sort_unstable();
    r
}

} // verus!
