use rust_bench::stats::Stats;
use rust_bench::worker::{record_outcome, Outcome};

#[test]
fn histogram_counts_every_sample() {
    let mut s = Stats::new(2);
    s.add_sample("GET", 0, 0);
    s.add_sample("GET", 0, 250_000);
    s.add_sample("GET", 1, 1_000_000_000);
    s.add_sample("GET", 1, 5_000_000_000);
    let sum: u64 = s.bucket_counts(1).iter().sum();
    assert_eq!(sum + s.overflow_entries(1).len() as u64, s.sample_count("GET"));
    assert_eq!(s.sample_count("GET"), 4);
    assert_eq!(s.bucket_counts(1)[0], 1);
    assert_eq!(s.bucket_counts(1)[2], 1);
    assert_eq!(s.overflow_entries(1), &vec![10000, 50000]);
    assert_eq!(s.sample_count("POST"), 0);
}

#[test]
fn unknown_method_is_ignored() {
    let mut s = Stats::new(1);
    s.add_sample("PATCH", 0, 100);
    s.update_stats("PATCH", 0, 200, 10);
    assert_eq!(s.sample_count("PATCH"), 0);
    assert_eq!(s.summary_totals().completed, 0);
}

#[test]
fn percentiles_example() {
    let mut s = Stats::new(1);
    for i in 0..10u64 {
        s.add_sample("GET", 0, i * 100_000);
    }
    let p = s.percentiles("GET");
    let got: Vec<(u64, u64)> = p;
    assert_eq!(
        got,
        vec![(50, 4), (66, 5), (75, 6), (80, 7), (90, 8), (95, 8), (98, 8), (99, 8), (100, 9)]
    );
}

#[test]
fn percentiles_are_monotone_and_top_is_max() {
    let mut s = Stats::new(1);
    for nanos in [300_000u64, 7_000_000_000, 100_000, 2_000_000_000, 50_000, 900_000_000] {
        s.add_sample("PUT", 0, nanos);
    }
    let p = s.percentiles("PUT");
    assert_eq!(p.len(), 9);
    for w in p.windows(2) {
        assert!(w[0].1 <= w[1].1);
    }
    assert_eq!(p[8].1, 70000);
}

#[test]
fn single_sample_reports_it_everywhere() {
    let mut s = Stats::new(1);
    s.add_sample("HEAD", 0, 1_234_567);
    let p = s.percentiles("HEAD");
    assert!(p.iter().all(|&(_, v)| v == 12));
    assert!(s.percentiles("GET").is_empty());
}

#[test]
fn summary_is_idempotent() {
    let mut s = Stats::new(2);
    s.update_stats("GET", 0, 200, 100);
    s.update_stats("POST", 1, 500, 7);
    s.increment_failed("GET", 1);
    let a = s.summary_totals();
    let b = s.summary_totals();
    assert_eq!((a.completed, a.failed, a.not_2xx, a.transferred), (b.completed, b.failed, b.not_2xx, b.transferred));
    assert_eq!((a.completed, a.failed, a.not_2xx, a.transferred), (2, 2, 1, 107));
    assert_eq!(s.completed_total(), 2);
    let g = s.method_totals("GET").unwrap();
    assert_eq!((g.completed, g.failed, g.transferred), (1, 1, 100));
    assert_eq!(s.percentiles("GET"), s.percentiles("GET"));
}

#[test]
fn status_404_counts_completed_failed_and_not_2xx() {
    let mut s = Stats::new(1);
    record_outcome(&mut s, "GET", 0, Outcome::Response { status: 404, length: 9 }, 1_000);
    let st = s.local_stat("GET", 0).unwrap();
    assert_eq!(st.completed, 1);
    assert_eq!(st.failed, 1);
    assert_eq!(st.not_2xx, 1);
    assert_eq!(st.resp_transfer, 9);
    assert_eq!(s.sample_count("GET"), 1);
}

#[test]
fn transport_error_counts_failed_only() {
    let mut s = Stats::new(1);
    record_outcome(&mut s, "DELETE", 0, Outcome::TransportError, 1_000);
    let st = s.local_stat("DELETE", 0).unwrap();
    assert_eq!((st.completed, st.failed, st.not_2xx), (0, 1, 0));
    assert_eq!(s.sample_count("DELETE"), 1);
    record_outcome(&mut s, "DELETE", 0, Outcome::Response { status: 204, length: 0 }, 1_000);
    let st = s.local_stat("DELETE", 0).unwrap();
    assert_eq!((st.completed, st.failed, st.not_2xx), (1, 1, 0));
    assert!(s.local_stat("DELETE", 5).is_none());
}

#[test]
fn status_boundaries_299_300_199() {
    let mut s = Stats::new(2);
    s.update_stats("GET", 0, 299, 0);
    s.update_stats("GET", 0, 300, 0);
    s.update_stats("GET", 0, 199, 0);
    let st = s.local_stat("GET", 0).unwrap();
    assert_eq!((st.completed, st.failed, st.not_2xx), (3, 2, 2));
    let other = s.local_stat("GET", 1).unwrap();
    assert_eq!((other.completed, other.failed, other.not_2xx), (0, 0, 0));
}

#[test]
fn latency_range_spans_buckets_and_overflow() {
    let mut s = Stats::new(1);
    assert_eq!(s.latency_range("GET"), None);
    s.add_sample("GET", 0, 350_000);
    assert_eq!(s.latency_range("GET"), Some((3, 3)));
    s.add_sample("GET", 0, 2_000_000_000);
    s.add_sample("GET", 0, 120_000);
    assert_eq!(s.latency_range("GET"), Some((1, 20000)));
    assert_eq!(s.latency_range("PATCH"), None);
}

#[test]
fn report_block_only_with_completed_requests() {
    let mut s = Stats::new(1);
    s.increment_failed("POST", 0);
    assert!(s.reported_totals("POST").is_none());
    s.update_stats("POST", 0, 201, 3);
    let t = s.reported_totals("POST").unwrap();
    assert_eq!((t.completed, t.failed, t.transferred), (1, 1, 3));
    assert!(s.reported_totals("HEAD").is_none());
}
