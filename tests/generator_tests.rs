use rand::rngs::SmallRng;
use rand::SeedableRng;
use rust_bench::generator::{next_emission, parse_url_line, parse_url_lines, single_url_items, Emission, LoadLimit};
use rust_bench::config::Config;
use rust_bench::worker::{dispatch_of, next_step, random_body, Dispatch, NextStep, Receipt};

#[test]
fn url_line_keeps_commas_in_url() {
    let r = parse_url_line("GET,http://x/a,b").unwrap();
    assert_eq!(r.method, "GET");
    assert_eq!(r.url, "http://x/a,b");
}

#[test]
fn url_line_trims_and_uppercases() {
    let r = parse_url_line(" post , http://h/p ").unwrap();
    assert_eq!(r.method, "POST");
    assert_eq!(r.url, "http://h/p");
    assert!(parse_url_line("http://no-method").is_none());
}

#[test]
fn url_lines_skip_short_lines() {
    let lines = vec!["GET,http://a".to_string(), "junk".to_string(), "put,http://b,c".to_string()];
    let r = parse_url_lines(&lines);
    assert_eq!(r.len(), 2);
    assert_eq!((r[1].method.as_str(), r[1].url.as_str()), ("PUT", "http://b,c"));
}

#[test]
fn fixed_count_single_url_emits_count_items() {
    let items = single_url_items("GET", "http://x/");
    assert_eq!(items.len(), 1);
    let mut step = 0usize;
    let mut sent = 0;
    loop {
        match next_emission(LoadLimit::Count(100), items.len(), step, 0) {
            Emission::Emit(i) => {
                assert_eq!(i, 0);
                sent += 1;
            }
            Emission::Close => break,
        }
        step += 1;
    }
    assert_eq!(sent, 100);
}

#[test]
fn url_list_passes_in_order_and_duration_wraps() {
    let seq: Vec<Emission> = (0..7).map(|s| next_emission(LoadLimit::Count(2), 3, s, 0)).collect();
    assert_eq!(
        seq,
        vec![Emission::Emit(0), Emission::Emit(1), Emission::Emit(2), Emission::Emit(0), Emission::Emit(1), Emission::Emit(2), Emission::Close]
    );
    assert_eq!(next_emission(LoadLimit::Duration(1_000), 3, 4, 999), Emission::Emit(1));
    assert_eq!(next_emission(LoadLimit::Duration(1_000), 3, 4, 1_000), Emission::Close);
    assert_eq!(next_emission(LoadLimit::Count(5), 0, 0, 0), Emission::Close);
}

#[test]
fn random_body_with_equal_bounds_has_that_size() {
    let mut rng = SmallRng::seed_from_u64(7);
    for _ in 0..50 {
        assert_eq!(random_body(&mut rng, 10, 10).len(), 10);
        let n = random_body(&mut rng, 3, 8).len();
        assert!((3..=8).contains(&n));
    }
}

#[test]
fn dispatch_by_method() {
    assert_eq!(dispatch_of("GET"), Dispatch::Bodiless);
    assert_eq!(dispatch_of("HEAD"), Dispatch::Bodiless);
    assert_eq!(dispatch_of("DELETE"), Dispatch::Bodiless);
    assert_eq!(dispatch_of("POST"), Dispatch::Upload);
    assert_eq!(dispatch_of("PUT"), Dispatch::Upload);
    assert_eq!(dispatch_of("get"), Dispatch::Unsupported);
}

#[test]
fn only_closure_stops_a_worker() {
    assert_eq!(next_step(Receipt::Item), NextStep::Process);
    assert_eq!(next_step(Receipt::Lagged(17)), NextStep::Resume(17));
    assert_eq!(next_step(Receipt::Closed), NextStep::Stop);
}

#[test]
fn content_type_attached_only_when_configured() {
    let mut c = Config::default();
    assert!(c.attaches_content_type());
    c.content_type = String::new();
    assert!(!c.attaches_content_type());
}
