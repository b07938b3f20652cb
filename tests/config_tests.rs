use rust_bench::config::{validate_config, Config, ConfigError};

#[test]
fn test_header_parsing() {
    let config = Config {
        headers: vec![
            "Accept: application/json".to_string(),
            "User-Agent: rust-bench".to_string(),
        ],
        ..Default::default()
    };

    let headers = config.get_headers();
    assert_eq!(headers.len(), 2);
    assert_eq!(headers[0].0, "Accept");
    assert_eq!(headers[0].1, "application/json");
    assert_eq!(headers[1].0, "User-Agent");
    assert_eq!(headers[1].1, "rust-bench");
}

#[test]
fn test_validation() {
    let valid_config = Config {
        workers: 1,
        requests: 100,
        timelimit: 0,
        method: "GET".to_string(),
        url: Some("http://example.com".to_string()),
        ..Default::default()
    };
    assert!(valid_config.validate().is_ok());

    let invalid_config = Config {
        workers: 1,
        requests: 0,
        timelimit: 0,
        method: "GET".to_string(),
        url: Some("http://example.com".to_string()),
        ..Default::default()
    };
    assert!(invalid_config.validate().is_err());
}

#[test]
fn header_without_colon_is_skipped_and_value_keeps_colons() {
    let config = Config {
        headers: vec![
            "NoColonHere".to_string(),
            "  X-Time :  12:30:00 ".to_string(),
        ],
        ..Default::default()
    };
    let headers = config.get_headers();
    assert_eq!(headers.len(), 1);
    assert_eq!(headers[0].0, "X-Time");
    assert_eq!(headers[0].1, "12:30:00");
}

fn base() -> Config {
    Config {
        requests: 10,
        url: Some("http://example.com".to_string()),
        ..Default::default()
    }
}

#[test]
fn validate_reports_each_error() {
    let mut c = base();
    c.requests = 0;
    assert_eq!(c.validate(), Err(ConfigError::NoLoadLimit));

    let mut c = base();
    c.url = None;
    assert_eq!(c.validate(), Err(ConfigError::NoTarget));

    let mut c = base();
    c.url_file = Some("urls.txt".to_string());
    assert_eq!(c.validate(), Err(ConfigError::BothTargets));

    let mut c = base();
    c.workers = 0;
    assert_eq!(c.validate(), Err(ConfigError::NoWorkers));

    let mut c = base();
    c.min_size = 11;
    c.max_size = 10;
    assert_eq!(c.validate(), Err(ConfigError::SizeRange));

    let mut c = base();
    c.method = "PATCH".to_string();
    assert_eq!(c.validate(), Err(ConfigError::UnsupportedMethod));
}

#[test]
fn validate_accepts_lower_case_method_and_time_limit() {
    let mut c = base();
    c.requests = 0;
    c.timelimit = 5;
    c.method = "post".to_string();
    assert_eq!(c.validate(), Ok(()));
}

#[test]
fn validate_config_checks_load_and_target_only() {
    let mut c = base();
    c.workers = 0;
    assert_eq!(validate_config(&c), Ok(()));
    c.url = None;
    assert_eq!(validate_config(&c), Err(ConfigError::NoTarget));
}

#[test]
fn getters_and_defaults() {
    let c = Config::default();
    assert_eq!(c.get_content_type(), "text/plain");
    assert!(!c.use_keepalive());
    assert_eq!(c.get_timeout(), std::time::Duration::from_secs(30));
    assert_eq!(c.method, "GET");
    assert_eq!(c.min_size, 10);
    assert_eq!(c.max_size, 100);
}

#[test]
fn error_messages() {
    assert_eq!(ConfigError::BothTargets.message(), "Cannot specify both URL and URL file");
    assert_eq!(ConfigError::NoWorkers.message(), "Number of workers must be greater than 0");
}
