use rstat::checker::{AttemptOutcome, HttpHealthChecker, TcpHealthChecker, perform_check};
use rstat::healthcheck::{HttpChecker, Kind, TcpChecker};
use rstat::service::{HealthCheckRequest, Service};
use rstat::utils::validate_url;

fn http_config(url: &str, max_retries: u8) -> HttpChecker {
    HttpChecker {
        url: url.to_string(),
        method: "GET".to_string(),
        headers: Vec::new(),
        body: None,
        timeout: 5,
        max_retries,
    }
}

fn tcp_config(max_retries: u8) -> TcpChecker {
    TcpChecker { host: "example.com".to_string(), port: 443, timeout: 5, max_retries }
}

fn reached(code: u16, body: &str, elapsed: u64) -> AttemptOutcome {
    AttemptOutcome::Reached { code, body: body.to_string(), elapsed_micros: elapsed }
}

fn failed(error: &str) -> AttemptOutcome {
    AttemptOutcome::Failed { error: error.to_string() }
}

#[test]
fn http_500_response_is_final_on_first_attempt() {
    let checker = HttpHealthChecker::new(http_config("http://example.com/health", 3));
    let outcomes = vec![
        reached(500, "boom", 1200),
        reached(200, "ok", 1000),
        reached(200, "ok", 1000),
        reached(200, "ok", 1000),
    ];
    let (result, attempts) = checker.check(&outcomes);
    assert_eq!(attempts, 1);
    assert!(!result.success);
    assert_eq!(result.code, 500);
    assert_eq!(result.response_time, 1200);
    assert_eq!(result.message, "boom");
}

#[test]
fn http_exhausts_transport_failures() {
    let checker = HttpHealthChecker::new(http_config("http://example.com/health", 2));
    let outcomes = vec![
        failed("connection refused"),
        failed("connection refused"),
        failed("connection refused again"),
    ];
    let (result, attempts) = checker.check(&outcomes);
    assert_eq!(attempts, 3);
    assert!(!result.success);
    assert_eq!(result.code, 0);
    assert_eq!(result.response_time, 0);
    assert_eq!(result.message, "connection refused again");
}

#[test]
fn http_2xx_is_success() {
    let checker = HttpHealthChecker::new(http_config("http://example.com/health", 0));
    let outcomes = vec![reached(204, "", 800)];
    let (result, attempts) = checker.check(&outcomes);
    assert_eq!(attempts, 1);
    assert!(result.success);
    assert_eq!(result.code, 204);
    assert_eq!(result.response_time, 800);
}

#[test]
fn http_retries_transport_then_takes_response() {
    let checker = HttpHealthChecker::new(http_config("http://example.com/health", 3));
    let outcomes = vec![
        failed("timeout"),
        reached(404, "not found", 2500),
        reached(200, "ok", 1000),
        reached(200, "ok", 1000),
    ];
    let (result, attempts) = checker.check(&outcomes);
    assert_eq!(attempts, 2);
    assert!(!result.success);
    assert_eq!(result.code, 404);
    assert_eq!(result.response_time, 2500);
    assert_eq!(result.message, "not found");
}

#[test]
fn http_malformed_url_fails_without_attempts() {
    let checker = HttpHealthChecker::new(http_config("not a url", 3));
    let outcomes = vec![
        reached(200, "ok", 1000),
        reached(200, "ok", 1000),
        reached(200, "ok", 1000),
        reached(200, "ok", 1000),
    ];
    let (result, attempts) = checker.check(&outcomes);
    assert_eq!(attempts, 0);
    assert!(!result.success);
    assert_eq!(result.code, 0);
    assert_eq!(result.response_time, 0);
    assert_eq!(result.message, "invalid URL");
}

#[test]
fn tcp_succeeds_on_second_of_three_attempts() {
    let checker = TcpHealthChecker::new(tcp_config(2));
    let outcomes = vec![failed("connection refused"), reached(0, "", 4200), reached(0, "", 9999)];
    let (result, attempts) = checker.check(&outcomes);
    assert_eq!(attempts, 2);
    assert!(result.success);
    assert_eq!(result.code, 200);
    assert_eq!(result.response_time, 4200);
    assert_eq!(result.message, "connection successful");
}

#[test]
fn tcp_exhausts_connect_failures() {
    let checker = TcpHealthChecker::new(tcp_config(1));
    let outcomes = vec![failed("no route"), failed("host unreachable")];
    let (result, attempts) = checker.check(&outcomes);
    assert_eq!(attempts, 2);
    assert!(!result.success);
    assert_eq!(result.code, 0);
    assert_eq!(result.response_time, 0);
    assert_eq!(result.message, "host unreachable");
}

#[test]
fn perform_check_dispatches_by_kind() {
    let service = Service {
        id: 7,
        name: "db".to_string(),
        kind: Kind::TCP(tcp_config(0)),
        interval: 30,
        next_run: 0,
    };
    let request = HealthCheckRequest::new(service);
    let outcomes = vec![reached(0, "", 777)];
    let (result, attempts) = perform_check(&request, &outcomes);
    assert_eq!(attempts, 1);
    assert!(result.success);
    assert_eq!(result.code, 200);
    assert_eq!(result.response_time, 777);
}

#[test]
fn validate_url_accepts_and_rejects() {
    assert!(validate_url("https://example.com/path?q=1"));
    assert!(validate_url("tcp://127.0.0.1:5432"));
    assert!(!validate_url("not a url"));
    assert!(!validate_url(""));
    assert!(!validate_url("http://"));
}

#[test]
fn build_headers_drops_unparseable_pairs() {
    let mut config = http_config("http://example.com", 0);
    config.headers = vec![
        ("content-type".to_string(), "application/json".to_string()),
        ("bad header name".to_string(), "x".to_string()),
        ("x-ok".to_string(), "value".to_string()),
        ("x-bad-value".to_string(), "line\nbreak".to_string()),
    ];
    let checker = HttpHealthChecker::new(config);
    let headers = checker.build_headers();
    assert_eq!(
        headers,
        vec![
            ("content-type".to_string(), "application/json".to_string()),
            ("x-ok".to_string(), "value".to_string()),
        ]
    );
}

#[test]
fn kind_names_round_trip() {
    let http = Kind::HTTP(HttpChecker::default());
    let tcp = Kind::TCP(TcpChecker::default());
    assert_eq!(http.kind_name(), "HTTP");
    assert_eq!(tcp.kind_name(), "TCP");
    assert!(matches!(Kind::from_name("HTTP"), Some(Kind::HTTP(_))));
    assert!(matches!(Kind::from_name("TCP"), Some(Kind::TCP(_))));
    assert!(Kind::from_name("ICMP").is_none());
    assert!(Kind::from_name("http").is_none());
}

#[test]
fn default_configs_hold_documented_values() {
    let http = HttpChecker::default();
    assert_eq!(http.method, "GET");
    assert_eq!(http.timeout, 5);
    assert_eq!(http.max_retries, 3);
    assert!(http.url.is_empty());
    assert!(http.body.is_none());
    let tcp = TcpChecker::default();
    assert_eq!(tcp.port, 80);
    assert_eq!(tcp.timeout, 5);
    assert_eq!(tcp.max_retries, 3);
}
