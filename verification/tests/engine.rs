use rstat::config::{ServiceConfig, ServiceKind, create_service_from_config, kind_from_config, service_exists};
use rstat::healthcheck::{HealthCheckResult, HttpChecker, Kind, TcpChecker};
use rstat::metrics::{MetricsCalculator, ServiceMetric, ServiceMetricsSummary, get_metrics_summary};
use rstat::metrics_updater::MetricsUpdater;
use rstat::scheduler::{Notifier, Scheduler};
use rstat::service::Service;
use rstat::store::Store;

const MICROS_PER_DAY: u64 = 86_400_000_000;

fn tcp_kind() -> Kind {
    Kind::TCP(TcpChecker { host: "example.com".to_string(), port: 443, timeout: 5, max_retries: 3 })
}

fn result(success: bool, code: u64, response_time: u64, created_at: u64) -> HealthCheckResult {
    HealthCheckResult {
        id: 0,
        success,
        code,
        response_time,
        message: if success { "OK".to_string() } else { "error".to_string() },
        created_at,
    }
}

/// Log one result for the service at the given timestamp.
fn log(store: &mut Store, sid: u128, success: bool, response_time: u64, at: u64) {
    store.create_result(result(success, if success { 200 } else { 0 }, response_time, at), sid);
}

#[test]
fn new_service_is_immediately_due() {
    let mut store = Store::new();
    let now = 19000 * MICROS_PER_DAY + 1_000_000;
    let id = store.create("api", tcp_kind(), 30, now);
    let services = store.all();
    assert_eq!(services.len(), 1);
    assert_eq!(services[0].id, id);
    assert_eq!(services[0].next_run, now);
    let scheduler = Scheduler::new(Notifier::new(16));
    let due = scheduler.get_due_services(&store, now);
    assert_eq!(due.len(), 1);
    assert_eq!(due[0].id, id);
}

#[test]
fn service_not_due_before_next_run() {
    let mut store = Store::new();
    let now = 19000 * MICROS_PER_DAY;
    let id = store.create("api", tcp_kind(), 30, now);
    store.update_next_run(id, now + 60 * 1_000_000);
    let scheduler = Scheduler::new(Notifier::new(16));
    assert!(scheduler.get_due_services(&store, now).is_empty());
    assert_eq!(scheduler.get_due_services(&store, now + 60 * 1_000_000).len(), 1);
}

#[test]
fn run_healthcheck_advances_next_run_and_logs() {
    let mut store = Store::new();
    let now = 19000 * MICROS_PER_DAY + 5_000_000;
    let id = store.create("api", tcp_kind(), 30, now);
    let mut scheduler = Scheduler::new(Notifier::new(16));
    let service = store.get(id).unwrap();
    scheduler.run_healthcheck(&mut store, &service, result(true, 200, 4200, now), now);

    // the result is logged for the service
    let logged = store.get_by_service_id(id);
    assert_eq!(logged.len(), 1);
    assert!(logged[0].success);
    assert_eq!(logged[0].response_time, 4200);

    // next_run moved a full interval past the tick start and never back
    let after = store.get(id).unwrap();
    assert_eq!(after.next_run, now + 30 * 1_000_000);
    assert!(after.next_run >= service.next_run);

    // today's metric row was recomputed, even for this single check
    let metric = store.get_today_metrics(id, now).unwrap();
    assert_eq!(metric.total_checks, 1);
    assert_eq!(metric.successful_checks, 1);
    assert_eq!(metric.uptime_percentage, 10000);
    assert_eq!(metric.average_latency_ms, 4200 / 1000);

    // a notification was queued
    let messages = scheduler.notifier.drain();
    assert_eq!(messages, vec!["api".to_string()]);
}

#[test]
fn failed_check_still_updates_metrics() {
    let mut store = Store::new();
    let now = 19000 * MICROS_PER_DAY + 5_000_000;
    let id = store.create("api", tcp_kind(), 30, now);
    let mut scheduler = Scheduler::new(Notifier::new(16));
    let service = store.get(id).unwrap();
    scheduler.run_healthcheck(&mut store, &service, result(false, 0, 0, now), now);
    let metric = store.get_today_metrics(id, now).unwrap();
    assert_eq!(metric.total_checks, 1);
    assert_eq!(metric.successful_checks, 0);
    assert_eq!(metric.uptime_percentage, 0);
    assert_eq!(metric.average_latency_ms, 0);
    assert_eq!(store.get(id).unwrap().next_run, now + 30 * 1_000_000);
}

#[test]
fn notifier_drops_when_full() {
    let mut notifier = Notifier::new(2);
    assert!(notifier.try_send("a".to_string()));
    assert!(notifier.try_send("b".to_string()));
    assert!(!notifier.try_send("c".to_string()));
    assert_eq!(notifier.drain(), vec!["a".to_string(), "b".to_string()]);
    assert!(notifier.try_send("d".to_string()));
}

#[test]
fn daily_metrics_exact_values() {
    let mut store = Store::new();
    let day: u64 = 19000;
    let base = day * MICROS_PER_DAY;
    let sid = 42;
    log(&mut store, sid, true, 2000, base + 1);
    log(&mut store, sid, true, 4000, base + 2);
    log(&mut store, sid, true, 9000, base + 3);
    log(&mut store, sid, false, 0, base + 4);
    // a result on another day and for another service do not count
    log(&mut store, sid, true, 100_000, base + MICROS_PER_DAY + 5);
    log(&mut store, 99, true, 100_000, base + 6);

    let calculator = MetricsCalculator::new();
    let metric = calculator.calculate_daily_metrics(&mut store, sid, day, base + 10);
    assert_eq!(metric.service_id, sid);
    assert_eq!(metric.date, day);
    assert_eq!(metric.total_checks, 4);
    assert_eq!(metric.successful_checks, 3);
    // 3 / 4 × 10000 = 7500 hundredths of a percent
    assert_eq!(metric.uptime_percentage, 7500);
    // (2000 + 4000 + 9000) / 3 = 5000 µs → 5 ms
    assert_eq!(metric.average_latency_ms, 5);
}

#[test]
fn uptime_is_exact_integer_ratio() {
    assert_eq!(ServiceMetric::calculate_uptime_percentage(0, 0), 0);
    assert_eq!(ServiceMetric::calculate_uptime_percentage(1, 3), 3333);
    assert_eq!(ServiceMetric::calculate_uptime_percentage(2, 3), 6666);
    assert_eq!(ServiceMetric::calculate_uptime_percentage(1, 1), 10000);
    assert_eq!(ServiceMetric::calculate_uptime_percentage(299, 300), 9966);
}

#[test]
fn empty_day_writes_zero_row() {
    let mut store = Store::new();
    let day: u64 = 19000;
    let calculator = MetricsCalculator::new();
    let metric = calculator.calculate_daily_metrics(&mut store, 42, day, day * MICROS_PER_DAY);
    assert_eq!(metric.total_checks, 0);
    assert_eq!(metric.successful_checks, 0);
    assert_eq!(metric.uptime_percentage, 0);
    assert_eq!(metric.average_latency_ms, 0);
    // the zero-valued row is stored, not skipped
    assert_eq!(store.metrics.len(), 1);
    assert_eq!(store.metrics[0].date, day);
}

#[test]
fn day_with_only_failures_has_zero_latency() {
    let mut store = Store::new();
    let day: u64 = 19000;
    let base = day * MICROS_PER_DAY;
    log(&mut store, 7, false, 0, base + 1);
    log(&mut store, 7, false, 0, base + 2);
    let calculator = MetricsCalculator::new();
    let metric = calculator.calculate_daily_metrics(&mut store, 7, day, base + 10);
    assert_eq!(metric.total_checks, 2);
    assert_eq!(metric.successful_checks, 0);
    assert_eq!(metric.uptime_percentage, 0);
    assert_eq!(metric.average_latency_ms, 0);
}

#[test]
fn recomputation_is_idempotent() {
    let mut store = Store::new();
    let day: u64 = 19000;
    let base = day * MICROS_PER_DAY;
    let sid = 42;
    log(&mut store, sid, true, 3000, base + 1);
    log(&mut store, sid, false, 0, base + 2);
    let calculator = MetricsCalculator::new();
    let now = base + 10;
    calculator.calculate_daily_metrics(&mut store, sid, day, now);
    let rows_once = store.metrics.clone();
    calculator.calculate_daily_metrics(&mut store, sid, day, now);
    let rows_twice = store.metrics.clone();
    // byte-identical stored values, and still a single row for the key
    assert_eq!(rows_once, rows_twice);
    assert_eq!(rows_twice.len(), 1);
}

#[test]
fn range_calculation_covers_every_day() {
    let mut store = Store::new();
    let day: u64 = 19000;
    let base = day * MICROS_PER_DAY;
    let sid = 42;
    log(&mut store, sid, true, 2000, base + 1);
    log(&mut store, sid, true, 2000, base + 2 * MICROS_PER_DAY);
    let calculator = MetricsCalculator::new();
    let metrics = calculator.calculate_metrics_for_range(&mut store, sid, day, day + 2, base + 10);
    assert_eq!(metrics.len(), 3);
    assert_eq!(metrics[0].date, day);
    assert_eq!(metrics[1].date, day + 1);
    assert_eq!(metrics[2].date, day + 2);
    assert_eq!(metrics[0].total_checks, 1);
    assert_eq!(metrics[1].total_checks, 0);
    assert_eq!(metrics[2].total_checks, 1);
    assert_eq!(store.metrics.len(), 3);
}

#[test]
fn summary_sorted_descending_with_current_from_most_recent_day() {
    let mut store = Store::new();
    let day: u64 = 19000;
    let sid = 42;
    // three consecutive days: 100%, 50%, 0% uptime, distinct latencies
    log(&mut store, sid, true, 10_000, day * MICROS_PER_DAY + 1);
    log(&mut store, sid, true, 20_000, (day + 1) * MICROS_PER_DAY + 1);
    log(&mut store, sid, false, 0, (day + 1) * MICROS_PER_DAY + 2);
    log(&mut store, sid, false, 0, (day + 2) * MICROS_PER_DAY + 1);
    let now = (day + 2) * MICROS_PER_DAY + 500;
    let calculator = MetricsCalculator::new();
    let summary = calculator.get_metrics_summary(&mut store, sid, Some(2), now);

    assert_eq!(summary.service_id, sid);
    assert_eq!(summary.uptime_data.len(), 3);
    // sorted by date descending
    assert_eq!(summary.uptime_data[0].date, day + 2);
    assert_eq!(summary.uptime_data[1].date, day + 1);
    assert_eq!(summary.uptime_data[2].date, day);
    assert_eq!(summary.uptime_data[0].uptime_percentage, 0);
    assert_eq!(summary.uptime_data[1].uptime_percentage, 5000);
    assert_eq!(summary.uptime_data[2].uptime_percentage, 10000);
    // current values come from the most recent day
    assert_eq!(summary.current_uptime, 0);
    assert_eq!(summary.current_latency_ms, 0);
    // mean of the per-day latencies: (0 + 20 + 10) / 3
    assert_eq!(summary.average_latency_ms, 10);
}

#[test]
fn from_metrics_sorts_and_reduces() {
    let mk = |date: u64, uptime: u32, latency: u64| ServiceMetric {
        id: 0,
        service_id: 5,
        date,
        uptime_percentage: uptime,
        average_latency_ms: latency,
        total_checks: 10,
        successful_checks: 9,
        created_at: 0,
        updated_at: 0,
    };
    let summary = ServiceMetricsSummary::from_metrics(5, vec![
        mk(100, 5000, 30),
        mk(102, 9000, 10),
        mk(101, 7000, 20),
    ]);
    assert_eq!(summary.uptime_data.len(), 3);
    assert_eq!(summary.uptime_data[0].date, 102);
    assert_eq!(summary.uptime_data[1].date, 101);
    assert_eq!(summary.uptime_data[2].date, 100);
    assert_eq!(summary.current_uptime, 9000);
    assert_eq!(summary.current_latency_ms, 10);
    assert_eq!(summary.average_latency_ms, 20);
}

#[test]
fn from_metrics_empty_is_zero_summary() {
    let summary = ServiceMetricsSummary::from_metrics(5, Vec::new());
    assert_eq!(summary.current_uptime, 0);
    assert_eq!(summary.current_latency_ms, 0);
    assert_eq!(summary.average_latency_ms, 0);
    assert!(summary.uptime_data.is_empty());
}

#[test]
fn stored_summary_reads_back_existing_rows() {
    let mut store = Store::new();
    let day: u64 = 19000;
    let sid = 42;
    let now = day * MICROS_PER_DAY + 100;
    store.upsert_metric(sid, day, 9900, 12, 100, 99, now);
    store.upsert_metric(sid, day - 1, 8000, 40, 10, 8, now);
    let summary = get_metrics_summary(&store, sid, Some(5), now);
    assert_eq!(summary.uptime_data.len(), 2);
    assert_eq!(summary.uptime_data[0].date, day);
    assert_eq!(summary.current_uptime, 9900);
    assert_eq!(summary.current_latency_ms, 12);
    assert_eq!(summary.average_latency_ms, (12 + 40) / 2);
}

#[test]
fn upsert_overwrites_and_keeps_identity() {
    let mut store = Store::new();
    let sid = 1;
    let first = store.upsert_metric(sid, 100, 5000, 10, 2, 1, 111);
    let second = store.upsert_metric(sid, 100, 7500, 20, 4, 3, 222);
    assert_eq!(first, second);
    assert_eq!(store.metrics.len(), 1);
    assert_eq!(store.metrics[0].uptime_percentage, 7500);
    assert_eq!(store.metrics[0].created_at, 111);
    assert_eq!(store.metrics[0].updated_at, 222);
}

#[test]
fn delete_old_metrics_retains_recent_rows() {
    let mut store = Store::new();
    let today: u64 = 19000;
    let now = today * MICROS_PER_DAY + 1;
    store.upsert_metric(1, today, 10000, 1, 1, 1, now);
    store.upsert_metric(1, today - 10, 10000, 1, 1, 1, now);
    store.upsert_metric(1, today - 100, 10000, 1, 1, 1, now);
    let deleted = store.delete_old_metrics(30, now);
    assert_eq!(deleted, 1);
    assert_eq!(store.metrics.len(), 2);
    assert!(store.metrics.iter().all(|m| m.date >= today - 30));
}

#[test]
fn updater_refreshes_all_services() {
    let mut store = Store::new();
    let day: u64 = 19000;
    let now = day * MICROS_PER_DAY + 10;
    let a = store.create("a", tcp_kind(), 30, now);
    let b = store.create("b", tcp_kind(), 30, now);
    log(&mut store, a, true, 1000, now);
    let updater = MetricsUpdater::new(MetricsCalculator::new(), 300);
    updater.update_all_metrics(&mut store, now);
    assert_eq!(store.get_today_metrics(a, now).unwrap().total_checks, 1);
    assert_eq!(store.get_today_metrics(b, now).unwrap().total_checks, 0);
}

#[test]
fn updater_computes_yesterday() {
    let mut store = Store::new();
    let day: u64 = 19000;
    let now = day * MICROS_PER_DAY + 10;
    let a = store.create("a", tcp_kind(), 30, now);
    log(&mut store, a, true, 5000, now - MICROS_PER_DAY);
    let updater = MetricsUpdater::new(MetricsCalculator::new(), 300);
    updater.calculate_yesterday_metrics(&mut store, now);
    assert_eq!(store.metrics.len(), 1);
    assert_eq!(store.metrics[0].date, day - 1);
    assert_eq!(store.metrics[0].total_checks, 1);
}

#[test]
fn store_service_queries() {
    let mut store = Store::new();
    let now = 19000 * MICROS_PER_DAY;
    let a = store.create("api", tcp_kind(), 30, now);
    let b = store.create(
        "site",
        Kind::HTTP(HttpChecker { url: "http://example.com".to_string(), ..HttpChecker::default() }),
        60,
        now,
    );
    assert_eq!(store.all().len(), 2);
    assert_eq!(store.get(a).unwrap().name, "api");
    assert!(store.get(12345).is_none());
    let tcp_services = store.get_by_service_type(&tcp_kind());
    assert_eq!(tcp_services.len(), 1);
    assert_eq!(tcp_services[0].id, a);
    store.delete(a);
    assert_eq!(store.all().len(), 1);
    assert_eq!(store.all()[0].id, b);
}

#[test]
fn bulk_create_assigns_fresh_identifiers() {
    let mut store = Store::new();
    let now = 19000 * MICROS_PER_DAY;
    let template = Service {
        id: 0,
        name: "one".to_string(),
        kind: tcp_kind(),
        interval: 30,
        next_run: 7,
    };
    let services = vec![template.clone(), Service { name: "two".to_string(), ..template }];
    store.bulk_create(&services, now);
    let all = store.all();
    assert_eq!(all.len(), 2);
    assert_eq!(all[0].name, "one");
    assert_eq!(all[1].name, "two");
    assert_eq!(all[0].next_run, now);
    assert_eq!(all[1].next_run, now);
}

#[test]
fn api_request_shapes_carry_plain_values() {
    let create = rstat::api::CreateServiceRequest {
        name: "api".to_string(),
        kind: tcp_kind(),
        interval: 30,
    };
    assert_eq!(create.interval, 30);
    let delete = rstat::api::DeleteServiceRequest { id: "42".to_string() };
    let get = rstat::api::GetServiceRequest { id: delete.id.clone() };
    assert_eq!(delete.id, get.id);
    let query = rstat::api::MetricsQuery { days: None };
    assert_eq!(query.days.unwrap_or(30), 30);
}

#[test]
fn config_defaults_fill_in() {
    let kind = kind_from_config(ServiceKind::HTTP {
        url: "http://example.com/health".to_string(),
        method: None,
        headers: None,
        body: None,
        timeout: None,
        max_retries: None,
    });
    match kind {
        Kind::HTTP(c) => {
            assert_eq!(c.url, "http://example.com/health");
            assert_eq!(c.method, "GET");
            assert!(c.headers.is_empty());
            assert!(c.body.is_none());
            assert_eq!(c.timeout, 5);
            assert_eq!(c.max_retries, 3);
        }
        Kind::TCP(_) => panic!("expected an HTTP kind"),
    }
    let kind = kind_from_config(ServiceKind::TCP {
        host: "db.example.com".to_string(),
        port: 5432,
        timeout: Some(10),
        max_retries: Some(1),
    });
    match kind {
        Kind::TCP(c) => {
            assert_eq!(c.host, "db.example.com");
            assert_eq!(c.port, 5432);
            assert_eq!(c.timeout, 10);
            assert_eq!(c.max_retries, 1);
        }
        Kind::HTTP(_) => panic!("expected a TCP kind"),
    }
}

#[test]
fn config_creates_due_service_and_detects_duplicates() {
    let mut store = Store::new();
    let now = 19000 * MICROS_PER_DAY;
    let config = ServiceConfig {
        name: "gateway".to_string(),
        kind: ServiceKind::TCP { host: "gw".to_string(), port: 80, timeout: None, max_retries: None },
        interval: 45,
    };
    assert!(!service_exists(&store, "gateway"));
    let id = create_service_from_config(&mut store, config, now);
    assert!(service_exists(&store, "gateway"));
    assert!(!service_exists(&store, "other"));
    let created = store.get(id).unwrap();
    assert_eq!(created.interval, 45);
    assert_eq!(created.next_run, now);
}
