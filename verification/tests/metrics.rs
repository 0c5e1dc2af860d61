//! Metrics and their exposition text.
use std::time::Duration;

use portail::metrics::{
    count_host_request, escape_label, host_requests_counter, record_backend_connect_error,
    record_backend_connect_timeout, register_listener, render, render_histogram, Counter, Gauge,
    Histogram, LabeledFamily, ListenerStats, Metrics,
};

fn seconds(nanos: u64) -> String {
    format!("{}", nanos as f64 / 1e9)
}

fn scrape(m: &Metrics, ready: bool) -> String {
    render(
        m,
        ready,
        &seconds(m.request_duration.sum_nanos),
        &seconds(m.upstream_ttfb.sum_nanos),
    )
}

#[test]
fn render_is_valid_exposition_text() {
    let mut m = Metrics::new();
    m.pool_hits_total.inc();
    m.active_connections.inc();
    let text = scrape(&m, true);

    // Every metric line references a declared metric with HELP+TYPE.
    assert!(text.contains("# TYPE portail_pool_hits_total counter"));
    assert!(text.contains("# TYPE portail_active_connections gauge"));
    assert!(text.contains("portail_ready 1"));
    let hits: u64 = text
        .lines()
        .find(|l| l.starts_with("portail_pool_hits_total "))
        .and_then(|l| l.split_whitespace().nth(1))
        .and_then(|v| v.parse().ok())
        .unwrap();
    assert!(hits >= 1);
    // Text format: every non-comment line is "name value".
    for line in text.lines() {
        if !line.starts_with('#') {
            assert_eq!(line.split_whitespace().count(), 2, "bad line: {line}");
        }
    }
    m.active_connections.dec();
    assert_eq!(m.active_connections.get(), 0);
}

#[test]
fn histogram_buckets_cumulate_and_sum() {
    let mut h = Histogram::new();
    h.observe(Duration::from_micros(5).as_nanos()); // below first bound -> le=0.00001
    h.observe(Duration::from_micros(300).as_nanos()); // -> le=0.0005
    h.observe(Duration::from_millis(40).as_nanos()); // -> le=0.05
    h.observe(Duration::from_secs(120).as_nanos()); // above last bound -> +Inf only

    let mut out = String::new();
    render_histogram(&mut out, "test_seconds", "help", &h, &seconds(h.sum_nanos));

    assert!(out.contains("# TYPE portail_test_seconds histogram"));
    assert!(out.contains("portail_test_seconds_bucket{le=\"0.00001\"} 1"));
    // Cumulative: the 300us sample joins the 5us one at le=0.0005.
    assert!(out.contains("portail_test_seconds_bucket{le=\"0.0005\"} 2"));
    assert!(out.contains("portail_test_seconds_bucket{le=\"0.05\"} 3"));
    assert!(out.contains("portail_test_seconds_bucket{le=\"60\"} 3"));
    assert!(out.contains("portail_test_seconds_bucket{le=\"+Inf\"} 4"));
    assert!(out.contains("portail_test_seconds_count 4"));
    let sum: f64 = out
        .lines()
        .find(|l| l.starts_with("portail_test_seconds_sum "))
        .and_then(|l| l.split_whitespace().nth(1))
        .and_then(|v| v.parse().ok())
        .unwrap();
    assert!((sum - 120.040305).abs() < 1e-6, "sum was {sum}");
    // Buckets never decrease and never exceed +Inf.
    let mut prev = 0u64;
    for line in out.lines().filter(|l| l.contains("_bucket")) {
        let v: u64 = line.split_whitespace().nth(1).unwrap().parse().unwrap();
        assert!(v >= prev, "non-monotonic bucket line: {line}");
        prev = v;
    }
}

#[test]
fn request_histograms_render_in_scrape() {
    let mut m = Metrics::new();
    m.request_duration.observe(Duration::from_millis(2).as_nanos());
    m.upstream_ttfb.observe(Duration::from_millis(1).as_nanos());
    let text = scrape(&m, true);
    assert!(text.contains("# TYPE portail_request_duration_seconds histogram"));
    assert!(text.contains("# TYPE portail_upstream_ttfb_seconds histogram"));
    assert!(text.contains("portail_request_duration_seconds_bucket{le=\"+Inf\"}"));
    assert!(text.contains("portail_request_duration_seconds_sum 0.002\n"));
}

#[test]
fn listener_registry_renders_and_flips_up() {
    let mut m = Metrics::new();
    let (slot, guard) = register_listener(&mut m, "tcp", 8123);
    m.listeners[slot].stats.accepted += 3;
    m.listeners[slot].stats.http_requests += 2;
    m.listeners[slot].stats.upstream_connect_errors += 1;
    let text = scrape(&m, true);
    assert!(text.contains("portail_listener_accepted_total{proto=\"tcp\",port=\"8123\"} 3"));
    assert!(text.contains("portail_listener_up{proto=\"tcp\",port=\"8123\"} 1"));
    assert!(text.contains("portail_listener_http_requests_total{proto=\"tcp\",port=\"8123\"} 2"));
    assert!(text
        .contains("portail_listener_upstream_connect_errors_total{proto=\"tcp\",port=\"8123\"} 1"));
    assert!(text.contains("portail_listener_active_connections{proto=\"tcp\",port=\"8123\"} 0"));

    guard.release(&mut m);
    let text = scrape(&m, true);
    assert!(text.contains("portail_listener_up{proto=\"tcp\",port=\"8123\"} 0"));

    // A rebind re-activates the same slot; the counter stays monotonic.
    let (_slot2, _guard2) = register_listener(&mut m, "tcp", 8123);
    let text = scrape(&m, true);
    assert!(text.contains("portail_listener_up{proto=\"tcp\",port=\"8123\"} 1"));
    assert!(text.contains("portail_listener_accepted_total{proto=\"tcp\",port=\"8123\"} 3"));
}

#[test]
fn counters_and_gauges_count() {
    let mut c = Counter::new();
    c.inc();
    c.add(41);
    assert_eq!(c.get(), 42);
    c.add(u64::MAX);
    assert_eq!(c.get(), 41);
    let mut g = Gauge::new();
    g.inc();
    g.inc();
    g.dec();
    assert_eq!(g.get(), 1);
}

#[test]
fn empty_scrape_omits_labeled_series() {
    let text = scrape(&Metrics::new(), false);
    assert!(text.starts_with(
        "# HELP portail_access_log_dropped_total Access log lines dropped because the writer \
         lagged or its sink failed\n# TYPE portail_access_log_dropped_total counter\n\
         portail_access_log_dropped_total 0\n"
    ));
    assert!(!text.contains("portail_http_requests_total"));
    assert!(!text.contains("portail_listener_up"));
    assert!(text.ends_with(
        "# HELP portail_ready Whether the data plane has bound its listener ports\n\
         # TYPE portail_ready gauge\nportail_ready 0\n"
    ));
}

#[test]
fn labeled_families_sort_and_escape() {
    let mut m = Metrics::new();
    let b = host_requests_counter(&mut m, "b.example.com");
    let a = host_requests_counter(&mut m, "a.example.com");
    count_host_request(&mut m, a);
    count_host_request(&mut m, b);
    count_host_request(&mut m, b);
    // The same host has the same counter.
    assert_eq!(host_requests_counter(&mut m, "b.example.com"), b);
    record_backend_connect_error(&mut m, "svc\"\\\n:80");
    record_backend_connect_timeout(&mut m, "svc:80");
    record_backend_connect_timeout(&mut m, "svc:80");
    let text = scrape(&m, true);
    assert!(text.contains(
        "# HELP portail_http_requests_total HTTP requests dispatched to a backend, by the matched \
         route's configured hostname\n# TYPE portail_http_requests_total counter\n\
         portail_http_requests_total{host=\"a.example.com\"} 1\n\
         portail_http_requests_total{host=\"b.example.com\"} 2\n"
    ));
    assert!(text
        .contains("portail_upstream_connect_errors_total{backend=\"svc\\\"\\\\\\n:80\"} 1\n"));
    assert!(text.contains("portail_upstream_connect_timeouts_total{backend=\"svc:80\"} 2\n"));
}

#[test]
fn label_values_are_escaped() {
    assert_eq!(escape_label("a\\b\"c\nd"), "a\\\\b\\\"c\\nd");
    assert_eq!(escape_label("plain"), "plain");
}

#[test]
fn listeners_sort_by_protocol_and_port() {
    let mut m = Metrics::new();
    register_listener(&mut m, "udp", 53);
    register_listener(&mut m, "tcp", 443);
    register_listener(&mut m, "tcp", 80);
    let text = scrape(&m, true);
    assert!(text.contains(
        "# TYPE portail_listener_up gauge\n\
         portail_listener_up{proto=\"tcp\",port=\"80\"} 1\n\
         portail_listener_up{proto=\"tcp\",port=\"443\"} 1\n\
         portail_listener_up{proto=\"udp\",port=\"53\"} 1\n"
    ));
}

#[test]
fn histogram_saturates_and_clamps() {
    let mut h = Histogram::new();
    h.observe(u128::MAX);
    assert_eq!(h.sum_nanos, u64::MAX);
    assert_eq!(h.count, 1);
    assert!(h.buckets.iter().all(|b| *b == 0));
    // A bound belongs to its bucket.
    h.observe(10_000);
    assert_eq!(h.buckets[0], 1);
    // What the buckets hold is never more than the count that is shown.
    h.count = 0;
    let mut out = String::new();
    render_histogram(&mut out, "x", "help", &h, "0");
    assert!(out.contains("portail_x_bucket{le=\"+Inf\"} 1\n"));
    assert!(out.ends_with("portail_x_sum 0\nportail_x_count 1\n"));
}

#[test]
fn family_slots_are_stable() {
    let mut f = LabeledFamily::new();
    let x = f.slot("x");
    let y = f.slot("y");
    f.count(y);
    assert_eq!(f.slot("x"), x);
    assert_eq!(f.entries[x].value, 0);
    assert_eq!(f.entries[y].value, 1);
    assert_eq!(ListenerStats::default().up, 0);
}

#[test]
fn buckets_show_the_samples_up_to_their_bound() {
    let samples: [u64; 7] =
        [10_000, 10_001, 250_000, 999_999, 1_000_000, 60_000_000_000, 60_000_000_001];
    let mut h = Histogram::new();
    for nanos in samples {
        h.observe(nanos as u128);
    }
    let mut out = "before\n".to_string();
    render_histogram(&mut out, "x", "help", &h, "1");
    assert!(out.starts_with("before\n# HELP portail_x help\n"));
    let bounds = ["0.00001", "0.000025", "0.00005", "0.0001", "0.00025", "0.0005", "0.001"];
    let nanos = [10_000, 25_000, 50_000, 100_000, 250_000, 500_000, 1_000_000];
    for (bound, limit) in bounds.iter().zip(nanos) {
        let fit = samples.iter().filter(|n| **n <= limit).count();
        assert!(out.contains(&format!("portail_x_bucket{{le=\"{bound}\"}} {fit}\n")), "{out}");
    }
    assert!(out.contains("portail_x_bucket{le=\"30\"} 5\n"));
    assert!(out.contains("portail_x_bucket{le=\"60\"} 6\n"));
    assert!(out.contains("portail_x_bucket{le=\"+Inf\"} 7\n"));
    assert!(out.ends_with("portail_x_sum 1\nportail_x_count 7\n"));
}

#[test]
fn a_failed_connect_changes_one_line() {
    let mut m = Metrics::new();
    record_backend_connect_timeout(&mut m, "b:80");
    record_backend_connect_error(&mut m, "c:80");
    record_backend_connect_error(&mut m, "a:80");
    let errors = "portail_upstream_connect_errors_total";
    let before = scrape(&m, true);
    assert!(!before.contains(&format!("{errors}{{backend=\"b:80\"}}")));

    // A backend without a line gets one, among the others.
    record_backend_connect_error(&mut m, "b:80");
    let first = scrape(&m, true);
    let c = format!("{errors}{{backend=\"c:80\"}} 1\n");
    let b1 = format!("{errors}{{backend=\"b:80\"}} 1\n");
    assert_eq!(first, before.replace(&c, &format!("{b1}{c}")));

    // After that its line counts on, and nothing else changes.
    record_backend_connect_error(&mut m, "b:80");
    let second = scrape(&m, true);
    assert_eq!(second, first.replace(&b1, &format!("{errors}{{backend=\"b:80\"}} 2\n")));
    assert!(second.contains("portail_upstream_connect_timeouts_total{backend=\"b:80\"} 1\n"));
}
