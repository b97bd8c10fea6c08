use balancer::metrics::MetricsRegistry;

const BUCKET_LABELS: [&str; 12] = [
    "0.005", "0.01", "0.025", "0.05", "0.1", "0.25", "0.5", "1", "2.5", "5", "10", "+Inf",
];

fn expected_render(
    requests: u64,
    errors: u64,
    buckets: [u64; 12],
    sum_text: &str,
    count: u64,
    gauges: &[(&str, bool)],
) -> String {
    let mut out = String::new();
    out.push_str(&format!("requests_total {}\n", requests));
    out.push_str(&format!("errors_total {}\n", errors));
    for (label, b) in BUCKET_LABELS.iter().zip(buckets.iter()) {
        out.push_str(&format!(
            "request_processing_time_bucket{{le=\"{}\"}} {}\n",
            label, b
        ));
    }
    out.push_str(&format!("request_processing_time_sum {}\n", sum_text));
    out.push_str(&format!("request_processing_time_count {}\n", count));
    for (addr, healthy) in gauges {
        out.push_str(&format!(
            "upstreams_status{{upstream=\"{}\"}} {}\n",
            addr,
            if *healthy { 1 } else { 0 }
        ));
    }
    out
}

#[test]
fn scenario_d_fresh_registry_renders_zero_counters() {
    let reg = MetricsRegistry::new(vec![]);
    let body = reg.render();
    assert_eq!(
        body,
        expected_render(0, 0, [0; 12], "0.000000", 0, &[])
    );
    assert!(body.starts_with("requests_total 0\n"));
}

#[test]
fn rendering_is_read_only_and_repeatable() {
    let mut reg = MetricsRegistry::new(vec!["a:80".to_string()]);
    reg.inc_requests();
    reg.inc_errors();
    let first = reg.render();
    let second = reg.render();
    assert_eq!(first, second);
    assert_eq!(reg.requests_total, 1);
    assert_eq!(reg.errors_total, 1);
}

#[test]
fn counters_render_their_exact_values() {
    let mut reg = MetricsRegistry::new(vec![]);
    for _ in 0..7 {
        reg.inc_requests();
    }
    for _ in 0..3 {
        reg.inc_errors();
    }
    let body = reg.render();
    assert!(body.starts_with("requests_total 7\nerrors_total 3\n"));
}

#[test]
fn histogram_observation_fills_cumulative_buckets() {
    let mut reg = MetricsRegistry::new(vec![]);
    // 30 ms: above 0.025 s, at most 0.05 s and everything beyond
    reg.observe_micros(30_000);
    let body = reg.render();
    let expected = expected_render(
        0,
        0,
        [0, 0, 0, 1, 1, 1, 1, 1, 1, 1, 1, 1],
        "0.030000",
        1,
        &[],
    );
    assert_eq!(body, expected);
}

#[test]
fn histogram_boundary_lands_in_its_bucket() {
    let mut reg = MetricsRegistry::new(vec![]);
    // exactly 5 ms: the first boundary is inclusive
    reg.observe_micros(5_000);
    assert_eq!(reg.hist_buckets[0], 1);
    assert_eq!(reg.hist_buckets[11], 1);
    assert_eq!(reg.hist_count, 1);
}

#[test]
fn oversized_observation_lands_only_in_unbounded_bucket() {
    let mut reg = MetricsRegistry::new(vec![]);
    // 11 s exceeds every boundary
    reg.observe_micros(11_000_000);
    assert_eq!(reg.hist_buckets[10], 0);
    assert_eq!(reg.hist_buckets[11], 1);
}

#[test]
fn gauges_render_per_upstream_status() {
    let mut reg = MetricsRegistry::new(vec!["a:80".to_string(), "b:80".to_string()]);
    reg.set_upstream_status(1, false);
    let body = reg.render();
    let expected = expected_render(
        0,
        0,
        [0; 12],
        "0.000000",
        0,
        &[("a:80", true), ("b:80", false)],
    );
    assert_eq!(body, expected);
}

#[test]
fn histogram_sum_renders_fixed_point_seconds() {
    let mut reg = MetricsRegistry::new(vec![]);
    reg.observe_micros(1_500_000);
    reg.observe_micros(250);
    let body = reg.render();
    assert!(body.contains("request_processing_time_sum 1.500250\n"));
    assert!(body.contains("request_processing_time_count 2\n"));
}
