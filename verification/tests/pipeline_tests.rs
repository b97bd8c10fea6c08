use balancer::config::{ConfigError, ProxyConfig};
use balancer::pipeline::{HeaderMap, InboundAction, Proxy, RequestOutcome};
use balancer::pipeline::{is_metrics_path, no_upstream_response};
use balancer::prober::apply_probe_cycle;
use balancer::selector::SelectError;
use balancer::upstreams::Backend;

fn backend(addr: &str, weight: u32) -> Backend {
    Backend { address: addr.to_string(), weight }
}

fn config_with(backends: Vec<Backend>) -> ProxyConfig {
    ProxyConfig::new(None, backends, None, None)
}

#[test]
fn metrics_path_is_recognized_exactly() {
    assert!(is_metrics_path("/metrics"));
    assert!(!is_metrics_path("/metric"));
    assert!(!is_metrics_path("/metrics/"));
    assert!(!is_metrics_path(""));
}

#[test]
fn inspect_serves_metrics_and_forwards_everything_else() {
    let proxy = Proxy::new_proxy_service(&config_with(vec![backend("a:80", 1)])).unwrap();
    match balancer::pipeline::inspect_request("/metrics", &proxy.metrics) {
        InboundAction::ServeMetrics(resp) => {
            assert_eq!(resp.status, 200);
            assert_eq!(resp.content_type, "text/plain; version=0.0.4");
            assert!(resp.body.starts_with("requests_total 0\n"));
            assert_eq!(resp.content_length(), resp.body.len());
        }
        InboundAction::Forward => panic!("metrics path must short-circuit"),
    }
    match balancer::pipeline::inspect_request("/anything", &proxy.metrics) {
        InboundAction::ServeMetrics(_) => panic!("ordinary paths must be forwarded"),
        InboundAction::Forward => {}
    }
}

#[test]
fn metrics_endpoint_mutates_nothing() {
    let mut proxy = Proxy::new_proxy_service(&config_with(vec![backend("a:80", 1)])).unwrap();
    let before_requests = proxy.metrics.requests_total;
    let before_errors = proxy.metrics.errors_total;
    for _ in 0..3 {
        let _ = balancer::pipeline::inspect_request("/metrics", &proxy.metrics);
    }
    assert_eq!(proxy.metrics.requests_total, before_requests);
    assert_eq!(proxy.metrics.errors_total, before_errors);
    // and a mixed flow still counts only the proxied request
    let ctx = proxy.new_ctx(50);
    proxy.complete_request(RequestOutcome::Success, &ctx, 80);
    assert_eq!(proxy.metrics.requests_total, 1);
    assert_eq!(proxy.metrics.errors_total, 0);
}

#[test]
fn upstream_filter_rewrites_host_and_adds_request_id() {
    let mut proxy = Proxy::new_proxy_service(&config_with(vec![backend("a:80", 1)])).unwrap();
    let ctx = proxy.new_ctx(0);
    let mut headers = HeaderMap::new();
    headers.push("Host".to_string(), "client.example".to_string());
    headers.push("Accept".to_string(), "*/*".to_string());
    proxy.upstream_request_filter(&mut headers, &ctx);
    assert_eq!(headers.value_of("Host"), Some("one.one.one.one".to_string()));
    assert_eq!(headers.value_of("X-Request-ID"), Some("0".to_string()));
    assert_eq!(headers.value_of("Accept"), Some("*/*".to_string()));
    assert_eq!(headers.len(), 3);
}

#[test]
fn request_identifiers_are_distinct_and_increasing() {
    let mut proxy = Proxy::new_proxy_service(&config_with(vec![backend("a:80", 1)])).unwrap();
    let a = proxy.new_ctx(1);
    let b = proxy.new_ctx(2);
    let c = proxy.new_ctx(3);
    assert_eq!(a.request_id, 0);
    assert_eq!(b.request_id, 1);
    assert_eq!(c.request_id, 2);
    assert_eq!(c.start_micros, 3);
}

#[test]
fn upstream_peer_carries_address_and_virtual_host() {
    let cfg = ProxyConfig::new(
        None,
        vec![backend("10.0.0.1:443", 1)],
        None,
        Some("internal.virtual".to_string()),
    );
    let mut proxy = Proxy::new_proxy_service(&cfg).unwrap();
    let ctx = proxy.new_ctx(0);
    let peer = proxy.upstream_peer(&ctx).unwrap();
    assert_eq!(peer.address, "10.0.0.1:443");
    assert_eq!(peer.vhost, "internal.virtual");
}

#[test]
fn scenario_c_failed_probe_then_500_and_error_metric() {
    let mut proxy = Proxy::new_proxy_service(&config_with(vec![backend("only:9000", 1)])).unwrap();
    // the prober's cycle resolves with a failed probe for the only backend
    apply_probe_cycle(&mut proxy.upstreams, &mut proxy.metrics, &vec![false], 99);
    let ctx = proxy.new_ctx(100);
    let picked = proxy.upstream_peer(&ctx);
    assert_eq!(picked.err(), Some(SelectError::NoHealthyUpstream));
    let resp = no_upstream_response();
    assert_eq!(resp.status, 500);
    assert_eq!(resp.body, "");
    proxy.complete_request(RequestOutcome::NoUpstream, &ctx, 150);
    assert_eq!(proxy.metrics.requests_total, 1);
    assert_eq!(proxy.metrics.errors_total, 1);
    // the gauge was published as down
    assert!(proxy.metrics.render().contains("upstreams_status{upstream=\"only:9000\"} 0\n"));
}

#[test]
fn completion_accounting_counts_every_request_once() {
    let mut proxy = Proxy::new_proxy_service(&config_with(vec![backend("a:80", 1)])).unwrap();
    let outcomes = [
        RequestOutcome::Success,
        RequestOutcome::NoUpstream,
        RequestOutcome::Success,
        RequestOutcome::ForwardFailed,
        RequestOutcome::Success,
    ];
    for (i, outcome) in outcomes.iter().enumerate() {
        let ctx = proxy.new_ctx(i as u64 * 1000);
        proxy.complete_request(*outcome, &ctx, i as u64 * 1000 + 500);
    }
    assert_eq!(proxy.metrics.requests_total, 5);
    assert_eq!(proxy.metrics.errors_total, 2);
    assert_eq!(proxy.metrics.hist_count, 5);
    assert_eq!(proxy.metrics.hist_sum_micros, 2500);
}

#[test]
fn latency_is_observed_from_context_start() {
    let mut proxy = Proxy::new_proxy_service(&config_with(vec![])).unwrap();
    let ctx = proxy.new_ctx(1_000);
    proxy.complete_request(RequestOutcome::Success, &ctx, 31_000);
    // 30 ms of latency: the 0.05 s bucket is the first hit
    assert_eq!(proxy.metrics.hist_buckets[2], 0);
    assert_eq!(proxy.metrics.hist_buckets[3], 1);
    assert_eq!(proxy.metrics.hist_sum_micros, 30_000);
}

#[test]
fn zero_weight_backend_is_a_fatal_configuration_error() {
    let r = Proxy::new_proxy_service(&config_with(vec![backend("a:80", 0)]));
    assert_eq!(r.err(), Some(ConfigError::InvalidWeight));
}

#[test]
fn empty_address_is_a_fatal_configuration_error() {
    let r = Proxy::new_proxy_service(&config_with(vec![backend("", 1)]));
    assert_eq!(r.err(), Some(ConfigError::EmptyAddress));
}

#[test]
fn empty_registry_is_valid_but_degenerate() {
    let mut proxy = Proxy::new_proxy_service(&config_with(vec![])).unwrap();
    let ctx = proxy.new_ctx(0);
    assert_eq!(proxy.upstream_peer(&ctx).err(), Some(SelectError::NoHealthyUpstream));
}
