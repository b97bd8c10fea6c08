use balancer::metrics::MetricsRegistry;
use balancer::prober::{apply_probe_cycle, apply_probe_result};
use balancer::upstreams::{Backend, UpstreamSet};

fn backend(addr: &str, weight: u32) -> Backend {
    Backend { address: addr.to_string(), weight }
}

#[test]
fn startup_is_fail_open() {
    let set = UpstreamSet::new(vec![backend("a:80", 1), backend("b:80", 2)]).unwrap();
    assert_eq!(set.len(), 2);
    assert!(set.is_healthy(0));
    assert!(set.is_healthy(1));
}

#[test]
fn probe_cycle_records_every_result() {
    let mut set = UpstreamSet::new(vec![backend("a:80", 1), backend("b:80", 1), backend("c:80", 1)])
        .unwrap();
    let mut metrics = MetricsRegistry::new(vec![
        "a:80".to_string(),
        "b:80".to_string(),
        "c:80".to_string(),
    ]);
    apply_probe_cycle(&mut set, &mut metrics, &vec![true, false, true], 42);
    assert!(set.is_healthy(0));
    assert!(!set.is_healthy(1));
    assert!(set.is_healthy(2));
    assert!(metrics.upstreams[0].healthy);
    assert!(!metrics.upstreams[1].healthy);
    assert!(metrics.upstreams[2].healthy);
}

#[test]
fn probe_results_never_move_counters() {
    let mut set = UpstreamSet::new(vec![backend("a:80", 1)]).unwrap();
    let mut metrics = MetricsRegistry::new(vec!["a:80".to_string()]);
    apply_probe_result(&mut set, &mut metrics, 0, false, 5);
    apply_probe_result(&mut set, &mut metrics, 0, true, 6);
    assert_eq!(metrics.requests_total, 0);
    assert_eq!(metrics.errors_total, 0);
    assert_eq!(metrics.hist_count, 0);
}

#[test]
fn results_flip_both_ways() {
    let mut set = UpstreamSet::new(vec![backend("a:80", 1)]).unwrap();
    let mut metrics = MetricsRegistry::new(vec!["a:80".to_string()]);
    apply_probe_result(&mut set, &mut metrics, 0, false, 5);
    assert!(!set.is_healthy(0));
    apply_probe_result(&mut set, &mut metrics, 0, true, 9);
    assert!(set.is_healthy(0));
}
