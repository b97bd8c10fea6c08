use balancer::selector::{SelectError, Selector};
use balancer::upstreams::{Backend, UpstreamSet};

fn backend(addr: &str, weight: u32) -> Backend {
    Backend { address: addr.to_string(), weight }
}

fn set_of(backends: Vec<Backend>) -> UpstreamSet {
    UpstreamSet::new(backends).expect("valid backends")
}

#[test]
fn scenario_a_equal_weights_strictly_alternate() {
    let set = set_of(vec![backend("a:80", 1), backend("b:80", 1)]);
    let mut sel = Selector::new();
    let picks: Vec<usize> = (0..4).map(|_| sel.select(&set).unwrap()).collect();
    assert_eq!(picks, vec![0, 1, 0, 1]);
}

#[test]
fn scenario_b_weight_two_one_windows() {
    let set = set_of(vec![backend("a:80", 2), backend("b:80", 1)]);
    let mut sel = Selector::new();
    let picks: Vec<usize> = (0..9).map(|_| sel.select(&set).unwrap()).collect();
    // every window of three consecutive selections holds a twice and b once
    for w in picks.windows(3) {
        let a_count = w.iter().filter(|&&i| i == 0).count();
        let b_count = w.iter().filter(|&&i| i == 1).count();
        assert_eq!(a_count, 2);
        assert_eq!(b_count, 1);
    }
}

#[test]
fn full_cycle_matches_weights() {
    let set = set_of(vec![backend("a:80", 3), backend("b:80", 1), backend("c:80", 2)]);
    let mut sel = Selector::new();
    let picks: Vec<usize> = (0..6).map(|_| sel.select(&set).unwrap()).collect();
    assert_eq!(picks.iter().filter(|&&i| i == 0).count(), 3);
    assert_eq!(picks.iter().filter(|&&i| i == 1).count(), 1);
    assert_eq!(picks.iter().filter(|&&i| i == 2).count(), 2);
}

#[test]
fn empty_registry_returns_no_healthy_upstream() {
    let set = set_of(vec![]);
    let mut sel = Selector::new();
    assert_eq!(sel.select(&set), Err(SelectError::NoHealthyUpstream));
}

#[test]
fn all_unhealthy_always_returns_no_healthy_upstream() {
    let mut set = set_of(vec![backend("a:80", 1), backend("b:80", 1)]);
    set.mark_health(0, false, 10);
    set.mark_health(1, false, 10);
    let mut sel = Selector::new();
    for _ in 0..5 {
        assert_eq!(sel.select(&set), Err(SelectError::NoHealthyUpstream));
    }
}

#[test]
fn unhealthy_backend_is_never_selected() {
    let mut set = set_of(vec![backend("a:80", 2), backend("b:80", 2), backend("c:80", 2)]);
    set.mark_health(1, false, 7);
    let mut sel = Selector::new();
    for _ in 0..20 {
        let picked = sel.select(&set).unwrap();
        assert_ne!(picked, 1);
    }
}

#[test]
fn window_excludes_unhealthy_weight() {
    // effective cycle: b twice, c once, a never
    let mut set = set_of(vec![backend("a:80", 3), backend("b:80", 2), backend("c:80", 1)]);
    set.mark_health(0, false, 1);
    let mut sel = Selector::new();
    let picks: Vec<usize> = (0..9).map(|_| sel.select(&set).unwrap()).collect();
    for w in picks.windows(3) {
        assert_eq!(w.iter().filter(|&&i| i == 0).count(), 0);
        assert_eq!(w.iter().filter(|&&i| i == 1).count(), 2);
        assert_eq!(w.iter().filter(|&&i| i == 2).count(), 1);
    }
}

#[test]
fn recovered_backend_is_selected_again() {
    let mut set = set_of(vec![backend("a:80", 1), backend("b:80", 1)]);
    set.mark_health(1, false, 1);
    let mut sel = Selector::new();
    for _ in 0..4 {
        assert_eq!(sel.select(&set).unwrap(), 0);
    }
    set.mark_health(1, true, 2);
    let picks: Vec<usize> = (0..8).map(|_| sel.select(&set).unwrap()).collect();
    assert!(picks.iter().any(|&i| i == 1));
}

#[test]
fn single_unhealthy_backend_short_circuits() {
    let mut set = set_of(vec![backend("only:9000", 1)]);
    set.mark_health(0, false, 3);
    let mut sel = Selector::new();
    assert_eq!(sel.select(&set), Err(SelectError::NoHealthyUpstream));
}
