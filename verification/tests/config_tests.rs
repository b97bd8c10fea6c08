use balancer::config::{parse_u16, AppConfig, ConfigError, ProxyConfig, TasksConfig};
use balancer::tasks::BackgroundTask;
use balancer::upstreams::Backend;

#[test]
fn proxy_config_applies_documented_defaults() {
    let cfg = ProxyConfig::new(None, vec![], None, None);
    assert_eq!(cfg.listen_addr, "0.0.0.0:4444");
    assert_eq!(cfg.health_check_interval_secs, 1);
    assert_eq!(cfg.virtual_host, "one.one.one.one");
    assert!(cfg.backends.is_empty());
}

#[test]
fn proxy_config_keeps_supplied_values() {
    let backends = vec![Backend { address: "b:1".to_string(), weight: 3 }];
    let cfg = ProxyConfig::new(
        Some("127.0.0.1:8000".to_string()),
        backends,
        Some(5),
        Some("svc.internal".to_string()),
    );
    assert_eq!(cfg.listen_addr, "127.0.0.1:8000");
    assert_eq!(cfg.health_check_interval_secs, 5);
    assert_eq!(cfg.virtual_host, "svc.internal");
    assert_eq!(cfg.backends.len(), 1);
    assert_eq!(cfg.backends[0].weight, 3);
}

#[test]
fn tasks_config_defaults_to_one_minute() {
    let t = TasksConfig::new(None).unwrap();
    assert_eq!(t.interval_minutes, 1);
}

#[test]
fn tasks_config_parses_supplied_minutes() {
    assert_eq!(TasksConfig::new(Some("5")).unwrap().interval_minutes, 5);
    assert_eq!(TasksConfig::new(Some("+7")).unwrap().interval_minutes, 7);
    assert_eq!(TasksConfig::new(Some("007")).unwrap().interval_minutes, 7);
    assert_eq!(TasksConfig::new(Some("65535")).unwrap().interval_minutes, 65535);
}

#[test]
fn tasks_config_rejects_unparsable_intervals() {
    assert_eq!(TasksConfig::new(Some("")).err(), Some(ConfigError::InvalidInterval));
    assert_eq!(TasksConfig::new(Some("+")).err(), Some(ConfigError::InvalidInterval));
    assert_eq!(TasksConfig::new(Some("abc")).err(), Some(ConfigError::InvalidInterval));
    assert_eq!(TasksConfig::new(Some("1h")).err(), Some(ConfigError::InvalidInterval));
    assert_eq!(TasksConfig::new(Some("-3")).err(), Some(ConfigError::InvalidInterval));
    assert_eq!(TasksConfig::new(Some("65536")).err(), Some(ConfigError::InvalidInterval));
}

#[test]
fn parse_u16_matches_exact_values() {
    assert_eq!(parse_u16("0"), Some(0));
    assert_eq!(parse_u16("42"), Some(42));
    assert_eq!(parse_u16("65535"), Some(65535));
    assert_eq!(parse_u16("99999"), None);
    assert_eq!(parse_u16(" 1"), None);
    assert_eq!(parse_u16("1 "), None);
}

#[test]
fn app_config_composes_and_propagates_interval_errors() {
    let ok = AppConfig::new(None, vec![], None, None, Some("2")).unwrap();
    assert_eq!(ok.proxy.listen_addr, "0.0.0.0:4444");
    assert_eq!(ok.tasks_config.interval_minutes, 2);
    let bad = AppConfig::new(None, vec![], None, None, Some("soon"));
    assert_eq!(bad.err(), Some(ConfigError::InvalidInterval));
}

#[test]
fn background_task_period_is_minutes_in_seconds() {
    let t = BackgroundTask::new(TasksConfig::new(Some("3")).unwrap());
    assert_eq!(t.interval_secs(), 180);
    let d = BackgroundTask::new(TasksConfig::new(None).unwrap());
    assert_eq!(d.interval_secs(), 60);
}
