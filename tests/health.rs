use backend::config::NodeConfig;
use backend::error::AppError;
use backend::health::{HealthAction, HealthChecker, MAX_CONSECUTIVE_FAILURES};

fn node(url: &str, interval_ms: u64) -> NodeConfig {
    NodeConfig { url: url.to_string(), health_check_interval_ms: interval_ms, timeout_ms: 10_000 }
}

#[test]
fn test_health_checker_basic() {
    let mut checker = HealthChecker::new();
    let config = node("https://fullnode.devnet.aptoslabs.com", 60_000);
    assert!(checker.add_node(&config, true, 0).is_ok());
    assert_eq!(checker.pick_healthy(), Ok(0));
    assert_eq!(checker.get_healthy_client(10), HealthAction::Use(0));
}

#[test]
fn test_health_checker_unhealthy_node() {
    let mut checker = HealthChecker::new();
    let config = node("https://invalid.node.url", 60_000);
    // the initial probe failed
    let r = checker.add_node(&config, false, 0);
    assert!(matches!(r, Err(AppError::ConnectionFailure(_))));
    assert!(checker.nodes.is_empty());
}

#[test]
fn test_health_checker_node_failure() {
    let mut checker = HealthChecker::new();
    let config = node("https://fullnode.devnet.aptoslabs.com", 60_000);
    assert!(checker.add_node(&config, true, 0).is_ok());
    assert_eq!(checker.get_healthy_client(1_000), HealthAction::Use(0));
    // after the probe interval the endpoint is probed again before use
    assert_eq!(checker.get_healthy_client(61_000), HealthAction::Probe(0));
    checker.record_probe(0, true, 61_000);
    assert_eq!(checker.get_healthy_client(61_000), HealthAction::Use(0));
}

#[test]
fn invalid_url_is_a_configuration_error() {
    let mut checker = HealthChecker::new();
    let r = checker.add_node(&node("not a url", 1_000), true, 0);
    assert!(matches!(r, Err(AppError::Config(_))));
    assert!(checker.nodes.is_empty());
}

#[test]
fn three_failed_probes_exclude_then_one_success_restores() {
    let mut checker = HealthChecker::new();
    checker.add_node(&node("https://primary.example", 1_000), true, 0).unwrap();
    checker.add_node(&node("https://fallback.example", 1_000), true, 0).unwrap();
    checker.record_probe(0, false, 1_000);
    checker.record_probe(0, false, 2_000);
    // degrading, still eligible
    assert_eq!(checker.pick_healthy(), Ok(0));
    checker.record_probe(0, false, 3_000);
    assert_eq!(checker.nodes[0].consecutive_failures, MAX_CONSECUTIVE_FAILURES);
    assert!(!checker.nodes[0].healthy);
    assert_eq!(checker.pick_healthy(), Ok(1));
    checker.record_probe(0, true, 4_000);
    assert_eq!(checker.nodes[0].consecutive_failures, 0);
    assert_eq!(checker.pick_healthy(), Ok(0));
}

#[test]
fn no_eligible_endpoint_is_reported() {
    let mut checker = HealthChecker::new();
    assert_eq!(checker.pick_healthy(), Err(AppError::NoHealthyEndpoints));
    assert_eq!(checker.get_healthy_client(0), HealthAction::Unavailable);
    checker.add_node(&node("https://primary.example", 1_000), true, 0).unwrap();
    for _ in 0..3 {
        checker.mark_unhealthy(0);
    }
    assert_eq!(checker.pick_healthy(), Err(AppError::NoHealthyEndpoints));
    assert_eq!(checker.get_healthy_client(500), HealthAction::Unavailable);
    // once its interval has passed, the unhealthy endpoint is probed again
    assert_eq!(checker.get_healthy_client(1_000), HealthAction::Probe(0));
}

#[test]
fn selection_follows_priority_order() {
    let mut checker = HealthChecker::new();
    checker.add_node(&node("https://a.example", 10_000), true, 0).unwrap();
    checker.add_node(&node("https://b.example", 10_000), true, 0).unwrap();
    checker.add_node(&node("https://c.example", 1_000), true, 0).unwrap();
    checker.mark_unhealthy(0);
    checker.mark_unhealthy(0);
    checker.mark_unhealthy(0);
    assert_eq!(checker.get_healthy_client(500), HealthAction::Use(1));
}

#[test]
fn re_adding_a_url_replaces_its_entry() {
    let mut checker = HealthChecker::new();
    checker.add_node(&node("https://a.example", 1_000), true, 0).unwrap();
    checker.mark_unhealthy(0);
    checker.add_node(&node("https://a.example", 2_000), true, 5).unwrap();
    assert_eq!(checker.nodes.len(), 1);
    assert_eq!(checker.nodes[0].consecutive_failures, 0);
    assert_eq!(checker.nodes[0].probe_interval_ms, 2_000);
    assert_eq!(checker.nodes[0].last_check_ms, 5);
}
