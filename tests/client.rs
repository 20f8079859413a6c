use backend::client::{
    core_module_names, parse_account_address, parse_u64_field, parse_transaction_hash, AttemptStep,
    Client,
};
use backend::config::{ClientConfig, NodeConfig};
use backend::error::AppError;
use backend::retry::{RetryAction, RetryState};

#[test]
fn transaction_hash_with_prefix_decodes_to_bytes() {
    let hash = format!("0x{}", "ab".repeat(31) + "0F");
    let bytes = parse_transaction_hash(&hash).unwrap();
    assert_eq!(bytes.len(), 32);
    assert_eq!(bytes[0], 0xab);
    assert_eq!(bytes[31], 0x0f);
}

#[test]
fn transaction_hash_without_prefix_is_accepted() {
    let hash = "1".repeat(64);
    assert_eq!(parse_transaction_hash(&hash).unwrap(), vec![0x11u8; 32]);
}

#[test]
fn malformed_transaction_hash_fails_locally() {
    assert!(matches!(parse_transaction_hash("0x1234"), Err(AppError::InvalidInput(_))));
    let not_hex = "zz".repeat(32);
    assert!(matches!(parse_transaction_hash(&not_hex), Err(AppError::InvalidInput(_))));
    let too_long = "0".repeat(66);
    assert!(matches!(parse_transaction_hash(&too_long), Err(AppError::InvalidInput(_))));
}

#[test]
fn short_address_literal_is_left_padded() {
    let a = parse_account_address("0x1").unwrap();
    let mut expected = vec![0u8; 32];
    expected[31] = 1;
    assert_eq!(a.bytes, expected);
    let b = parse_account_address("0xABC").unwrap();
    assert_eq!(b.bytes[30], 0x0a);
    assert_eq!(b.bytes[31], 0xbc);
}

#[test]
fn full_length_address_literal() {
    let literal = format!("0x{}", "f".repeat(64));
    assert_eq!(parse_account_address(&literal).unwrap().bytes, vec![0xffu8; 32]);
}

#[test]
fn test_invalid_address() {
    for bad in ["invalid_address", "0x", "1", "0xg1", ""] {
        assert!(matches!(parse_account_address(bad), Err(AppError::InvalidInput(_))));
    }
    let too_long = format!("0x{}", "1".repeat(65));
    assert!(parse_account_address(&too_long).is_err());
    assert_eq!(AppError::InvalidInput(String::new()).http_status(), 400);
}

#[test]
fn test_get_balance_success() {
    assert_eq!(parse_u64_field(Some("1000")), Ok(1000));
    assert_eq!(parse_u64_field(Some("+5")), Ok(5));
    assert_eq!(parse_u64_field(Some("18446744073709551615")), Ok(u64::MAX));
}

#[test]
fn test_get_balance_not_found() {
    let e = parse_u64_field(None).unwrap_err();
    assert!(matches!(e, AppError::NotFound(_)));
    assert_eq!(e.http_status(), 404);
    assert!(matches!(parse_u64_field(Some("")), Err(AppError::NotFound(_))));
    assert!(matches!(parse_u64_field(Some("12a")), Err(AppError::NotFound(_))));
    assert!(matches!(parse_u64_field(Some("-1")), Err(AppError::NotFound(_))));
    assert!(matches!(parse_u64_field(Some("18446744073709551616")), Err(AppError::NotFound(_))));
}

#[test]
fn test_get_modules_core_account() {
    let abis = vec![Some("coin".to_string()), None, Some("account".to_string())];
    let names = core_module_names(&abis).unwrap();
    assert_eq!(names, vec!["0x1::coin".to_string(), "0x1::account".to_string()]);
}

#[test]
fn no_readable_module_is_an_error() {
    assert!(matches!(core_module_names(&vec![None, None]), Err(AppError::Internal(_))));
    assert!(core_module_names(&Vec::new()).is_err());
}

fn config(burst: u32) -> ClientConfig {
    let mut c = ClientConfig::default();
    c.primary_node = NodeConfig {
        url: "https://primary.example".to_string(),
        health_check_interval_ms: 1_000,
        timeout_ms: 10_000,
    };
    c.rate_limit.requests_per_second = 10;
    c.rate_limit.burst_limit = burst;
    c
}

#[test]
fn zero_burst_is_a_configuration_error() {
    assert!(matches!(Client::new(config(0), true, 0), Err(AppError::Config(_))));
}

#[test]
fn test_get_balance_health_check_failed() {
    // the primary failed its initial probe
    assert!(matches!(Client::new(config(1), false, 0), Err(AppError::ConnectionFailure(_))));
    assert_eq!(AppError::NoHealthyEndpoints.http_status(), 503);
}

#[test]
fn test_get_balance_rate_limited() {
    let mut client = Client::new(config(1), true, 0).unwrap();
    assert_eq!(client.get_client(10), AttemptStep::Use(0));
    assert_eq!(client.get_client(10), AttemptStep::Wait(100));
    assert_eq!(client.get_client(60), AttemptStep::Wait(50));
    assert_eq!(AppError::RateLimitExceeded.http_status(), 429);
    assert_eq!(client.get_client(110), AttemptStep::Use(0));
}

#[test]
fn failing_fallback_is_left_out() {
    let mut client = Client::new(config(5), true, 0).unwrap();
    let fallback = NodeConfig {
        url: "https://fallback.example".to_string(),
        health_check_interval_ms: 1_000,
        timeout_ms: 10_000,
    };
    assert!(client.add_fallback(&fallback, false, 0).is_err());
    assert_eq!(client.health_checker.nodes.len(), 1);
    assert!(client.add_fallback(&fallback, true, 0).is_ok());
    assert_eq!(client.health_checker.nodes.len(), 2);
}

#[test]
fn test_get_balance_retry_failed() {
    let mut client = Client::new(config(10), true, 0).unwrap();
    let mut retry = RetryState::new();
    let mut outcome = None;
    while retry.may_attempt(&client.retry_config) {
        let endpoint = match client.get_client(0) {
            AttemptStep::Use(i) => i,
            other => panic!("unexpected step {:?}", other),
        };
        let e = AppError::ConnectionFailure("Connection failed".to_string());
        if client.after_failure(&mut retry, endpoint, &e) == RetryAction::GiveUp {
            outcome = Some(e);
            break;
        }
    }
    let e = outcome.unwrap();
    assert_eq!(e.http_status(), 500);
    assert_eq!(retry.attempts, 3);
    // three transport failures made the endpoint unhealthy
    assert!(!client.health_checker.nodes[0].healthy);
    assert_eq!(client.get_client(0), AttemptStep::Fail(AppError::NoHealthyEndpoints));
}

#[test]
fn probe_requested_before_stale_endpoint_is_used() {
    let mut client = Client::new(config(10), true, 0).unwrap();
    assert_eq!(client.get_client(5_000), AttemptStep::Probe(0));
    // a probe consumes no admission token
    assert_eq!(client.rate_limiter.credit, 10_000);
    client.record_probe(0, true, 5_000);
    assert_eq!(client.get_client(5_000), AttemptStep::Use(0));
}
