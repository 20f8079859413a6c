use backend::api::{
    checked_amount, CreateFundWalletRequest, GetMessagesQuery, InvestmentRequest, MemberInput,
    UpdateShareRequest, WithdrawRequest,
};
use backend::config::ClientConfig;
use backend::error::AppError;

fn member(address: &str, share: u64) -> MemberInput {
    MemberInput { address: address.to_string(), ownership_share: share }
}

#[test]
fn assets_test_create_fund_wallet() {
    let req = CreateFundWalletRequest {
        actuator_address: "0x123".to_string(),
        members: vec![member("0x456", 5000), member("0x789", 5000)],
    };
    assert!(req.validate().is_ok());
}

#[test]
fn test_create_fund_wallet_invalid_shares() {
    let req = CreateFundWalletRequest {
        actuator_address: "0x123".to_string(),
        members: vec![member("0x456", 3000), member("0x789", 3000)],
    };
    let e = req.validate().unwrap_err();
    assert!(matches!(e, AppError::InvalidInput(_)));
    assert_eq!(e.http_status(), 400);
}

#[test]
fn shares_that_overflow_do_not_wrap_to_a_valid_total() {
    let req = CreateFundWalletRequest {
        actuator_address: "0x123".to_string(),
        members: vec![member("a", u64::MAX), member("b", 10_001)],
    };
    assert!(req.validate().is_err());
    let empty = CreateFundWalletRequest { actuator_address: "0x123".to_string(), members: vec![] };
    assert!(empty.validate().is_err());
}

#[test]
fn test_invest_in_fund() {
    let req = InvestmentRequest { target_address: "0x123".to_string(), amount: 1000, asset_id: 1 };
    assert_eq!(req.amount_i64(), Ok(1000));
    let huge = InvestmentRequest { amount: u64::MAX, ..req };
    assert!(matches!(huge.amount_i64(), Err(AppError::InvalidInput(_))));
}

#[test]
fn test_withdraw_profits() {
    assert_eq!(WithdrawRequest { amount: 500 }.amount_i64(), Ok(500));
    assert_eq!(checked_amount(i64::MAX as u64), Ok(i64::MAX));
    assert!(checked_amount(i64::MAX as u64 + 1).is_err());
}

#[test]
fn test_update_member_share() {
    assert_eq!(UpdateShareRequest { new_share: 6000 }.share_i64(), Ok(6000));
}

#[test]
fn message_limit_defaults_to_fifty() {
    assert_eq!(GetMessagesQuery { limit: None, before_id: None }.effective_limit(), 50);
    assert_eq!(GetMessagesQuery { limit: Some(5), before_id: Some(3) }.effective_limit(), 5);
}

#[test]
fn default_client_configuration() {
    let c = ClientConfig::default();
    assert_eq!(c.primary_node.url, "https://fullnode.mainnet.aptoslabs.com");
    assert_eq!(c.fallback_nodes.len(), 1);
    assert_eq!(c.fallback_nodes[0].url, "https://fullnode.testnet.aptoslabs.com");
    assert_eq!(c.primary_node.health_check_interval_ms, 30_000);
    assert_eq!(c.primary_node.timeout_ms, 10_000);
    assert_eq!(c.retry_config.max_attempts, 3);
    assert_eq!(c.retry_config.base_delay_ms, 500);
    assert_eq!(c.retry_config.max_delay_ms, 5_000);
    assert_eq!(c.rate_limit.requests_per_second, 50);
    assert_eq!(c.rate_limit.burst_limit, 100);
}

#[test]
fn error_classification() {
    assert!(AppError::connection_error("x").is_transient());
    assert!(AppError::transaction_error("x").is_transient());
    assert!(!AppError::transaction_aborted("x").is_transient());
    assert!(!AppError::not_found("x").is_transient());
    assert_eq!(AppError::not_found("fund"), AppError::NotFound("fund".to_string()));
    assert_eq!(AppError::internal("x").http_status(), 500);
    assert_eq!(AppError::database_error("x").http_status(), 500);
}

#[test]
fn node_status_classification() {
    assert_eq!(AppError::for_node_status(404, "gone"), AppError::NotFound("gone".to_string()));
    assert_eq!(AppError::for_node_status(429, "slow"), AppError::ConnectionFailure("slow".to_string()));
    assert_eq!(AppError::for_node_status(503, "down"), AppError::ConnectionFailure("down".to_string()));
    assert_eq!(AppError::for_node_status(400, "bad"), AppError::Internal("bad".to_string()));
}
