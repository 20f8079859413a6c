use vstd::prelude::*;
use vstd::string::StringExecFns;

verus! {

/// One ledger endpoint. Durations are in milliseconds.
#[derive(Debug, Clone, PartialEq, Eq)]
pub struct NodeConfig {
    pub url: String,
    pub health_check_interval_ms: u64,
    pub timeout_ms: u64,
}

/// Bounded retry with additive backoff. Durations are in milliseconds.
#[derive(Debug, Clone, Copy, PartialEq, Eq)]
pub struct RetryConfig {
    pub max_attempts: u32,
    pub base_delay_ms: u64,
    pub max_delay_ms: u64,
}

#[derive(Debug, Clone, Copy, PartialEq, Eq)]
pub struct RateLimitConfig {
    pub requests_per_second: u32,
    pub burst_limit: u32,
}

/// Endpoints in priority order (primary first, then the fallbacks in the
/// order given), retry policy and admission limits.
#[derive(Debug, Clone, PartialEq, Eq)]
pub struct ClientConfig {
    pub primary_node: NodeConfig,
    pub fallback_nodes: Vec<NodeConfig>,
    pub retry_config: RetryConfig,
    pub rate_limit: RateLimitConfig,
}

pub open spec fn is_default_config(c: ClientConfig) -> bool {
    &&& c.primary_node.url@ == "https://fullnode.mainnet.aptoslabs.com"@
    &&& c.primary_node.health_check_interval_ms == 30_000
    &&& c.primary_node.timeout_ms == 10_000
    &&& c.fallback_nodes@.len() == 1
    &&& c.fallback_nodes@[0].url@ == "https://fullnode.testnet.aptoslabs.com"@
    &&& c.fallback_nodes@[0].health_check_interval_ms == 30_000
    &&& c.fallback_nodes@[0].timeout_ms == 10_000
    &&& c.retry_config.max_attempts == 3
    &&& c.retry_config.base_delay_ms == 500
    &&& c.retry_config.max_delay_ms == 5_000
    &&& c.rate_limit.requests_per_second == 50
    &&& c.rate_limit.burst_limit == 100
}

impl Default for ClientConfig {
    fn default() -> (r: Self)
        ensures
            is_default_config(r),
    {
        let mut fallback_nodes: Vec<NodeConfig> = Vec::new();
        fallback_nodes.push(
            NodeConfig {
                url: String::from_str("https://fullnode.testnet.aptoslabs.com"),
                health_check_interval_ms: 30_000,
                timeout_ms: 10_000,
            },
        );
        ClientConfig {
            primary_node: NodeConfig {
                url: String::from_str("https://fullnode.mainnet.aptoslabs.com"),
                health_check_interval_ms: 30_000,
                timeout_ms: 10_000,
            },
            fallback_nodes,
            retry_config: RetryConfig { max_attempts: 3, base_delay_ms: 500, max_delay_ms: 5_000 },
            rate_limit: RateLimitConfig { requests_per_second: 50, burst_limit: 100 },
        }
    }
}

} // verus!
