use vstd::prelude::*;
use vstd::string::{StrSliceExecFns, StringExecFns};
use crate::config::{ClientConfig, NodeConfig, RetryConfig};
use crate::error::AppError;
use crate::health::{HealthAction, HealthChecker, after_failure, fresh_node, selection, url_parses};
use crate::rate_limiter::{MILLI, RateLimiter};
use crate::retry::{RetryAction, RetryState, decide};
use crate::error::transient;

verus! {

/// Length of an account address and of a transaction hash, in bytes.
pub const HASH_LENGTH: usize = 32;

pub open spec fn is_hex_digit(c: char) -> bool {
    ('0' <= c && c <= '9') || ('a' <= c && c <= 'f') || ('A' <= c && c <= 'F')
}

pub open spec fn hex_value(c: char) -> int {
    if '0' <= c && c <= '9' {
        c as int - '0' as int
    } else if 'a' <= c && c <= 'f' {
        c as int - 'a' as int + 10
    } else {
        c as int - 'A' as int + 10
    }
}

pub open spec fn all_hex(s: Seq<char>) -> bool {
    forall|i: int| 0 <= i < s.len() ==> is_hex_digit(#[trigger] s[i])
}

/// Bytes written by an even number of hex digits, high nibble first.
pub open spec fn hex_decoded(s: Seq<char>) -> Seq<u8> {
    Seq::new(s.len() / 2, |i: int| (hex_value(s[2 * i]) * 16 + hex_value(s[2 * i + 1])) as u8)
}

/// Relies on `hex::FromHex for Vec<u8>`: it decodes pairs of hex digits of
/// either case, high nibble first, and fails on an odd length or on any
/// other character.
#[verifier::external_body]
fn decode_hex(s: &str) -> (r: Option<Vec<u8>>)
    ensures
        r is Some == (s@.len() % 2 == 0 && all_hex(s@)),
        r is Some ==> r->Some_0@ == hex_decoded(s@),
{
    <Vec<u8> as hex::FromHex>::from_hex(s).ok()
}

fn hex_digit_value(c: char) -> (r: Option<u8>)
    ensures
        r is Some <==> is_hex_digit(c),
        r matches Some(v) ==> v == hex_value(c),
{
    if '0' <= c && c <= '9' {
        Some((c as u32 - '0' as u32) as u8)
    } else if 'a' <= c && c <= 'f' {
        Some((c as u32 - 'a' as u32 + 10) as u8)
    } else if 'A' <= c && c <= 'F' {
        Some((c as u32 - 'A' as u32 + 10) as u8)
    } else {
        None
    }
}

pub open spec fn has_hex_prefix(s: Seq<char>) -> bool {
    s.len() >= 2 && s[0] == '0' && s[1] == 'x'
}

/// `0x` followed by one to 64 hex digits.
pub open spec fn is_address_literal(s: Seq<char>) -> bool {
    &&& has_hex_prefix(s)
    &&& 3 <= s.len() <= 66
    &&& all_hex(s.skip(2))
}

/// Nibble `k` of the 64-nibble address whose digits `d` are left-padded with zeros.
pub open spec fn padded_nibble(d: Seq<char>, k: int) -> int {
    if k < 64 - d.len() {
        0
    } else {
        hex_value(d[k - (64 - d.len())])
    }
}

pub open spec fn address_bytes(d: Seq<char>) -> Seq<u8> {
    Seq::new(32, |i: int| (padded_nibble(d, 2 * i) * 16 + padded_nibble(d, 2 * i + 1)) as u8)
}

/// A 32-byte ledger account address.
#[derive(Debug, Clone, PartialEq, Eq)]
pub struct AccountAddress {
    pub bytes: Vec<u8>,
}

fn nibble_at(s: &str, k: usize) -> (r: u8)
    requires
        is_address_literal(s@),
        k < 64,
    ensures
        r == padded_nibble(s@.skip(2), k as int),
        r < 16,
{
    let n = s.unicode_len();
    let pad = 64 - (n - 2);
    if k < pad {
        0
    } else {
        let c = s.get_char(k - pad + 2);
        assert(s@.skip(2)[k - pad] == c);
        assert(is_hex_digit(s@.skip(2)[k - pad]));
        match hex_digit_value(c) {
            Some(v) => v,
            None => 0,
        }
    }
}

/// Parses an address literal: `0x` and one to 64 hex digits, left-padded
/// with zeros to 32 bytes.
pub fn parse_account_address(s: &str) -> (r: Result<AccountAddress, AppError>)
    ensures
        r is Ok <==> is_address_literal(s@),
        r matches Ok(a) ==> a.bytes@ == address_bytes(s@.skip(2)),
        r matches Err(e) ==> e is InvalidInput,
{
    let n = s.unicode_len();
    if n < 3 || n > 66 || s.get_char(0) != '0' || s.get_char(1) != 'x' {
        return Err(AppError::invalid_input("address must be 0x followed by 1 to 64 hex digits"));
    }
    let mut i: usize = 2;
    while i < n
        invariant
            n == s@.len(),
            2 <= i <= n,
            forall|j: int| 0 <= j < i - 2 ==> is_hex_digit(#[trigger] s@.skip(2)[j]),
        decreases n - i,
    {
        if hex_digit_value(s.get_char(i)).is_none() {
            assert(s@.skip(2)[i - 2] == s@[i as int]);
            return Err(AppError::invalid_input("address holds a character that is not a hex digit"));
        }
        i = i + 1;
    }
    assert(is_address_literal(s@));
    let mut bytes: Vec<u8> = Vec::new();
    let mut k: usize = 0;
    while k < HASH_LENGTH
        invariant
            is_address_literal(s@),
            k <= 32,
            bytes@.len() == k,
            forall|j: int| 0 <= j < k ==> #[trigger] bytes@[j] == address_bytes(s@.skip(2))[j],
        decreases 32 - k,
    {
        let hi = nibble_at(s, 2 * k);
        let lo = nibble_at(s, 2 * k + 1);
        bytes.push(hi * 16 + lo);
        k = k + 1;
    }
    assert(bytes@ =~= address_bytes(s@.skip(2)));
    Ok(AccountAddress { bytes })
}

/// The hex digits of a transaction hash, without its optional `0x` prefix.
pub open spec fn hash_digits(s: Seq<char>) -> Seq<char> {
    if has_hex_prefix(s) {
        s.skip(2)
    } else {
        s
    }
}

pub open spec fn is_transaction_hash(s: Seq<char>) -> bool {
    hash_digits(s).len() == 64 && all_hex(hash_digits(s))
}

/// Checks a transaction hash locally, before any remote call: 64 hex digits
/// with an optional `0x` prefix. Returns its 32 bytes.
pub fn parse_transaction_hash(txn_hash: &str) -> (r: Result<Vec<u8>, AppError>)
    ensures
        r is Ok <==> is_transaction_hash(txn_hash@),
        r matches Ok(v) ==> v@ == hex_decoded(hash_digits(txn_hash@)) && v@.len() == HASH_LENGTH,
        r matches Err(e) ==> e is InvalidInput,
{
    let n = txn_hash.unicode_len();
    let digits = if n >= 2 && txn_hash.get_char(0) == '0' && txn_hash.get_char(1) == 'x' {
        txn_hash.substring_char(2, n)
    } else {
        txn_hash
    };
    assert(digits@ =~= hash_digits(txn_hash@));
    if digits.unicode_len() != 64 {
        return Err(AppError::invalid_input("transaction hash must have 64 hex digits"));
    }
    match decode_hex(digits) {
        Some(bytes) => Ok(bytes),
        None => Err(AppError::invalid_input("transaction hash is not hex")),
    }
}

pub open spec fn is_digit(c: char) -> bool {
    '0' <= c && c <= '9'
}

pub open spec fn decimal_value(s: Seq<char>) -> nat
    decreases s.len(),
{
    if s.len() == 0 {
        0
    } else {
        decimal_value(s.drop_last()) * 10 + (s.last() as nat - '0' as nat) as nat
    }
}

/// The digits of an unsigned decimal, after an optional `+` sign.
pub open spec fn unsigned_digits(s: Seq<char>) -> Seq<char> {
    if s.len() > 0 && s[0] == '+' {
        s.skip(1)
    } else {
        s
    }
}

/// Whether `s` is the decimal text of a `u64`, as `u64::from_str` reads it.
pub open spec fn is_u64_text(s: Seq<char>) -> bool {
    let d = unsigned_digits(s);
    &&& d.len() > 0
    &&& forall|i: int| 0 <= i < d.len() ==> is_digit(#[trigger] d[i])
    &&& decimal_value(d) <= u64::MAX
}

proof fn lemma_decimal_prefix(s: Seq<char>, i: int)
    requires
        0 <= i <= s.len(),
        forall|j: int| 0 <= j < s.len() ==> is_digit(#[trigger] s[j]),
    ensures
        decimal_value(s.take(i)) <= decimal_value(s),
    decreases s.len(),
{
    if i < s.len() {
        let p = s.drop_last();
        assert forall|j: int| 0 <= j < p.len() implies is_digit(#[trigger] p[j]) by {
            assert(is_digit(s[j]));
        }
        lemma_decimal_prefix(p, i);
        assert(p.take(i) =~= s.take(i));
    } else {
        assert(s.take(i) =~= s);
    }
}

/// Reads a `u64` field of a ledger document (a coin balance, a sequence
/// number), which the node writes as decimal text. A missing or unreadable
/// field means the value is not there.
pub fn parse_u64_field(value: Option<&str>) -> (r: Result<u64, AppError>)
    ensures
        r is Ok <==> value is Some && is_u64_text(value->Some_0@),
        r matches Ok(b) ==> b == decimal_value(unsigned_digits(value->Some_0@)),
        r matches Err(e) ==> e is NotFound,
{
    let s = match value {
        Some(s) => s,
        None => return Err(AppError::not_found("numeric field")),
    };
    let n = s.unicode_len();
    let start: usize = if n > 0 && s.get_char(0) == '+' {
        1
    } else {
        0
    };
    let ghost d = unsigned_digits(s@);
    assert(d =~= s@.skip(start as int));
    if start == n {
        return Err(AppError::not_found("numeric field is empty"));
    }
    let mut acc: u64 = 0;
    let mut i: usize = start;
    while i < n
        invariant
            n == s@.len(),
            start <= i <= n,
            d == s@.skip(start as int),
            d == unsigned_digits(s@),
            value is Some,
            value->Some_0@ == s@,
            forall|j: int| 0 <= j < i - start ==> is_digit(#[trigger] d[j]),
            acc == decimal_value(d.take(i - start)),
        decreases n - i,
    {
        let c = s.get_char(i);
        assert(d[i - start] == c);
        if !('0' <= c && c <= '9') {
            assert(!is_digit(d[i - start]));
            return Err(AppError::not_found("field is not a decimal number"));
        }
        assert(d.take(i - start + 1).drop_last() =~= d.take(i - start));
        let digit = (c as u32 - '0' as u32) as u64;
        let next = match acc.checked_mul(10) {
            Some(m) => m.checked_add(digit),
            None => None,
        };
        match next {
            Some(v) => {
                acc = v;
            },
            None => {
                proof {
                    let t = d.take(i - start + 1);
                    assert(t.last() == c);
                    assert(decimal_value(t) == acc * 10 + digit);
                    assert(acc * 10 + digit > u64::MAX);
                    if forall|j: int| 0 <= j < d.len() ==> is_digit(#[trigger] d[j]) {
                        lemma_decimal_prefix(d, i - start + 1);
                    }
                }
                return Err(AppError::not_found("value does not fit in 64 bits"));
            },
        }
        i = i + 1;
    }
    assert(d.take(n - start) =~= d);
    Ok(acc)
}

/// Names of the modules whose ABI could be read, qualified by the core
/// account, in the order listed.
pub open spec fn core_module_names_spec(abi_names: Seq<Option<String>>) -> Seq<Seq<char>>
    decreases abi_names.len(),
{
    if abi_names.len() == 0 {
        Seq::empty()
    } else {
        let prev = core_module_names_spec(abi_names.drop_last());
        match abi_names.last() {
            Some(name) => prev.push("0x1::"@ + name@),
            None => prev,
        }
    }
}

/// Lists the core account's modules as `0x1::<name>`, given each module's
/// ABI name (`None` where the ABI did not parse). An empty list is an error.
pub fn core_module_names(abi_names: &Vec<Option<String>>) -> (r: Result<Vec<String>, AppError>)
    ensures
        r is Ok <==> core_module_names_spec(abi_names@).len() > 0,
        r matches Ok(v) ==> v@.len() == core_module_names_spec(abi_names@).len() && forall|i: int|
            0 <= i < v@.len() ==> #[trigger] v@[i]@ == core_module_names_spec(abi_names@)[i],
        r matches Err(e) ==> e is Internal,
{
    let mut names: Vec<String> = Vec::new();
    let mut i: usize = 0;
    while i < abi_names.len()
        invariant
            i <= abi_names@.len(),
            names@.len() == core_module_names_spec(abi_names@.take(i as int)).len(),
            forall|j: int|
                0 <= j < names@.len() ==> #[trigger] names@[j]@ == core_module_names_spec(
                    abi_names@.take(i as int),
                )[j],
        decreases abi_names@.len() - i,
    {
        proof {
            assert(abi_names@.take(i + 1).drop_last() =~= abi_names@.take(i as int));
        }
        match &abi_names[i] {
            Some(name) => {
                let qualified = String::from_str("0x1::").concat(name.as_str());
                names.push(qualified);
            },
            None => {},
        }
        i = i + 1;
    }
    assert(abi_names@.take(abi_names@.len() as int) =~= abi_names@);
    if names.len() == 0 {
        Err(AppError::internal("no modules found in core account"))
    } else {
        Ok(names)
    }
}

/// What the caller of `Client::get_client` does next.
#[derive(Debug, PartialEq, Eq)]
pub enum AttemptStep {
    /// No admission token yet: wait this many milliseconds and ask again.
    Wait(u64),
    /// Probe the endpoint at this index, record the outcome, and ask again.
    Probe(usize),
    /// A token was consumed: make the attempt through this endpoint.
    Use(usize),
    /// Fail fast without attempting.
    Fail(AppError),
}

/// The resilient call executor's state: endpoint health, admission budget
/// and retry policy, shared by all ledger operations.
#[derive(Debug, Clone)]
pub struct Client {
    pub retry_config: RetryConfig,
    pub health_checker: HealthChecker,
    pub rate_limiter: RateLimiter,
}

impl Client {
    pub open spec fn wf(self) -> bool {
        self.health_checker.wf() && self.rate_limiter.wf()
    }

    /// Sets up the executor with the primary endpoint, given the outcome of
    /// its initial probe. Admission limits of zero are a configuration error.
    pub fn new(config: ClientConfig, primary_probe_ok: bool, now_ms: u64) -> (r: Result<
        Client,
        AppError,
    >)
        ensures
            r is Ok <==> config.rate_limit.burst_limit > 0 && config.rate_limit.requests_per_second
                > 0 && url_parses(config.primary_node.url@) && primary_probe_ok,
            config.rate_limit.burst_limit == 0 || config.rate_limit.requests_per_second == 0
                ==> r matches Err(AppError::Config(_)),
            !url_parses(config.primary_node.url@) ==> r matches Err(AppError::Config(_)),
            config.rate_limit.burst_limit > 0 && config.rate_limit.requests_per_second > 0
                && url_parses(config.primary_node.url@) && !primary_probe_ok ==> r matches Err(
                AppError::ConnectionFailure(_),
            ),
            r matches Ok(c) ==> {
                &&& c.wf()
                &&& c.health_checker.nodes@ == seq![fresh_node(config.primary_node, now_ms)]
                &&& c.rate_limiter == RateLimiter {
                    requests_per_second: config.rate_limit.requests_per_second,
                    burst_limit: config.rate_limit.burst_limit,
                    credit: (config.rate_limit.burst_limit * 1000) as u64,
                    last_refill_ms: now_ms,
                }
                &&& c.retry_config == config.retry_config
            },
    {
        if config.rate_limit.burst_limit == 0 || config.rate_limit.requests_per_second == 0 {
            return Err(AppError::config_error("admission limits must be positive"));
        }
        let mut health_checker = HealthChecker::new();
        match health_checker.add_node(&config.primary_node, primary_probe_ok, now_ms) {
            Ok(()) => {},
            Err(e) => return Err(e),
        }
        assert(health_checker.nodes@ =~= seq![fresh_node(config.primary_node, now_ms)]);
        let rate_limiter = RateLimiter::new(
            config.rate_limit.requests_per_second,
            config.rate_limit.burst_limit,
            now_ms,
        );
        Ok(Client { retry_config: config.retry_config, health_checker, rate_limiter })
    }

    /// Adds a fallback endpoint after its initial probe; a failing fallback
    /// is left out and reported, and the client stays usable.
    pub fn add_fallback(&mut self, node: &NodeConfig, probe_ok: bool, now_ms: u64) -> (r: Result<
        (),
        AppError,
    >)
        requires
            old(self).wf(),
        ensures
            final(self).wf(),
            r is Ok <==> url_parses(node.url@) && probe_ok,
            r is Err ==> final(self).health_checker.nodes@ == old(self).health_checker.nodes@,
            r is Ok ==> final(self).health_checker.nodes@.contains(fresh_node(*node, now_ms)),
            final(self).rate_limiter == old(self).rate_limiter,
            final(self).retry_config == old(self).retry_config,
    {
        self.health_checker.add_node(node, probe_ok, now_ms)
    }

    /// Before an attempt: take an admission token, then select an endpoint.
    /// The token is consumed only when an endpoint is used.
    pub fn get_client(&mut self, now_ms: u64) -> (r: AttemptStep)
        requires
            old(self).wf(),
        ensures
            final(self).wf(),
            final(self).health_checker == old(self).health_checker,
            final(self).retry_config == old(self).retry_config,
            !old(self).rate_limiter.can_acquire(now_ms) ==> r == AttemptStep::Wait(
                old(self).rate_limiter.wait_spec(now_ms) as u64,
            ) && final(self).rate_limiter == old(self).rate_limiter,
            old(self).rate_limiter.can_acquire(now_ms) ==> {
                ||| exists|i: usize|
                    r == AttemptStep::Probe(i) && selection(
                        old(self).health_checker.nodes@,
                        now_ms,
                        HealthAction::Probe(i),
                    ) && final(self).rate_limiter == old(self).rate_limiter
                ||| exists|i: usize|
                    r == AttemptStep::Use(i) && selection(
                        old(self).health_checker.nodes@,
                        now_ms,
                        HealthAction::Use(i),
                    ) && final(self).rate_limiter == old(self).rate_limiter.after_acquire(now_ms)
                ||| r matches AttemptStep::Fail(AppError::NoHealthyEndpoints) && selection(
                    old(self).health_checker.nodes@,
                    now_ms,
                    HealthAction::Unavailable,
                ) && final(self).rate_limiter == old(self).rate_limiter
            },
    {
        let wait = self.rate_limiter.wait(now_ms);
        proof {
            let l = self.rate_limiter;
            if !l.can_acquire(now_ms) && l.requests_per_second > 0 && l.burst_limit > 0 {
                let d = MILLI - l.refilled(now_ms);
                let r = l.requests_per_second as int;
                assert((d + r - 1) / r >= 1) by (nonlinear_arith)
                    requires
                        d >= 1,
                        r >= 1,
                ;
            }
        }
        if wait > 0 {
            return AttemptStep::Wait(wait);
        }
        match self.health_checker.get_healthy_client(now_ms) {
            HealthAction::Probe(i) => AttemptStep::Probe(i),
            HealthAction::Unavailable => AttemptStep::Fail(AppError::NoHealthyEndpoints),
            HealthAction::Use(i) => {
                let admitted = self.rate_limiter.acquire_permit(now_ms);
                assert(admitted is Ok);
                AttemptStep::Use(i)
            },
        }
    }

    /// Records the outcome of a probe that `get_client` asked for.
    pub fn record_probe(&mut self, index: usize, ok: bool, now_ms: u64)
        requires
            old(self).wf(),
            index < old(self).health_checker.nodes@.len(),
        ensures
            final(self).wf(),
            final(self).health_checker.nodes@ == crate::health::probed(
                old(self).health_checker.nodes@,
                index as int,
                ok,
                now_ms,
            ),
            final(self).rate_limiter == old(self).rate_limiter,
            final(self).retry_config == old(self).retry_config,
    {
        self.health_checker.record_probe(index, ok, now_ms);
    }

    /// After an attempt through `endpoint` failed with `error`: a transport
    /// failure also counts against the endpoint's health; then the retry
    /// policy decides whether to try again.
    pub fn after_failure(&mut self, retry: &mut RetryState, endpoint: usize, error: &AppError) -> (r:
        RetryAction)
        requires
            old(self).wf(),
            endpoint < old(self).health_checker.nodes@.len(),
            old(retry).attempts < old(self).retry_config.max_attempts,
        ensures
            final(self).wf(),
            *error is ConnectionFailure ==> final(self).health_checker.nodes@ == old(
                self,
            ).health_checker.nodes@.update(
                endpoint as int,
                after_failure(old(self).health_checker.nodes@[endpoint as int]),
            ),
            !(*error is ConnectionFailure) ==> final(self).health_checker == old(self).health_checker,
            final(self).rate_limiter == old(self).rate_limiter,
            final(self).retry_config == old(self).retry_config,
            final(retry).attempts == old(retry).attempts + 1,
            r == decide(old(self).retry_config, final(retry).attempts as nat, transient(*error)),
    {
        match error {
            AppError::ConnectionFailure(_) => self.health_checker.mark_unhealthy(endpoint),
            _ => {},
        }
        retry.after_failure(&self.retry_config, error)
    }
}

} // verus!
